//! Per-device drain statistics, kept per noise control mode and merged batch
//! by batch with Welford's online mean and variance.
//!
//! Rates are in millionths of a percent per hour; variances in the square of
//! that unit. The record is stored elsewhere; this module is its arithmetic.

use vstd::prelude::*;
use crate::history::MAX_RATE;
use crate::protocol::NoiseControlMode;

verus! {

/// Largest variance kept (the square of `MAX_RATE`).
pub const MAX_VARIANCE: u128 = 1_000_000_000_000_000_000_000_000;

/// Running statistics of the drain rate in one mode.
#[derive(Debug, Clone, Copy, PartialEq, Eq, Structural)]
pub struct DrainRateStats {
    /// Mean rate.
    pub rate: u64,
    /// Variance of the rate.
    pub variance: u128,
    /// Samples merged so far.
    pub samples: u32,
    /// Unix time of the last merge.
    pub last_updated: u64,
}

pub open spec fn min_int(a: int, b: int) -> int {
    if a < b { a } else { b }
}

/// Statistics after merging a batch of `k` samples whose rate is `new_rate`
/// into `prev` (a batch with no prior record starts at its own rate). Inputs
/// are capped at `MAX_RATE` and `MAX_VARIANCE`; the mean and variance are
/// rounded down; the sample count saturates.
pub open spec fn welford(prev: Option<DrainRateStats>, new_rate: u64, k: u32, now: u64) -> DrainRateStats {
    let r = min_int(new_rate as int, MAX_RATE as int);
    let m = match prev {
        Some(s) => min_int(s.rate as int, MAX_RATE as int),
        None => r,
    };
    let v = match prev {
        Some(s) => min_int(s.variance as int, MAX_VARIANCE as int),
        None => 0,
    };
    let n = match prev {
        Some(s) => s.samples as int,
        None => 0,
    };
    let total = n + k;
    if total == 0 {
        DrainRateStats { rate: m as u64, variance: v as u128, samples: 0, last_updated: now }
    } else {
        let mean = (m * n + r * k) / total;
        let var = if n > 0 {
            min_int((v * n + (r - m) * (r - mean) * k) / total, MAX_VARIANCE as int)
        } else {
            v
        };
        DrainRateStats {
            rate: mean as u64,
            variance: var as u128,
            samples: min_int(total, u32::MAX as int) as u32,
            last_updated: now,
        }
    }
}

proof fn lemma_mean_between(m: int, r: int, n: int, k: int)
    requires
        0 <= m <= MAX_RATE,
        0 <= r <= MAX_RATE,
        0 <= n,
        0 <= k,
        n + k > 0,
    ensures
        0 <= (m * n + r * k) / (n + k) <= MAX_RATE,
        r >= m ==> m <= (m * n + r * k) / (n + k) <= r,
        r < m ==> r <= (m * n + r * k) / (n + k) <= m,
{
    let t = n + k;
    let s = m * n + r * k;
    assert(s >= 0) by (nonlinear_arith) requires m >= 0, n >= 0, r >= 0, k >= 0, s == m * n + r * k;
    assert(s <= MAX_RATE * t) by (nonlinear_arith)
        requires m <= MAX_RATE, r <= MAX_RATE, n >= 0, k >= 0, s == m * n + r * k, t == n + k;
    vstd::arithmetic::div_mod::lemma_div_is_ordered(s, MAX_RATE * t, t);
    vstd::arithmetic::div_mod::lemma_div_multiples_vanish(MAX_RATE as int, t);
    vstd::arithmetic::div_mod::lemma_div_pos_is_pos(s, t);
    if r >= m {
        assert(m * t <= s <= r * t) by (nonlinear_arith)
            requires m <= r, n >= 0, k >= 0, s == m * n + r * k, t == n + k;
        vstd::arithmetic::div_mod::lemma_div_is_ordered(s, r * t, t);
        vstd::arithmetic::div_mod::lemma_div_is_ordered(m * t, s, t);
        vstd::arithmetic::div_mod::lemma_div_multiples_vanish(r, t);
        vstd::arithmetic::div_mod::lemma_div_multiples_vanish(m, t);
    } else {
        assert(r * t <= s <= m * t) by (nonlinear_arith)
            requires r < m, n >= 0, k >= 0, s == m * n + r * k, t == n + k;
        vstd::arithmetic::div_mod::lemma_div_is_ordered(s, m * t, t);
        vstd::arithmetic::div_mod::lemma_div_is_ordered(r * t, s, t);
        vstd::arithmetic::div_mod::lemma_div_multiples_vanish(r, t);
        vstd::arithmetic::div_mod::lemma_div_multiples_vanish(m, t);
    }
}

/// Merges a batch into the statistics of one mode.
pub fn welford_update(prev: Option<DrainRateStats>, new_rate: u64, k: u32, now: u64) -> (r: DrainRateStats)
    ensures
        r == welford(prev, new_rate, k, now),
{
    let r: u64 = if new_rate < MAX_RATE { new_rate } else { MAX_RATE };
    let (m, v, n): (u64, u128, u32) = match prev {
        Some(s) => (
            if s.rate < MAX_RATE { s.rate } else { MAX_RATE },
            if s.variance < MAX_VARIANCE { s.variance } else { MAX_VARIANCE },
            s.samples,
        ),
        None => (r, 0, 0),
    };
    let total: u64 = n as u64 + k as u64;
    if total == 0 {
        return DrainRateStats { rate: m, variance: v, samples: 0, last_updated: now };
    }
    proof {
        lemma_mean_between(m as int, r as int, n as int, k as int);
    }
    assert(m as u128 * n as u128 <= 1_000_000_000_000u128 * 0xffff_ffffu128) by (nonlinear_arith)
        requires m <= 1_000_000_000_000u64, n <= 0xffff_ffffu32;
    assert(r as u128 * k as u128 <= 1_000_000_000_000u128 * 0xffff_ffffu128) by (nonlinear_arith)
        requires r <= 1_000_000_000_000u64, k <= 0xffff_ffffu32;
    let sum: u128 = m as u128 * n as u128 + r as u128 * k as u128;
    let mean: u64 = (sum / total as u128) as u64;
    let var: u128 = if n > 0 {
        let d1: u128 = if r >= m { (r - m) as u128 } else { (m - r) as u128 };
        let d2: u128 = if r >= mean { (r - mean) as u128 } else { (mean - r) as u128 };
        assert(d1 * d2 <= 1_000_000_000_000u128 * 1_000_000_000_000u128) by (nonlinear_arith)
            requires d1 <= 1_000_000_000_000u128, d2 <= 1_000_000_000_000u128;
        assert(d1 * d2 * k as u128 <= 1_000_000_000_000u128 * 1_000_000_000_000u128 * 0xffff_ffffu128) by (nonlinear_arith)
            requires d1 * d2 <= 1_000_000_000_000u128 * 1_000_000_000_000u128, k <= 0xffff_ffffu32;
        assert(v * n as u128 <= MAX_VARIANCE * 0xffff_ffffu128) by (nonlinear_arith)
            requires v <= MAX_VARIANCE, n <= 0xffff_ffffu32;
        assert((r - m) * (r - mean) == d1 * d2) by (nonlinear_arith)
            requires
                (r >= m && r >= mean && d1 == r - m && d2 == r - mean) || (r < m && r <= mean && d1 == m - r && d2
                    == mean - r) || (r >= m && r < mean && r == m && d1 == 0);
        let q: u128 = (v * n as u128 + d1 * d2 * k as u128) / total as u128;
        if q < MAX_VARIANCE { q } else { MAX_VARIANCE }
    } else {
        v
    };
    let samples: u32 = if total > u32::MAX as u64 { u32::MAX } else { total as u32 };
    DrainRateStats { rate: mean, variance: var, samples, last_updated: now }
}

/// Whether `c` is the integer square root of `q`.
pub open spec fn is_isqrt(c: int, q: int) -> bool {
    0 <= c && c * c <= q < (c + 1) * (c + 1)
}

/// The integer square root.
pub open spec fn isqrt(q: int) -> int {
    choose|c: int| is_isqrt(c, q)
}

proof fn lemma_isqrt_unique(c: int, d: int, q: int)
    requires
        is_isqrt(c, q),
        is_isqrt(d, q),
    ensures
        c == d,
{
    if c < d {
        assert((c + 1) * (c + 1) <= d * d) by (nonlinear_arith) requires 0 <= c, c + 1 <= d;
    } else if d < c {
        assert((d + 1) * (d + 1) <= c * c) by (nonlinear_arith) requires 0 <= d, d + 1 <= c;
    }
}

/// Integer square root of a 128-bit value.
pub fn integer_sqrt(q: u128) -> (r: u64)
    ensures
        is_isqrt(r as int, q as int),
        r == isqrt(q as int),
{
    let mut lo: u128 = 0;
    let mut hi: u128 = 0x1_0000_0000_0000_0000;
    assert(q < hi * hi) by (nonlinear_arith) requires hi == 0x1_0000_0000_0000_0000u128, q <= u128::MAX;
    while hi - lo > 1
        invariant
            lo < hi <= 0x1_0000_0000_0000_0000u128,
            lo * lo <= q,
            q < hi * hi,
        decreases hi - lo,
    {
        let mid: u128 = lo + (hi - lo) / 2;
        assert(mid * mid <= 0xffff_ffff_ffff_ffffu128 * 0xffff_ffff_ffff_ffffu128) by (nonlinear_arith)
            requires mid <= 0xffff_ffff_ffff_ffffu128;
        if mid * mid <= q {
            lo = mid;
        } else {
            hi = mid;
        }
    }
    assert(hi == lo + 1);
    proof {
        let c = isqrt(q as int);
        assert(is_isqrt(lo as int, q as int));
        lemma_isqrt_unique(c, lo as int, q as int);
    }
    lo as u64
}

/// 95% confidence half-width of a mean, `1.96 * sqrt(variance / samples)`
/// rounded down: the integer square root of `38416 * variance / (10000 *
/// samples)`; none (unbounded) with fewer than two samples.
pub open spec fn confidence_of(variance: u128, samples: u32) -> Option<u64> {
    if samples <= 1 {
        None
    } else {
        let v = min_int(variance as int, MAX_VARIANCE as int);
        Some(isqrt((38416 * v) / (10000 * samples)) as u64)
    }
}

pub fn confidence_95(variance: u128, samples: u32) -> (r: Option<u64>)
    ensures
        r == confidence_of(variance, samples),
{
    if samples <= 1 {
        return None;
    }
    let v: u128 = if variance < MAX_VARIANCE { variance } else { MAX_VARIANCE };
    let q: u128 = (38416 * v) / (10000 * samples as u128);
    Some(integer_sqrt(q))
}

/// Statistics of each noise control mode.
#[derive(Debug, Clone, Copy, PartialEq, Eq, Structural)]
pub struct DrainRates {
    pub off: Option<DrainRateStats>,
    pub nc: Option<DrainRateStats>,
    pub trans: Option<DrainRateStats>,
    pub adapt: Option<DrainRateStats>,
}

impl DrainRates {
    pub open spec fn at(self, mode: NoiseControlMode) -> Option<DrainRateStats> {
        match mode {
            NoiseControlMode::Off => self.off,
            NoiseControlMode::NC => self.nc,
            NoiseControlMode::Trans => self.trans,
            NoiseControlMode::Adapt => self.adapt,
        }
    }

    pub fn new() -> (r: DrainRates)
        ensures
            forall|m: NoiseControlMode| r.at(m) is None,
    {
        DrainRates { off: None, nc: None, trans: None, adapt: None }
    }

    pub fn get(&self, mode: NoiseControlMode) -> (r: Option<DrainRateStats>)
        ensures
            r == self.at(mode),
    {
        match mode {
            NoiseControlMode::Off => self.off,
            NoiseControlMode::NC => self.nc,
            NoiseControlMode::Trans => self.trans,
            NoiseControlMode::Adapt => self.adapt,
        }
    }

    pub fn set(&mut self, mode: NoiseControlMode, v: Option<DrainRateStats>)
        ensures
            final(self).at(mode) == v,
            forall|m: NoiseControlMode| m != mode ==> final(self).at(m) == old(self).at(m),
    {
        match mode {
            NoiseControlMode::Off => { self.off = v; },
            NoiseControlMode::NC => { self.nc = v; },
            NoiseControlMode::Trans => { self.trans = v; },
            NoiseControlMode::Adapt => { self.adapt = v; },
        }
    }

    /// Number of modes with statistics.
    pub fn len(&self) -> (r: usize)
        ensures
            r <= 4,
            r == (if self.off is Some { 1int } else { 0 }) + (if self.nc is Some { 1int } else { 0 }) + (if self.trans is Some {
                1int
            } else {
                0
            }) + (if self.adapt is Some { 1int } else { 0 }),
    {
        let mut n: usize = 0;
        if self.off.is_some() { n = n + 1; }
        if self.nc.is_some() { n = n + 1; }
        if self.trans.is_some() { n = n + 1; }
        if self.adapt.is_some() { n = n + 1; }
        n
    }
}

/// Durable drain study of one device.
#[derive(Debug, Clone)]
pub struct DeviceStudy {
    pub device_name: String,
    /// Unix time of the last change.
    pub last_updated: u64,
    pub total_sessions: u32,
    pub total_samples: u32,
    pub drain_rates: DrainRates,
}

impl DeviceStudy {
    /// Mean and confidence half-width of a mode's statistics.
    pub open spec fn stored_rate(self, mode: NoiseControlMode) -> Option<(u64, Option<u64>)> {
        match self.drain_rates.at(mode) {
            Some(s) => Some((s.rate, confidence_of(s.variance, s.samples))),
            None => None,
        }
    }

    /// An empty study.
    pub fn new(device_name: String, now: u64) -> (r: DeviceStudy)
        ensures
            r.device_name@ == device_name@,
            r.last_updated == now,
            r.total_sessions == 0,
            r.total_samples == 0,
            forall|m: NoiseControlMode| r.drain_rates.at(m) is None,
    {
        DeviceStudy { device_name, last_updated: now, total_sessions: 0, total_samples: 0, drain_rates: DrainRates::new() }
    }

    /// Merges a batch of `samples` samples at `new_rate` into the statistics
    /// of `mode`, and counts the samples on the record.
    pub fn update_drain_rate(&mut self, mode: NoiseControlMode, new_rate: u64, samples: u32, now: u64)
        ensures
            final(self).drain_rates.at(mode) == Some(welford(old(self).drain_rates.at(mode), new_rate, samples, now)),
            forall|m: NoiseControlMode| m != mode ==> final(self).drain_rates.at(m) == old(self).drain_rates.at(m),
            final(self).total_samples == min_int(old(self).total_samples + samples, u32::MAX as int),
            final(self).last_updated == now,
            final(self).total_sessions == old(self).total_sessions,
            final(self).device_name == old(self).device_name,
    {
        let stats = welford_update(self.drain_rates.get(mode), new_rate, samples, now);
        self.drain_rates.set(mode, Some(stats));
        self.total_samples = self.total_samples.saturating_add(samples);
        self.last_updated = now;
    }

    /// Mean drain rate of `mode` and its 95% confidence half-width (none
    /// when unbounded).
    pub fn drain_rate(&self, mode: NoiseControlMode) -> (r: Option<(u64, Option<u64>)>)
        ensures
            r == self.stored_rate(mode),
    {
        match self.drain_rates.get(mode) {
            Some(s) => Some((s.rate, confidence_95(s.variance, s.samples))),
            None => None,
        }
    }

    /// Counts one more session.
    pub fn increment_session(&mut self, now: u64)
        ensures
            final(self).total_sessions == min_int(old(self).total_sessions + 1, u32::MAX as int),
            final(self).last_updated == now,
            final(self).total_samples == old(self).total_samples,
            final(self).drain_rates == old(self).drain_rates,
            final(self).device_name == old(self).device_name,
    {
        self.total_sessions = self.total_sessions.saturating_add(1);
        self.last_updated = now;
    }
}

} // verus!
