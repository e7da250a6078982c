//! Per-device battery tracker: two bud histories, a cache of stored drain
//! rates, and the time-to-empty estimate that combines both.
//!
//! Weights and smoothing factors are in thousandths; rates in millionths of
//! a percent per hour; times in seconds since the process base instant.

use vstd::prelude::*;
use crate::history::{
    BatteryHistory, drain_estimate, record_drop, keep_last, MIN_SAMPLES_TO_SAVE, Sample,
};
use crate::protocol::{all_modes, BatteryInfo, BatteryState, BatteryStatus, NoiseControlMode};
use crate::study::DeviceStudy;

verus! {

/// Fewest recent samples for a local rate.
pub const MIN_LOCAL_SAMPLES: usize = 4;

/// Age in seconds beyond which samples do not count towards the local rate.
pub const LOCAL_WINDOW_SECS: u32 = 7200;

/// Seconds a stored rate stays cached.
pub const CACHE_SECS: u32 = 300;

/// Samples kept on each bud after a save.
pub const KEEP_COUNT: usize = 5;

/// Drain rate assumed when nothing better is known (16.9 % per hour).
pub const DEFAULT_DRAIN_RATE: u64 = 16_900_000;

/// Smoothing factor for a rate that rests mainly on local samples.
pub const LOCAL_ALPHA: u64 = 300;

/// Longest estimate accepted, in minutes.
pub const MAX_TTL_MINUTES: u64 = 1440;

/// A stored rate as it was read, with its confidence and the time of reading.
#[derive(Debug, Clone, Copy, PartialEq, Eq, Structural)]
pub struct CachedRate {
    pub rate: u64,
    pub confidence: Option<u64>,
    pub at: u32,
}

/// Cached stored rates per mode.
#[derive(Debug, Clone, Copy, PartialEq, Eq, Structural)]
pub struct RateCache {
    pub off: Option<CachedRate>,
    pub nc: Option<CachedRate>,
    pub trans: Option<CachedRate>,
    pub adapt: Option<CachedRate>,
}

impl RateCache {
    pub open spec fn at(self, mode: NoiseControlMode) -> Option<CachedRate> {
        match mode {
            NoiseControlMode::Off => self.off,
            NoiseControlMode::NC => self.nc,
            NoiseControlMode::Trans => self.trans,
            NoiseControlMode::Adapt => self.adapt,
        }
    }

    pub fn new() -> (r: RateCache)
        ensures
            forall|m: NoiseControlMode| r.at(m) is None,
    {
        RateCache { off: None, nc: None, trans: None, adapt: None }
    }

    pub fn get(&self, mode: NoiseControlMode) -> (r: Option<CachedRate>)
        ensures
            r == self.at(mode),
    {
        match mode {
            NoiseControlMode::Off => self.off,
            NoiseControlMode::NC => self.nc,
            NoiseControlMode::Trans => self.trans,
            NoiseControlMode::Adapt => self.adapt,
        }
    }

    pub fn set(&mut self, mode: NoiseControlMode, v: Option<CachedRate>)
        ensures
            final(self).at(mode) == v,
            forall|m: NoiseControlMode| m != mode ==> final(self).at(m) == old(self).at(m),
    {
        match mode {
            NoiseControlMode::Off => { self.off = v; },
            NoiseControlMode::NC => { self.nc = v; },
            NoiseControlMode::Trans => { self.trans = v; },
            NoiseControlMode::Adapt => { self.adapt = v; },
        }
    }

    pub fn is_empty(&self) -> (r: bool)
        ensures
            r == (forall|m: NoiseControlMode| self.at(m) is None),
    {
        let r = self.off.is_none() && self.nc.is_none() && self.trans.is_none() && self.adapt.is_none();
        assert(r ==> forall|m: NoiseControlMode| self.at(m) is None);
        assert(!r ==> !(forall|m: NoiseControlMode| self.at(m) is None)) by {
            if !r {
                if self.off is Some { assert(self.at(NoiseControlMode::Off) is Some); }
                else if self.nc is Some { assert(self.at(NoiseControlMode::NC) is Some); }
                else if self.trans is Some { assert(self.at(NoiseControlMode::Trans) is Some); }
                else { assert(self.at(NoiseControlMode::Adapt) is Some); }
            }
        }
        r
    }
}

/// History of one bud after a report: a disconnected bud is ignored, a
/// charging one loses its history, any other records a drop.
pub open spec fn bud_record(h: Seq<Sample>, st: BatteryState, now: u32) -> Seq<Sample> {
    if st.status == BatteryStatus::Disconnected {
        h
    } else if st.status == BatteryStatus::Charging {
        Seq::empty()
    } else {
        record_drop(h, now, st.level)
    }
}

/// Start of the window for the local rate.
pub open spec fn local_cutoff(now: u32) -> u32 {
    if now >= LOCAL_WINDOW_SECS { (now - LOCAL_WINDOW_SECS) as u32 } else { 0 }
}

/// Local rate, its smoothing factor and the sample count of the bud used:
/// the left bud if its recent history gives a rate, else the right.
pub open spec fn local_rate(left: Seq<Sample>, right: Seq<Sample>, now: u32) -> Option<(u64, u64, usize)> {
    match drain_estimate(left, MIN_LOCAL_SAMPLES as int, Some(local_cutoff(now))) {
        Some((r, a)) => Some((r, a, left.len() as usize)),
        None => match drain_estimate(right, MIN_LOCAL_SAMPLES as int, Some(local_cutoff(now))) {
            Some((r, a)) => Some((r, a, right.len() as usize)),
            None => None,
        },
    }
}

/// A cache entry younger than `CACHE_SECS`.
pub open spec fn fresh(c: Option<CachedRate>, now: u32) -> bool {
    c matches Some(e) && (if now >= e.at { now - e.at } else { 0 }) < CACHE_SECS
}

/// Stored rate of one mode: from a fresh cache entry, else from the study.
pub open spec fn lookup(cache: RateCache, study: Option<DeviceStudy>, mode: NoiseControlMode, now: u32) -> Option<(u64, Option<u64>)> {
    if fresh(cache.at(mode), now) {
        Some((cache.at(mode)->0.rate, cache.at(mode)->0.confidence))
    } else {
        match study {
            Some(s) => s.stored_rate(mode),
            None => None,
        }
    }
}

/// First stored rate found along `modes`.
pub open spec fn first_stored(cache: RateCache, study: Option<DeviceStudy>, modes: Seq<NoiseControlMode>, now: u32) -> Option<(u64, Option<u64>)>
    decreases modes.len(),
{
    if modes.len() == 0 {
        None
    } else {
        match lookup(cache, study, modes[0], now) {
            Some(x) => Some(x),
            None => first_stored(cache, study, modes.drop_first(), now),
        }
    }
}

/// Modes searched for a stored rate: the current one, then all in order.
pub open spec fn search_order(mode: Option<NoiseControlMode>) -> Seq<NoiseControlMode> {
    match mode {
        Some(m) => seq![m] + all_modes(),
        None => all_modes(),
    }
}

/// Weight of the local rate by its sample count.
pub open spec fn local_weight(count: int) -> int {
    if count < 4 { 0 } else if count <= 10 { 700 } else { 900 }
}

/// Local weight adjusted by the stored rate's confidence: towards the
/// stored rate when it is tight (under 1 %/h), towards the local rate when
/// it is loose (2 %/h or more, or unbounded).
pub open spec fn adjusted_weight(w: int, confidence: Option<u64>) -> int {
    match confidence {
        Some(c) => if c < 1_000_000 { w * 8 / 10 } else if c < 2_000_000 { w } else { w + (1000 - w) / 2 },
        None => w + (1000 - w) / 2,
    }
}

/// Combined rate and smoothing factor.
pub open spec fn combine(local: Option<(u64, u64)>, stored: Option<(u64, Option<u64>)>, count: int) -> Option<(u64, u64)> {
    match (local, stored) {
        (Some((l, _)), Some((h, c))) => {
            let w = adjusted_weight(local_weight(count), c);
            Some((((l * w + h * (1000 - w)) / 1000) as u64, if w > 500 { LOCAL_ALPHA } else { stored_alpha(c) }))
        },
        (Some((l, _)), None) => Some((l, LOCAL_ALPHA)),
        (None, Some((h, c))) => Some((h, stored_alpha(c))),
        (None, None) => None,
    }
}

/// Smoothing factor for a rate that rests mainly on stored data: 0.5 when
/// its confidence half-width is under 5 %/h, else 0.7.
pub open spec fn stored_alpha(c: Option<u64>) -> u64 {
    if c matches Some(x) && x < 5_000_000 { 500u64 } else { 700u64 }
}

/// Minutes until the lower bud is empty at `rate`.
pub open spec fn minutes_left(level: u8, rate: u64) -> int {
    60 * level * 1_000_000 / rate as int
}

/// New estimate smoothed against the previous one with factor `alpha`,
/// rounded to the nearest minute.
pub open spec fn smooth(prev: Option<u32>, minutes: int, alpha: u64) -> int {
    match prev {
        Some(p) => (minutes * alpha + p * (1000 - alpha) + 500) / 1000,
        None => minutes,
    }
}

/// Estimate from a combined rate, or none when it is zero or the result is
/// not between zero and a day (both exclusive).
pub open spec fn ttl_from(prev: Option<u32>, level: u8, combined: Option<(u64, u64)>) -> Option<u32> {
    match combined {
        None => None,
        Some((rate, alpha)) => if rate == 0 {
            None
        } else if 0 < minutes_left(level, rate) < MAX_TTL_MINUTES {
            Some(smooth(prev, minutes_left(level, rate), alpha) as u32)
        } else {
            None
        },
    }
}

pub open spec fn min_u8(a: u8, b: u8) -> u8 {
    if a < b { a } else { b }
}

/// Battery tracker of one device.
#[derive(Debug)]
pub struct BatteryTracker {
    pub left_history: BatteryHistory,
    pub right_history: BatteryHistory,
    pub last_ttl_estimate: Option<u32>,
    pub cache: RateCache,
}

proof fn lemma_weighted_mean_bound(a: int, b: int, w: int, m: int)
    requires
        0 <= a <= m,
        0 <= b <= m,
        0 <= w <= 1000,
    ensures
        0 <= (a * w + b * (1000 - w)) / 1000 <= m,
{
    assert(0 <= a * w + b * (1000 - w) <= m * 1000) by (nonlinear_arith)
        requires 0 <= a <= m, 0 <= b <= m, 0 <= w <= 1000;
    vstd::arithmetic::div_mod::lemma_div_is_ordered(a * w + b * (1000 - w), m * 1000, 1000);
    vstd::arithmetic::div_mod::lemma_div_multiples_vanish(m, 1000);
}

proof fn lemma_smooth_bound(n: int, p: int, alpha: int, m: int)
    requires
        0 <= n <= m,
        0 <= p <= m,
        0 <= alpha <= 1000,
    ensures
        0 <= (n * alpha + p * (1000 - alpha) + 500) / 1000 <= m,
{
    assert(0 <= n * alpha + p * (1000 - alpha) <= m * 1000) by (nonlinear_arith)
        requires 0 <= n <= m, 0 <= p <= m, 0 <= alpha <= 1000;
}

impl BatteryTracker {
    pub open spec fn wf(&self) -> bool {
        self.left_history.wf() && self.right_history.wf()
    }

    pub fn new() -> (r: BatteryTracker)
        ensures
            r.wf(),
            r.left_history@ == Seq::<Sample>::empty(),
            r.right_history@ == Seq::<Sample>::empty(),
            r.last_ttl_estimate is None,
            forall|m: NoiseControlMode| r.cache.at(m) is None,
    {
        BatteryTracker {
            left_history: BatteryHistory::new(),
            right_history: BatteryHistory::new(),
            last_ttl_estimate: None,
            cache: RateCache::new(),
        }
    }

    fn record_bud(history: &mut BatteryHistory, st: BatteryState, now: u32)
        requires
            old(history).wf(),
        ensures
            final(history).wf(),
            final(history)@ == bud_record(old(history)@, st, now),
    {
        if !st.is_available() {
            return;
        }
        if st.is_charging() {
            if !history.is_empty() {
                history.clear();
            } else {
                assert(history@ =~= Seq::<Sample>::empty());
            }
        } else {
            history.record_battery_drop(st.level, now);
        }
    }

    /// Records the levels of both buds at `now`: a bud that is disconnected
    /// is skipped, a charging bud's history is cleared, and otherwise a
    /// level below the last one is appended.
    pub fn record_battery_drop(&mut self, l: BatteryState, r: BatteryState, now: u32)
        requires
            old(self).wf(),
        ensures
            final(self).wf(),
            final(self).left_history@ == bud_record(old(self).left_history@, l, now),
            final(self).right_history@ == bud_record(old(self).right_history@, r, now),
            final(self).last_ttl_estimate == old(self).last_ttl_estimate,
            final(self).cache == old(self).cache,
    {
        Self::record_bud(&mut self.left_history, l, now);
        Self::record_bud(&mut self.right_history, r, now);
    }

    /// Local drain rate from the samples of the last two hours.
    pub fn calculate_local_drain_rate(&self, now: u32) -> (r: Option<(u64, u64, usize)>)
        requires
            self.wf(),
        ensures
            r == local_rate(self.left_history@, self.right_history@, now),
    {
        let cutoff: u32 = if now >= LOCAL_WINDOW_SECS { now - LOCAL_WINDOW_SECS } else { 0 };
        match self.left_history.calculate_drain_rate(MIN_LOCAL_SAMPLES, Some(cutoff)) {
            Some((rate, alpha)) => Some((rate, alpha, self.left_history.len())),
            None => match self.right_history.calculate_drain_rate(MIN_LOCAL_SAMPLES, Some(cutoff)) {
                Some((rate, alpha)) => Some((rate, alpha, self.right_history.len())),
                None => None,
            },
        }
    }

    /// Stored rate of `mode`, from the cache while fresh, else read from the
    /// study and cached.
    pub fn historical_rate_cached(&mut self, mode: NoiseControlMode, now: u32, study: Option<&DeviceStudy>) -> (r: Option<(u64, Option<u64>)>)
        ensures
            r == lookup(old(self).cache, match study { Some(s) => Some(*s), None => None }, mode, now),
            forall|m: NoiseControlMode| m != mode ==> final(self).cache.at(m) == old(self).cache.at(m),
            r is None ==> final(self).cache == old(self).cache,
            final(self).left_history == old(self).left_history,
            final(self).right_history == old(self).right_history,
            final(self).last_ttl_estimate == old(self).last_ttl_estimate,
    {
        match self.cache.get(mode) {
            Some(e) => {
                let age: u32 = if now >= e.at { now - e.at } else { 0 };
                if age < CACHE_SECS {
                    return Some((e.rate, e.confidence));
                }
            },
            None => {},
        }
        match study {
            Some(s) => match s.drain_rate(mode) {
                Some((rate, confidence)) => {
                    self.cache.set(mode, Some(CachedRate { rate, confidence, at: now }));
                    Some((rate, confidence))
                },
                None => None,
            },
            None => None,
        }
    }

    /// Combines the local and stored rates: both by a weighted mean (local
    /// weight 0, 0.7 or 0.9 by sample count, adjusted by the stored rate's
    /// confidence), else whichever exists; with the smoothing factor 0.3
    /// when the result rests mainly on local samples, else that of the
    /// stored rate.
    pub fn combine_drain_rates(local: Option<(u64, u64)>, stored: Option<(u64, Option<u64>)>, count: usize) -> (r: Option<(u64, u64)>)
        ensures
            r == combine(local, stored, count as int),
    {
        match (local, stored) {
            (Some((l, _)), Some((h, c))) => {
                let base: u128 = if count < 4 { 0 } else if count <= 10 { 700 } else { 900 };
                let w: u128 = match c {
                    Some(x) => if x < 1_000_000 { base * 8 / 10 } else if x < 2_000_000 { base } else { base + (1000 - base) / 2 },
                    None => base + (1000 - base) / 2,
                };
                let m: u128 = if l > h { l as u128 } else { h as u128 };
                proof {
                    lemma_weighted_mean_bound(l as int, h as int, w as int, m as int);
                }
                assert(l as u128 * w <= 0xffff_ffff_ffff_ffffu128 * 1000) by (nonlinear_arith)
                    requires l <= 0xffff_ffff_ffff_ffffu64, w <= 1000;
                assert(h as u128 * (1000 - w) <= 0xffff_ffff_ffff_ffffu128 * 1000) by (nonlinear_arith)
                    requires h <= 0xffff_ffff_ffff_ffffu64, w <= 1000;
                let rate = (l as u128 * w + h as u128 * (1000 - w)) / 1000;
                let alpha: u64 = if w > 500 {
                    LOCAL_ALPHA
                } else {
                    match c {
                        Some(x) => if x < 5_000_000 { 500 } else { 700 },
                        None => 700,
                    }
                };
                Some((rate as u64, alpha))
            },
            (Some((l, _)), None) => Some((l, LOCAL_ALPHA)),
            (None, Some((h, c))) => {
                let alpha: u64 = match c {
                    Some(x) => if x < 5_000_000 { 500 } else { 700 },
                    None => 700,
                };
                Some((h, alpha))
            },
            (None, None) => None,
        }
    }

    /// Stored rate for the estimate: the current mode first, then every mode
    /// in order.
    fn stored_rate(&mut self, noise_mode: Option<NoiseControlMode>, now: u32, study: Option<&DeviceStudy>) -> (r: Option<(u64, Option<u64>)>)
        ensures
            r == first_stored(old(self).cache, match study { Some(s) => Some(*s), None => None }, search_order(noise_mode), now),
            final(self).left_history == old(self).left_history,
            final(self).right_history == old(self).right_history,
            final(self).last_ttl_estimate == old(self).last_ttl_estimate,
    {
        let ghost st = match study { Some(s) => Some(*s), None => None };
        let ghost c0 = self.cache;
        let mut modes: Vec<NoiseControlMode> = Vec::new();
        match noise_mode {
            Some(m) => { modes.push(m); },
            None => {},
        }
        let all = NoiseControlMode::all();
        let mut j: usize = 0;
        while j < all.len()
            invariant
                j <= all@.len(),
                all@ == all_modes(),
                modes@ == (match noise_mode { Some(m) => seq![m], None => Seq::empty() }) + all@.subrange(0, j as int),
            decreases all@.len() - j,
        {
            modes.push(all[j]);
            assert(all@.subrange(0, j as int + 1) =~= all@.subrange(0, j as int).push(all@[j as int]));
            j = j + 1;
        }
        assert(all@.subrange(0, all@.len() as int) =~= all@);
        assert(modes@ =~= search_order(noise_mode));
        assert(modes@.subrange(0, modes@.len() as int) =~= modes@);
        let mut i: usize = 0;
        while i < modes.len()
            invariant
                i <= modes@.len(),
                modes@ == search_order(noise_mode),
                first_stored(c0, st, modes@, now) == first_stored(c0, st, modes@.subrange(i as int, modes@.len() as int), now),
                self.cache == c0,
                st == (match study { Some(s) => Some(*s), None => None }),
                c0 == old(self).cache,
                self.left_history == old(self).left_history,
                self.right_history == old(self).right_history,
                self.last_ttl_estimate == old(self).last_ttl_estimate,
            decreases modes@.len() - i,
        {
            let mode = modes[i];
            let rest = Ghost(modes@.subrange(i as int, modes@.len() as int));
            assert(rest@[0] == mode);
            assert(rest@.drop_first() =~= modes@.subrange(i as int + 1, modes@.len() as int));
            match self.historical_rate_cached(mode, now, study) {
                Some(x) => {
                    assert(first_stored(c0, st, rest@, now) == Some(x));
                    return Some(x);
                },
                None => {
                    assert(first_stored(c0, st, rest@, now) == first_stored(c0, st, rest@.drop_first(), now));
                },
            }
            i = i + 1;
        }
        None
    }

    /// Estimated minutes until the lower bud is empty, smoothed against the
    /// previous estimate; none, and the cached estimate cleared, while a bud
    /// is charging or disconnected or when no usable rate is known.
    pub fn estimate_ttl(&mut self, battery: &BatteryInfo, noise_mode: Option<NoiseControlMode>, now: u32, study: Option<&DeviceStudy>) -> (r: Option<u32>)
        requires
            old(self).wf(),
        ensures
            final(self).wf(),
            final(self).last_ttl_estimate == r,
            final(self).left_history == old(self).left_history,
            final(self).right_history == old(self).right_history,
            battery.left.status == BatteryStatus::Charging || battery.right.status == BatteryStatus::Charging
                || battery.left.status == BatteryStatus::Disconnected || battery.right.status
                == BatteryStatus::Disconnected ==> r is None && final(self).cache == old(self).cache,
            !(battery.left.status == BatteryStatus::Charging || battery.right.status == BatteryStatus::Charging
                || battery.left.status == BatteryStatus::Disconnected || battery.right.status
                == BatteryStatus::Disconnected) ==> r == ttl_from(
                old(self).last_ttl_estimate,
                min_u8(battery.left.level, battery.right.level),
                combine(
                    match local_rate(old(self).left_history@, old(self).right_history@, now) {
                        Some((rt, a, _)) => Some((rt, a)),
                        None => None,
                    },
                    first_stored(old(self).cache, match study { Some(s) => Some(*s), None => None }, search_order(noise_mode), now),
                    match local_rate(old(self).left_history@, old(self).right_history@, now) {
                        Some((_, _, n)) => n as int,
                        None => 0,
                    },
                ),
            ),
    {
        let prev = self.last_ttl_estimate;
        let left = battery.left;
        let right = battery.right;
        if left.is_charging() || right.is_charging() || !left.is_available() || !right.is_available() {
            self.last_ttl_estimate = None;
            return None;
        }
        let (local, count): (Option<(u64, u64)>, usize) = match self.calculate_local_drain_rate(now) {
            Some((rate, alpha, n)) => (Some((rate, alpha)), n),
            None => (None, 0),
        };
        let stored = self.stored_rate(noise_mode, now, study);
        let (rate, alpha) = match Self::combine_drain_rates(local, stored, count) {
            Some(x) => x,
            None => {
                self.last_ttl_estimate = None;
                return None;
            },
        };
        if rate == 0 {
            self.last_ttl_estimate = None;
            return None;
        }
        let level: u8 = if left.level < right.level { left.level } else { right.level };
        let minutes: u64 = 60 * (level as u64) * 1_000_000 / rate;
        if minutes > 0 && minutes < MAX_TTL_MINUTES {
            let smoothed: u32 = match prev {
                Some(p) => {
                    assert(alpha <= 1000) by {
                        assert(combine(local, stored, count as int) == Some((rate, alpha)));
                    }
                    let mx: u64 = if minutes > p as u64 { minutes } else { p as u64 };
                    proof {
                        lemma_smooth_bound(minutes as int, p as int, alpha as int, mx as int);
                    }
                    assert(minutes * alpha <= 1440 * 1000) by (nonlinear_arith)
                        requires minutes < 1440, alpha <= 1000;
                    assert(p as u64 * (1000 - alpha) <= 0xffff_ffffu64 * 1000) by (nonlinear_arith)
                        requires p <= 0xffff_ffffu32, alpha <= 1000;
                    ((minutes * alpha + p as u64 * (1000 - alpha) + 500) / 1000) as u32
                },
                None => minutes as u32,
            };
            self.last_ttl_estimate = Some(smoothed);
            Some(smoothed)
        } else {
            self.last_ttl_estimate = None;
            None
        }
    }
}


/// Whether a periodic save is due: some bud holds at least
/// `MIN_SAMPLES_TO_SAVE` samples, neither bud is charging, and the oldest
/// sample is at least `interval_minutes` old.
pub open spec fn save_due(left: Seq<Sample>, right: Seq<Sample>, interval_minutes: u32, battery: BatteryInfo, now: u32) -> bool {
    let oldest: Option<u32> = if left.len() > 0 && right.len() > 0 {
        Some(if left[0].0 < right[0].0 { left[0].0 } else { right[0].0 })
    } else if left.len() > 0 {
        Some(left[0].0)
    } else if right.len() > 0 {
        Some(right[0].0)
    } else {
        None
    };
    &&& (left.len() >= MIN_SAMPLES_TO_SAVE || right.len() >= MIN_SAMPLES_TO_SAVE)
    &&& battery.left.status != BatteryStatus::Charging
    &&& battery.right.status != BatteryStatus::Charging
    &&& oldest matches Some(t) && (if now >= t { now - t } else { 0 }) >= interval_minutes * 60
}

impl BatteryTracker {
    pub fn should_save(&self, interval_minutes: u32, battery: &BatteryInfo, now: u32) -> (r: bool)
        ensures
            r == save_due(self.left_history@, self.right_history@, interval_minutes, *battery, now),
    {
        let nl = self.left_history.len();
        let nr = self.right_history.len();
        let count = if nl > nr { nl } else { nr };
        if count < MIN_SAMPLES_TO_SAVE {
            return false;
        }
        if battery.left.is_charging() || battery.right.is_charging() {
            return false;
        }
        let oldest: u32 = match (self.left_history.oldest_timestamp(), self.right_history.oldest_timestamp()) {
            (Some(l), Some(r)) => if l < r { l } else { r },
            (Some(t), None) => t,
            (None, Some(t)) => t,
            (None, None) => {
                return false;
            },
        };
        let elapsed: u64 = if now >= oldest { (now - oldest) as u64 } else { 0 };
        elapsed >= interval_minutes as u64 * 60
    }

    /// Keeps the `KEEP_COUNT` most recent samples of each bud.
    pub fn trim_history(&mut self)
        requires
            old(self).wf(),
        ensures
            final(self).wf(),
            final(self).left_history@ == keep_last(old(self).left_history@, KEEP_COUNT as nat),
            final(self).right_history@ == keep_last(old(self).right_history@, KEEP_COUNT as nat),
            final(self).cache == old(self).cache,
            final(self).last_ttl_estimate == old(self).last_ttl_estimate,
    {
        self.left_history.truncate_front(KEEP_COUNT);
        self.right_history.truncate_front(KEEP_COUNT);
    }

    /// Ends a save period: returns the batch to merge into the stored
    /// statistics of `noise_mode` (the local rate and its bud's sample
    /// count) when a local rate from at least `MIN_LOCAL_SAMPLES` samples
    /// exists, dropping that mode's cached rate; then trims both histories.
    pub fn save_to_study(&mut self, noise_mode: NoiseControlMode, now: u32) -> (r: Option<(u64, u32)>)
        requires
            old(self).wf(),
        ensures
            final(self).wf(),
            r == (match local_rate(old(self).left_history@, old(self).right_history@, now) {
                Some((rate, _, n)) => if n >= MIN_LOCAL_SAMPLES { Some((rate, n as u32)) } else { None },
                None => None,
            }),
            r is Some ==> final(self).cache.at(noise_mode) is None,
            forall|m: NoiseControlMode| m != noise_mode || r is None ==> final(self).cache.at(m) == old(self).cache.at(m),
            final(self).left_history@ == keep_last(old(self).left_history@, KEEP_COUNT as nat),
            final(self).right_history@ == keep_last(old(self).right_history@, KEEP_COUNT as nat),
            final(self).last_ttl_estimate == old(self).last_ttl_estimate,
    {
        let batch = match self.calculate_local_drain_rate(now) {
            Some((rate, _alpha, n)) => if n >= MIN_LOCAL_SAMPLES {
                Some((rate, n as u32))
            } else {
                None
            },
            None => None,
        };
        if batch.is_some() {
            self.cache.set(noise_mode, None);
        }
        self.trim_history();
        batch
    }
}

} // verus!
