//! Bounded battery history of one bud, and the least-squares drain rate
//! computed from it.
//!
//! Timestamps are whole seconds since a process-wide base instant. Rates are
//! in millionths of a percent per hour.

use vstd::prelude::*;

verus! {

/// Capacity of a history.
pub const BATTERY_HISTORY_SIZE: usize = 32;

/// Fewest samples on a bud before a periodic save is considered.
pub const MIN_SAMPLES_TO_SAVE: usize = 3;

/// Millionths of a percent per hour in one percent per second.
pub const RATE_SCALE: u128 = 3_600_000_000;

/// Largest drain rate reported (one million percent per hour).
pub const MAX_RATE: u64 = 1_000_000_000_000;

/// One sample: (seconds since base, level in percent).
pub type Sample = (u32, u8);

/// Whole seconds since the process base instant.
#[derive(Debug, Clone, Copy, PartialEq, Eq, Structural)]
pub struct SecondsSinceInit {
    pub secs: u32,
}

impl SecondsSinceInit {
    pub fn new(secs: u32) -> (r: SecondsSinceInit)
        ensures
            r.secs == secs,
    {
        SecondsSinceInit { secs }
    }

    /// Seconds from `rhs` to `self`, zero if `rhs` is later.
    pub fn seconds_since(self, rhs: SecondsSinceInit) -> (r: u32)
        ensures
            r == (if self.secs >= rhs.secs { self.secs - rhs.secs } else { 0 }),
    {
        self.secs.saturating_sub(rhs.secs)
    }
}

/// The last `n` elements of `s` (all of `s` when shorter).
pub open spec fn keep_last(s: Seq<Sample>, n: nat) -> Seq<Sample> {
    if s.len() > n {
        s.subrange(s.len() - n, s.len() as int)
    } else {
        s
    }
}

/// Samples after recording `level` at `t`: a level that is not below the
/// last stored one is dropped.
pub open spec fn record_drop(s: Seq<Sample>, t: u32, level: u8) -> Seq<Sample> {
    if s.len() > 0 && level >= s.last().1 {
        s
    } else {
        keep_last(s.push((t, level)), BATTERY_HISTORY_SIZE as nat)
    }
}

/// Samples taken at or after `cutoff`, in order.
pub open spec fn since(s: Seq<Sample>, cutoff: u32) -> Seq<Sample>
    decreases s.len(),
{
    if s.len() == 0 {
        s
    } else {
        let r = since(s.drop_last(), cutoff);
        if s.last().0 >= cutoff {
            r.push(s.last())
        } else {
            r
        }
    }
}

/// Seconds of sample `i` after the first sample (zero if earlier).
pub open spec fn offset(s: Seq<Sample>, i: int) -> int {
    if s[i].0 >= s[0].0 {
        s[i].0 - s[0].0
    } else {
        0
    }
}

pub open spec fn sum_x(s: Seq<Sample>, k: int) -> int
    decreases k,
{
    if k <= 0 {
        0
    } else {
        sum_x(s, k - 1) + offset(s, k - 1)
    }
}

pub open spec fn sum_y(s: Seq<Sample>, k: int) -> int
    decreases k,
{
    if k <= 0 {
        0
    } else {
        sum_y(s, k - 1) + s[k - 1].1
    }
}

pub open spec fn sum_xy(s: Seq<Sample>, k: int) -> int
    decreases k,
{
    if k <= 0 {
        0
    } else {
        sum_xy(s, k - 1) + offset(s, k - 1) * s[k - 1].1
    }
}

pub open spec fn sum_xx(s: Seq<Sample>, k: int) -> int
    decreases k,
{
    if k <= 0 {
        0
    } else {
        sum_xx(s, k - 1) + offset(s, k - 1) * offset(s, k - 1)
    }
}

/// Negated numerator of the least-squares slope (positive when draining).
pub open spec fn drain_numerator(s: Seq<Sample>) -> int {
    let n = s.len() as int;
    sum_x(s, n) * sum_y(s, n) - n * sum_xy(s, n)
}

/// Denominator of the least-squares slope.
pub open spec fn slope_denominator(s: Seq<Sample>) -> int {
    let n = s.len() as int;
    n * sum_xx(s, n) - sum_x(s, n) * sum_x(s, n)
}

/// Drain rate of a series: the negated least-squares slope of level against
/// time, in millionths of a percent per hour, rounded down and capped at
/// `MAX_RATE`; none with fewer than two samples, with all samples at one
/// time, or when the level does not fall.
pub open spec fn drain_rate_of(s: Seq<Sample>) -> Option<u64> {
    if s.len() < 2 || slope_denominator(s) <= 0 || drain_numerator(s) <= 0 {
        None
    } else {
        let q = RATE_SCALE * drain_numerator(s) / slope_denominator(s);
        Some(if q > MAX_RATE { MAX_RATE } else { q as u64 })
    }
}

proof fn lemma_sum_bounds(s: Seq<Sample>, k: int)
    requires
        0 <= k <= s.len(),
    ensures
        0 <= sum_x(s, k) <= k * 0xffff_ffff,
        0 <= sum_y(s, k) <= k * 255,
        0 <= sum_xy(s, k) <= k * (0xffff_ffff * 255),
        0 <= sum_xx(s, k) <= k * (0xffff_ffff * 0xffff_ffff),
    decreases k,
{
    if k > 0 {
        lemma_sum_bounds(s, k - 1);
        let o = offset(s, k - 1);
        let y = s[k - 1].1 as int;
        assert(0 <= o <= 0xffff_ffff);
        assert(0 <= o * y <= 0xffff_ffff * 255) by (nonlinear_arith)
            requires 0 <= o <= 0xffff_ffff, 0 <= y <= 255;
        assert(0 <= o * o <= 0xffff_ffff * 0xffff_ffff) by (nonlinear_arith)
            requires 0 <= o <= 0xffff_ffff;
        assert(k * (0xffff_ffff * 255) == (k - 1) * (0xffff_ffff * 255) + 0xffff_ffff * 255) by (nonlinear_arith);
        assert(k * (0xffff_ffff * 0xffff_ffff) == (k - 1) * (0xffff_ffff * 0xffff_ffff) + 0xffff_ffff * 0xffff_ffff) by (nonlinear_arith);
    }
}

/// Least-squares drain rate of a series of at most a history's worth of
/// samples.
pub fn calculate_slope(samples: &[Sample]) -> (r: Option<u64>)
    requires
        samples@.len() <= BATTERY_HISTORY_SIZE,
    ensures
        r == drain_rate_of(samples@),
{
    let len = samples.len();
    if len < 2 {
        return None;
    }
    let s = Ghost(samples@);
    let t0 = samples[0].0;
    let mut sx: u128 = 0;
    let mut sy: u128 = 0;
    let mut sxy: u128 = 0;
    let mut sxx: u128 = 0;
    let mut i: usize = 0;
    while i < len
        invariant
            len == s@.len(),
            s@ == samples@,
            2 <= len <= 32,
            t0 == s@[0].0,
            i <= len,
            sx == sum_x(s@, i as int),
            sy == sum_y(s@, i as int),
            sxy == sum_xy(s@, i as int),
            sxx == sum_xx(s@, i as int),
        decreases len - i,
    {
        proof {
            lemma_sum_bounds(s@, i as int);
        }
        let (t, level) = samples[i];
        let x: u128 = if t >= t0 { (t - t0) as u128 } else { 0 };
        let y: u128 = level as u128;
        assert(x * y <= 0xffff_ffff * 255) by (nonlinear_arith)
            requires x <= 0xffff_ffff, y <= 255;
        assert(x * x <= 0xffff_ffff * 0xffff_ffff) by (nonlinear_arith)
            requires x <= 0xffff_ffff;
        assert(i * (0xffff_ffff * 0xffff_ffffu128) <= 32 * (0xffff_ffff * 0xffff_ffffu128)) by (nonlinear_arith)
            requires i <= 32;
        assert(i * (0xffff_ffff * 255u128) <= 32 * (0xffff_ffff * 255u128)) by (nonlinear_arith)
            requires i <= 32;
        sx = sx + x;
        sy = sy + y;
        sxy = sxy + x * y;
        sxx = sxx + x * x;
        i = i + 1;
    }
    proof {
        lemma_sum_bounds(s@, len as int);
    }
    let n = len as u128;
    assert(sx * sx <= (32 * 0xffff_ffffu128) * (32 * 0xffff_ffffu128)) by (nonlinear_arith)
        requires sx <= len * 0xffff_ffff, len <= 32;
    assert(n * sxx <= 32 * (32 * (0xffff_ffff * 0xffff_ffffu128))) by (nonlinear_arith)
        requires sxx <= len * (0xffff_ffff * 0xffff_ffffu128), n == len, len <= 32;
    assert(sx * sy <= (32 * 0xffff_ffffu128) * (32 * 255u128)) by (nonlinear_arith)
        requires sx <= len * 0xffff_ffff, sy <= len * 255, len <= 32;
    assert(n * sxy <= 32 * (32 * (0xffff_ffff * 255u128))) by (nonlinear_arith)
        requires sxy <= len * (0xffff_ffff * 255u128), n == len, len <= 32;
    let a = n * sxx;
    let b = sx * sx;
    if a <= b {
        return None;
    }
    let den = a - b;
    let p = sx * sy;
    let q = n * sxy;
    if p <= q {
        return None;
    }
    let num = p - q;
    assert(RATE_SCALE * num <= RATE_SCALE * ((32 * 0xffff_ffffu128) * (32 * 255u128))) by (nonlinear_arith)
        requires num <= (32 * 0xffff_ffffu128) * (32 * 255u128);
    let rate = RATE_SCALE * num / den;
    if rate > MAX_RATE as u128 {
        Some(MAX_RATE)
    } else {
        Some(rate as u64)
    }
}


/// Fixed-capacity history of (time, level) samples, oldest first.
#[derive(Debug)]
pub struct BatteryHistory {
    samples: Vec<Sample>,
}

impl View for BatteryHistory {
    type V = Seq<Sample>;

    closed spec fn view(&self) -> Seq<Sample> {
        self.samples@
    }
}

impl BatteryHistory {
    /// Holds at most `BATTERY_HISTORY_SIZE` samples.
    pub open spec fn wf(&self) -> bool {
        self@.len() <= BATTERY_HISTORY_SIZE
    }

    pub fn new() -> (r: BatteryHistory)
        ensures
            r@ == Seq::<Sample>::empty(),
            r.wf(),
    {
        BatteryHistory { samples: Vec::new() }
    }

    /// Appends a sample, dropping the oldest one when full.
    pub fn push(&mut self, timestamp: u32, level: u8)
        requires
            old(self).wf(),
        ensures
            final(self)@ == keep_last(old(self)@.push((timestamp, level)), BATTERY_HISTORY_SIZE as nat),
            final(self).wf(),
            final(self)@.last() == (timestamp, level),
    {
        let ghost s = self.samples@;
        if self.samples.len() >= BATTERY_HISTORY_SIZE {
            self.samples.remove(0);
        }
        self.samples.push((timestamp, level));
        assert(self.samples@ =~= keep_last(s.push((timestamp, level)), BATTERY_HISTORY_SIZE as nat));
    }

    /// The samples, oldest first.
    pub fn iter(&self) -> (r: Vec<Sample>)
        ensures
            r@ == self@,
    {
        copy_samples(&self.samples)
    }

    pub fn len(&self) -> (r: usize)
        ensures
            r == self@.len(),
    {
        self.samples.len()
    }

    pub fn is_empty(&self) -> (r: bool)
        ensures
            r == (self@.len() == 0),
    {
        self.samples.len() == 0
    }

    pub fn clear(&mut self)
        ensures
            final(self)@ == Seq::<Sample>::empty(),
            final(self).wf(),
    {
        self.samples.clear();
    }

    /// Level of the most recent sample.
    pub fn last_level(&self) -> (r: Option<u8>)
        ensures
            r == (if self@.len() == 0 { None } else { Some(self@.last().1) }),
    {
        let n = self.samples.len();
        if n == 0 {
            None
        } else {
            Some(self.samples[n - 1].1)
        }
    }

    /// Time of the oldest sample.
    pub fn oldest_timestamp(&self) -> (r: Option<u32>)
        ensures
            r == (if self@.len() == 0 { None } else { Some(self@[0].0) }),
    {
        if self.samples.len() == 0 {
            None
        } else {
            Some(self.samples[0].0)
        }
    }

    /// Records `level` at `timestamp` unless it is not below the last level.
    pub fn record_battery_drop(&mut self, level: u8, timestamp: u32)
        requires
            old(self).wf(),
        ensures
            final(self)@ == record_drop(old(self)@, timestamp, level),
            final(self).wf(),
            old(self)@.len() > 0 && level >= old(self)@.last().1 ==> final(self)@ == old(self)@,
            !(old(self)@.len() > 0 && level >= old(self)@.last().1) ==> final(self)@.last() == (timestamp, level),
    {
        match self.last_level() {
            Some(last) => {
                if level >= last {
                    return;
                }
            },
            None => {},
        }
        self.push(timestamp, level);
    }

    /// Keeps only the `keep` most recent samples.
    pub fn truncate_front(&mut self, keep: usize)
        requires
            old(self).wf(),
        ensures
            final(self)@ == keep_last(old(self)@, keep as nat),
            final(self).wf(),
    {
        let ghost s = self.samples@;
        let n = self.samples.len();
        if n > keep {
            let mut kept: Vec<Sample> = Vec::new();
            let start: usize = n - keep;
            let mut i: usize = start;
            while i < n
                invariant
                    n == self.samples@.len(),
                    n == s.len(),
                    start <= i <= n,
                    self.samples@ == s,
                    kept@ == s.subrange(start as int, i as int),
                decreases n - i,
            {
                kept.push(self.samples[i]);
                assert(s.subrange(start as int, i as int + 1) =~= s.subrange(start as int, i as int).push(s[i as int]));
                i = i + 1;
            }
            self.samples = kept;
        }
    }

    /// Drain rate over the samples taken at or after `cutoff` (all samples
    /// without one), with the smoothing weight that suits their number in
    /// thousandths: none unless both the history and the kept samples hold
    /// at least `min_samples`.
    pub fn calculate_drain_rate(&self, min_samples: usize, cutoff: Option<u32>) -> (r: Option<(u64, u64)>)
        requires
            self.wf(),
        ensures
            r == drain_estimate(self@, min_samples as int, cutoff),
    {
        if self.samples.len() < min_samples {
            return None;
        }
        let kept = recent_samples(&self.samples, cutoff);
        let window = scratch_slice(&kept);
        proof {
            if cutoff is None {
                lemma_since_all(self@);
            }
            lemma_since_len(self@, match cutoff { Some(c) => c, None => 0 });
        }
        if window.len() < min_samples {
            return None;
        }
        match calculate_slope(window) {
            Some(rate) => {
                let alpha: u64 = if window.len() >= 10 { 300 } else { 100 };
                Some((rate, alpha))
            },
            None => None,
        }
    }
}

/// A copy of the samples.
fn copy_samples(samples: &Vec<Sample>) -> (r: Vec<Sample>)
    ensures
        r@ == samples@,
{
    let mut r: Vec<Sample> = Vec::new();
    let mut i: usize = 0;
    while i < samples.len()
        invariant
            i <= samples@.len(),
            r@ == samples@.subrange(0, i as int),
        decreases samples@.len() - i,
    {
        r.push(samples[i]);
        assert(samples@.subrange(0, i as int + 1) =~= samples@.subrange(0, i as int).push(samples@[i as int]));
        i = i + 1;
    }
    assert(samples@.subrange(0, samples@.len() as int) =~= samples@);
    r
}

proof fn lemma_since_len(s: Seq<Sample>, c: u32)
    ensures
        since(s, c).len() <= s.len(),
    decreases s.len(),
{
    if s.len() > 0 {
        lemma_since_len(s.drop_last(), c);
    }
}

#[verifier::external_type_specification]
#[verifier::external_body]
#[verifier::reject_recursive_types(T)]
pub struct ExHeaplessVec<T, const N: usize>(heapless::Vec<T, N>);

/// What a scratch buffer of samples holds, in order.
pub uninterp spec fn scratch_items(v: heapless::Vec<Sample, 32>) -> Seq<Sample>;

/// Relies on `heapless::Vec::new`: an empty buffer.
#[verifier::external_body]
fn scratch_new() -> (r: heapless::Vec<Sample, 32>)
    ensures
        scratch_items(r) == Seq::<Sample>::empty(),
{
    heapless::Vec::new()
}

/// Relies on `heapless::Vec::push`: appends while below capacity, else
/// leaves the buffer as it was.
#[verifier::external_body]
fn scratch_push(v: &mut heapless::Vec<Sample, 32>, x: Sample) -> (r: bool)
    ensures
        r == (scratch_items(*old(v)).len() < 32),
        r ==> scratch_items(*final(v)) == scratch_items(*old(v)).push(x),
        !r ==> scratch_items(*final(v)) == scratch_items(*old(v)),
{
    v.push(x).is_ok()
}

/// Relies on `heapless::Vec::as_slice`: the items in order.
#[verifier::external_body]
fn scratch_slice(v: &heapless::Vec<Sample, 32>) -> (r: &[Sample])
    ensures
        r@ == scratch_items(*v),
{
    v.as_slice()
}

proof fn lemma_since_all(s: Seq<Sample>)
    ensures
        since(s, 0) == s,
    decreases s.len(),
{
    if s.len() > 0 {
        lemma_since_all(s.drop_last());
        assert(s.drop_last().push(s.last()) =~= s);
    }
}

/// The samples taken at or after `cutoff` (all of them without one),
/// collected into a scratch buffer of a history's capacity.
pub fn recent_samples(samples: &Vec<Sample>, cutoff: Option<u32>) -> (r: heapless::Vec<Sample, 32>)
    requires
        samples@.len() <= BATTERY_HISTORY_SIZE,
    ensures
        scratch_items(r) == since(samples@, match cutoff { Some(c) => c, None => 0 }),
{
    let c: u32 = match cutoff {
        Some(c) => c,
        None => 0,
    };
    let mut r = scratch_new();
    let mut i: usize = 0;
    while i < samples.len()
        invariant
            samples@.len() <= BATTERY_HISTORY_SIZE,
            i <= samples@.len(),
            scratch_items(r) == since(samples@.subrange(0, i as int), c),
        decreases samples@.len() - i,
    {
        assert(samples@.subrange(0, i as int + 1).drop_last() =~= samples@.subrange(0, i as int));
        if samples[i].0 >= c {
            proof {
                lemma_since_len(samples@.subrange(0, i as int), c);
            }
            let pushed = scratch_push(&mut r, samples[i]);
            assert(pushed);
        }
        i = i + 1;
    }
    assert(samples@.subrange(0, samples@.len() as int) =~= samples@);
    r
}

/// Rate and smoothing weight of a history, as `calculate_drain_rate` gives.
pub open spec fn drain_estimate(s: Seq<Sample>, min_samples: int, cutoff: Option<u32>) -> Option<(u64, u64)> {
    let kept = match cutoff {
        Some(c) => since(s, c),
        None => s,
    };
    if s.len() < min_samples || kept.len() < min_samples {
        None
    } else {
        match drain_rate_of(kept) {
            Some(rate) => Some((rate, if kept.len() >= 10 { 300u64 } else { 100u64 })),
            None => None,
        }
    }
}


/// Sum over the first `k` samples of `(x - x_i) * (y - y_i)`.
pub open spec fn cross(s: Seq<Sample>, k: int, x: int, y: int) -> int
    decreases k,
{
    if k <= 0 {
        0
    } else {
        cross(s, k - 1, x, y) + (x - offset(s, k - 1)) * (y - s[k - 1].1)
    }
}

proof fn lemma_cross_expand(s: Seq<Sample>, k: int, x: int, y: int)
    requires
        0 <= k <= s.len(),
    ensures
        cross(s, k, x, y) == k * x * y - x * sum_y(s, k) - y * sum_x(s, k) + sum_xy(s, k),
    decreases k,
{
    if k > 0 {
        lemma_cross_expand(s, k - 1, x, y);
        let o = offset(s, k - 1);
        let v = s[k - 1].1 as int;
        let c = cross(s, k - 1, x, y);
        let sy = sum_y(s, k - 1);
        let sx = sum_x(s, k - 1);
        let sxy = sum_xy(s, k - 1);
        assert(sum_y(s, k) == sy + v);
        assert(sum_x(s, k) == sx + o);
        assert(sum_xy(s, k) == sxy + o * v);
        assert((x - o) * (y - v) == x * y - x * v - o * y + o * v) by (nonlinear_arith);
        assert(k * x * y == (k - 1) * x * y + x * y) by (nonlinear_arith);
        assert(x * (sy + v) == x * sy + x * v) by (nonlinear_arith);
        assert(y * (sx + o) == y * sx + y * o) by (nonlinear_arith);
        assert(o * y == y * o) by (nonlinear_arith);
    } else {
        assert(k * x * y == 0) by (nonlinear_arith) requires k == 0;
        assert(x * sum_y(s, k) == 0) by (nonlinear_arith) requires sum_y(s, k) == 0;
        assert(y * sum_x(s, k) == 0) by (nonlinear_arith) requires sum_x(s, k) == 0;
    }
}

proof fn lemma_cross_nonneg(s: Seq<Sample>, k: int, x: int, y: int)
    requires
        0 <= k <= s.len(),
        forall|i: int| 0 <= i < k ==> offset(s, i) <= x && s[i].1 <= y,
    ensures
        cross(s, k, x, y) >= 0,
    decreases k,
{
    if k > 0 {
        lemma_cross_nonneg(s, k - 1, x, y);
        let o = offset(s, k - 1);
        let v = s[k - 1].1 as int;
        assert((x - o) * (y - v) >= 0) by (nonlinear_arith)
            requires o <= x, v <= y;
    }
}

proof fn lemma_prefix_covariance(s: Seq<Sample>, k: int)
    requires
        0 <= k <= s.len(),
        forall|i: int, j: int| 0 <= i <= j < s.len() ==> s[i].0 <= s[j].0 && s[i].1 <= s[j].1,
    ensures
        k * sum_xy(s, k) - sum_x(s, k) * sum_y(s, k) >= 0,
    decreases k,
{
    if k > 0 {
        let m = k - 1;
        lemma_prefix_covariance(s, m);
        let x = offset(s, m);
        let y = s[m].1 as int;
        assert forall|i: int| 0 <= i < m implies offset(s, i) <= x && s[i].1 <= y by {
            assert(s[0].0 <= s[i].0 && s[i].0 <= s[m].0);
        }
        lemma_cross_nonneg(s, m, x, y);
        lemma_cross_expand(s, m, x, y);
        let a = sum_xy(s, m);
        let sx = sum_x(s, m);
        let sy = sum_y(s, m);
        let c = cross(s, m, x, y);
        assert(sum_xy(s, k) == a + x * y);
        assert(sum_x(s, k) == sx + x);
        assert(sum_y(s, k) == sy + y);
        assert(k * (a + x * y) == m * a + a + m * x * y + x * y) by (nonlinear_arith) requires k == m + 1;
        assert((sx + x) * (sy + y) == sx * sy + sx * y + x * sy + x * y) by (nonlinear_arith);
        assert(y * sx == sx * y) by (nonlinear_arith);
    }
}

/// A series whose times and levels never decrease gives no drain rate.
pub proof fn lemma_no_rate_without_drop(s: Seq<Sample>)
    requires
        forall|i: int, j: int| 0 <= i <= j < s.len() ==> s[i].0 <= s[j].0 && s[i].1 <= s[j].1,
    ensures
        drain_rate_of(s) is None,
{
    lemma_prefix_covariance(s, s.len() as int);
}

/// History after recording each of `pushes` in turn, starting from `s`.
pub open spec fn record_all(s: Seq<Sample>, pushes: Seq<Sample>) -> Seq<Sample>
    decreases pushes.len(),
{
    if pushes.len() == 0 {
        s
    } else {
        let x = pushes.last();
        record_drop(record_all(s, pushes.drop_last()), x.0, x.1)
    }
}

/// Recording samples whose levels strictly decrease into an empty history
/// keeps exactly the last `BATTERY_HISTORY_SIZE` of them, in order; so with
/// at least that many pushes the history is full, and it lists increasing
/// times when the pushes do.
pub proof fn lemma_history_keeps_last_samples(pushes: Seq<Sample>)
    requires
        forall|i: int, j: int| 0 <= i < j < pushes.len() ==> pushes[i].1 > pushes[j].1,
    ensures
        record_all(Seq::empty(), pushes) == keep_last(pushes, BATTERY_HISTORY_SIZE as nat),
        pushes.len() >= BATTERY_HISTORY_SIZE ==> record_all(Seq::empty(), pushes).len() == BATTERY_HISTORY_SIZE,
        (forall|i: int, j: int| 0 <= i < j < pushes.len() ==> pushes[i].0 < pushes[j].0) ==> (forall|i: int, j: int|
            0 <= i < j < record_all(Seq::<Sample>::empty(), pushes).len() ==> record_all(Seq::<Sample>::empty(), pushes)[i].0
                < record_all(Seq::<Sample>::empty(), pushes)[j].0),
    decreases pushes.len(),
{
    let n = BATTERY_HISTORY_SIZE as nat;
    if pushes.len() > 0 {
        let p = pushes.drop_last();
        let x = pushes.last();
        lemma_history_keeps_last_samples(p);
        let h = keep_last(p, n);
        assert(p =~= pushes.subrange(0, pushes.len() - 1));
        if p.len() > 0 {
            assert(h.last() == p.last());
            assert(x.1 < p.last().1);
        }
        assert(keep_last(h.push(x), n) =~= keep_last(pushes, n));
    }
    let r = keep_last(pushes, n);
    assert(record_all(Seq::empty(), pushes) == r);
    if forall|i: int, j: int| 0 <= i < j < pushes.len() ==> pushes[i].0 < pushes[j].0 {
        let d = pushes.len() - r.len();
        assert forall|i: int, j: int| 0 <= i < j < r.len() implies r[i].0 < r[j].0 by {
            assert(r[i] == pushes[i + d]);
            assert(r[j] == pushes[j + d]);
        }
    }
}

} // verus!
