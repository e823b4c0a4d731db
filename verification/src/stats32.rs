use vstd::prelude::*;

use crate::StatConfig;
use crate::HISTORY_LENGTH;
use crate::WINDOW_LENGTH;
use crate::ieee32::add_32;
use crate::ieee32::add_bits32;
use crate::ieee32::div_32;
use crate::ieee32::div_bits32;
use crate::ieee32::eq_32;
use crate::ieee32::finite_32;
use crate::ieee32::float_eq32;
use crate::ieee32::float_lt32;
use crate::ieee32::is_finite32;
use crate::ieee32::lt_32;
use crate::ieee32::mul_32;
use crate::ieee32::mul_bits32;
use crate::ieee32::of_count_32;
use crate::ieee32::of_count_bits32;
use crate::ieee32::sqrt_32;
use crate::ieee32::sqrt_bits32;
use crate::ieee32::sub_32;
use crate::ieee32::sub_bits32;

verus! {

// A streaming statistic over single-precision values, held as their bit
// patterns.  Arithmetic on the encoded values is the IEEE 754 arithmetic of
// the trusted primitives; everything the accumulator decides and maintains
// around that arithmetic is verified against the model below.

/// The mathematical state of one streaming statistic.
#[verifier::ext_equal]
pub struct StatModel {
    pub history_window: nat,
    pub moving_average_window: nat,
    pub current: Option<u32>,
    pub min: Option<u32>,
    pub max: Option<u32>,
    pub mean: Option<u32>,
    pub deviation: Option<u32>,
    pub history: Seq<u32>,
    pub moving_average_history: Seq<u32>,
}

/// The running sum of a sequence, accumulated left to right from zero, with
/// each addition rounding as the encoded arithmetic does.
pub open spec fn sum_bits(s: Seq<u32>) -> u32
    decreases s.len(),
{
    if s.len() == 0 {
        0
    } else {
        add_bits32(sum_bits(s.drop_last()), s.last())
    }
}

/// The arithmetic mean of a sequence: its sum divided by its length, or
/// nothing when it is empty.
pub open spec fn mean_bits(s: Seq<u32>) -> Option<u32> {
    if s.len() == 0 {
        None
    } else {
        Some(div_bits32(sum_bits(s), of_count_bits32(s.len())))
    }
}

/// Each element's squared difference from the given mean.
pub open spec fn sq_diffs(s: Seq<u32>, m: u32) -> Seq<u32> {
    s.map_values(|v: u32| mul_bits32(sub_bits32(m, v), sub_bits32(m, v)))
}

/// The population standard deviation of a sequence about the given mean:
/// the square root of the mean of the squared differences, divided by the
/// length, not the length less one.  Nothing when the sequence is empty or
/// no mean is given.
pub open spec fn deviation_bits(s: Seq<u32>, mean: Option<u32>) -> Option<u32> {
    match mean {
        Some(m) => if s.len() > 0 {
            Some(sqrt_bits32(div_bits32(sum_bits(sq_diffs(s, m)), of_count_bits32(s.len()))))
        } else {
            None
        },
        None => None,
    }
}

/// Whether an observation is accepted: it must encode a finite value and
/// differ, as a value, from the current one.
pub open spec fn accepts(m: StatModel, val: u32) -> bool {
    is_finite32(val) && match m.current {
        Some(c) => !float_eq32(val, c),
        None => true,
    }
}

/// The state after one accepted observation: extrema widened, the value
/// appended to both windows with the oldest entry evicted on overflow --
/// the primary window evicts above its bound, the smoothing window already
/// at it -- and mean and deviation recomputed from the new history.
pub open spec fn step(m: StatModel, val: u32) -> StatModel {
    let pushed = m.history.push(val);
    let history = if pushed.len() > m.history_window {
        pushed.drop_first()
    } else {
        pushed
    };
    let smoothed = m.moving_average_history.push(val);
    let moving_average_history = if smoothed.len() >= m.moving_average_window {
        smoothed.drop_first()
    } else {
        smoothed
    };
    StatModel {
        current: Some(val),
        max: if m.max is None || float_lt32(m.max->0, val) {
            Some(val)
        } else {
            m.max
        },
        min: if m.min is None || float_lt32(val, m.min->0) {
            Some(val)
        } else {
            m.min
        },
        mean: mean_bits(history),
        deviation: deviation_bits(history, mean_bits(history)),
        history,
        moving_average_history,
        ..m
    }
}

/// The state after one observation, accepted or not.
pub open spec fn spec_observe(m: StatModel, val: u32) -> StatModel {
    if accepts(m, val) {
        step(m, val)
    } else {
        m
    }
}

/// The state of a freshly created statistic.
pub open spec fn empty_model(h: nat, w: nat) -> StatModel {
    StatModel {
        history_window: h,
        moving_average_window: w,
        current: None,
        min: None,
        max: None,
        mean: None,
        deviation: None,
        history: Seq::empty(),
        moving_average_history: Seq::empty(),
    }
}

/// Everything that holds of a statistic between calls: the windows respect
/// their bounds, every retained value is finite, the extrema are set exactly
/// when anything was accepted and bound every retained value, the current
/// value is the newest retained one, and mean and deviation are exactly the
/// recomputation over the retained history.
pub open spec fn wf(m: StatModel) -> bool {
    &&& m.history.len() <= m.history_window
    &&& (if m.moving_average_window == 0 {
        m.moving_average_history.len() == 0
    } else {
        m.moving_average_history.len() <= m.moving_average_window - 1
    })
    &&& (m.history_window == 0 ==> m.history.len() == 0)
    &&& (m.history_window > 0 ==> (m.current is Some <==> m.history.len() > 0))
    &&& (m.history.len() > 0 ==> m.current is Some)
    &&& (m.min is Some <==> m.current is Some)
    &&& (m.max is Some <==> m.current is Some)
    &&& (m.current is Some ==> is_finite32(m.current->0))
    &&& (m.min is Some ==> is_finite32(m.min->0))
    &&& (m.max is Some ==> is_finite32(m.max->0))
    &&& (forall|i: int| 0 <= i < m.history.len() ==> is_finite32(#[trigger] m.history[i]))
    &&& (forall|i: int|
        0 <= i < m.moving_average_history.len() ==> is_finite32(
            #[trigger] m.moving_average_history[i],
        ))
    &&& (m.history.len() > 0 ==> m.current == Some(m.history.last()))
    &&& (forall|i: int| 0 <= i < m.history.len() ==> !float_lt32(#[trigger] m.history[i], m.min->0))
    &&& (forall|i: int| 0 <= i < m.history.len() ==> !float_lt32(m.max->0, #[trigger] m.history[i]))
    &&& m.mean == mean_bits(m.history)
    &&& m.deviation == deviation_bits(m.history, m.mean)
}

/// A bounded-history online statistics accumulator with change-detection
/// gating, z-score normalization, and a separate shorter moving-average
/// window, over encoded single-precision values.
pub struct NormalizedValue {
    history_window: usize,
    moving_average_window: usize,
    current: Option<u32>,
    min: Option<u32>,
    max: Option<u32>,
    mean: Option<u32>,
    deviation: Option<u32>,
    history: Vec<u32>,
    moving_average_history: Vec<u32>,
}

impl View for NormalizedValue {
    type V = StatModel;

    closed spec fn view(&self) -> StatModel {
        StatModel {
            history_window: self.history_window as nat,
            moving_average_window: self.moving_average_window as nat,
            current: self.current,
            min: self.min,
            max: self.max,
            mean: self.mean,
            deviation: self.deviation,
            history: self.history@,
            moving_average_history: self.moving_average_history@,
        }
    }
}

/// The running sum of the values, left to right from zero.
pub fn sum(data: &Vec<u32>) -> (r: u32)
    ensures
        r == sum_bits(data@),
{
    let mut acc: u32 = 0;
    let mut i: usize = 0;
    while i < data.len()
        invariant
            i <= data.len(),
            acc == sum_bits(data@.take(i as int)),
        decreases data.len() - i,
    {
        acc = add_32(acc, data[i]);
        proof {
            assert(data@.take(i + 1).drop_last() =~= data@.take(i as int));
            assert(data@.take(i + 1).last() == data@[i as int]);
        }
        i = i + 1;
    }
    proof {
        assert(data@.take(data@.len() as int) =~= data@);
    }
    acc
}

/// The arithmetic mean of the values, or nothing when there are none.
pub fn mean(data: &Vec<u32>) -> (r: Option<u32>)
    ensures
        r == mean_bits(data@),
{
    let count = data.len();
    let total = sum(data);
    if count > 0 {
        Some(div_32(total, of_count_32(count)))
    } else {
        None
    }
}

/// The population standard deviation of the values about the given mean,
/// or nothing when there are none or no mean is given.
pub fn std_deviation(data: &Vec<u32>, mean: Option<u32>) -> (r: Option<u32>)
    ensures
        r == deviation_bits(data@, mean),
{
    match mean {
        Some(data_mean) => {
            if data.len() > 0 {
                let mut squared_difference_vec: Vec<u32> = Vec::new();
                let mut i: usize = 0;
                while i < data.len()
                    invariant
                        i <= data.len(),
                        squared_difference_vec@ == sq_diffs(data@.take(i as int), data_mean),
                    decreases data.len() - i,
                {
                    let diff = sub_32(data_mean, data[i]);
                    squared_difference_vec.push(mul_32(diff, diff));
                    proof {
                        assert(sq_diffs(data@.take(i + 1), data_mean)
                            =~= sq_diffs(data@.take(i as int), data_mean).push(
                            mul_bits32(
                                sub_bits32(data_mean, data@[i as int]),
                                sub_bits32(data_mean, data@[i as int]),
                            ),
                        ));
                    }
                    i = i + 1;
                }
                proof {
                    assert(data@.take(data@.len() as int) =~= data@);
                }
                let variance_sum = div_32(sum(&squared_difference_vec), of_count_32(data.len()));
                Some(sqrt_32(variance_sum))
            } else {
                None
            }
        },
        None => None,
    }
}

impl NormalizedValue {
    /// A statistic with the installation's window sizes and nothing observed.
    pub fn new() -> (r: Self)
        ensures
            r@ == empty_model(HISTORY_LENGTH as nat, WINDOW_LENGTH as nat),
            wf(r@),
    {
        Self::with_config(StatConfig::default())
    }

    /// A statistic with the given window sizes and nothing observed.
    pub fn with_config(config: StatConfig) -> (r: Self)
        ensures
            r@ == empty_model(config.history_window as nat, config.moving_average_window as nat),
            wf(r@),
    {
        let r = NormalizedValue {
            history_window: config.history_window,
            moving_average_window: config.moving_average_window,
            current: None,
            min: None,
            max: None,
            mean: None,
            deviation: None,
            history: Vec::new(),
            moving_average_history: Vec::new(),
        };
        proof {
            assert(r@ =~= empty_model(
                config.history_window as nat,
                config.moving_average_window as nat,
            ));
        }
        r
    }

    /// The last accepted value.
    pub fn current(&self) -> (r: Option<u32>)
        ensures
            r == self@.current,
    {
        self.current
    }

    /// The smallest value accepted so far.
    pub fn min(&self) -> (r: Option<u32>)
        ensures
            r == self@.min,
    {
        self.min
    }

    /// The largest value accepted so far.
    pub fn max(&self) -> (r: Option<u32>)
        ensures
            r == self@.max,
    {
        self.max
    }

    /// How many values the history retains.
    pub fn history_len(&self) -> (r: usize)
        ensures
            r == self@.history.len(),
    {
        self.history.len()
    }

    /// How many values the smoothing window retains.
    pub fn moving_average_len(&self) -> (r: usize)
        ensures
            r == self@.moving_average_history.len(),
    {
        self.moving_average_history.len()
    }

    /// The mean recomputed at the last accepted observation.
    pub fn mean(&self) -> (r: Option<u32>)
        ensures
            r == self@.mean,
    {
        self.mean
    }

    /// The deviation recomputed at the last accepted observation.
    pub fn deviation(&self) -> (r: Option<u32>)
        ensures
            r == self@.deviation,
    {
        self.deviation
    }

    /// The mean of the smoothing window, or nothing while it is empty.
    pub fn moving_average(&self) -> (r: Option<u32>)
        ensures
            r == mean_bits(self@.moving_average_history),
    {
        let count = self.moving_average_history.len();
        let total = sum(&self.moving_average_history);
        if count > 0 {
            Some(div_32(total, of_count_32(count)))
        } else {
            None
        }
    }

    /// Observe one value.  A value that is not finite, or that equals the
    /// current one, is rejected and nothing changes; an accepted value
    /// becomes current and the state advances by one step of the model.
    pub fn set(&mut self, val: u32) -> (accepted: bool)
        requires
            wf(old(self)@),
        ensures
            accepted == accepts(old(self)@, val),
            final(self)@ == spec_observe(old(self)@, val),
            wf(final(self)@),
    {
        let acceptable_new_value = match self.current {
            Some(current_value) => finite_32(val) && !eq_32(val, current_value),
            None => finite_32(val),
        };

        if acceptable_new_value {
            let ghost pre = self@;
            self.current = Some(val);
            let update_max = match self.max {
                Some(m) => lt_32(m, val),
                None => true,
            };
            if update_max {
                self.max = Some(val);
            }
            let update_min = match self.min {
                Some(m) => lt_32(val, m),
                None => true,
            };
            if update_min {
                self.min = Some(val);
            }
            self.history.push(val);
            if self.history.len() > self.history_window {
                self.history.remove(0);
                proof {
                    assert(pre.history.push(val).remove(0) =~= pre.history.push(val).drop_first());
                }
            }
            self.mean = mean(&self.history);
            self.deviation = std_deviation(&self.history, self.mean);
            self.moving_average_history.push(val);
            if self.moving_average_history.len() >= self.moving_average_window {
                self.moving_average_history.remove(0);
                proof {
                    assert(pre.moving_average_history.push(val).remove(0)
                        =~= pre.moving_average_history.push(val).drop_first());
                }
            }
            proof {
                assert(self@ =~= step(pre, val));
                lemma_step_wf(pre, val);
            }
        }

        acceptable_new_value
    }

    /// Z-score normalization of the given value against the calibrated mean
    /// and deviation: nothing in, nothing out, and nothing while either is
    /// still unset.
    pub fn normalize(&self, val: Option<u32>) -> (r: Option<u32>)
        ensures
            r == normalize_bits(self@, val),
    {
        match val {
            Some(v) => {
                match (self.mean, self.deviation) {
                    (Some(mean), Some(deviation)) => Some(div_32(sub_32(v, mean), deviation)),
                    _ => None,
                }
            },
            None => None,
        }
    }

    /// How far calibration has come: the retained history length over the
    /// history window, as an encoded fraction.
    pub fn _percent_normalization_complete(&self) -> (r: u32)
        ensures
            r == percent_complete_bits(self@),
    {
        div_32(of_count_32(self.history.len()), of_count_32(self.history_window))
    }

    /// Where the current value sits between the extrema, scaled to a
    /// percentage; a degenerate range yields the encoded zero.
    pub fn _percent(&self) -> (r: Option<u32>)
        requires
            wf(self@),
        ensures
            r == percent_bits(self@),
    {
        match self.current {
            Some(v) => {
                let v100 = mul_32(sub_32(v, self.min.unwrap()), of_count_32(100));
                let range = sub_32(self.max.unwrap(), self.min.unwrap());
                let r = div_32(v100, range);
                if finite_32(r) {
                    Some(r)
                } else {
                    Some(of_count_32(0))
                }
            },
            None => None,
        }
    }
}

/// Z-score normalization over the model.
pub open spec fn normalize_bits(m: StatModel, val: Option<u32>) -> Option<u32> {
    match val {
        Some(v) => match (m.mean, m.deviation) {
            (Some(mean), Some(deviation)) => Some(div_bits32(sub_bits32(v, mean), deviation)),
            _ => None,
        },
        None => None,
    }
}

/// Calibration progress over the model.
pub open spec fn percent_complete_bits(m: StatModel) -> u32 {
    div_bits32(of_count_bits32(m.history.len()), of_count_bits32(m.history_window))
}

/// Position of the current value between the extrema, over the model.
pub open spec fn percent_bits(m: StatModel) -> Option<u32> {
    match m.current {
        Some(v) => {
            let v100 = mul_bits32(sub_bits32(v, m.min->0), of_count_bits32(100));
            let range = sub_bits32(m.max->0, m.min->0);
            let r = div_bits32(v100, range);
            if is_finite32(r) {
                Some(r)
            } else {
                Some(of_count_bits32(0))
            }
        },
        None => None,
    }
}

/// One accepted observation preserves everything `wf` states.
pub proof fn lemma_step_wf(m: StatModel, val: u32)
    requires
        wf(m),
        accepts(m, val),
    ensures
        wf(step(m, val)),
{
    let s = step(m, val);
    assert(s.history.len() > 0 ==> s.history.last() == val);
    assert forall|i: int| 0 <= i < s.history.len() implies is_finite32(#[trigger] s.history[i]) by {
        if s.history[i] != val {
            let pushed = m.history.push(val);
            if pushed.len() > m.history_window {
                assert(s.history[i] == m.history[i + 1]);
            } else {
                assert(s.history[i] == m.history[i]);
            }
        }
    }
    assert forall|i: int|
        0 <= i < s.moving_average_history.len() implies is_finite32(
        #[trigger] s.moving_average_history[i],
    ) by {
        if s.moving_average_history[i] != val {
            let pushed = m.moving_average_history.push(val);
            if pushed.len() >= m.moving_average_window {
                assert(s.moving_average_history[i] == m.moving_average_history[i + 1]);
            } else {
                assert(s.moving_average_history[i] == m.moving_average_history[i]);
            }
        }
    }
    assert forall|i: int| 0 <= i < s.history.len() implies !float_lt32(
        #[trigger] s.history[i],
        s.min->0,
    ) by {
        if s.history[i] != val {
            let pushed = m.history.push(val);
            if pushed.len() > m.history_window {
                assert(s.history[i] == m.history[i + 1]);
            } else {
                assert(s.history[i] == m.history[i]);
            }
        }
    }
    assert forall|i: int| 0 <= i < s.history.len() implies !float_lt32(
        s.max->0,
        #[trigger] s.history[i],
    ) by {
        if s.history[i] != val {
            let pushed = m.history.push(val);
            if pushed.len() > m.history_window {
                assert(s.history[i] == m.history[i + 1]);
            } else {
                assert(s.history[i] == m.history[i]);
            }
        }
    }
}

/// A rejected observation leaves the state exactly as it was.
pub proof fn lemma_rejected_unchanged(m: StatModel, val: u32)
    requires
        !accepts(m, val),
    ensures
        spec_observe(m, val) == m,
{
}

/// A value that is not finite is rejected whatever the state.
pub proof fn lemma_nonfinite_rejected(m: StatModel, val: u32)
    requires
        !is_finite32(val),
    ensures
        !accepts(m, val),
        spec_observe(m, val) == m,
{
}

/// Observing the same value twice in a row: the second observation is
/// rejected and changes nothing.
pub proof fn lemma_duplicate_rejected(m: StatModel, val: u32)
    requires
        accepts(m, val),
    ensures
        !accepts(step(m, val), val),
        spec_observe(step(m, val), val) == step(m, val),
{
}

/// The state after a whole sequence of observations, first to last.
pub open spec fn run(m: StatModel, vs: Seq<u32>) -> StatModel
    decreases vs.len(),
{
    if vs.len() == 0 {
        m
    } else {
        spec_observe(run(m, vs.drop_last()), vs.last())
    }
}

/// Every value of the sequence encodes a finite value.
pub open spec fn all_finite(vs: Seq<u32>) -> bool {
    forall|i: int| 0 <= i < vs.len() ==> is_finite32(#[trigger] vs[i])
}

/// No value of the sequence repeats its predecessor.
pub open spec fn consecutive_distinct(vs: Seq<u32>) -> bool {
    forall|i: int| 0 <= i < vs.len() - 1 ==> !float_eq32(vs[i + 1], #[trigger] vs[i])
}

/// Where the retained history of a fresh statistic starts after the whole
/// sequence was observed: the window keeps only the newest values.
pub open spec fn evicted(n: int, window: int) -> int {
    if n <= window {
        0
    } else {
        n - window
    }
}

/// Feeding a fresh statistic a finite sequence with no consecutive repeats
/// accepts every value: the history retains the newest `h` of them, the
/// smoothing window the newest `w - 1`, and the last value is current.
pub proof fn lemma_run_from_empty(h: nat, w: nat, vs: Seq<u32>)
    requires
        h >= 1,
        all_finite(vs),
        consecutive_distinct(vs),
    ensures
        wf(run(empty_model(h, w), vs)),
        run(empty_model(h, w), vs).history_window == h,
        run(empty_model(h, w), vs).moving_average_window == w,
        run(empty_model(h, w), vs).history =~= vs.subrange(
            evicted(vs.len() as int, h as int),
            vs.len() as int,
        ),
        run(empty_model(h, w), vs).moving_average_history =~= (if w == 0 {
            Seq::<u32>::empty()
        } else {
            vs.subrange(evicted(vs.len() as int, w - 1), vs.len() as int)
        }),
        vs.len() > 0 ==> run(empty_model(h, w), vs).current == Some(vs.last()),
        vs.len() == 0 ==> run(empty_model(h, w), vs) == empty_model(h, w),
    decreases vs.len(),
{
    let e = empty_model(h, w);
    if vs.len() == 0 {
        assert(wf(e));
    } else {
        let prefix = vs.drop_last();
        assert(all_finite(prefix));
        assert(consecutive_distinct(prefix));
        lemma_run_from_empty(h, w, prefix);
        let pre = run(e, prefix);
        let val = vs.last();
        if prefix.len() > 0 {
            assert(pre.current == Some(prefix.last()));
            assert(!float_eq32(val, prefix.last()));
        }
        assert(accepts(pre, val));
        lemma_step_wf(pre, val);
        assert(run(e, vs) == step(pre, val));
        let s = step(pre, val);
        let n = vs.len() as int;
        let np = n - 1;
        let hi = h as int;
        assert(forall|k: int| 0 <= k < np ==> prefix[k] == vs[k]);

        let pushed = pre.history.push(val);
        assert(pre.history == prefix.subrange(evicted(np, hi), np));
        assert forall|j: int| 0 <= j < pushed.len() implies pushed[j] == vs.subrange(
            evicted(np, hi),
            n,
        )[j] by {
            if j < pushed.len() - 1 {
                assert(pushed[j] == pre.history[j]);
                assert(pre.history[j] == prefix[evicted(np, hi) + j]);
            } else {
                assert(pushed[j] == val);
            }
        }
        assert(pushed =~= vs.subrange(evicted(np, hi), n));
        if pushed.len() > hi {
            assert(s.history == pushed.drop_first());
            assert forall|j: int| 0 <= j < s.history.len() implies s.history[j] == vs.subrange(
                evicted(n, hi),
                n,
            )[j] by {
                assert(s.history[j] == pushed[j + 1]);
            }
            assert(s.history =~= vs.subrange(evicted(n, hi), n));
        } else {
            assert(evicted(n, hi) == evicted(np, hi));
            assert(s.history =~= vs.subrange(evicted(n, hi), n));
        }

        if w == 0 {
            assert(pre.moving_average_history =~= Seq::<u32>::empty());
            assert(pre.moving_average_history.push(val).len() >= w);
            assert(s.moving_average_history =~= Seq::<u32>::empty());
        } else {
            let wm: int = w - 1;
            let pushed_ma = pre.moving_average_history.push(val);
            assert(pre.moving_average_history == prefix.subrange(evicted(np, wm), np));
            assert forall|j: int| 0 <= j < pushed_ma.len() implies pushed_ma[j] == vs.subrange(
                evicted(np, wm),
                n,
            )[j] by {
                if j < pushed_ma.len() - 1 {
                    assert(pushed_ma[j] == pre.moving_average_history[j]);
                    assert(pre.moving_average_history[j] == prefix[evicted(np, wm) + j]);
                } else {
                    assert(pushed_ma[j] == val);
                }
            }
            assert(pushed_ma =~= vs.subrange(evicted(np, wm), n));
            if pushed_ma.len() >= w {
                assert(s.moving_average_history == pushed_ma.drop_first());
                assert forall|j: int|
                    0 <= j < s.moving_average_history.len() implies s.moving_average_history[j]
                    == vs.subrange(evicted(n, wm), n)[j] by {
                    assert(s.moving_average_history[j] == pushed_ma[j + 1]);
                }
                assert(s.moving_average_history =~= vs.subrange(evicted(n, wm), n));
            } else {
                assert(evicted(n, wm) == evicted(np, wm));
                assert(s.moving_average_history =~= vs.subrange(evicted(n, wm), n));
            }
        }
    }
}

/// While the sequence fits inside the history window, the mean and the
/// deviation on record are exactly the recomputation over the whole
/// sequence observed so far.
pub proof fn lemma_calibration_statistics(h: nat, w: nat, vs: Seq<u32>)
    requires
        h >= 1,
        all_finite(vs),
        consecutive_distinct(vs),
        vs.len() <= h,
    ensures
        run(empty_model(h, w), vs).history =~= vs,
        run(empty_model(h, w), vs).mean == mean_bits(vs),
        run(empty_model(h, w), vs).deviation == deviation_bits(vs, mean_bits(vs)),
{
    lemma_run_from_empty(h, w, vs);
    assert(run(empty_model(h, w), vs).history =~= vs);
}

/// Nothing in, nothing out: normalizing no value yields no value.
pub proof fn lemma_normalize_none(m: StatModel)
    ensures
        normalize_bits(m, None) == None::<u32>,
{
}

/// Until something is accepted there is nothing to normalize against:
/// whatever is offered comes back as nothing.
pub proof fn lemma_normalize_uncalibrated(m: StatModel, val: Option<u32>)
    requires
        wf(m),
        m.history.len() == 0,
    ensures
        normalize_bits(m, val) == None::<u32>,
{
}

/// Over a whole run from empty, the recorded extrema are lifetime extrema:
/// each one is an observed value and bounds every observed value, however
/// many of them the history has since evicted.
pub proof fn lemma_extrema(h: nat, w: nat, vs: Seq<u32>)
    requires
        h >= 1,
        all_finite(vs),
        consecutive_distinct(vs),
        vs.len() > 0,
    ensures
        run(empty_model(h, w), vs).min is Some,
        run(empty_model(h, w), vs).max is Some,
        exists|j: int| 0 <= j < vs.len() && run(empty_model(h, w), vs).min->0 == vs[j],
        exists|j: int| 0 <= j < vs.len() && run(empty_model(h, w), vs).max->0 == vs[j],
        forall|i: int|
            0 <= i < vs.len() ==> !float_lt32(
                #[trigger] vs[i],
                run(empty_model(h, w), vs).min->0,
            ),
        forall|i: int|
            0 <= i < vs.len() ==> !float_lt32(
                run(empty_model(h, w), vs).max->0,
                #[trigger] vs[i],
            ),
    decreases vs.len(),
{
    let e = empty_model(h, w);
    let prefix = vs.drop_last();
    let val = vs.last();
    assert(all_finite(prefix));
    assert(consecutive_distinct(prefix));
    lemma_run_from_empty(h, w, prefix);
    let pre = run(e, prefix);
    if prefix.len() > 0 {
        assert(pre.current == Some(prefix.last()));
        assert(!float_eq32(val, prefix.last()));
    }
    assert(accepts(pre, val));
    let s = step(pre, val);
    assert(run(e, vs) == s);
    if prefix.len() == 0 {
        assert(s.min == Some(val));
        assert(s.max == Some(val));
        assert(vs[0] == val);
    } else {
        lemma_extrema(h, w, prefix);
        let j_min = choose|j: int| 0 <= j < prefix.len() && pre.min->0 == prefix[j];
        let j_max = choose|j: int| 0 <= j < prefix.len() && pre.max->0 == prefix[j];
        assert(is_finite32(pre.min->0));
        assert(is_finite32(pre.max->0));
        if s.min == Some(val) {
            assert(s.min->0 == vs[vs.len() - 1]);
        } else {
            assert(s.min->0 == vs[j_min]);
        }
        if s.max == Some(val) {
            assert(s.max->0 == vs[vs.len() - 1]);
        } else {
            assert(s.max->0 == vs[j_max]);
        }
        assert forall|i: int| 0 <= i < vs.len() implies !float_lt32(vs[i], s.min->0) by {
            if i < vs.len() - 1 {
                assert(vs[i] == prefix[i]);
                assert(!float_lt32(prefix[i], pre.min->0));
            }
        }
        assert forall|i: int| 0 <= i < vs.len() implies !float_lt32(s.max->0, vs[i]) by {
            if i < vs.len() - 1 {
                assert(vs[i] == prefix[i]);
                assert(!float_lt32(pre.max->0, prefix[i]));
            }
        }
    }
}

} // verus!
