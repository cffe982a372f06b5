//! The per-feature signal processors: raw, smooth, rate and constant mode.
use vstd::prelude::*;
use vstd::arithmetic::div_mod::lemma_fundamental_div_mod;
use crate::levels::{FULL, STEP, SAMPLE_LIMIT, sample_ok, round_div, clamp, LevelTweaks};

verus! {

/// Time in milliseconds after which rate mode lowers its level by one tick.
pub const RATE_TICK_MS: u64 = 150;

/// How a feature turns its input samples into levels.
#[derive(Clone, Copy, Debug, PartialEq, Eq, Structural)]
pub enum ProcessingMode {
    Raw,
    Smooth,
    Rate,
    Constant,
}

/// One input sample: a fixed-point float or a boolean.
#[derive(Clone, Copy, Debug, PartialEq, Eq, Structural)]
pub enum ModeProcessorInputType {
    Float(i32),
    Boolean(bool),
}

impl ModeProcessorInputType {
    /// A float sample is within the magnitude the processors take.
    pub open spec fn wf(&self) -> bool {
        match *self {
            ModeProcessorInputType::Float(v) => sample_ok(v as int),
            ModeProcessorInputType::Boolean(_) => true,
        }
    }
}

/// Smooth mode state: the samples gathered since the last emission.
#[derive(Clone, Debug)]
pub struct SmoothProcessingValues {
    pub smooth_queue: Vec<i32>,
}

/// Rate mode state.
#[derive(Clone, Copy, Debug, PartialEq, Eq, Structural)]
pub struct RateProcessingValues {
    /// The integrated level.
    pub rate_saved_level: i32,
    /// The last input taken.
    pub rate_saved_osc_input: i32,
    /// When the level was last lowered (milliseconds on a monotonic clock).
    pub rate_timestamp: Option<u64>,
}

/// A processing mode together with the state it keeps.
#[derive(Clone, Debug)]
pub enum ProcessingModeValues {
    Raw,
    Smooth(SmoothProcessingValues),
    Rate(RateProcessingValues),
    Constant,
}

/// What one smoothing step decided.
#[derive(Clone, Copy, Debug, PartialEq, Eq, Structural)]
pub enum SmoothParser {
    /// A zero-equivalent input, passed on at once.
    SkipZero(i32),
    /// The rounded mean of a full window.
    Smoothed(i32),
    /// The input was gathered; nothing is emitted.
    Smoothing,
}

/// What one rate step decided.
#[derive(Clone, Copy, Debug, PartialEq, Eq, Structural)]
pub enum RateParser {
    /// A zero-equivalent input: emit zero.
    SkipZero,
    /// The new level, and whether the tick timer must restart.
    RateCalculated(i32, bool),
}

/// Sum of a sequence of levels.
pub open spec fn sum_levels(s: Seq<i32>) -> int
    decreases s.len(),
{
    if s.len() == 0 {
        0
    } else {
        sum_levels(s.drop_last()) + s.last()
    }
}

/// Mean of a non-empty sequence of levels, rounded to the hundredth.
pub open spec fn mean_level(s: Seq<i32>) -> int {
    round_div(sum_levels(s), s.len() * STEP) * STEP
}

/// Whether every level of `s` is within the sample magnitude.
pub open spec fn samples_ok(s: Seq<i32>) -> bool {
    forall|i: int| 0 <= i < s.len() ==> sample_ok(#[trigger] s[i] as int)
}

/// Smooth mode treats exactly zero (or full power, when flipped) as a stop.
pub open spec fn smooth_zero(v: int, flip_input: bool) -> bool {
    (!flip_input && v == 0) || (flip_input && v == FULL)
}

/// Rate mode treats zero and below (or full power and above, when flipped) as a stop.
pub open spec fn rate_zero(v: int, flip_input: bool) -> bool {
    (!flip_input && v <= 0) || (flip_input && v >= FULL)
}

/// One smoothing step over queue `q` with window `k`: the new queue and the decision.
pub open spec fn smooth_step(q: Seq<i32>, k: nat, v: i32, flip_input: bool) -> (Seq<i32>, SmoothParser) {
    if q.len() == k && !smooth_zero(v as int, flip_input) {
        (seq![mean_level(q) as i32], SmoothParser::Smoothed(mean_level(q) as i32))
    } else if smooth_zero(v as int, flip_input) {
        (if q.len() == k { Seq::empty() } else { q }, SmoothParser::SkipZero(v))
    } else {
        (q.push(v), SmoothParser::Smoothing)
    }
}

/// The integrated rate level after taking input `v`, before any tick.
pub open spec fn rate_integrated(p: RateProcessingValues, v: int) -> int {
    let d = if v >= p.rate_saved_osc_input { v - p.rate_saved_osc_input } else { p.rate_saved_osc_input - v };
    clamp(p.rate_saved_level + d, 0, FULL as int)
}

/// Whether a tick of [`RATE_TICK_MS`] has passed since the timer was started.
pub open spec fn tick_due(p: RateProcessingValues, now_ms: u64) -> bool {
    match p.rate_timestamp {
        Some(t) => now_ms >= t && now_ms - t >= RATE_TICK_MS,
        None => false,
    }
}

/// One rate step: the new state and the decision (the timer is restarted by the caller).
pub open spec fn rate_step(p: RateProcessingValues, tune: int, v: i32, flip_input: bool, now_ms: u64) -> (RateProcessingValues, RateParser) {
    if rate_zero(v as int, flip_input) {
        (RateProcessingValues { rate_saved_level: v, rate_saved_osc_input: v, ..p }, RateParser::SkipZero)
    } else if tick_due(p, now_ms) {
        let lowered = clamp(rate_integrated(p, v as int) - tune, 0, FULL as int);
        (
            RateProcessingValues { rate_saved_level: lowered as i32, rate_saved_osc_input: v, ..p },
            RateParser::RateCalculated(lowered as i32, true),
        )
    } else {
        let lvl = rate_integrated(p, v as int);
        (
            RateProcessingValues { rate_saved_level: lvl as i32, rate_saved_osc_input: v, ..p },
            RateParser::RateCalculated(lvl as i32, false),
        )
    }
}

proof fn lemma_sum_bound(s: Seq<i32>)
    requires
        samples_ok(s),
    ensures
        -(s.len() * SAMPLE_LIMIT) <= sum_levels(s) <= s.len() * SAMPLE_LIMIT,
    decreases s.len(),
{
    if s.len() > 0 {
        assert(samples_ok(s.drop_last())) by {
            assert forall|i: int| 0 <= i < s.drop_last().len() implies sample_ok(#[trigger] s.drop_last()[i] as int) by {
                assert(s.drop_last()[i] == s[i]);
            }
        }
        lemma_sum_bound(s.drop_last());
        assert(sample_ok(s[s.len() - 1] as int));
    }
}

proof fn lemma_mean_bound(s: Seq<i32>)
    requires
        samples_ok(s),
        s.len() >= 1,
    ensures
        sample_ok(mean_level(s)),
{
    lemma_sum_bound(s);
    let n = s.len() as int;
    let d = n * 100;
    let total = sum_levels(s);
    let c = SAMPLE_LIMIT / 100 + 1;
    assert(d > 0) by (nonlinear_arith) requires n >= 1, d == n * 100;
    if total >= 0 {
        let a = 2 * total + d;
        assert(a < (2 * d) * c) by (nonlinear_arith) requires a == 2 * total + d, total <= n * 1_000_000_000, d == n * 100, c == 10_000_001, n >= 1;
        lemma_fundamental_div_mod(a, 2 * d);
        let q = a / (2 * d);
        assert(q < c) by (nonlinear_arith) requires a == (2 * d) * q + a % (2 * d), a % (2 * d) >= 0, a < (2 * d) * c, d > 0;
        assert(q >= 0) by (nonlinear_arith) requires a == (2 * d) * q + a % (2 * d), a % (2 * d) < 2 * d, a >= 0, d > 0;
    } else {
        let a = -2 * total + d;
        assert(a < (2 * d) * c) by (nonlinear_arith) requires a == -2 * total + d, -total <= n * 1_000_000_000, d == n * 100, c == 10_000_001, n >= 1;
        lemma_fundamental_div_mod(a, 2 * d);
        let q = a / (2 * d);
        assert(q < c) by (nonlinear_arith) requires a == (2 * d) * q + a % (2 * d), a % (2 * d) >= 0, a < (2 * d) * c, d > 0;
        assert(q >= 0) by (nonlinear_arith) requires a == (2 * d) * q + a % (2 * d), a % (2 * d) < 2 * d, a >= 0, d > 0;
    }
}

/// Sum of the queue, computed wide enough that it cannot overflow.
fn queue_sum(q: &Vec<i32>) -> (r: i128)
    requires
        samples_ok(q@),
    ensures
        r == sum_levels(q@),
{
    let mut acc: i128 = 0;
    let mut i: usize = 0;
    while i < q.len()
        invariant
            i <= q.len(),
            samples_ok(q@),
            acc == sum_levels(q@.subrange(0, i as int)),
            -(i * SAMPLE_LIMIT) <= acc <= i * SAMPLE_LIMIT,
        decreases q.len() - i,
    {
        assert(q@.subrange(0, i as int + 1).drop_last() =~= q@.subrange(0, i as int));
        assert(sample_ok(q@[i as int] as int));
        acc = acc + q[i] as i128;
        i = i + 1;
    }
    assert(q@.subrange(0, q.len() as int) =~= q@);
    acc
}

/// Mean of a non-empty queue, rounded to the hundredth.
fn queue_mean(q: &Vec<i32>) -> (r: i32)
    requires
        samples_ok(q@),
        q.len() >= 1,
    ensures
        r == mean_level(q@),
        sample_ok(r as int),
{
    proof {
        lemma_mean_bound(q@);
        lemma_sum_bound(q@);
    }
    let total = queue_sum(q);
    let d: i128 = q.len() as i128 * STEP as i128;
    let m: i128 = if total >= 0 {
        (2 * total + d) / (2 * d)
    } else {
        -((-2 * total + d) / (2 * d))
    };
    (m * STEP as i128) as i32
}

/// One smoothing step: gathers non-zero samples until the queue holds `smooth_rate` of them,
/// then emits their rounded mean on the next non-zero sample and keeps that mean as the
/// queue's only entry. A zero-equivalent sample is emitted at once and empties a full queue.
pub fn parse_smoothing(smooth_queue: &mut Vec<i32>, feature_levels: &LevelTweaks, float_level: i32, flip_float: bool) -> (r: SmoothParser)
    requires
        feature_levels.wf(),
        samples_ok(old(smooth_queue)@),
        sample_ok(float_level as int),
    ensures
        (final(smooth_queue)@, r) == smooth_step(old(smooth_queue)@, feature_levels.smooth_rate as nat, float_level, flip_float),
        samples_ok(final(smooth_queue)@),
        old(smooth_queue)@.len() <= feature_levels.smooth_rate ==> final(smooth_queue)@.len() <= feature_levels.smooth_rate,
{
    let zero = (!flip_float && float_level == 0) || (flip_float && float_level == FULL);
    if smooth_queue.len() == feature_levels.smooth_rate as usize {
        if zero {
            smooth_queue.clear();
        } else {
            let smoothed = queue_mean(smooth_queue);
            smooth_queue.clear();
            smooth_queue.push(smoothed);
            assert(smooth_queue@ =~= seq![smoothed]);
            return SmoothParser::Smoothed(smoothed);
        }
    }
    if zero {
        proof {
            if old(smooth_queue)@.len() == feature_levels.smooth_rate as nat {
                assert(smooth_queue@ =~= Seq::<i32>::empty());
            }
        }
        return SmoothParser::SkipZero(float_level);
    }
    smooth_queue.push(float_level);
    SmoothParser::Smoothing
}

/// Rate state whose saved values are within the sample magnitude.
pub open spec fn rate_ok(p: RateProcessingValues) -> bool {
    sample_ok(p.rate_saved_level as int) && sample_ok(p.rate_saved_osc_input as int)
}

/// One rate step: a zero-equivalent input resets the integrated level to the input and
/// emits zero; any other input adds its distance from the previous input to the level
/// (clamped to full range), and once a tick has passed lowers it by `decrement_rate`.
pub fn parse_rate(processor: &mut RateProcessingValues, decrement_rate: i32, float_level: i32, flip_float: bool, now_ms: u64) -> (r: RateParser)
    requires
        rate_ok(*old(processor)),
        sample_ok(float_level as int),
    ensures
        (*final(processor), r) == rate_step(*old(processor), decrement_rate as int, float_level, flip_float, now_ms),
        rate_ok(*final(processor)),
{
    if (!flip_float && float_level <= 0) || (flip_float && float_level >= FULL) {
        processor.rate_saved_level = float_level;
        processor.rate_saved_osc_input = float_level;
        return RateParser::SkipZero;
    }
    let saved = processor.rate_saved_level as i64;
    let last = processor.rate_saved_osc_input as i64;
    let v = float_level as i64;
    let distance = if v >= last { v - last } else { last - v };
    let raised = saved + distance;
    let integrated: i64 = if raised < 0 { 0 } else if raised > FULL as i64 { FULL as i64 } else { raised };
    processor.rate_saved_osc_input = float_level;
    let due = match processor.rate_timestamp {
        Some(t) => now_ms >= t && now_ms - t >= RATE_TICK_MS,
        None => false,
    };
    if due {
        let dropped = integrated - decrement_rate as i64;
        let lowered: i64 = if dropped < 0 { 0 } else if dropped > FULL as i64 { FULL as i64 } else { dropped };
        processor.rate_saved_level = lowered as i32;
        RateParser::RateCalculated(lowered as i32, true)
    } else {
        processor.rate_saved_level = integrated as i32;
        RateParser::RateCalculated(integrated as i32, false)
    }
}

/// What a processing state holds, as mathematical values.
pub ghost enum ProcessingModeView {
    Raw,
    Smooth(Seq<i32>),
    Rate(RateProcessingValues),
    Constant,
}

impl View for ProcessingModeValues {
    type V = ProcessingModeView;

    open spec fn view(&self) -> ProcessingModeView {
        match *self {
            ProcessingModeValues::Raw => ProcessingModeView::Raw,
            ProcessingModeValues::Smooth(s) => ProcessingModeView::Smooth(s.smooth_queue@),
            ProcessingModeValues::Rate(p) => ProcessingModeView::Rate(p),
            ProcessingModeValues::Constant => ProcessingModeView::Constant,
        }
    }
}

impl ProcessingModeView {
    /// Stored samples and levels are within the sample magnitude.
    pub open spec fn wf(self) -> bool {
        match self {
            ProcessingModeView::Smooth(q) => samples_ok(q),
            ProcessingModeView::Rate(p) => rate_ok(p),
            _ => true,
        }
    }

    /// The mode this state belongs to.
    pub open spec fn mode(self) -> ProcessingMode {
        match self {
            ProcessingModeView::Raw => ProcessingMode::Raw,
            ProcessingModeView::Smooth(_) => ProcessingMode::Smooth,
            ProcessingModeView::Rate(_) => ProcessingMode::Rate,
            ProcessingModeView::Constant => ProcessingMode::Constant,
        }
    }
}

/// Rate state with its tick timer started at `now_ms` if it had not been yet.
pub open spec fn rate_started(p: RateProcessingValues, now_ms: u64) -> RateProcessingValues {
    if p.rate_timestamp is None {
        RateProcessingValues { rate_timestamp: Some(now_ms), ..p }
    } else {
        p
    }
}

/// One step of any mode: the new state and the level to emit, if any.
pub open spec fn mode_step(
    m: ProcessingModeView,
    input: ModeProcessorInputType,
    levels: LevelTweaks,
    flip_input: bool,
    now_ms: u64,
) -> (ProcessingModeView, Option<i32>) {
    match m {
        ProcessingModeView::Raw => (m, match input {
            ModeProcessorInputType::Float(v) => Some(v),
            ModeProcessorInputType::Boolean(b) => Some(if b { FULL } else { 0 }),
        }),
        ProcessingModeView::Smooth(q) => match input {
            ModeProcessorInputType::Float(v) => {
                let (q2, d) = smooth_step(q, levels.smooth_rate as nat, v, flip_input);
                (ProcessingModeView::Smooth(q2), match d {
                    SmoothParser::SkipZero(x) => Some(x),
                    SmoothParser::Smoothed(x) => Some(x),
                    SmoothParser::Smoothing => None,
                })
            },
            ModeProcessorInputType::Boolean(_) => (m, None),
        },
        ProcessingModeView::Rate(p) => {
            let started = rate_started(p, now_ms);
            match input {
                ModeProcessorInputType::Float(v) => {
                    let (stepped, d) = rate_step(started, levels.rate_tune as int, v, flip_input, now_ms);
                    match d {
                        RateParser::SkipZero => (ProcessingModeView::Rate(stepped), Some(0i32)),
                        RateParser::RateCalculated(x, reset) => (
                            ProcessingModeView::Rate(
                                if reset { RateProcessingValues { rate_timestamp: Some(now_ms), ..stepped } } else { stepped },
                            ),
                            Some(x),
                        ),
                    }
                },
                ModeProcessorInputType::Boolean(_) => (ProcessingModeView::Rate(started), None),
            }
        },
        ProcessingModeView::Constant => (m, match input {
            ModeProcessorInputType::Float(v) => Some(if v >= FULL / 2 { levels.constant_level } else { 0 }),
            ModeProcessorInputType::Boolean(b) => Some(if b { levels.constant_level } else { 0 }),
        }),
    }
}

/// Runs one input through the feature's processing mode, updating the mode's state.
/// `None` means that nothing is to be sent for this input.
pub fn mode_processor_logic(
    input: ModeProcessorInputType,
    processor: &mut ProcessingModeValues,
    feature_levels: &LevelTweaks,
    flip_input: bool,
    now_ms: u64,
) -> (r: Option<i32>)
    requires
        input.wf(),
        old(processor)@.wf(),
        feature_levels.wf(),
    ensures
        (final(processor)@, r) == mode_step(old(processor)@, input, *feature_levels, flip_input, now_ms),
        final(processor)@.wf(),
        final(processor)@.mode() == old(processor)@.mode(),
{
    match processor {
        ProcessingModeValues::Raw => match input {
            ModeProcessorInputType::Float(v) => Some(v),
            ModeProcessorInputType::Boolean(b) => Some(if b { FULL } else { 0 }),
        },
        ProcessingModeValues::Smooth(values) => match input {
            ModeProcessorInputType::Float(v) => {
                match parse_smoothing(&mut values.smooth_queue, feature_levels, v, flip_input) {
                    SmoothParser::SkipZero(x) => Some(x),
                    SmoothParser::Smoothed(x) => Some(x),
                    SmoothParser::Smoothing => None,
                }
            },
            ModeProcessorInputType::Boolean(_) => None,
        },
        ProcessingModeValues::Rate(values) => {
            if values.rate_timestamp.is_none() {
                values.rate_timestamp = Some(now_ms);
            }
            match input {
                ModeProcessorInputType::Float(v) => {
                    match parse_rate(values, feature_levels.rate_tune, v, flip_input, now_ms) {
                        RateParser::SkipZero => Some(0),
                        RateParser::RateCalculated(x, reset) => {
                            if reset {
                                values.rate_timestamp = Some(now_ms);
                            }
                            Some(x)
                        },
                    }
                },
                ModeProcessorInputType::Boolean(_) => None,
            }
        },
        ProcessingModeValues::Constant => match input {
            ModeProcessorInputType::Float(v) => Some(if v >= FULL / 2 { feature_levels.constant_level } else { 0 }),
            ModeProcessorInputType::Boolean(b) => Some(if b { feature_levels.constant_level } else { 0 }),
        },
    }
}

/// Smoothing steps over the inputs `vs` taken in order: the final queue and each decision.
pub open spec fn smooth_run(q: Seq<i32>, k: nat, flip_input: bool, vs: Seq<i32>) -> (Seq<i32>, Seq<SmoothParser>)
    decreases vs.len(),
{
    if vs.len() == 0 {
        (q, Seq::empty())
    } else {
        let (q1, d) = smooth_step(q, k, vs[0], flip_input);
        let (q2, ds) = smooth_run(q1, k, flip_input, vs.drop_first());
        (q2, seq![d] + ds)
    }
}

proof fn lemma_smooth_run_concat(q: Seq<i32>, k: nat, flip_input: bool, a: Seq<i32>, b: Seq<i32>)
    ensures
        smooth_run(q, k, flip_input, a + b) == ({
            let (q1, ds1) = smooth_run(q, k, flip_input, a);
            let (q2, ds2) = smooth_run(q1, k, flip_input, b);
            (q2, ds1 + ds2)
        }),
    decreases a.len(),
{
    if a.len() == 0 {
        assert(a + b =~= b);
        let (q2, ds2) = smooth_run(q, k, flip_input, b);
        assert(Seq::<SmoothParser>::empty() + ds2 =~= ds2);
    } else {
        let (q1, d) = smooth_step(q, k, a[0], flip_input);
        assert((a + b).drop_first() =~= a.drop_first() + b);
        assert((a + b)[0] == a[0]);
        lemma_smooth_run_concat(q1, k, flip_input, a.drop_first(), b);
        let (qa, dsa) = smooth_run(q1, k, flip_input, a.drop_first());
        let (qb, dsb) = smooth_run(qa, k, flip_input, b);
        assert(seq![d] + (dsa + dsb) =~= (seq![d] + dsa) + dsb);
    }
}

/// While the window is not full, non-zero samples are only gathered: taken in order from
/// queue `q`, each emits nothing and the queue becomes `q` followed by the samples.
pub proof fn lemma_smooth_gather(q: Seq<i32>, k: nat, flip_input: bool, vs: Seq<i32>)
    requires
        q.len() + vs.len() <= k,
        forall|i: int| 0 <= i < vs.len() ==> !smooth_zero(#[trigger] vs[i] as int, flip_input),
    ensures
        smooth_run(q, k, flip_input, vs).0 == q + vs,
        smooth_run(q, k, flip_input, vs).1 == Seq::new(vs.len(), |i: int| SmoothParser::Smoothing),
    decreases vs.len(),
{
    if vs.len() == 0 {
        assert(q + vs =~= q);
        assert(Seq::new(vs.len(), |i: int| SmoothParser::Smoothing) =~= Seq::<SmoothParser>::empty());
    } else {
        assert(!smooth_zero(vs[0] as int, flip_input));
        let rest = vs.drop_first();
        assert forall|i: int| 0 <= i < rest.len() implies !smooth_zero(#[trigger] rest[i] as int, flip_input) by {
            assert(rest[i] == vs[i + 1]);
        }
        lemma_smooth_gather(q.push(vs[0]), k, flip_input, rest);
        assert(q.push(vs[0]) + rest =~= q + vs);
        assert(seq![SmoothParser::Smoothing] + Seq::new(rest.len(), |i: int| SmoothParser::Smoothing)
            =~= Seq::new(vs.len(), |i: int| SmoothParser::Smoothing));
    }
}

/// Smoothing with window `k`, started from an empty queue: `k` non-zero samples each emit
/// nothing, and the next non-zero sample emits their mean rounded to the hundredth, which
/// then stays in the queue as its only entry.
pub proof fn lemma_smoothing_window(k: nat, flip_input: bool, vs: Seq<i32>, next: i32)
    requires
        k >= 1,
        vs.len() == k,
        forall|i: int| 0 <= i < vs.len() ==> !smooth_zero(#[trigger] vs[i] as int, flip_input),
        !smooth_zero(next as int, flip_input),
    ensures
        ({
            let (q, ds) = smooth_run(Seq::empty(), k, flip_input, vs.push(next));
            &&& ds.len() == k + 1
            &&& forall|i: int| 0 <= i < k ==> ds[i] == SmoothParser::Smoothing
            &&& ds[k as int] == SmoothParser::Smoothed(mean_level(vs) as i32)
            &&& q == seq![mean_level(vs) as i32]
        }),
{
    let e = Seq::<i32>::empty();
    lemma_smooth_run_concat(e, k, flip_input, vs, seq![next]);
    assert(vs + seq![next] =~= vs.push(next));
    lemma_smooth_gather(e, k, flip_input, vs);
    assert(e + vs =~= vs);
    let m = mean_level(vs) as i32;
    let one = seq![next];
    assert(one[0] == next);
    assert(one.drop_first() =~= Seq::<i32>::empty());
    assert(smooth_step(vs, k, next, flip_input) == (seq![m], SmoothParser::Smoothed(m)));
    assert(smooth_run(seq![m], k, flip_input, Seq::<i32>::empty()) == (seq![m], Seq::<SmoothParser>::empty()));
    let (q2, ds2) = smooth_run(vs, k, flip_input, one);
    assert(ds2 =~= seq![SmoothParser::Smoothed(m)]);
}

/// Once a tick has passed, a non-zero input emits the integrated level lowered by
/// `rate_tune` (clamped to full range) and restarts the timer; when the input has not moved
/// since the last one, the emission is at most the saved level lowered by `rate_tune`.
pub proof fn lemma_rate_tick_lowers(p: RateProcessingValues, tune: int, v: i32, flip_input: bool, now_ms: u64)
    requires
        tick_due(p, now_ms),
        !rate_zero(v as int, flip_input),
    ensures
        rate_step(p, tune, v, flip_input, now_ms).1
            == RateParser::RateCalculated(clamp(rate_integrated(p, v as int) - tune, 0, FULL as int) as i32, true),
        v == p.rate_saved_osc_input && (p.rate_saved_level >= 0 || tune >= 0)
            ==> clamp(rate_integrated(p, v as int) - tune, 0, FULL as int)
                <= clamp(p.rate_saved_level - tune, 0, FULL as int),
        v == p.rate_saved_osc_input && 0 <= p.rate_saved_level <= FULL
            ==> clamp(rate_integrated(p, v as int) - tune, 0, FULL as int)
                == clamp(p.rate_saved_level - tune, 0, FULL as int),
{
}

} // verus!
