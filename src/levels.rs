//! Fixed-point levels, the per-feature tweaks, and the clamp / flip conditioning.
use vstd::prelude::*;

verus! {

/// The fixed-point value that stands for full power (1.0).
pub const FULL: i32 = 10000;

/// One hundredth of [`FULL`]: the grain that levels are rounded to.
pub const STEP: i32 = 100;

/// Largest magnitude of a sample that the processors take: 100000.0 in fixed point.
pub const SAMPLE_LIMIT: i32 = 1_000_000_000;

/// Whether `v` is within the magnitude that the processors take.
pub open spec fn sample_ok(v: int) -> bool {
    -SAMPLE_LIMIT <= v <= SAMPLE_LIMIT
}

/// The integer nearest to `n / d`, ties away from zero (as `f64::round` does).
pub open spec fn round_div(n: int, d: int) -> int
    recommends
        d > 0,
{
    if n >= 0 {
        (2 * n + d) / (2 * d)
    } else {
        -((-2 * n + d) / (2 * d))
    }
}

/// `x` rounded to the nearest hundredth, ties away from zero.
pub open spec fn round_hundredth(x: int) -> int {
    round_div(x, STEP as int) * STEP
}

/// `x` limited to `[lo, hi]`.
pub open spec fn clamp(x: int, lo: int, hi: int) -> int {
    if x < lo {
        lo
    } else if x > hi {
        hi
    } else {
        x
    }
}

/// A level inverted around full power, rounded to the hundredth.
pub open spec fn flip(x: int) -> int {
    round_hundredth(FULL - x)
}

/// Whether `x` lies on the hundredth grid.
pub open spec fn on_grid(x: int) -> bool {
    x % (STEP as int) == 0
}

/// Per-feature bounds and shaping parameters.
#[derive(Clone, Copy, Debug, PartialEq, Eq, Structural)]
pub struct LevelTweaks {
    /// Lowest level a non-idle command may carry.
    pub minimum_level: i32,
    /// Highest level a command may carry.
    pub maximum_level: i32,
    /// Level sent for a zero input.
    pub idle_level: i32,
    /// Number of samples averaged in smooth mode.
    pub smooth_rate: u32,
    /// Movement duration in milliseconds for linear actuators.
    pub linear_position_speed: u32,
    /// Decrement applied by rate mode on each tick.
    pub rate_tune: i32,
    /// Level that constant mode drives at.
    pub constant_level: i32,
}

impl LevelTweaks {
    /// Levels within full range, minimum not above maximum, and a positive smoothing count.
    pub open spec fn wf(&self) -> bool {
        &&& 0 <= self.minimum_level <= self.maximum_level <= FULL
        &&& 0 <= self.idle_level <= FULL
        &&& 0 <= self.constant_level <= FULL
        &&& self.smooth_rate >= 1
    }

    /// What a conditioned command carries for the processed level `v`.
    pub open spec fn condition(&self, v: int, flip_input: bool) -> int {
        let base = if v == 0 {
            self.idle_level as int
        } else {
            clamp(v, self.minimum_level as int, self.maximum_level as int)
        };
        if flip_input {
            flip(base)
        } else {
            base
        }
    }
}

impl Default for LevelTweaks {
    fn default() -> (r: Self)
        ensures
            r.minimum_level == 0,
            r.maximum_level == FULL,
            r.idle_level == 0,
            r.smooth_rate == 2,
            r.linear_position_speed == 100,
            r.rate_tune == 40 * STEP,
            r.constant_level == 0,
            r.wf(),
    {
        LevelTweaks {
            minimum_level: 0,
            maximum_level: FULL,
            idle_level: 0,
            smooth_rate: 2,
            linear_position_speed: 100,
            rate_tune: 40 * STEP,
            constant_level: 0,
        }
    }
}

/// Rounding to the hundredth moves a value by at most half a hundredth.
pub proof fn lemma_round_hundredth_close(x: int)
    ensures
        x - STEP / 2 <= round_hundredth(x) <= x + STEP / 2,
        on_grid(round_hundredth(x)),
        x >= 0 ==> round_hundredth(x) == (x + STEP / 2) / (STEP as int) * STEP,
        x < 0 ==> round_hundredth(x) == -((-x + STEP / 2) / (STEP as int) * STEP),
{
    if x >= 0 {
        assert((2 * x + 100) / 200 == (x + 50) / 100) by (nonlinear_arith);
        assert(x - 50 <= (x + 50) / 100 * 100 <= x + 50) by (nonlinear_arith);
        assert(((x + 50) / 100 * 100) % 100 == 0) by (nonlinear_arith);
    } else {
        assert((-2 * x + 100) / 200 == (-x + 50) / 100) by (nonlinear_arith) requires x < 0;
        assert(-x - 50 <= (-x + 50) / 100 * 100 <= -x + 50) by (nonlinear_arith) requires x < 0;
        assert((-((-x + 50) / 100 * 100)) % 100 == 0) by (nonlinear_arith) requires x < 0;
    }
}

/// Rounds `x` to the nearest hundredth, ties away from zero.
pub fn round_to_hundredth(x: i64) -> (r: i64)
    requires
        i64::MIN + STEP <= x <= i64::MAX - STEP,
    ensures
        r == round_hundredth(x as int),
{
    proof {
        lemma_round_hundredth_close(x as int);
    }
    if x >= 0 {
        (x + STEP as i64 / 2) / (STEP as i64) * STEP as i64
    } else {
        -((-x + STEP as i64 / 2) / (STEP as i64) * STEP as i64)
    }
}

/// Inverts a level: `1.00 - orig`, rounded to the hundredth.
pub fn flip_float64(orig: i32) -> (r: i32)
    requires
        orig >= i32::MIN + 2 * FULL,
    ensures
        r == flip(orig as int),
{
    proof {
        lemma_round_hundredth_close(FULL - orig);
    }
    let r = round_to_hundredth(FULL as i64 - orig as i64);
    r as i32
}

/// A level in full range stays in full range when flipped.
pub proof fn lemma_flip_in_range(x: int)
    requires
        0 <= x <= FULL,
    ensures
        0 <= flip(x) <= FULL,
{
    lemma_round_hundredth_close(FULL - x);
    let y = FULL - x;
    assert(0 <= (y + 50) / 100 * 100 <= 10000) by (nonlinear_arith) requires 0 <= y <= 10000;
}

/// Flipping twice gives back the level, up to rounding to the hundredth: the result is
/// `1.00 - round(1.00 - x)`, which is `x` itself when `x` is on the hundredth grid.
pub proof fn lemma_flip_twice(x: int)
    ensures
        flip(flip(x)) == FULL - round_hundredth(FULL - x),
        on_grid(x) ==> flip(flip(x)) == x,
{
    let y = round_hundredth(FULL - x);
    lemma_round_hundredth_close(FULL - x);
    let z = FULL - y;
    assert(z % 100 == 0);
    lemma_round_hundredth_close(z);
    if z >= 0 {
        assert((z + 50) / 100 * 100 == z) by (nonlinear_arith) requires z >= 0, z % 100 == 0;
    } else {
        assert((-z + 50) / 100 * 100 == -z) by (nonlinear_arith) requires z < 0, z % 100 == 0;
    }
    if on_grid(x) {
        let w = FULL - x;
        assert(w % 100 == 0);
        if w >= 0 {
            assert((w + 50) / 100 * 100 == w) by (nonlinear_arith) requires w >= 0, w % 100 == 0;
        } else {
            assert((-w + 50) / 100 * 100 == -w) by (nonlinear_arith) requires w < 0, w % 100 == 0;
        }
    }
}

/// Conditions a processed level for a command: a zero level becomes the idle level, any
/// other is clamped to `[minimum_level, maximum_level]`, and the result is flipped on request.
pub fn clamp_and_flip(value: i32, flip_input: bool, levels: &LevelTweaks) -> (r: i32)
    requires
        levels.wf(),
    ensures
        r == levels.condition(value as int, flip_input),
        0 <= r <= FULL,
{
    let base = if value == 0 {
        levels.idle_level
    } else if value < levels.minimum_level {
        levels.minimum_level
    } else if value > levels.maximum_level {
        levels.maximum_level
    } else {
        value
    };
    if flip_input {
        proof {
            lemma_flip_in_range(base as int);
        }
        flip_float64(base)
    } else {
        base
    }
}

/// Every conditioned level is in full range, and is the idle level or the clamped level,
/// flipped when the feature flips its input.
pub proof fn lemma_conditioned_level(levels: LevelTweaks, v: int, flip_input: bool)
    requires
        levels.wf(),
    ensures
        0 <= levels.condition(v, flip_input) <= FULL,
        ({
            let pick = |b: int| if flip_input { flip(b) } else { b };
            ||| levels.condition(v, flip_input) == pick(levels.idle_level as int)
            ||| levels.condition(v, flip_input) == pick(
                clamp(v, levels.minimum_level as int, levels.maximum_level as int),
            )
        }),
{
    let base = if v == 0 {
        levels.idle_level as int
    } else {
        clamp(v, levels.minimum_level as int, levels.maximum_level as int)
    };
    lemma_flip_in_range(base);
}

} // verus!
