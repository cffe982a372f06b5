//! The per-toy dispatcher: turns one OSC sample into the device commands it causes.
use vstd::prelude::*;
use crate::levels::{lemma_conditioned_level, FULL, SAMPLE_LIMIT, sample_ok, round_hundredth, lemma_round_hundredth_close, clamp_and_flip, round_to_hundredth, LevelTweaks};
use crate::processing::{ProcessingMode, ModeProcessorInputType, mode_step, mode_processor_logic};
use crate::features::{ToyParameter, ActuatorKind, VCFeatureType, VCToyFeature, VCToyFeatures, FeatureView, ParameterView, PenetrationView, table_wf};
use crate::rate_limiter::{ToyRateLimiter, RateLimiterView, limiter_step};

verus! {

/// A command for one actuator of a device, with its level already conditioned.
#[derive(Clone, Copy, Debug, PartialEq, Eq, Structural)]
pub enum DeviceCommand {
    /// Set a scalar actuator of the given kind to `level`.
    Scalar { feature_index: u32, level: i32, actuator: ActuatorKind },
    /// Spin a rotator at `level` in the given direction.
    Rotate { feature_index: u32, level: i32, clockwise: bool },
    /// Move a linear actuator to `position` over `duration_ms`.
    Linear { feature_index: u32, duration_ms: u32, position: i32 },
}

/// The scalar actuator kind a feature kind is driven through.
pub open spec fn scalar_actuator(t: VCFeatureType) -> ActuatorKind {
    match t {
        VCFeatureType::Vibrator => ActuatorKind::Vibrate,
        VCFeatureType::Constrict => ActuatorKind::Constrict,
        VCFeatureType::Oscillate => ActuatorKind::Oscillate,
        VCFeatureType::Position => ActuatorKind::Position,
        VCFeatureType::Inflate => ActuatorKind::Inflate,
        VCFeatureType::ScalarRotator => ActuatorKind::Rotate,
        _ => ActuatorKind::Unknown,
    }
}

/// The command that drives a feature of kind `t` at processed level `level`.
pub open spec fn device_command(t: VCFeatureType, level: int, feature_index: u32, flip_input: bool, levels: LevelTweaks) -> DeviceCommand {
    let v = levels.condition(level, flip_input) as i32;
    match t {
        VCFeatureType::Rotator => DeviceCommand::Rotate { feature_index, level: v, clockwise: true },
        VCFeatureType::Linear => DeviceCommand::Linear { feature_index, duration_ms: levels.linear_position_speed, position: v },
        _ => DeviceCommand::Scalar { feature_index, level: v, actuator: scalar_actuator(t) },
    }
}

/// The command for feature `f` at `level`, if a level was produced.
pub open spec fn command_of(f: FeatureView, level: Option<i32>) -> Option<DeviceCommand> {
    match level {
        Some(v) => Some(device_command(f.feature_type, v as int, f.index, f.flip, f.levels)),
        None => None,
    }
}

/// Passes the planned commands, in order, through the rate limiter at time `now`.
pub open spec fn limit_planned(r: RateLimiterView, planned: Seq<Option<DeviceCommand>>, now: u64) -> (RateLimiterView, Seq<DeviceCommand>)
    decreases planned.len(),
{
    if planned.len() == 0 {
        (r, Seq::empty())
    } else {
        let (r1, out) = limit_planned(r, planned.drop_last(), now);
        match planned.last() {
            Some(c) => {
                let (r2, ok) = limiter_step(r1, now);
                (r2, if ok { out.push(c) } else { out })
            },
            None => (r1, out),
        }
    }
}

/// A float sample rounded to the hundredth; booleans pass unchanged.
pub open spec fn quantised(input: ModeProcessorInputType) -> ModeProcessorInputType {
    match input {
        ModeProcessorInputType::Float(v) => ModeProcessorInputType::Float(round_hundredth(v as int) as i32),
        ModeProcessorInputType::Boolean(b) => input,
    }
}

/// What the input processor pass does to feature `f`, given the processor's output `x`.
pub open spec fn feature_input_step(f: FeatureView, x: Option<i32>, now: u64) -> (FeatureView, Option<i32>) {
    match (f.pen, x) {
        (Some(p), Some(v)) => if !f.enabled {
            (f, None)
        } else if p.mode == ProcessingMode::Raw {
            (f, Some(v))
        } else {
            let (m2, out) = mode_step(p.values, ModeProcessorInputType::Float(v), f.levels, f.flip, now);
            (FeatureView { pen: Some(PenetrationView { values: m2, ..p }), ..f }, out)
        },
        _ => (f, None),
    }
}

/// Whether `j` is the first parameter of `ps` that listens to `addr`.
pub open spec fn first_match(ps: Seq<ParameterView>, addr: Seq<char>, j: int) -> bool {
    &&& 0 <= j < ps.len()
    &&& ps[j].parameter == addr
    &&& forall|k: int| 0 <= k < j ==> (#[trigger] ps[k]).parameter != addr
}

/// What the parameter pass does to feature `f`: an enabled feature runs the input through
/// the first of its parameters that listens to `addr`.
pub open spec fn feature_param_step(f: FeatureView, addr: Seq<char>, input: ModeProcessorInputType, now: u64) -> (FeatureView, Option<i32>) {
    if f.enabled && exists|j: int| first_match(f.parameters, addr, j) {
        let j = choose|j: int| first_match(f.parameters, addr, j);
        let (m2, out) = mode_step(f.parameters[j].mode, input, f.levels, f.flip, now);
        (FeatureView { parameters: f.parameters.update(j, ParameterView { mode: m2, ..f.parameters[j] }), ..f }, out)
    } else {
        (f, None)
    }
}

/// The processor output handed in for feature `i`; missing entries count as no output.
pub open spec fn output_at(outputs: Seq<Option<i32>>, i: int) -> Option<i32> {
    if 0 <= i < outputs.len() {
        outputs[i]
    } else {
        None
    }
}

/// Processor outputs are within the sample magnitude.
pub open spec fn outputs_ok(outputs: Seq<Option<i32>>) -> bool {
    forall|i: int| 0 <= i < outputs.len() ==> match #[trigger] outputs[i] {
        Some(v) => sample_ok(v as int),
        None => true,
    }
}

/// The table after the input processor pass.
pub open spec fn input_pass_table(fs: Seq<FeatureView>, outputs: Seq<Option<i32>>, now: u64) -> Seq<FeatureView> {
    Seq::new(fs.len(), |i: int| feature_input_step(fs[i], output_at(outputs, i), now).0)
}

/// The commands the input processor pass plans, one slot per feature.
pub open spec fn input_pass_commands(fs: Seq<FeatureView>, outputs: Seq<Option<i32>>, now: u64) -> Seq<Option<DeviceCommand>> {
    Seq::new(fs.len(), |i: int| command_of(fs[i], feature_input_step(fs[i], output_at(outputs, i), now).1))
}

/// The table after the parameter pass.
pub open spec fn param_pass_table(fs: Seq<FeatureView>, addr: Seq<char>, input: ModeProcessorInputType, now: u64) -> Seq<FeatureView> {
    Seq::new(fs.len(), |i: int| feature_param_step(fs[i], addr, input, now).0)
}

/// The commands the parameter pass plans, one slot per feature.
pub open spec fn param_pass_commands(fs: Seq<FeatureView>, addr: Seq<char>, input: ModeProcessorInputType, now: u64) -> Seq<Option<DeviceCommand>> {
    Seq::new(fs.len(), |i: int| command_of(fs[i], feature_param_step(fs[i], addr, input, now).1))
}

/// Builds the scalar command for a level: conditioned, and tagged with the actuator kind.
pub fn scalar_parse_levels_send_toy_cmd(
    scalar_level: i32,
    feature_index: u32,
    actuator_type: ActuatorKind,
    flip_float: bool,
    feature_levels: &LevelTweaks,
) -> (r: DeviceCommand)
    requires
        feature_levels.wf(),
    ensures
        r == (DeviceCommand::Scalar {
            feature_index,
            level: feature_levels.condition(scalar_level as int, flip_float) as i32,
            actuator: actuator_type,
        }),
{
    let level = clamp_and_flip(scalar_level, flip_float, feature_levels);
    DeviceCommand::Scalar { feature_index, level, actuator: actuator_type }
}

/// Builds the command that drives a feature of kind `feature_type` at `float_level`.
pub fn build_command(
    feature_type: VCFeatureType,
    float_level: i32,
    feature_index: u32,
    flip_float: bool,
    feature_levels: &LevelTweaks,
) -> (r: DeviceCommand)
    requires
        feature_levels.wf(),
    ensures
        r == device_command(feature_type, float_level as int, feature_index, flip_float, *feature_levels),
{
    match feature_type {
        VCFeatureType::Vibrator => scalar_parse_levels_send_toy_cmd(float_level, feature_index, ActuatorKind::Vibrate, flip_float, feature_levels),
        VCFeatureType::Rotator => {
            let level = clamp_and_flip(float_level, flip_float, feature_levels);
            DeviceCommand::Rotate { feature_index, level, clockwise: true }
        },
        VCFeatureType::Constrict => scalar_parse_levels_send_toy_cmd(float_level, feature_index, ActuatorKind::Constrict, flip_float, feature_levels),
        VCFeatureType::Oscillate => scalar_parse_levels_send_toy_cmd(float_level, feature_index, ActuatorKind::Oscillate, flip_float, feature_levels),
        VCFeatureType::Position => scalar_parse_levels_send_toy_cmd(float_level, feature_index, ActuatorKind::Position, flip_float, feature_levels),
        VCFeatureType::Inflate => scalar_parse_levels_send_toy_cmd(float_level, feature_index, ActuatorKind::Inflate, flip_float, feature_levels),
        VCFeatureType::Linear => {
            let position = clamp_and_flip(float_level, flip_float, feature_levels);
            DeviceCommand::Linear { feature_index, duration_ms: feature_levels.linear_position_speed, position }
        },
        VCFeatureType::ScalarRotator => scalar_parse_levels_send_toy_cmd(float_level, feature_index, ActuatorKind::Rotate, flip_float, feature_levels),
    }
}

/// The command for a feature at `float_level`, or `None` when the rate limiter drops it.
pub fn command_toy(
    limiter: &mut ToyRateLimiter,
    now: u64,
    feature_type: VCFeatureType,
    float_level: i32,
    feature_index: u32,
    flip_float: bool,
    feature_levels: &LevelTweaks,
) -> (r: Option<DeviceCommand>)
    requires
        feature_levels.wf(),
    ensures
        final(limiter)@ == limiter_step(old(limiter)@, now).0,
        r == if limiter_step(old(limiter)@, now).1 {
            Some(device_command(feature_type, float_level as int, feature_index, flip_float, *feature_levels))
        } else {
            None
        },
{
    if !limiter.can_send(now) {
        return None;
    }
    Some(build_command(feature_type, float_level, feature_index, flip_float, feature_levels))
}

/// Runs the input processor pass on one feature: the processor's output `x` goes to the
/// command as it is when the processor's mode is raw, else through that mode.
fn input_step(f: &mut VCToyFeature, x: Option<i32>, now: u64) -> (r: Option<i32>)
    requires
        old(f)@.wf(),
        match x {
            Some(v) => sample_ok(v as int),
            None => true,
        },
    ensures
        (final(f)@, r) == feature_input_step(old(f)@, x, now),
        final(f)@.wf(),
{
    let v = match x {
        None => { return None; },
        Some(v) => v,
    };
    if !f.feature_enabled {
        return None;
    }
    let levels = f.feature_levels;
    let flip = f.flip_input_float;
    match &mut f.penetration_system {
        None => None,
        Some(p) => {
            if p.pen_system_processing_mode == ProcessingMode::Raw {
                Some(v)
            } else {
                mode_processor_logic(ModeProcessorInputType::Float(v), &mut p.pen_system_processing_mode_values, &levels, flip, now)
            }
        },
    }
}

/// Runs the parameter pass on one feature.
fn param_step(f: &mut VCToyFeature, addr: &String, input: ModeProcessorInputType, now: u64) -> (r: Option<i32>)
    requires
        old(f)@.wf(),
        input.wf(),
    ensures
        (final(f)@, r) == feature_param_step(old(f)@, addr@, input, now),
        final(f)@.wf(),
{
    let ghost fv = f@;
    if !f.feature_enabled {
        return None;
    }
    let mut j: usize = 0;
    loop
        invariant
            j <= f.osc_parameters.len(),
            f@ == fv,
            forall|k: int| 0 <= k < j ==> (#[trigger] fv.parameters[k]).parameter != addr@,
        ensures
            j <= f.osc_parameters.len(),
            f@ == fv,
            forall|k: int| 0 <= k < j ==> (#[trigger] fv.parameters[k]).parameter != addr@,
            j < f.osc_parameters.len() ==> fv.parameters[j as int].parameter == addr@,
        decreases f.osc_parameters.len() - j,
    {
        if j == f.osc_parameters.len() {
            break;
        }
        assert(fv.parameters[j as int] == f.osc_parameters@[j as int]@);
        if f.osc_parameters[j].parameter == *addr {
            break;
        }
        j = j + 1;
    }
    if j == f.osc_parameters.len() {
        proof {
            assert forall|k: int| !first_match(fv.parameters, addr@, k) by {}
        }
        return None;
    }
    proof {
        assert(first_match(fv.parameters, addr@, j as int));
        let c = choose|c: int| first_match(fv.parameters, addr@, c);
        assert(c == j as int) by {
            if c < j as int {
                assert(fv.parameters[c].parameter != addr@);
            }
            if c > j as int {
                assert(fv.parameters[j as int].parameter != addr@);
            }
        }
        assert(fv.parameters[j as int].mode.wf());
    }
    let levels = f.feature_levels;
    let flip = f.flip_input_float;
    let ghost before = f.osc_parameters@;
    let r = mode_processor_logic(input, &mut f.osc_parameters[j].processing_mode_values, &levels, flip, now);
    proof {
        let ghost m2 = f.osc_parameters@[j as int].processing_mode_values@;
        assert(f.osc_parameters@.map_values(|p: ToyParameter| p@) =~=
            fv.parameters.update(j as int, ParameterView { mode: m2, ..fv.parameters[j as int] }));
        let nf = f@;
        assert forall|k: int| 0 <= k < nf.parameters.len() implies (#[trigger] nf.parameters[k]).mode.wf() by {
            if k != j as int {
                assert(nf.parameters[k] == fv.parameters[k]);
            }
        }
    }
    r
}

/// The input processor pass over the whole table: each feature takes the output its
/// processor handed in for this message. Returns the planned command of each feature.
pub fn input_processor_pass(features: &mut VCToyFeatures, outputs: &Vec<Option<i32>>, now: u64) -> (r: Vec<Option<DeviceCommand>>)
    requires
        table_wf(old(features)@),
        outputs_ok(outputs@),
    ensures
        final(features)@ == input_pass_table(old(features)@, outputs@, now),
        r@ == input_pass_commands(old(features)@, outputs@, now),
        table_wf(final(features)@),
{
    let ghost start = features@;
    let mut planned: Vec<Option<DeviceCommand>> = Vec::new();
    let mut i: usize = 0;
    while i < features.features.len()
        invariant
            i <= features.features.len(),
            features@.len() == start.len(),
            outputs_ok(outputs@),
            table_wf(start),
            forall|k: int| 0 <= k < i ==> #[trigger] features@[k] == feature_input_step(start[k], output_at(outputs@, k), now).0,
            forall|k: int| i <= k < start.len() ==> #[trigger] features@[k] == start[k],
            forall|k: int| 0 <= k < i ==> (#[trigger] features@[k]).wf(),
            planned@ == Seq::new(i as nat, |k: int| command_of(start[k], feature_input_step(start[k], output_at(outputs@, k), now).1)),
        decreases features.features.len() - i,
    {
        let x = if i < outputs.len() { outputs[i] } else { None };
        assert(x == output_at(outputs@, i as int));
        assert(features@[i as int] == features.features@[i as int]@);
        let ghost before = features.features@;
        let ghost before_v = features@;
        let out = input_step(&mut features.features[i], x, now);
        proof {
            assert forall|k: int| 0 <= k < features@.len() && k != i implies #[trigger] features@[k] == before_v[k] by {
                assert(features.features@[k] == before[k]);
            }
            assert(features@[i as int] == features.features@[i as int]@);
        }
        let cmd = match out {
            Some(v) => {
                let f = &features.features[i];
                Some(build_command(f.feature_type, v, f.feature_index, f.flip_input_float, &f.feature_levels))
            },
            None => None,
        };
        planned.push(cmd);
        proof {
            assert(planned@ =~= Seq::new((i + 1) as nat, |k: int| command_of(start[k], feature_input_step(start[k], output_at(outputs@, k), now).1)));
        }
        i = i + 1;
    }
    assert(features@ =~= input_pass_table(start, outputs@, now));
    planned
}

/// The parameter pass over the whole table: every enabled feature that listens to `addr`
/// takes the input through its first such parameter. Returns the planned command of each
/// feature.
pub fn parameter_pass(features: &mut VCToyFeatures, addr: &String, input: ModeProcessorInputType, now: u64) -> (r: Vec<Option<DeviceCommand>>)
    requires
        table_wf(old(features)@),
        input.wf(),
    ensures
        final(features)@ == param_pass_table(old(features)@, addr@, input, now),
        r@ == param_pass_commands(old(features)@, addr@, input, now),
        table_wf(final(features)@),
{
    let ghost start = features@;
    let mut planned: Vec<Option<DeviceCommand>> = Vec::new();
    let mut i: usize = 0;
    while i < features.features.len()
        invariant
            i <= features.features.len(),
            features@.len() == start.len(),
            input.wf(),
            table_wf(start),
            forall|k: int| 0 <= k < i ==> #[trigger] features@[k] == feature_param_step(start[k], addr@, input, now).0,
            forall|k: int| i <= k < start.len() ==> #[trigger] features@[k] == start[k],
            forall|k: int| 0 <= k < i ==> (#[trigger] features@[k]).wf(),
            planned@ == Seq::new(i as nat, |k: int| command_of(start[k], feature_param_step(start[k], addr@, input, now).1)),
        decreases features.features.len() - i,
    {
        assert(features@[i as int] == features.features@[i as int]@);
        let ghost before = features.features@;
        let ghost before_v = features@;
        let out = param_step(&mut features.features[i], addr, input, now);
        proof {
            assert forall|k: int| 0 <= k < features@.len() && k != i implies #[trigger] features@[k] == before_v[k] by {
                assert(features.features@[k] == before[k]);
            }
            assert(features@[i as int] == features.features@[i as int]@);
        }
        let cmd = match out {
            Some(v) => {
                let f = &features.features[i];
                Some(build_command(f.feature_type, v, f.feature_index, f.flip_input_float, &f.feature_levels))
            },
            None => None,
        };
        planned.push(cmd);
        proof {
            assert(planned@ =~= Seq::new((i + 1) as nat, |k: int| command_of(start[k], feature_param_step(start[k], addr@, input, now).1)));
        }
        i = i + 1;
    }
    assert(features@ =~= param_pass_table(start, addr@, input, now));
    planned
}

/// Sends the planned commands, in order, through the rate limiter; returns those let through.
pub fn send_planned(limiter: &mut ToyRateLimiter, planned: &Vec<Option<DeviceCommand>>, now: u64) -> (r: Vec<DeviceCommand>)
    ensures
        (final(limiter)@, r@) == limit_planned(old(limiter)@, planned@, now),
{
    let ghost start = limiter@;
    let mut sent: Vec<DeviceCommand> = Vec::new();
    let mut i: usize = 0;
    while i < planned.len()
        invariant
            i <= planned.len(),
            (limiter@, sent@) == limit_planned(start, planned@.subrange(0, i as int), now),
        decreases planned.len() - i,
    {
        assert(planned@.subrange(0, i as int + 1).drop_last() =~= planned@.subrange(0, i as int));
        match planned[i] {
            Some(c) => {
                if limiter.can_send(now) {
                    sent.push(c);
                }
            },
            None => {},
        }
        i = i + 1;
    }
    assert(planned@.subrange(0, planned.len() as int) =~= planned@);
    sent
}

/// Rounds a float input to the hundredth.
pub fn quantise(input: ModeProcessorInputType) -> (r: ModeProcessorInputType)
    requires
        input.wf(),
    ensures
        r == quantised(input),
        r.wf(),
{
    match input {
        ModeProcessorInputType::Float(v) => {
            proof {
                lemma_round_hundredth_close(v as int);
                let q = round_hundredth(v as int);
                assert(sample_ok(q)) by {
                    assert(q % 100 == 0);
                    if q > SAMPLE_LIMIT {
                        assert(q >= SAMPLE_LIMIT + 100) by (nonlinear_arith) requires q % 100 == 0, q > 1_000_000_000;
                    }
                    if q < -SAMPLE_LIMIT {
                        assert(q <= -SAMPLE_LIMIT - 100) by (nonlinear_arith) requires q % 100 == 0, q < -1_000_000_000;
                    }
                }
            }
            ModeProcessorInputType::Float(round_to_hundredth(v as i64) as i32)
        },
        ModeProcessorInputType::Boolean(_) => input,
    }
}

/// Everything one OSC message on `addr` does to a toy: first the input processor pass
/// (with the outputs its processors handed in), then the parameter pass with the input
/// rounded to the hundredth; the planned commands of both passes, in that order, go
/// through the rate limiter, and those let through are returned.
pub fn parse_osc_message(
    features: &mut VCToyFeatures,
    addr: &String,
    input: ModeProcessorInputType,
    outputs: &Vec<Option<i32>>,
    now: u64,
    limiter: &mut ToyRateLimiter,
) -> (r: Vec<DeviceCommand>)
    requires
        table_wf(old(features)@),
        input.wf(),
        outputs_ok(outputs@),
    ensures
        ({
            let fs0 = old(features)@;
            let fs1 = input_pass_table(fs0, outputs@, now);
            let q = quantised(input);
            &&& final(features)@ == param_pass_table(fs1, addr@, q, now)
            &&& (final(limiter)@, r@) == limit_planned(
                old(limiter)@,
                input_pass_commands(fs0, outputs@, now) + param_pass_commands(fs1, addr@, q, now),
                now,
            )
        }),
        table_wf(final(features)@),
{
    let mut planned = input_processor_pass(features, outputs, now);
    let q = quantise(input);
    let mut second = parameter_pass(features, addr, q, now);
    planned.append(&mut second);
    send_planned(limiter, &planned, now)
}

/// The level (or position) a command carries.
pub open spec fn command_level(c: DeviceCommand) -> int {
    match c {
        DeviceCommand::Scalar { level, .. } => level as int,
        DeviceCommand::Rotate { level, .. } => level as int,
        DeviceCommand::Linear { position, .. } => position as int,
    }
}

/// Every planned command carries a level within full range.
pub open spec fn planned_in_range(planned: Seq<Option<DeviceCommand>>) -> bool {
    forall|i: int| 0 <= i < planned.len() ==> match #[trigger] planned[i] {
        Some(c) => 0 <= command_level(c) <= FULL,
        None => true,
    }
}

proof fn lemma_command_in_range(f: FeatureView, level: Option<i32>)
    requires
        f.levels.wf(),
    ensures
        match command_of(f, level) {
            Some(c) => 0 <= command_level(c) <= FULL,
            None => true,
        },
{
    if let Some(v) = level {
        lemma_conditioned_level(f.levels, v as int, f.flip);
    }
}

proof fn lemma_limit_in_range(r: RateLimiterView, planned: Seq<Option<DeviceCommand>>, now: u64)
    requires
        planned_in_range(planned),
    ensures
        forall|k: int| 0 <= k < limit_planned(r, planned, now).1.len() ==>
            0 <= command_level(#[trigger] limit_planned(r, planned, now).1[k]) <= FULL,
    decreases planned.len(),
{
    if planned.len() > 0 {
        let d = planned.drop_last();
        assert forall|i: int| 0 <= i < d.len() implies match #[trigger] d[i] {
            Some(c) => 0 <= command_level(c) <= FULL,
            None => true,
        } by {
            assert(d[i] == planned[i]);
        }
        lemma_limit_in_range(r, d, now);
        assert(match planned[planned.len() - 1] {
            Some(c) => 0 <= command_level(c) <= FULL,
            None => true,
        });
        let (r1, out) = limit_planned(r, d, now);
        let res = limit_planned(r, planned, now).1;
        if let Some(c) = planned.last() {
            let (r2, ok) = limiter_step(r1, now);
            if ok {
                assert(res == out.push(c));
                assert forall|k: int| 0 <= k < res.len() implies 0 <= command_level(#[trigger] res[k]) <= FULL by {
                    if k < out.len() {
                        assert(res[k] == out[k]);
                    }
                }
            }
        }
    }
}

/// Every command that one OSC message sends to a toy with a well-formed table carries a
/// level within full range (the level is the conditioned one, see `LevelTweaks::condition`).
pub proof fn lemma_emitted_levels_in_range(
    fs: Seq<FeatureView>,
    outputs: Seq<Option<i32>>,
    addr: Seq<char>,
    input: ModeProcessorInputType,
    now: u64,
    r: RateLimiterView,
)
    requires
        table_wf(fs),
    ensures
        ({
            let fs1 = input_pass_table(fs, outputs, now);
            let sent = limit_planned(
                r,
                input_pass_commands(fs, outputs, now) + param_pass_commands(fs1, addr, quantised(input), now),
                now,
            ).1;
            forall|k: int| 0 <= k < sent.len() ==> 0 <= command_level(#[trigger] sent[k]) <= FULL
        }),
{
    let fs1 = input_pass_table(fs, outputs, now);
    let a = input_pass_commands(fs, outputs, now);
    let b = param_pass_commands(fs1, addr, quantised(input), now);
    assert forall|i: int| 0 <= i < a.len() implies match #[trigger] a[i] {
        Some(c) => 0 <= command_level(c) <= FULL,
        None => true,
    } by {
        assert(fs[i].wf());
        lemma_command_in_range(fs[i], feature_input_step(fs[i], output_at(outputs, i), now).1);
    }
    assert forall|i: int| 0 <= i < b.len() implies match #[trigger] b[i] {
        Some(c) => 0 <= command_level(c) <= FULL,
        None => true,
    } by {
        assert(fs[i].wf());
        assert(fs1[i].levels == fs[i].levels);
        lemma_command_in_range(fs1[i], feature_param_step(fs1[i], addr, quantised(input), now).1);
    }
    let ab = a + b;
    assert forall|i: int| 0 <= i < ab.len() implies match #[trigger] ab[i] {
        Some(c) => 0 <= command_level(c) <= FULL,
        None => true,
    } by {
        if i < a.len() {
            assert(ab[i] == a[i]);
        } else {
            assert(ab[i] == b[i - a.len()]);
        }
    }
    lemma_limit_in_range(r, ab, now);
}

/// What a toy's dispatcher receives on the broadcast channel.
#[derive(Clone, Debug)]
pub enum ToySig {
    /// An OSC sample on an address.
    OSCMsg(String, ModeProcessorInputType),
    /// A new feature table for the toy with this id.
    UpdateToy(u32, VCToyFeatures),
}

/// Replaces the feature table when the update is for this device.
pub fn update_toy(toy_id: u32, new_features: VCToyFeatures, device_index: u32, vc_toy_features: &mut VCToyFeatures)
    ensures
        final(vc_toy_features)@ == if toy_id == device_index { new_features@ } else { old(vc_toy_features)@ },
{
    if toy_id != device_index {
        return;
    }
    *vc_toy_features = new_features;
}

/// One signal taken by the dispatcher of device `device_index`: a sample is processed and
/// yields the commands to send; an update for this device replaces the table wholesale (an
/// update for another device is ignored). A table sent as an update must be well formed:
/// the sender tests it with `VCToyFeatures::check`.
pub fn dispatch_signal(
    sig: ToySig,
    device_index: u32,
    features: &mut VCToyFeatures,
    outputs: &Vec<Option<i32>>,
    now: u64,
    limiter: &mut ToyRateLimiter,
) -> (r: Vec<DeviceCommand>)
    requires
        table_wf(old(features)@),
        outputs_ok(outputs@),
        match sig {
            ToySig::OSCMsg(_, input) => input.wf(),
            ToySig::UpdateToy(_, t) => table_wf(t@),
        },
    ensures
        table_wf(final(features)@),
        match sig {
            ToySig::OSCMsg(addr, input) => {
                let fs1 = input_pass_table(old(features)@, outputs@, now);
                let q = quantised(input);
                &&& final(features)@ == param_pass_table(fs1, addr@, q, now)
                &&& (final(limiter)@, r@) == limit_planned(
                    old(limiter)@,
                    input_pass_commands(old(features)@, outputs@, now) + param_pass_commands(fs1, addr@, q, now),
                    now,
                )
            },
            ToySig::UpdateToy(id, t) => {
                &&& final(features)@ == if id == device_index { t@ } else { old(features)@ }
                &&& final(limiter)@ == old(limiter)@
                &&& r@.len() == 0
            },
        },
{
    match sig {
        ToySig::OSCMsg(addr, input) => parse_osc_message(features, &addr, input, outputs, now, limiter),
        ToySig::UpdateToy(id, t) => {
            update_toy(id, t, device_index, features);
            Vec::new()
        },
    }
}

} // verus!
