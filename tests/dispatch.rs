use vibecheck_core::dispatch::{dispatch_signal, parse_osc_message, DeviceCommand, ToySig};
use vibecheck_core::features::{ActuatorKind, VCFeatureType, VCToyFeature, VCToyFeatures};
use vibecheck_core::levels::LevelTweaks;
use vibecheck_core::processing::{ModeProcessorInputType, ProcessingMode, ProcessingModeValues};
use vibecheck_core::rate_limiter::ToyRateLimiter;

fn table_with(feature_type: VCFeatureType, name: &str, mode: ProcessingMode, levels: LevelTweaks) -> VCToyFeatures {
    let mut f = VCToyFeature::new(name.to_string(), 0, feature_type);
    f.osc_parameters[0].processing_mode_values = ProcessingModeValues::new(mode);
    f.feature_levels = levels;
    let mut t = VCToyFeatures::new();
    t.features.push(f);
    t
}

fn send(t: &mut VCToyFeatures, lim: &mut ToyRateLimiter, addr: &str, input: ModeProcessorInputType, now: u64) -> Vec<DeviceCommand> {
    parse_osc_message(t, &addr.to_string(), input, &vec![], now, lim)
}

#[test]
fn raw_passthrough_sends_one_scalar_command() {
    let addr = "/avatar/parameters/Vibrator_0";
    let mut t = table_with(VCFeatureType::Vibrator, addr, ProcessingMode::Raw, LevelTweaks::default());
    let mut lim = ToyRateLimiter::new(10);
    let cmds = send(&mut t, &mut lim, addr, ModeProcessorInputType::Float(3700), 1000);
    assert_eq!(cmds, vec![DeviceCommand::Scalar { feature_index: 0, level: 3700, actuator: ActuatorKind::Vibrate }]);
}

#[test]
fn raw_input_is_rounded_to_the_hundredth() {
    let addr = "/avatar/parameters/Vibrator_0";
    let mut t = table_with(VCFeatureType::Vibrator, addr, ProcessingMode::Raw, LevelTweaks::default());
    let mut lim = ToyRateLimiter::new(10);
    let cmds = send(&mut t, &mut lim, addr, ModeProcessorInputType::Float(3651), 1000);
    assert_eq!(cmds, vec![DeviceCommand::Scalar { feature_index: 0, level: 3700, actuator: ActuatorKind::Vibrate }]);
}

#[test]
fn other_addresses_send_nothing() {
    let addr = "/avatar/parameters/Vibrator_0";
    let mut t = table_with(VCFeatureType::Vibrator, addr, ProcessingMode::Raw, LevelTweaks::default());
    let mut lim = ToyRateLimiter::new(10);
    let cmds = send(&mut t, &mut lim, "/avatar/parameters/Other", ModeProcessorInputType::Float(3700), 1000);
    assert!(cmds.is_empty());
}

#[test]
fn disabled_feature_sends_nothing() {
    let addr = "/avatar/parameters/Vibrator_0";
    let mut t = table_with(VCFeatureType::Vibrator, addr, ProcessingMode::Raw, LevelTweaks::default());
    t.features[0].feature_enabled = false;
    let mut lim = ToyRateLimiter::new(10);
    assert!(send(&mut t, &mut lim, addr, ModeProcessorInputType::Float(3700), 1000).is_empty());
}

#[test]
fn smoothing_emits_mean_after_window_and_zero_clears() {
    let addr = "/avatar/parameters/Vibrator_0";
    let mut levels = LevelTweaks::default();
    levels.smooth_rate = 3;
    let mut t = table_with(VCFeatureType::Vibrator, addr, ProcessingMode::Smooth, levels);
    let mut lim = ToyRateLimiter::new(10);
    assert!(send(&mut t, &mut lim, addr, ModeProcessorInputType::Float(1000), 1000).is_empty());
    assert!(send(&mut t, &mut lim, addr, ModeProcessorInputType::Float(2000), 2000).is_empty());
    assert!(send(&mut t, &mut lim, addr, ModeProcessorInputType::Float(6000), 3000).is_empty());
    // The window is full: a zero empties it and is sent at once, as the idle level.
    let cmds = send(&mut t, &mut lim, addr, ModeProcessorInputType::Float(0), 4000);
    assert_eq!(cmds, vec![DeviceCommand::Scalar { feature_index: 0, level: 0, actuator: ActuatorKind::Vibrate }]);
    match &t.features[0].osc_parameters[0].processing_mode_values {
        ProcessingModeValues::Smooth(v) => assert!(v.smooth_queue.is_empty()),
        _ => panic!("mode changed"),
    }
}

#[test]
fn smoothing_mean_comes_with_the_next_sample() {
    let addr = "/avatar/parameters/Vibrator_0";
    let mut levels = LevelTweaks::default();
    levels.smooth_rate = 3;
    let mut t = table_with(VCFeatureType::Vibrator, addr, ProcessingMode::Smooth, levels);
    let mut lim = ToyRateLimiter::new(10);
    assert!(send(&mut t, &mut lim, addr, ModeProcessorInputType::Float(1000), 1000).is_empty());
    assert!(send(&mut t, &mut lim, addr, ModeProcessorInputType::Float(2000), 2000).is_empty());
    assert!(send(&mut t, &mut lim, addr, ModeProcessorInputType::Float(6000), 3000).is_empty());
    let cmds = send(&mut t, &mut lim, addr, ModeProcessorInputType::Float(5000), 4000);
    assert_eq!(cmds, vec![DeviceCommand::Scalar { feature_index: 0, level: 3000, actuator: ActuatorKind::Vibrate }]);
}

#[test]
fn rate_integration_and_tick() {
    let addr = "/avatar/parameters/Vibrator_0";
    let mut t = table_with(VCFeatureType::Vibrator, addr, ProcessingMode::Rate, LevelTweaks::default());
    let mut lim = ToyRateLimiter::new(1000);
    let level = |c: &Vec<DeviceCommand>| match c[0] {
        DeviceCommand::Scalar { level, .. } => level,
        _ => panic!("not a scalar command"),
    };
    assert_eq!(level(&send(&mut t, &mut lim, addr, ModeProcessorInputType::Float(2000), 10_000)), 2000);
    assert_eq!(level(&send(&mut t, &mut lim, addr, ModeProcessorInputType::Float(5000), 10_050)), 5000);
    assert_eq!(level(&send(&mut t, &mut lim, addr, ModeProcessorInputType::Float(9000), 10_100)), 9000);
    assert_eq!(level(&send(&mut t, &mut lim, addr, ModeProcessorInputType::Float(9000), 10_300)), 5000);
}

#[test]
fn constant_with_boolean() {
    let addr = "/avatar/parameters/Constrict_0";
    let mut levels = LevelTweaks::default();
    levels.constant_level = 7500;
    let mut t = table_with(VCFeatureType::Constrict, addr, ProcessingMode::Constant, levels);
    let mut lim = ToyRateLimiter::new(10);
    let on = send(&mut t, &mut lim, addr, ModeProcessorInputType::Boolean(true), 1000);
    assert_eq!(on, vec![DeviceCommand::Scalar { feature_index: 0, level: 7500, actuator: ActuatorKind::Constrict }]);
    let off = send(&mut t, &mut lim, addr, ModeProcessorInputType::Boolean(false), 2000);
    assert_eq!(off, vec![DeviceCommand::Scalar { feature_index: 0, level: 0, actuator: ActuatorKind::Constrict }]);
}

#[test]
fn rate_limiter_burst_sends_at_most_one() {
    let addr = "/avatar/parameters/Vibrator_0";
    let mut t = table_with(VCFeatureType::Vibrator, addr, ProcessingMode::Raw, LevelTweaks::default());
    let mut lim = ToyRateLimiter::new(10);
    let mut sent = 0;
    for k in 0..100u64 {
        sent += send(&mut t, &mut lim, addr, ModeProcessorInputType::Float(5000), 5000 + k / 2).len();
    }
    assert_eq!(sent, 1);
}

#[test]
fn rotator_and_linear_commands() {
    let mut levels = LevelTweaks::default();
    levels.linear_position_speed = 250;
    let mut t = table_with(VCFeatureType::Rotator, "/r", ProcessingMode::Raw, levels);
    let mut lim = ToyRateLimiter::new(1000);
    assert_eq!(
        send(&mut t, &mut lim, "/r", ModeProcessorInputType::Float(4000), 1000),
        vec![DeviceCommand::Rotate { feature_index: 0, level: 4000, clockwise: true }]
    );
    let mut t = table_with(VCFeatureType::Linear, "/l", ProcessingMode::Raw, levels);
    assert_eq!(
        send(&mut t, &mut lim, "/l", ModeProcessorInputType::Float(4000), 2000),
        vec![DeviceCommand::Linear { feature_index: 0, duration_ms: 250, position: 4000 }]
    );
    let mut t = table_with(VCFeatureType::ScalarRotator, "/s", ProcessingMode::Raw, levels);
    assert_eq!(
        send(&mut t, &mut lim, "/s", ModeProcessorInputType::Float(4000), 3000),
        vec![DeviceCommand::Scalar { feature_index: 0, level: 4000, actuator: ActuatorKind::Rotate }]
    );
}

#[test]
fn flipped_and_clamped_levels() {
    let addr = "/a";
    let mut levels = LevelTweaks::default();
    levels.minimum_level = 2000;
    levels.maximum_level = 8000;
    let mut t = table_with(VCFeatureType::Vibrator, addr, ProcessingMode::Raw, levels);
    t.features[0].flip_input_float = true;
    let mut lim = ToyRateLimiter::new(1000);
    // 0.95 is clamped to 0.80, then flipped to 0.20.
    assert_eq!(
        send(&mut t, &mut lim, addr, ModeProcessorInputType::Float(9500), 1000),
        vec![DeviceCommand::Scalar { feature_index: 0, level: 2000, actuator: ActuatorKind::Vibrate }]
    );
}

#[test]
fn input_processor_output_goes_first() {
    let addr = "/a";
    let mut t = table_with(VCFeatureType::Vibrator, addr, ProcessingMode::Raw, LevelTweaks::default());
    t.features[0].penetration_system = Some(vibecheck_core::features::PenetrationSystem {
        pen_system_processing_mode: ProcessingMode::Raw,
        pen_system_processing_mode_values: ProcessingModeValues::new(ProcessingMode::Raw),
    });
    let mut lim = ToyRateLimiter::new(1001);
    let cmds = parse_osc_message(&mut t, &addr.to_string(), ModeProcessorInputType::Float(3000), &vec![Some(6000)], 1000, &mut lim);
    assert_eq!(
        cmds,
        vec![
            DeviceCommand::Scalar { feature_index: 0, level: 6000, actuator: ActuatorKind::Vibrate },
            DeviceCommand::Scalar { feature_index: 0, level: 3000, actuator: ActuatorKind::Vibrate },
        ]
    );
}

#[test]
fn update_for_this_device_replaces_the_table() {
    let mut t = table_with(VCFeatureType::Vibrator, "/a", ProcessingMode::Raw, LevelTweaks::default());
    let replacement = table_with(VCFeatureType::Vibrator, "/b", ProcessingMode::Raw, LevelTweaks::default());
    let mut lim = ToyRateLimiter::new(10);
    let other = dispatch_signal(ToySig::UpdateToy(2, replacement.clone()), 1, &mut t, &vec![], 0, &mut lim);
    assert!(other.is_empty());
    assert_eq!(t.features[0].osc_parameters[0].parameter, "/a");
    dispatch_signal(ToySig::UpdateToy(1, replacement), 1, &mut t, &vec![], 0, &mut lim);
    assert_eq!(t.features[0].osc_parameters[0].parameter, "/b");
}
