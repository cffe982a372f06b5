use vibecheck_core::levels::{clamp_and_flip, flip_float64, round_to_hundredth, LevelTweaks, FULL};
use vibecheck_core::processing::{
    mode_processor_logic, parse_rate, parse_smoothing, ModeProcessorInputType, ProcessingMode, ProcessingModeValues,
    RateParser, RateProcessingValues, SmoothParser,
};

#[test]
fn default_tweaks() {
    let l = LevelTweaks::default();
    assert_eq!((l.minimum_level, l.maximum_level, l.idle_level), (0, FULL, 0));
    assert_eq!((l.smooth_rate, l.linear_position_speed, l.rate_tune), (2, 100, 4000));
}

#[test]
fn rounding_to_hundredth_ties_away_from_zero() {
    assert_eq!(round_to_hundredth(149), 100);
    assert_eq!(round_to_hundredth(150), 200);
    assert_eq!(round_to_hundredth(-150), -200);
    assert_eq!(round_to_hundredth(-149), -100);
    assert_eq!(round_to_hundredth(3700), 3700);
}

#[test]
fn flip_inverts_and_rounds() {
    assert_eq!(flip_float64(3700), 6300);
    assert_eq!(flip_float64(0), FULL);
    assert_eq!(flip_float64(FULL), 0);
    assert_eq!(flip_float64(3749), 6300);
}

#[test]
fn flip_twice_gives_back_grid_values() {
    for x in [0, 100, 3700, 5000, 9900, FULL] {
        assert_eq!(flip_float64(flip_float64(x)), x);
    }
    // Off the grid the result is 1.00 - round(1.00 - x): 0.005 comes back as 0.
    assert_eq!(flip_float64(flip_float64(50)), 0);
    assert_eq!(flip_float64(flip_float64(3749)), 3700);
}

#[test]
fn clamp_and_flip_cases() {
    let mut l = LevelTweaks::default();
    l.minimum_level = 2000;
    l.maximum_level = 8000;
    l.idle_level = 500;
    assert_eq!(clamp_and_flip(0, false, &l), 500);
    assert_eq!(clamp_and_flip(100, false, &l), 2000);
    assert_eq!(clamp_and_flip(9000, false, &l), 8000);
    assert_eq!(clamp_and_flip(5000, false, &l), 5000);
    assert_eq!(clamp_and_flip(0, true, &l), 9500);
    assert_eq!(clamp_and_flip(9000, true, &l), 2000);
    for v in [-5000, 0, 1, 4321, 10000, 20000] {
        let r = clamp_and_flip(v, true, &l);
        assert!(0 <= r && r <= FULL);
    }
}

#[test]
fn smoothing_window_of_two() {
    let mut l = LevelTweaks::default();
    l.smooth_rate = 2;
    let mut q = vec![];
    assert_eq!(parse_smoothing(&mut q, &l, 4000, false), SmoothParser::Smoothing);
    assert_eq!(parse_smoothing(&mut q, &l, 6000, false), SmoothParser::Smoothing);
    assert_eq!(parse_smoothing(&mut q, &l, 1000, false), SmoothParser::Smoothed(5000));
    assert_eq!(q, vec![5000]);
}

#[test]
fn smoothing_mean_is_rounded() {
    let mut l = LevelTweaks::default();
    l.smooth_rate = 3;
    let mut q = vec![1000, 2000, 2500];
    assert_eq!(parse_smoothing(&mut q, &l, 100, false), SmoothParser::Smoothed(1800));
}

#[test]
fn smoothing_zero_skips() {
    let l = LevelTweaks::default();
    let mut q = vec![3000];
    assert_eq!(parse_smoothing(&mut q, &l, 0, false), SmoothParser::SkipZero(0));
    assert_eq!(q, vec![3000]);
    let mut q = vec![3000, 4000];
    assert_eq!(parse_smoothing(&mut q, &l, FULL, true), SmoothParser::SkipZero(FULL));
    assert!(q.is_empty());
}

#[test]
fn rate_tick_lowers_the_level() {
    let mut p = RateProcessingValues { rate_saved_level: 9000, rate_saved_osc_input: 9000, rate_timestamp: Some(1000) };
    assert_eq!(parse_rate(&mut p, 4000, 9000, false, 1149), RateParser::RateCalculated(9000, false));
    assert_eq!(parse_rate(&mut p, 4000, 9000, false, 1150), RateParser::RateCalculated(5000, true));
    assert_eq!(p.rate_saved_level, 5000);
}

#[test]
fn rate_zero_resets() {
    let mut p = RateProcessingValues { rate_saved_level: 9000, rate_saved_osc_input: 9000, rate_timestamp: Some(0) };
    assert_eq!(parse_rate(&mut p, 4000, 0, false, 500), RateParser::SkipZero);
    assert_eq!((p.rate_saved_level, p.rate_saved_osc_input), (0, 0));
}

#[test]
fn rate_integrates_distance() {
    let mut p = RateProcessingValues { rate_saved_level: 8000, rate_saved_osc_input: 1000, rate_timestamp: None };
    assert_eq!(parse_rate(&mut p, 4000, 6000, false, 0), RateParser::RateCalculated(FULL, false));
}

#[test]
fn mode_processor_by_mode() {
    let mut l = LevelTweaks::default();
    l.constant_level = 6600;
    let mut raw = ProcessingModeValues::new(ProcessingMode::Raw);
    assert_eq!(mode_processor_logic(ModeProcessorInputType::Boolean(true), &mut raw, &l, false, 0), Some(FULL));
    assert_eq!(mode_processor_logic(ModeProcessorInputType::Boolean(false), &mut raw, &l, false, 0), Some(0));
    let mut smooth = ProcessingModeValues::new(ProcessingMode::Smooth);
    assert_eq!(mode_processor_logic(ModeProcessorInputType::Boolean(true), &mut smooth, &l, false, 0), None);
    let mut rate = ProcessingModeValues::new(ProcessingMode::Rate);
    assert_eq!(mode_processor_logic(ModeProcessorInputType::Boolean(true), &mut rate, &l, false, 7), None);
    match rate {
        ProcessingModeValues::Rate(p) => assert_eq!(p.rate_timestamp, Some(7)),
        _ => panic!("mode changed"),
    }
    let mut constant = ProcessingModeValues::new(ProcessingMode::Constant);
    assert_eq!(mode_processor_logic(ModeProcessorInputType::Float(5000), &mut constant, &l, false, 0), Some(6600));
    assert_eq!(mode_processor_logic(ModeProcessorInputType::Float(4999), &mut constant, &l, false, 0), Some(0));
}
