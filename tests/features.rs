use vibecheck_core::features::{
    ActuatorKind, FeLevelTweaks, FeToyParameter, FeVCFeatureType, FeVCToyFeature, VCFeatureType, VCToyFeature,
    VCToyFeatures,
};
use vibecheck_core::levels::LevelTweaks;
use vibecheck_core::populate::default_parameter_path;
use vibecheck_core::processing::{ProcessingMode, ProcessingModeValues};
use vibecheck_core::toy::{choose_features, config_file_stem, replace_str, sub_id_for, AdvertisedActuators, VCToyConfig};

#[test]
fn feature_type_round_trip() {
    let mut t = VCFeatureType::Vibrator;
    t.from_fe(FeVCFeatureType::Constrict);
    assert_eq!(t, VCFeatureType::Constrict);
    assert_eq!(t.to_fe(), FeVCFeatureType::Constrict);
    assert_eq!(VCFeatureType::ScalarRotator.to_fe(), FeVCFeatureType::Rotator);
    t.from_fe(FeVCFeatureType::Rotator);
    assert_eq!(t, VCFeatureType::Rotator);
}

#[test]
fn default_paths() {
    assert_eq!(default_parameter_path(VCFeatureType::Vibrator, 0), "/avatar/parameters/Vibrator_0");
    assert_eq!(default_parameter_path(VCFeatureType::ScalarRotator, 12), "/avatar/parameters/Rotator_12");
    assert_eq!(default_parameter_path(VCFeatureType::Linear, 305), "/avatar/parameters/Linear_305");
}

#[test]
fn populated_table_from_actuators() {
    let kinds = vec![ActuatorKind::Vibrate, ActuatorKind::Unknown, ActuatorKind::Rotate];
    let t = VCToyFeatures::from_actuators(1, 1, &kinds);
    let summary: Vec<(VCFeatureType, u32, String)> = t
        .features
        .iter()
        .map(|f| (f.feature_type, f.feature_index, f.osc_parameters[0].parameter.clone()))
        .collect();
    assert_eq!(
        summary,
        vec![
            (VCFeatureType::Linear, 0, "/avatar/parameters/Linear_0".to_string()),
            (VCFeatureType::Rotator, 0, "/avatar/parameters/Rotator_0".to_string()),
            (VCFeatureType::Vibrator, 0, "/avatar/parameters/Vibrator_0".to_string()),
            (VCFeatureType::ScalarRotator, 2, "/avatar/parameters/Rotator_2".to_string()),
        ]
    );
    assert!(t.check());
}

#[test]
fn features_from_param() {
    let mut t = VCToyFeatures::new();
    t.features.push(VCToyFeature::new("/a".to_string(), 0, VCFeatureType::Vibrator));
    t.features.push(VCToyFeature::new("/b".to_string(), 1, VCFeatureType::Vibrator));
    t.features.push(VCToyFeature::new("/a".to_string(), 2, VCFeatureType::Vibrator));
    assert_eq!(t.get_features_from_param(&"/a".to_string()), Some(vec![0, 2]));
    t.features[0].feature_enabled = false;
    assert_eq!(t.get_features_from_param(&"/a".to_string()), Some(vec![2]));
    assert_eq!(t.get_features_from_param(&"/c".to_string()), None);
}

fn fe_feature(t: FeVCFeatureType, index: u32) -> FeVCToyFeature {
    FeVCToyFeature {
        feature_enabled: false,
        feature_type: t,
        osc_parameters: vec![FeToyParameter { parameter: "/x".to_string(), processing_mode: ProcessingMode::Rate }],
        feature_index: index,
        flip_input_float: true,
        feature_levels: LevelTweaks::default().to_fe(),
    }
}

#[test]
fn frontend_update_addresses_matching_feature() {
    let mut t = VCToyFeatures::new();
    t.features.push(VCToyFeature::new("/a".to_string(), 0, VCFeatureType::ScalarRotator));
    t.features.push(VCToyFeature::new("/b".to_string(), 1, VCFeatureType::Vibrator));
    assert!(t.from_fe(&fe_feature(FeVCFeatureType::Rotator, 0)));
    assert!(!t.features[0].feature_enabled);
    assert!(t.features[0].flip_input_float);
    assert_eq!(t.features[0].osc_parameters[0].parameter, "/x");
    assert_eq!(t.features[0].osc_parameters[0].processing_mode_values.mode(), ProcessingMode::Rate);
    assert_eq!(t.features[0].feature_type, VCFeatureType::ScalarRotator);
    assert!(t.features[1].feature_enabled);
    assert!(!t.from_fe(&fe_feature(FeVCFeatureType::Linear, 1)));
    let fe = t.to_fe();
    assert_eq!(fe.len(), 2);
    assert_eq!(fe[0].feature_type, FeVCFeatureType::Rotator);
    assert_eq!(fe[1].osc_parameters[0].processing_mode, ProcessingMode::Smooth);
}

#[test]
fn level_tweaks_frontend_copy() {
    let mut l = LevelTweaks::default();
    let fe = FeLevelTweaks {
        minimum_level: 100,
        maximum_level: 900,
        idle_level: 200,
        smooth_rate: 4,
        linear_position_speed: 50,
        rate_tune: 300,
        constant_level: 700,
    };
    l.from_fe(fe);
    assert_eq!(l.to_fe(), fe);
    assert!(l.check());
    l.minimum_level = 1000;
    assert!(!l.check());
}

#[test]
fn malformed_table_fails_check() {
    let mut t = VCToyFeatures::new();
    t.features.push(VCToyFeature::new("/a".to_string(), 0, VCFeatureType::Vibrator));
    assert!(t.check());
    t.features[0].feature_levels.smooth_rate = 0;
    assert!(!t.check());
    t.features[0].feature_levels.smooth_rate = 2;
    t.features[0].osc_parameters[0].processing_mode_values = ProcessingModeValues::new(ProcessingMode::Smooth);
    assert!(t.check());
}

#[test]
fn saved_config_is_kept_when_counts_match() {
    let advertised = AdvertisedActuators { linear_count: 0, rotate_count: 0, scalar_kinds: vec![ActuatorKind::Vibrate] };
    let mut saved = VCToyFeatures::new();
    saved.features.push(VCToyFeature::new("/mine".to_string(), 0, VCFeatureType::Vibrator));
    let config = Some(VCToyConfig { toy_name: "Toy".to_string(), features: saved, osc_data: true, anatomy: String::new() });
    let (t, osc, fresh) = choose_features(&"Toy".to_string(), &config, &advertised);
    assert_eq!(t.features[0].osc_parameters[0].parameter, "/mine");
    assert_eq!(osc, Some(true));
    assert!(fresh.is_none());
}

#[test]
fn default_table_when_counts_differ() {
    let advertised = AdvertisedActuators { linear_count: 1, rotate_count: 0, scalar_kinds: vec![ActuatorKind::Vibrate] };
    let mut saved = VCToyFeatures::new();
    saved.features.push(VCToyFeature::new("/mine".to_string(), 0, VCFeatureType::Vibrator));
    let config = Some(VCToyConfig { toy_name: "Toy".to_string(), features: saved, osc_data: true, anatomy: String::new() });
    let (t, osc, fresh) = choose_features(&"Toy".to_string(), &config, &advertised);
    assert_eq!(t.features.len(), 2);
    assert_eq!(osc, None);
    let fresh = fresh.unwrap();
    assert_eq!(fresh.toy_name, "Toy");
    assert!(!fresh.osc_data);
    assert_eq!(fresh.features.features.len(), 2);
    let (t2, _, fresh2) = choose_features(&"Toy".to_string(), &None, &advertised);
    assert_eq!(t2.features[1].osc_parameters[0].parameter, "/avatar/parameters/Vibrator_0");
    assert!(fresh2.is_some());
}

#[test]
fn duplicate_names_count() {
    let names = vec!["A".to_string(), "B".to_string(), "A".to_string()];
    assert_eq!(sub_id_for(&names, &"A".to_string()), 2);
    assert_eq!(sub_id_for(&names, &"C".to_string()), 0);
}

#[test]
fn config_names_share_lovense_files() {
    assert_eq!(config_file_stem("Lovense Connect Lush"), "Lovense Lush");
    assert_eq!(config_file_stem("Lovense Lush"), "Lovense Lush");
    assert_eq!(config_file_stem("Other"), "Other");
    assert_eq!(replace_str("aXbXX", "X", "yz"), "ayzbyzyz");
    assert_eq!(replace_str("aaa", "aa", "b"), "ba");
}
