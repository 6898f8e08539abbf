use asic_rs::data::{
    ConfigField, CoolingType, FanConfig, HashAlgorithm, MessageSeverity, MinerControlBoard,
    MinerHardware, MinerMessage, MiningMode,
};

#[test]
fn cooling_type_defaults_to_air() {
    assert_eq!(CoolingType::default(), CoolingType::Air);
}

#[test]
fn mining_mode_names_round_trip() {
    for mode in [MiningMode::Low, MiningMode::Normal, MiningMode::High] {
        assert_eq!(MiningMode::from_name(mode.name()), Some(mode));
    }
    assert_eq!(MiningMode::from_name("turbo"), None);
}

#[test]
fn hash_algorithm_and_cooling_names_round_trip() {
    assert_eq!(HashAlgorithm::from_name(HashAlgorithm::SHA256.name()), Some(HashAlgorithm::SHA256));
    for c in [CoolingType::Air, CoolingType::Hydro, CoolingType::Immersion] {
        assert_eq!(CoolingType::from_name(c.name()), Some(c));
    }
}

#[test]
fn control_board_text_marks_unknown_boards() {
    assert_eq!(MinerControlBoard::known("AMLogic".to_string()).to_text(), "AMLogic");
    assert_eq!(MinerControlBoard::unknown("T9".to_string()).to_text(), "Unknown: T9");
}

#[test]
fn hardware_counts() {
    let hw = MinerHardware { fans: Some(4), boards: Some(vec![Some(10), None, Some(12)]) };
    assert_eq!(hw.board_count(), Some(3));
    assert_eq!(hw.total_chips(), Some(22));
    assert_eq!(hw.chips(), Some(22));
    assert_eq!(hw.chips_for_board(1), None);
    assert_eq!(hw.chips_for_board(2), Some(12));
    assert_eq!(hw.chips_for_board(3), None);
    let empty = MinerHardware::empty();
    assert_eq!(empty.board_count(), None);
    assert_eq!(empty.total_chips(), None);
}

#[test]
fn message_and_fan_constructors_keep_fields() {
    let m = MinerMessage::new(5, 7, "hot".to_string(), MessageSeverity::Warning);
    assert_eq!((m.timestamp, m.code, m.message.as_str(), m.severity), (5, 7, "hot", MessageSeverity::Warning));
    assert_eq!(FanConfig::manual(60), FanConfig::Manual { fan_speed: 60 });
    assert_eq!(FanConfig::auto(None), FanConfig::Auto { idle_speed: None });
    assert!(!ConfigField::all().is_empty());
}
