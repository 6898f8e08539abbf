use asic_rs::auradine_boards::{board_states, BoardState};
use asic_rs::avalon_chips::{a_series_board_chips, a_series_boards, q_series_board_chips, q_series_boards};
use asic_rs::antminer::antminer_boards;
use asic_rs::chips::ChipState;
use asic_rs::epic::{cpu_board, CpuBoard};
use asic_rs::data::MinerHardware;
use asic_rs::json::{Json, JsonNumber};
use serde_json::Value;

fn to_json(v: &Value) -> Json {
    match v {
        Value::Null => Json::Null,
        Value::Bool(b) => Json::Bool(*b),
        Value::Number(n) => {
            if let Some(u) = n.as_u64() {
                Json::Number(JsonNumber::PosInt(u))
            } else if let Some(i) = n.as_i64() {
                Json::Number(JsonNumber::NegInt(i))
            } else {
                Json::Number(JsonNumber::Float(n.as_f64().unwrap().to_bits()))
            }
        }
        Value::String(s) => Json::Str(s.clone()),
        Value::Array(a) => Json::Array(a.iter().map(to_json).collect()),
        Value::Object(m) => Json::Object(m.iter().map(|(k, v)| (k.clone(), to_json(v))).collect()),
    }
}

fn parse(text: &str) -> Json {
    to_json(&serde_json::from_str::<Value>(text).unwrap())
}

fn at1500() -> MinerHardware {
    MinerHardware { fans: Some(4), boards: Some(vec![Some(132), Some(132), Some(132)]) }
}

fn at1500_api() -> Json {
    parse(
        r#"{
            "devs": [
                {"ASC": 0, "ID": 1, "Enabled": true, "Temperature": 58.0, "MHS 5s": 36000000.0},
                {"ASC": 1, "ID": 2, "Enabled": true, "Temperature": 57.5, "MHS 5s": 36000000.0},
                {"ASC": 2, "ID": 3, "Enabled": true, "Temperature": 59.0, "MHS 5s": 36000000.0}
            ],
            "asccount": {"BoardCount": 3, "AsicCount": 396},
            "serials": ["QAHB01230908001X", "QAHB01230908002X", "QAHB01230908003X"],
            "temperature": [{"ID": 1, "BoardTemp": [{"Temperature": 41.0}, {"Temperature": 58.0}]}],
            "voltage": [{"ID": 1, "ChipVoltage": [{"ID": 0, "Voltage": 0.3}]}],
            "frequency": [{"ID": 1, "ChipFrequency": [{"ID": 0, "Frequency": 160.0}]}]
        }"#,
    )
}

fn at1500_chips() -> Json {
    parse(
        r#"{
            "temperature": [{"ID": 1, "ChipTemp": [
                {"ID": 2, "Temperature": 57.25},
                {"ID": 0, "Temperature": 55.5},
                {"ID": 1, "Temperature": 56.0}
            ]}],
            "voltage": [{"ID": 1, "ChipVoltage": [{"ID": 0, "Voltage": 0.3}]}],
            "frequency": [{"ID": 1, "ChipFrequency": [{"ID": 0, "Frequency": 160.0}]}]
        }"#,
    )
}

fn chip(position: u16, working: Option<bool>) -> ChipState {
    ChipState { position, working }
}

#[test]
fn auradine_boards_without_chip_answers_count_expected_chips() {
    let boards = board_states(Some(&at1500_api()), None, &at1500());
    assert_eq!(boards.len(), 3);
    let first: &BoardState = &boards[0];
    assert_eq!(first.position, 0);
    assert!(first.chips.is_empty());
    assert_eq!(first.expected_chips, Some(132));
    assert_eq!(first.working_chips, Some(132));
    assert_eq!(first.active, Some(true));
    assert_eq!(first.tuned, Some(true));
    assert_eq!(first.serial_number.as_deref(), Some("QAHB01230908001X"));
    assert_eq!(boards[2].serial_number.as_deref(), Some("QAHB01230908003X"));
}

#[test]
fn auradine_boards_with_chip_answers_keep_working_chip_count() {
    let without = board_states(Some(&at1500_api()), None, &at1500());
    let with = board_states(Some(&at1500_api()), Some(&at1500_chips()), &at1500());
    assert_eq!(with[0].chips, vec![chip(0, Some(true)), chip(1, Some(true)), chip(2, Some(true))]);
    assert_eq!(with[0].working_chips, without[0].working_chips);
    assert_eq!(with[0].working_chips, Some(132));
    assert!(with[1].chips.is_empty());
    assert_eq!(with[1].working_chips, None);
}

#[test]
fn auradine_boards_read_chip_states_in_order() {
    let api = parse(
        r#"{
            "devs": [{"ID": 1, "Enabled": true}, {"ID": 2, "Enabled": false}, {"ID": 1, "Enabled": true}],
            "temperature": [{"ID": 3}]
        }"#,
    );
    let chips = parse(
        r#"{
            "temperature": [
                {"ID": 1, "ChipTemp": [{"ID": 5, "Temperature": 0}, {"ID": 3, "Temperature": 60}, {"ID": 4, "Temperature": -2.5}]},
                {"ID": 2, "ChipTemp": [{"ID": 0, "Temperature": 50}]},
                {"ID": 3, "ChipTemp": [{"ID": 7, "Temperature": 40}, {"ID": 8, "Temperature": "hot"}]}
            ],
            "voltage": [{"ID": 1, "ChipVoltage": [{"ID": 5, "Voltage": 0.31}, {"ID": 9, "Voltage": 0}]}],
            "frequency": [{"ID": 1, "ChipFrequency": [{"ID": 4, "Frequency": 0.0}]}]
        }"#,
    );
    let boards = board_states(Some(&api), Some(&chips), &MinerHardware::empty());
    assert_eq!(boards.len(), 3);

    // Board 1: chip 5 is revived by its voltage, chip 4 stays failed, chip 9
    // is listed without a state; no expected count, so it is the chip count.
    assert_eq!(
        boards[0].chips,
        vec![chip(3, Some(true)), chip(4, Some(false)), chip(5, Some(true)), chip(9, None)]
    );
    assert_eq!(boards[0].expected_chips, Some(4));
    assert_eq!(boards[0].working_chips, Some(2));
    assert_eq!(boards[0].active, Some(true));

    // Board 2 is disabled: no chip works.
    assert_eq!(boards[1].active, Some(false));
    assert_eq!(boards[1].tuned, Some(false));
    assert_eq!(boards[1].working_chips, Some(0));

    // Board 3 is listed only by the temperature answer: active, not tuned.
    assert_eq!(boards[2].active, Some(true));
    assert_eq!(boards[2].tuned, None);
    assert_eq!(boards[2].chips, vec![chip(7, Some(true))]);
    assert_eq!(boards[2].working_chips, Some(1));
}

#[test]
fn auradine_boards_subtract_failed_chips_from_expected() {
    let hardware = MinerHardware { fans: None, boards: Some(vec![Some(10)]) };
    let api = parse(r#"{"devs": [{"ID": 1, "Enabled": true}]}"#);
    let chips = parse(
        r#"{"temperature": [{"ID": 1, "ChipTemp": [{"ID": 0, "Temperature": 0}, {"ID": 1, "Temperature": 45}]}]}"#,
    );
    let boards = board_states(Some(&api), Some(&chips), &hardware);
    assert_eq!(boards.len(), 1);
    assert_eq!(boards[0].expected_chips, Some(10));
    assert_eq!(boards[0].working_chips, Some(9));
}

#[test]
fn auradine_boards_without_answers_are_blank() {
    let boards = board_states(None, Some(&at1500_chips()), &at1500());
    assert_eq!(boards.len(), 3);
    for (idx, board) in boards.iter().enumerate() {
        assert_eq!(board.position as usize, idx);
        assert_eq!(board.expected_chips, Some(132));
        assert_eq!(board.working_chips, None);
        assert_eq!(board.active, None);
        assert!(board.serial_number.is_none());
        assert!(board.chips.is_empty());
    }
}

#[test]
fn avalon_a_series_chips_follow_nonzero_temperatures() {
    let info = parse(r#"{"PVT_T0": [50, 0, 51.5, "x", 0.0, 49], "PVT_V0": [300, 301, 302, 303, 304, 305, 306], "MW0": [10, 0, 3]}"#);
    let (chips, working) = a_series_board_chips(Some(&info), 0).unwrap();
    assert_eq!(chips, vec![chip(0, Some(true)), chip(2, Some(true)), chip(4, Some(false))]);
    assert_eq!(working, 2);
    let (chips, working) = a_series_board_chips(Some(&info), 1).unwrap();
    assert!(chips.is_empty());
    assert_eq!(working, 0);
    assert!(a_series_board_chips(Some(&parse("[1, 2]")), 0).is_none());
    assert!(a_series_board_chips(None, 0).is_none());
}

#[test]
fn avalon_q_series_chips_take_the_shortest_list() {
    let info = parse(r#"{"HB0": {"PVT_T0": [40, 41, 42], "PVT_V0": [300, 301], "MW0": [5, 0, 7]}, "HB1": 3}"#);
    let (chips, working) = q_series_board_chips(Some(&info), 0).unwrap();
    assert_eq!(chips, vec![chip(0, Some(true)), chip(1, Some(false))]);
    assert_eq!(working, 1);
    let (chips, working) = q_series_board_chips(Some(&info), 1).unwrap();
    assert!(chips.is_empty());
    assert_eq!(working, 0);
    assert!(q_series_board_chips(Some(&Json::Null), 0).is_none());
}

#[test]
fn auradine_control_board_name_prefers_internal_type() {
    use_name(r#"{"internal_type": "AT1500-CB", "driver": "gcminer"}"#, Some(("AT1500-CB", true)));
    use_name(r#"{"driver": "gcminer"}"#, Some(("gcminer", false)));
    use_name(r#""AT2880-CB""#, Some(("AT2880-CB", true)));
    use_name(r#"{"internal_type": 3}"#, None);
    assert_eq!(asic_rs::auradine::control_board_name(None), None);
}

fn use_name(text: &str, want: Option<(&str, bool)>) {
    let v = parse(text);
    let got = asic_rs::auradine::control_board_name(Some(&v));
    assert_eq!(got.as_ref().map(|(n, t)| (n.as_str(), *t)), want);
}

#[test]
fn antminer_chain_board_state_reads_chip_counts() {
    use_chain();
}

fn use_chain() {
    let stats = parse(r#"{"chain_acn1": 126, "chain_acn2": 0, "chain_acn3": 70000, "chain_acn4": "x"}"#);
    assert_eq!(asic_rs::antminer::chain_board_state(&stats, 0, false), (Some(126), true));
    assert_eq!(asic_rs::antminer::chain_board_state(&stats, 1, false), (Some(0), false));
    assert_eq!(asic_rs::antminer::chain_board_state(&stats, 1, true), (Some(0), true));
    assert_eq!(asic_rs::antminer::chain_board_state(&stats, 2, false), (Some(4464), true));
    assert_eq!(asic_rs::antminer::chain_board_state(&stats, 3, false), (None, false));
    assert_eq!(asic_rs::antminer::chain_board_state(&stats, 9, false), (None, false));
}

fn s19xp() -> MinerHardware {
    MinerHardware { fans: Some(4), boards: Some(vec![Some(110), Some(110), Some(110)]) }
}

fn epic_api() -> Json {
    parse(
        r#"{
            "Capabilities": {
                "Performance Estimator": {"Chip Count": 110, "Hashes Per Second Per Chip": 2.3},
                "Board Serial Numbers": ["SN-ONE", 7, "SN-TWO"]
            },
            "Summary": {
                "HBStatus": [{"Index": 0, "Enabled": false}, {"Index": 1, "Enabled": true}, {"Index": 2, "Enabled": true}],
                "HBs": [{"Index": 1, "Hashrate": [36000000.0], "Temperature": 60}],
                "PerpetualTune": {"Algorithm": {"VoltageOptimizer": {"Optimized": true}}}
            }
        }"#,
    )
}

fn rates(n: usize) -> String {
    let items: Vec<String> = (0..n).map(|i| format!("[{}.5, 0.9]", i + 1)).collect();
    format!("[{}]", items.join(", "))
}

#[test]
fn epic_boards_without_chip_answers_follow_board_status() {
    use_epic_without_chips();
}

fn use_epic_without_chips() {
    let boards = asic_rs::epic_boards::epic_boards(Some(&epic_api()), None, &s19xp());
    assert_eq!(boards.len(), 3);
    assert_eq!(boards[0].active, Some(false));
    assert_eq!(boards[0].working_chips, Some(0));
    assert!(boards[0].serial_number.is_none());
    assert!(boards[1].chips.is_empty());
    assert_eq!(boards[1].working_chips, Some(110));
    assert_eq!(boards[1].serial_number.as_deref(), Some("SN-ONE"));
    assert_eq!(boards[2].serial_number.as_deref(), Some("SN-TWO"));
    assert_eq!(boards[1].tuned, Some(true));
    assert_eq!(boards[0].tuned, Some(true));
}

#[test]
fn epic_boards_with_chip_answers_count_rated_chips() {
    let chips = parse(&format!(
        r#"{{
            "Chip Temps": [{{"Index": 1, "Data": [50, 51, 52]}}],
            "Chip Hashrates": [{{"Index": 1, "Data": {}}}, {{"Index": 2, "Data": {}}}, {{"Index": 0, "Data": [[1.0]]}}]
        }}"#,
        rates(70),
        rates(73)
    ));
    let without = asic_rs::epic_boards::epic_boards(Some(&epic_api()), None, &s19xp());
    let with = asic_rs::epic_boards::epic_boards(Some(&epic_api()), Some(&chips), &s19xp());
    assert_eq!(with[1].chips.len(), 110);
    assert_eq!(with[1].active, without[1].active);
    assert_eq!(with[1].serial_number, without[1].serial_number);
    assert_eq!(with[1].tuned, without[1].tuned);
    assert_eq!(with[1].chips[69], ChipState { position: 69, working: Some(true) });
    assert_eq!(with[1].chips[70], ChipState { position: 0, working: None });
    assert_eq!(with[1].working_chips, Some(70));
    assert_eq!(with[2].chips[72], ChipState { position: 72, working: Some(true) });
    assert_eq!(with[2].working_chips, Some(73));
    assert!(with[0].chips.is_empty());
    assert_eq!(with[0].working_chips, Some(0));
}

#[test]
fn epic_boards_without_answers_are_blank() {
    let boards = asic_rs::epic_boards::epic_boards(None, None, &s19xp());
    assert_eq!(boards.len(), 3);
    assert!(boards.iter().all(|b| b.active.is_none() && b.working_chips.is_none() && b.expected_chips == Some(110)));
}

#[test]
fn luxminer_board_reads_serials_chips_and_health() {
    let api = parse(
        r#"{
            "DEVS": [{"SerialNumber": "JYZZB0UBDJABF06RB"}, 3],
            "STATS": {"chain_acn1": 77, "chain_acn2": 0}
        }"#,
    );
    let chips = parse(
        r#"{"CHIPS_0": [
            {"Chip": 0, "Healthy": "Y", "GHS 1m": 1.2},
            {"Chip": 1, "Healthy": "Unknown"},
            "skipped",
            {"Chip": 2, "Healthy": "N"},
            {"Healthy": "Y"},
            {"Chip": 3}
        ]}"#,
    );
    let b = asic_rs::luxminer_boards::lux_board(&api, Some(&chips), 0, false);
    assert_eq!(b.serial_number.as_deref(), Some("JYZZB0UBDJABF06RB"));
    assert_eq!(b.working_chips, Some(77));
    assert!(b.active && b.tuned);
    let lux = |position, tuned, working| asic_rs::luxminer_boards::LuxChip { position, tuned, working };
    assert_eq!(
        b.chips,
        vec![
            lux(0, Some(true), Some(true)),
            lux(1, Some(false), Some(true)),
            lux(2, Some(false), Some(false)),
            lux(0, Some(true), Some(true)),
            lux(3, None, None),
        ]
    );
    let b = asic_rs::luxminer_boards::lux_board(&api, None, 1, false);
    assert!(b.serial_number.is_none());
    assert_eq!(b.working_chips, Some(0));
    assert!(!b.active && !b.tuned);
    assert!(b.chips.is_empty());
    let b = asic_rs::luxminer_boards::lux_board(&api, Some(&chips), 1, true);
    assert!(b.active);
    assert!(b.chips.is_empty());
    let b = asic_rs::luxminer_boards::lux_board(&api, None, 2, false);
    assert_eq!(b.working_chips, None);
}

#[test]
fn elphapex_boards_follow_the_last_chain_naming_them() {
    let stats = parse(
        r#"{"STATS": [{
            "chain_num": "4",
            "chain": [
                {"index": 0, "asic_num": 120, "sn": "13HY24B056N300037C11B", "rate_real": 1500.5},
                {"index": "1", "asic_num": "0", "sn": "", "rate_real": 10},
                {"index": 2, "rate_real": "0"},
                {"index": 0, "asic_num": "1,100", "sn": "SECOND"},
                {"index": 9, "asic_num": 3}
            ]
        }]}"#,
    );
    let rates = vec![Some(true), Some(true), Some(false)];
    let boards = asic_rs::elphapex_boards::elphapex_boards(Some(&stats), &MinerHardware::empty(), &rates);
    assert_eq!(boards.len(), 5);
    assert_eq!(boards[0].working_chips, Some(1100));
    assert_eq!(boards[0].serial_number.as_deref(), Some("SECOND"));
    assert_eq!(boards[0].active, Some(true));
    assert_eq!(boards[1].working_chips, Some(0));
    assert!(boards[1].serial_number.is_none());
    assert_eq!(boards[1].active, Some(false));
    assert_eq!(boards[2].working_chips, None);
    assert_eq!(boards[2].active, Some(false));
    assert_eq!(boards[2].tuned, Some(false));
    assert_eq!(boards[3].active, None);
    assert_eq!(boards[4].active, None);
    assert!(asic_rs::elphapex_boards::elphapex_boards(None, &MinerHardware::empty(), &rates).is_empty());
    let hardware = MinerHardware { fans: None, boards: Some(vec![Some(120), Some(120), Some(120), Some(120), Some(120), Some(120)]) };
    let boards = asic_rs::elphapex_boards::elphapex_boards(Some(&stats), &hardware, &rates);
    assert_eq!(boards.len(), 6);
    assert_eq!(boards[5].expected_chips, Some(120));
}

#[test]
fn marathon_boards_take_the_first_entry_of_each_board() {
    let hardware = MinerHardware { fans: None, boards: Some(vec![Some(108), Some(108), Some(108)]) };
    let api = parse(
        r#"{"chip_data": [
            {"index": 1, "asic_num": 105, "serial_number": "MB-1", "hashrate_avg": 60000.0},
            {"index": 0, "asic_num": 108, "serial_number": "MB-0"},
            {"index": 1, "asic_num": 1, "serial_number": "LATER"}
        ]}"#,
    );
    let chips = parse(
        r#"{"chip_data": [
            {"index": 1, "asic_infos": [
                {"index": 0, "hashrate_avg": 550.5},
                {"index": 1, "hashrate_avg": 0},
                {"hashrate_avg": 12},
                {"index": 2},
                {"index": 70001, "hashrate_avg": -1}
            ]}
        ]}"#,
    );
    let boards = asic_rs::marathon_boards::mara_boards(Some(&api), Some(&chips), &hardware);
    assert_eq!(boards.len(), 3);
    assert_eq!(boards[1].working_chips, Some(105));
    assert_eq!(boards[1].serial_number.as_deref(), Some("MB-1"));
    assert_eq!(boards[1].active, Some(true));
    assert_eq!(
        boards[1].chips,
        vec![
            ChipState { position: 0, working: Some(true) },
            ChipState { position: 1, working: Some(false) },
            ChipState { position: 2, working: None },
            ChipState { position: 4465, working: Some(false) },
        ]
    );
    assert_eq!(boards[0].serial_number.as_deref(), Some("MB-0"));
    assert!(boards[0].chips.is_empty());
    assert_eq!(boards[2].active, None);
    assert_eq!(boards[2].expected_chips, Some(108));
    let blank = asic_rs::marathon_boards::mara_boards(None, Some(&chips), &hardware);
    assert!(blank.iter().all(|b| b.active.is_none() && b.chips.is_empty()));
}

#[test]
fn braiins_boards_match_chains_by_id() {
    let hardware = MinerHardware { fans: None, boards: Some(vec![Some(126), Some(126), Some(126)]) };
    let chains = parse(
        r#"[
            {"id": "2", "chips_count": 126, "serial_number": "YNAHEAUBCJCBA03GL", "enabled": true},
            {"id": "+1", "chips_count": 100, "enabled": false},
            {"id": "1", "chips_count": 5},
            {"id": 3, "chips_count": 7}
        ]"#,
    );
    let boards = asic_rs::braiins_boards::bos_boards(Some(&chains), &hardware);
    assert_eq!(boards.len(), 3);
    assert_eq!(boards[0].working_chips, Some(100));
    assert_eq!(boards[0].active, Some(false));
    assert!(boards[0].serial_number.is_none());
    assert_eq!(boards[1].serial_number.as_deref(), Some("YNAHEAUBCJCBA03GL"));
    assert_eq!(boards[1].working_chips, Some(126));
    assert_eq!(boards[1].active, Some(true));
    assert_eq!(boards[2].working_chips, None);
    assert_eq!(boards[2].expected_chips, Some(126));
    let blank = asic_rs::braiins_boards::bos_boards(Some(&parse("{}")), &hardware);
    assert!(blank.iter().all(|b| b.active.is_none() && b.working_chips.is_none()));
}

#[test]
fn epic_cpu_names_the_control_board() {
    assert_eq!(cpu_board("Amlogic Meson"), CpuBoard::AMLogic);
    assert_eq!(cpu_board("Generic AM33XX (Flattened Device Tree)"), CpuBoard::BeagleBoneBlack);
    assert_eq!(cpu_board("xilinx zynq"), CpuBoard::Xilinx);
    assert_eq!(cpu_board("Allwinner"), CpuBoard::EPicUMC);
}

#[test]
fn avalon_a_series_boards_read_rates_and_chips() {
    let hardware = MinerHardware { fans: None, boards: Some(vec![Some(3), Some(3), Some(3)]) };
    let hb = parse(r#"{"MGHS": [1200.5, 0, "x"]}"#);
    let chips = parse(r#"{"PVT_T0": [40, 0, 42], "MW0": [5, 9, 0], "PVT_T1": [], "MW1": []}"#);
    let boards = a_series_boards(Some(&hb), Some(&chips), &hardware);
    assert_eq!(boards.len(), 3);
    assert_eq!(boards[0].position, 0);
    assert_eq!(boards[0].expected_chips, Some(3));
    assert_eq!(boards[0].active, Some(true));
    assert_eq!(boards[0].chips, vec![chip(0, Some(true)), chip(2, Some(false))]);
    assert_eq!(boards[0].working_chips, Some(1));
    assert_eq!(boards[1].active, Some(false));
    assert!(boards[1].chips.is_empty());
    assert_eq!(boards[1].working_chips, Some(0));
    assert_eq!(boards[2].active, None);
    assert_eq!(boards[2].working_chips, Some(0));

    let boards = a_series_boards(Some(&hb), None, &hardware);
    assert_eq!(boards[0].working_chips, Some(3));
    assert_eq!(boards[1].working_chips, Some(0));
    assert_eq!(boards[2].working_chips, None);
    assert!(boards[0].chips.is_empty());

    let boards = a_series_boards(Some(&parse("[1]")), Some(&chips), &hardware);
    assert_eq!(boards.len(), 3);
    assert!(boards.iter().all(|b| b.active.is_none() && b.working_chips.is_none() && b.chips.is_empty()));
    assert!(a_series_boards(None, None, &MinerHardware::empty()).is_empty());
}

#[test]
fn avalon_q_series_boards_read_the_summary() {
    let hardware = MinerHardware { fans: None, boards: Some(vec![Some(2), Some(2)]) };
    let hashboards = parse(r#"{"summary": {"MGHS": [0, 3500]}}"#);
    let chips = parse(r#"{"HB0": {"PVT_T0": [40, 41], "PVT_V0": [300, 301], "MW0": [5, 0]}, "HB1": {}}"#);
    let boards = q_series_boards(Some(&hashboards), Some(&chips), &hardware);
    assert_eq!(boards.len(), 2);
    assert_eq!(boards[0].active, Some(false));
    assert_eq!(boards[0].chips, vec![chip(0, Some(true)), chip(1, Some(false))]);
    assert_eq!(boards[0].working_chips, Some(1));
    assert_eq!(boards[1].active, Some(true));
    assert!(boards[1].chips.is_empty());
    assert_eq!(boards[1].working_chips, Some(0));

    let single = parse(r#"{"summary": {"MGHS": 900}}"#);
    let boards = q_series_boards(Some(&single), None, &hardware);
    assert_eq!(boards[0].active, Some(true));
    assert_eq!(boards[1].active, Some(true));
    assert_eq!(boards[0].working_chips, Some(2));

    let boards = q_series_boards(None, None, &hardware);
    assert_eq!(boards[0].active, None);
    assert_eq!(boards[0].working_chips, None);
}

#[test]
fn antminer_boards_take_chain_counts_and_rates() {
    let hardware = MinerHardware { fans: None, boards: Some(vec![Some(126), Some(126), Some(126)]) };
    let stats = parse(r#"{"chain_acn1": 126, "chain_acn2": 0, "chain_acn3": 0}"#);
    let boards = antminer_boards(Some(&stats), &hardware, &vec![false, false, true]);
    assert_eq!(boards.len(), 3);
    assert_eq!(boards[0].working_chips, Some(126));
    assert_eq!(boards[0].active, Some(true));
    assert_eq!(boards[1].working_chips, Some(0));
    assert_eq!(boards[1].active, Some(false));
    assert_eq!(boards[2].active, Some(true));
    assert_eq!(boards[2].expected_chips, Some(126));

    let boards = antminer_boards(Some(&parse("[]")), &hardware, &vec![true]);
    assert!(boards.iter().all(|b| b.active.is_none() && b.working_chips.is_none()));
    assert!(antminer_boards(None, &MinerHardware::empty(), &Vec::new()).is_empty());
}
