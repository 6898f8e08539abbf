use asic_rs::auth::MinerAuth;
use asic_rs::braiins;
use asic_rs::braiins_web::{self, BosMutation, BosReply};
use asic_rs::data::{ConfigField, FanConfig, MessageSeverity};
use asic_rs::elphapex;
use asic_rs::epic::{self, ScalingConfig};
use asic_rs::epic_web;
use asic_rs::errors::{ConfigError, TargetKind};
use asic_rs::fields::DataField;
use asic_rs::futurebit::{self, ApolloAction};
use asic_rs::futurebit_web::{self, LoginReply, QueryReply};
use asic_rs::json::{Json, JsonNumber};
use asic_rs::luxminer::{self, LuxPoolAction};
use asic_rs::mac;
use asic_rs::pools::{PoolConfig, PoolGroupConfig, PoolURL};
use asic_rs::text;
use asic_rs::tuning::{TuningConfig, TuningTarget};
use serde_json::Value;

fn to_json(v: &Value) -> Json {
    match v {
        Value::Null => Json::Null,
        Value::Bool(b) => Json::Bool(*b),
        Value::Number(n) => {
            if let Some(u) = n.as_u64() {
                Json::Number(JsonNumber::PosInt(u))
            } else if let Some(i) = n.as_i64() {
                Json::Number(JsonNumber::NegInt(i))
            } else {
                Json::Number(JsonNumber::Float(n.as_f64().unwrap().to_bits()))
            }
        }
        Value::String(s) => Json::Str(s.clone()),
        Value::Array(a) => Json::Array(a.iter().map(to_json).collect()),
        Value::Object(m) => Json::Object(m.iter().map(|(k, v)| (k.clone(), to_json(v))).collect()),
    }
}

fn to_value(j: &Json) -> Value {
    match j {
        Json::Null => Value::Null,
        Json::Bool(b) => Value::Bool(*b),
        Json::Number(JsonNumber::PosInt(u)) => Value::from(*u),
        Json::Number(JsonNumber::NegInt(i)) => Value::from(*i),
        Json::Number(JsonNumber::Float(bits)) => Value::from(f64::from_bits(*bits)),
        Json::Str(s) => Value::String(s.clone()),
        Json::Array(a) => Value::Array(a.iter().map(to_value).collect()),
        Json::Object(es) => {
            let mut m = serde_json::Map::new();
            for (k, v) in es {
                m.insert(k.clone(), to_value(v));
            }
            Value::Object(m)
        }
    }
}

fn parse(text: &str) -> Json {
    to_json(&serde_json::from_str::<Value>(text).unwrap())
}

fn v(text: &str) -> Value {
    serde_json::from_str(text).unwrap()
}

fn pool(url: &str, user: &str, pass: &str) -> PoolConfig {
    PoolConfig { url: PoolURL::new(url.to_string()), username: user.to_string(), password: pass.to_string() }
}

#[test]
fn debug_redacts_password() {
    let auth = MinerAuth::new("admin".to_string(), "secret123".to_string());
    let debug = format!("{:?}", auth);
    assert!(debug.contains("admin"));
    assert!(!debug.contains("secret123"));
}

#[test]
fn auth_getters() {
    let auth = MinerAuth::new("root".to_string(), "pw".to_string());
    assert_eq!(auth.username(), "root");
    assert_eq!(auth.password(), "pw");
    assert!(auth.token().is_none());
    let token = MinerAuth::from_token("tok".to_string());
    assert_eq!(token.username(), "");
    assert_eq!(token.password(), "");
    assert_eq!(token.token().map(|s| s.expose_secret()), Some("tok"));
    let copy = auth.clone();
    assert_eq!(copy.password(), "pw");
}

#[test]
fn tuning_config_reports_its_target() {
    let power = TuningConfig::new(TuningTarget::from_watts(3000.0f64.to_bits()));
    assert_eq!(power.variant(), "power");
    assert_eq!(power.target_watts().map(f64::from_bits), Some(3000.0));
    assert_eq!(power.target_mode(), None);
    assert_eq!(power.algorithm(), None);
    let mode = TuningConfig::new(TuningTarget::MiningMode(asic_rs::data::MiningMode::High))
        .with_algorithm("ChipTune".to_string());
    assert_eq!(mode.variant(), "mode");
    assert_eq!(mode.target_mode(), Some(asic_rs::data::MiningMode::High));
    assert_eq!(mode.algorithm(), Some("ChipTune"));
    let hr = TuningConfig::new(TuningTarget::HashRate(100.0f64.to_bits()));
    assert_eq!(hr.variant(), "hashrate");
    assert_eq!(hr.target_hashrate().map(f64::from_bits), Some(100.0));
}

#[test]
fn trim_and_words_follow_std() {
    for s in ["  a b  ", "\u{3000}x\u{2003}", "", "   ", "abc", "\t\nq\r"] {
        assert_eq!(text::trim_text(s), s.trim());
        let words: Vec<String> = s.split_whitespace().map(str::to_string).collect();
        assert_eq!(text::split_whitespace(s), words);
    }
}

#[test]
fn epic_tuning_algorithms() {
    assert_eq!(epic::perpetual_tune_algorithm(" Chip-Tune "), Some("ChipTune"));
    assert_eq!(epic::perpetual_tune_algorithm("voltage_optimizer"), Some("VoltageOptimizer"));
    assert_eq!(epic::perpetual_tune_algorithm("POWER"), Some("PowerTune"));
    assert_eq!(epic::perpetual_tune_algorithm("board tune"), Some("BoardTune"));
    assert_eq!(epic::perpetual_tune_algorithm("other"), None);
    let hr = TuningTarget::HashRate(90.0f64.to_bits());
    assert_eq!(epic::tuning_algorithm(TuningTarget::Power(0), None), Ok("PowerTune"));
    assert_eq!(epic::tuning_algorithm(hr, None), Err(ConfigError::MissingAlgorithm));
    assert_eq!(epic::tuning_algorithm(hr, Some("chiptune")), Ok("ChipTune"));
    assert_eq!(epic::tuning_algorithm(hr, Some("powertune")), Err(ConfigError::AlgorithmMismatch));
    let unknown = epic::tuning_algorithm(hr, Some("x")).unwrap_err();
    assert_eq!(unknown, ConfigError::UnsupportedAlgorithm("x".to_string()));
    assert_eq!(unknown.to_text(), "Unsupported perpetual tune algorithm 'x' for ePIC PowerPlay");
    assert_eq!(
        epic::tuning_algorithm(TuningTarget::MiningMode(asic_rs::data::MiningMode::Low), None),
        Err(ConfigError::MiningModeTargetUnsupported)
    );
}

#[test]
fn epic_tuning_request_checks_target_and_scaling() {
    let scaling = ScalingConfig::new(5, 50);
    let req = epic::tuning_request(TuningTarget::Power(3000.4f64.to_bits()), None, Some(&scaling)).unwrap();
    assert_eq!(
        to_value(&req),
        v(r#"{"param": {"algo": "PowerTune", "target": 3000, "min_throttle": 50, "throttle_step": 5}}"#)
    );
    let hr = epic::tuning_request(TuningTarget::HashRate(89.5f64.to_bits()), Some("ChipTune"), Some(&scaling)).unwrap();
    assert_eq!(to_value(&hr)["param"]["target"], v("90"));
    assert!(matches!(
        epic::tuning_request(TuningTarget::Power(3000.0f64.to_bits()), None, None),
        Err(ConfigError::MissingScaling)
    ));
    assert!(matches!(
        epic::tuning_request(TuningTarget::Power((-1.0f64).to_bits()), None, Some(&scaling)),
        Err(ConfigError::TargetNegative(TargetKind::Power))
    ));
    assert!(matches!(
        epic::tuning_request(TuningTarget::Power(f64::NAN.to_bits()), None, Some(&scaling)),
        Err(ConfigError::TargetNotFinite(TargetKind::Power))
    ));
    assert!(matches!(
        epic::tuning_request(TuningTarget::Power(5.0e9f64.to_bits()), None, Some(&scaling)),
        Err(ConfigError::TargetTooLarge(TargetKind::Power))
    ));
    assert_eq!(epic::whole_target(4294967295.0f64.to_bits(), TargetKind::Power), Ok(u32::MAX));
    assert_eq!(
        epic::whole_target(4294967295.5f64.to_bits(), TargetKind::Hashrate),
        Err(ConfigError::TargetTooLarge(TargetKind::Hashrate))
    );
    assert_eq!(epic::whole_target((-0.0f64).to_bits(), TargetKind::Power), Ok(0));
    let hr_err = epic::tuning_request(TuningTarget::HashRate((-2.0f64).to_bits()), Some("ChipTune"), Some(&scaling)).unwrap_err();
    assert_eq!(hr_err.to_text(), "hashrate target must be non-negative");
    assert_eq!(ConfigError::TargetNotFinite(TargetKind::Power).to_text(), "power target is not finite");
    assert_eq!(
        ConfigError::TargetTooLarge(TargetKind::Power).to_text(),
        "power target exceeds maximum supported value"
    );
}

#[test]
fn epic_summary_readers() {
    let summary = parse(r#"{"PerpetualTune": {"Algorithm": {"VoltageOptimizer": {"Target": 95, "Unit": "TH/s"}}}}"#);
    let (name, stats) = epic::first_perpetual_tune_algorithm(&summary).unwrap();
    assert_eq!(name, "VoltageOptimizer");
    assert!(!epic::target_is_power(stats, name, true));
    assert!(epic::target_is_power(&parse(r#"{"Unit": " w "}"#), "ChipTune", false));
    assert!(epic::target_is_power(&parse("{}"), "PowerTune", true));
    assert!(!epic::target_is_power(&parse("{}"), "PowerTune", false));
    assert!(epic::first_perpetual_tune_algorithm(&parse("{}")).is_none());
    let net = parse(r#"{"dhcp": {"mac_address": "00:11:22:33:44:55"}, "static": {"mac_address": "66:77:88:99:aa:bb"}}"#);
    assert_eq!(epic::parse_mac(Some(&net)), Some(vec![0, 0x11, 0x22, 0x33, 0x44, 0x55]));
    let stat = parse(r#"{"static": {"mac_address": "66:77:88:99:aa:bb"}}"#);
    assert_eq!(epic::parse_mac(Some(&stat)), Some(vec![0x66, 0x77, 0x88, 0x99, 0xaa, 0xbb]));
    assert_eq!(epic::parse_mac(Some(&parse(r#"{"dhcp": {}}"#))), None);
}

#[test]
fn epic_payloads() {
    let auto = epic::fan_payload(FanConfig::Auto { idle_speed: None }, 70);
    assert_eq!(to_value(&auto), v(r#"{"param": {"Auto": {"Target Temperature": 70, "Idle Speed": 20}}}"#));
    let manual = epic::fan_payload(FanConfig::Manual { fan_speed: 55 }, 70);
    assert_eq!(to_value(&manual), v(r#"{"param": {"Manual": 55}}"#));
    let body = epic_web::build_post_body(Some(parse(r#"{"param": "Stop"}"#)), "letmein");
    assert_eq!(to_value(&body), v(r#"{"param": "Stop", "password": "letmein"}"#));
    assert_eq!(to_value(&epic_web::build_post_body(None, "pw")), v(r#"{"password": "pw"}"#));
    assert_eq!(to_value(&epic_web::build_post_body(Some(parse("[1]")), "pw")), v("[1]"));
    assert_eq!(to_value(&epic_web::param_payload(Json::Bool(true))), v(r#"{"param": true}"#));
    assert!(epic_web::result_flag(&parse(r#"{"result": true}"#)));
    assert!(!epic_web::result_flag(&parse(r#"{"result": "true"}"#)));
    assert!(!epic_web::result_flag(&parse("{}")));
    assert_eq!(epic_web::combine_logs("a", "b"), "== log ==\na\n== log/error ==\nb");
    assert_eq!(
        epic_web::sha256_hex(b"abc"),
        "ba7816bf8f01cfea414140de5dae2223b00361a396177a9cb410ff61f20015ad"
    );
    let locs = epic::get_configs_locations(ConfigField::Pools);
    assert_eq!(locs.len(), 2);
    assert_eq!(locs[1].command.command, "hashratesplit/config");
    assert_eq!(epic::get_locations(DataField::Chips).len(), 4);
    assert_eq!(epic::get_locations(DataField::Hostname)[0].key, "/Hostname");
}

#[test]
fn futurebit_pool_and_actions() {
    let pool_json = parse(r#"{"host": "pool.example", "userName": "me"}"#);
    let groups = futurebit::parse_pools(Some(&pool_json), Some(70000), Some(3), None, Some(1));
    assert_eq!(groups.len(), 1);
    let p = &groups[0].pools[0];
    assert_eq!(p.url.as_ref().unwrap().as_text(), "pool.example:4464");
    assert_eq!(p.active, Some(true));
    assert_eq!(p.alive, Some(true));
    assert_eq!(p.user.as_deref(), Some("me"));
    assert_eq!(p.position, Some(0));
    assert!(futurebit::parse_pools(Some(&parse("{}")), None, None, None, None).is_empty());
    assert_eq!(futurebit::mutation_for(ApolloAction::Stop), "mutation { Miner { stop { error { message } } } }");
    let failed = parse(r#"{"Miner": {"restart": {"error": {"message": "busy"}}}}"#);
    assert_eq!(futurebit::mutation_failure(&failed, ApolloAction::Restart), Some("Apollo restart failed: busy".to_string()));
    assert_eq!(futurebit::mutation_failure(&failed, ApolloAction::Start), None);
    assert_eq!(futurebit::get_locations(DataField::Hashboards).len(), 1);
    assert_eq!(futurebit::get_locations(DataField::Chips)[0].key, "/Miner/stats/result/stats/0");
}

#[test]
fn futurebit_graphql_answers() {
    let body = futurebit_web::login_body("pw");
    assert_eq!(to_value(&body)["variables"], v(r#"{"input": {"password": "pw"}}"#));
    assert!(to_value(&body)["query"].as_str().unwrap().starts_with("query Login"));
    assert!(matches!(futurebit_web::login_reply(&parse(r#"{"errors": [1]}"#)), LoginReply::Errors(_)));
    match futurebit_web::login_reply(&parse(r#"{"data": {"Auth": {"login": {"error": {"message": "no"}}}}}"#)) {
        LoginReply::Failed(m) => assert_eq!(m, "no"),
        _ => panic!("expected failure"),
    }
    match futurebit_web::login_reply(&parse(r#"{"data": {"Auth": {"login": {"result": {"accessToken": "t"}}}}}"#)) {
        LoginReply::Token(t) => assert_eq!(t, "t"),
        _ => panic!("expected token"),
    }
    assert!(matches!(futurebit_web::login_reply(&parse("{}")), LoginReply::NoToken));
    assert_eq!(to_value(&futurebit_web::query_body("{ a }", None)), v(r#"{"query": "{ a }"}"#));
    assert_eq!(
        to_value(&futurebit_web::query_body("{ a }", Some(parse(r#"{"x": 1}"#)))),
        v(r#"{"query": "{ a }", "variables": {"x": 1}}"#)
    );
    assert!(matches!(futurebit_web::query_reply(&parse(r#"{"data": {"a": 1}}"#)), QueryReply::Data(_)));
    assert!(matches!(futurebit_web::query_reply(&parse(r#"{}"#)), QueryReply::NoData));
    let stats = parse(r#"{"Miner": {"stats": {"result": {"stats": [{"version": "v1"}, {}]}}}}"#);
    assert_eq!(to_value(&futurebit_web::first_miner_stats(&stats).unwrap()), v(r#"{"version": "v1"}"#));
    assert!(futurebit_web::first_miner_stats(&parse("{}")).is_none());
}

#[test]
fn braiins_readers() {
    let pools = parse(r#"[{"url": "stratum+tcp://a:1", "user": "u", "active": true, "alive": false,
                          "stats": {"accepted_shares": 5, "rejected_shares": 1}}]"#);
    let groups = braiins::parse_pools(Some(&pools));
    assert_eq!(groups.len(), 1);
    let p = &groups[0].pools[0];
    assert_eq!(p.accepted_shares, Some(5));
    assert_eq!(p.rejected_shares, Some(1));
    assert_eq!(p.active, Some(true));
    assert_eq!(p.alive, Some(false));
    assert_eq!(p.position, Some(0));
    let appeals = parse(r#"[{"kind": "ERROR", "message": "hot", "timestamp": 7}, {"kind": "x"}]"#);
    let msgs = braiins::parse_messages(Some(&appeals));
    assert_eq!(msgs.len(), 2);
    assert_eq!(msgs[0].severity, MessageSeverity::Error);
    assert_eq!(msgs[0].timestamp, 7);
    assert_eq!(msgs[1].message, "Unknown");
    assert_eq!(msgs[1].severity, MessageSeverity::Info);
    assert_eq!(braiins::bos_version_string("26.04"), Some("26.4.0".to_string()));
    assert_eq!(braiins::bos_version_string("bos-25.07.1"), Some("25.7.1".to_string()));
    assert_eq!(braiins::bos_version_string("2026-04-1"), None);
    let version = braiins::parse_bos_version("26.04").unwrap();
    assert_eq!((version.major, version.minor, version.patch), (26, 4, 0));
    assert!(braiins::prefers_hashrate(&parse(r#"{"mode": "HASHRATE_TARGET"}"#)));
    assert!(braiins::prefers_hashrate(&parse(r#"{"mode": 2}"#)));
    assert!(!braiins::prefers_hashrate(&parse(r#"{"mode": "POWER_TARGET"}"#)));
    assert!(!braiins::prefers_hashrate(&parse("{}")));
    let (pk, hk) = braiins::tagged_target_keys("scaled");
    assert_eq!((pk.as_str(), hk.as_str()), ("scaled_power", "scaled_hashrate"));
}

#[test]
fn braiins_batch_payload() {
    let config = vec![PoolGroupConfig { name: "g".to_string(), quota: 2, pools: vec![pool("stratum+tcp://a:1", "u", "p")] }];
    let payload = braiins::pools_batch_payload(&config);
    assert_eq!(
        to_value(&payload),
        v(r#"[{"name": "g", "pools": [{"url": "stratum+tcp://a:1", "user": "u", "password": "p"}],
               "load_balance_strategy": {"quota": {"value": 2}}}]"#)
    );
}

#[test]
fn braiins_web_and_graphql() {
    assert_eq!(to_value(&braiins_web::login_payload("root", "pw")), v(r#"{"username": "root", "password": "pw"}"#));
    assert_eq!(braiins_web::login_token(&parse(r#"{"token": "T"}"#)), Some("T".to_string()));
    assert_eq!(to_value(&braiins_web::password_payload("n")), v(r#"{"password": "n"}"#));
    let cookies = vec!["path=/; HttpOnly".to_string(), "theme=x; session_id=abc ; Path=/".to_string()];
    assert_eq!(braiins_web::session_from_cookies(&cookies), Some("abc".to_string()));
    assert_eq!(braiins_web::session_from_cookies(&vec!["session_id=; a=b".to_string()]), None);
    assert!(matches!(braiins_web::bos_reply(&parse(r#"{"errors": [{"m": 1}], "data": null}"#)), BosReply::Errors(_)));
    assert!(matches!(braiins_web::bos_reply(&parse(r#"{"errors": [], "data": {"a": 1}}"#)), BosReply::Data(_)));
    assert!(matches!(braiins_web::bos_reply(&parse(r#"{"data": null}"#)), BosReply::NullData));
    assert!(braiins_web::mutation_ok(&parse(r#"{"bos": {"setPassword": {"void": true}}}"#), BosMutation::SetPassword));
    assert!(!braiins_web::mutation_ok(&parse(r#"{"bos": {"setPassword": {"message": "x"}}}"#), BosMutation::SetPassword));
    assert!(!braiins_web::mutation_ok(&parse(r#"{"bos": {}}"#), BosMutation::FactoryReset));
    assert!(braiins_web::mutation_query(BosMutation::FactoryReset).contains("factoryReset"));
    assert_eq!(braiins_web::log_text(&parse(r#"{"bos": {"log": ["a", 1, "b"]}}"#)), "a\nb\n");
    assert_eq!(braiins_web::log_text(&parse("{}")), "");
    assert_eq!(to_value(&braiins_web::log_variables()), v(r#"{"target": "BOSMINER"}"#));
    let body = braiins_web::graphql_login_body("u", "p");
    assert_eq!(to_value(&body)["variables"], v(r#"{"username": "u", "password": "p"}"#));
}

#[test]
fn luxminer_readers() {
    let events = parse(r#"[
        {"Code": "FAN_FAILURE", "Target": "fan", "ID": 2, "Description": "stopped"},
        {"Code": "SHUTDOWN_USER", "Description": "bye"},
        {"Code": "TEMP_HIGH", "Target": "board"},
        {"Description": "no code"}
    ]"#);
    let msgs = luxminer::parse_messages(Some(&events));
    assert_eq!(msgs.len(), 3);
    assert_eq!(msgs[0].message, "[fan 2] stopped");
    assert_eq!(msgs[0].severity, MessageSeverity::Error);
    assert_eq!(msgs[1].severity, MessageSeverity::Info);
    assert_eq!(msgs[2].message, "[board] TEMP_HIGH");
    assert_eq!(msgs[2].severity, MessageSeverity::Warning);
    let pools = parse(r#"[
        {"GROUP": 1, "POOL": 3, "URL": "b", "Quota": 2, "Status": "Alive"},
        {"GROUP": 0, "POOL": 1, "URL": "a", "Quota": 5},
        {"GROUP": 1, "POOL": 4, "URL": "c", "Quota": 9}
    ]"#);
    let groups = luxminer::parse_pools(Some(&pools));
    assert_eq!(groups.len(), 2);
    assert_eq!(groups[0].quota, 5);
    assert_eq!(groups[1].quota, 2);
    assert_eq!(groups[1].pools.len(), 2);
    assert_eq!(groups[1].pools[0].alive, Some(true));
    assert_eq!(groups[1].pools[1].position, Some(4));
    let tuning = parse(r#"{"Profile": "b", "Profiles": [{"Profile Name": "a", "Watts": 1}, {"Profile Name": "b", "Watts": 2}]}"#);
    assert_eq!(to_value(luxminer::current_profile(&tuning).unwrap())["Watts"], v("2"));
    assert!(luxminer::current_profile(&parse(r#"{"Profile": "z", "Profiles": []}"#)).is_none());
    assert_eq!(luxminer::fault_led_mode(true), "blink");
    assert_eq!(luxminer::fault_led_mode(false), "auto");
    assert_eq!(luxminer::get_configs_locations(ConfigField::Pools).len(), 2);
}

#[test]
fn luxminer_replace_steps_remove_then_add() {
    let current = parse(r#"{"groups": [{"GROUPS": [{"GROUP": 0}, {"GROUP": 2}, {"GROUP": 1}]}]}"#);
    let config = vec![
        PoolGroupConfig { name: "a".to_string(), quota: 1, pools: vec![pool("u1", "w1", "p1")] },
        PoolGroupConfig { name: "b".to_string(), quota: 2, pools: vec![pool("u2", "w2", "p2")] },
    ];
    let steps = luxminer::replace_pools_steps(Some(&current), &config);
    let removed: Vec<u32> = steps
        .iter()
        .filter_map(|s| match s {
            LuxPoolAction::RemoveGroup(id) => Some(*id),
            _ => None,
        })
        .collect();
    assert_eq!(removed, vec![2, 1, 0]);
    assert_eq!(steps.len(), 7);
    match &steps[3] {
        LuxPoolAction::AddGroup { name, quota } => assert_eq!((name.as_str(), *quota), ("a", 1)),
        _ => panic!("expected a group"),
    }
    match &steps[6] {
        LuxPoolAction::AddPool { url, group, .. } => assert_eq!((url.as_str(), group.as_str()), ("u2", "1")),
        _ => panic!("expected a pool"),
    }
}

#[test]
fn elphapex_version_and_locations() {
    let ver = parse(r#""Elphapex_DG1_v1.0.3""#);
    assert_eq!(elphapex::parse_firmware_version(Some(&ver)), Some("1.0.3".to_string()));
    assert_eq!(elphapex::parse_firmware_version(Some(&parse(r#""ABCV""#))), None);
    assert_eq!(elphapex::parse_firmware_version(Some(&parse(r#""1.2""#))), Some("1.2".to_string()));
    assert_eq!(elphapex::get_configs_locations(ConfigField::Pools)[0].command.command, "get_miner_conf");
}

#[test]
fn mac_texts() {
    assert_eq!(mac::parse_text_mac(Some(&parse(r#""aa:bb:cc:dd:ee:ff""#))), Some(vec![0xaa, 0xbb, 0xcc, 0xdd, 0xee, 0xff]));
    assert_eq!(mac::parse_upper_text_mac(Some(&parse(r#""aa-bb-cc-dd-ee-ff""#))), Some(vec![0xaa, 0xbb, 0xcc, 0xdd, 0xee, 0xff]));
    assert_eq!(mac::parse_text_mac(Some(&parse("1"))), None);
    assert_eq!(mac::parse_text_mac(None), None);
}

fn sem(major: u64, minor: u64, patch: u64, pre: &str) -> asic_rs::version::SemVersion {
    asic_rs::version::SemVersion { major, minor, patch, pre: pre.to_string(), build: String::new() }
}

fn stats(current: Option<asic_rs::version::SemVersion>, latest: Option<asic_rs::version::SemVersion>) -> asic_rs::version::FirmwareStats {
    asic_rs::version::FirmwareStats { current_version: current, latest_version: latest, firmware: None }
}

#[test]
fn firmware_update_available_compares_versions() {
    assert!(stats(Some(sem(1, 2, 3, "")), Some(sem(1, 10, 0, ""))).update_available());
    assert!(!stats(Some(sem(1, 10, 0, "")), Some(sem(1, 2, 3, ""))).update_available());
    assert!(!stats(Some(sem(2, 0, 0, "")), Some(sem(2, 0, 0, ""))).update_available());
    assert!(stats(Some(sem(1, 0, 0, "alpha")), Some(sem(1, 0, 0, ""))).update_available());
    assert!(!stats(Some(sem(1, 0, 0, "")), Some(sem(1, 0, 0, "rc.1"))).update_available());
    assert!(!stats(None, Some(sem(1, 0, 0, ""))).update_available());
    assert!(!stats(Some(sem(1, 0, 0, "")), None).update_available());
}

#[test]
fn firmware_image_keeps_name_and_bytes() {
    let image = asic_rs::version::FirmwareImage::new("update.tar.gz".to_string(), vec![1, 2, 3]);
    assert_eq!(image.filename, "update.tar.gz");
    assert_eq!(image.bytes, vec![1, 2, 3]);
}

#[test]
fn parse_hostname_and_unknown_control_board() {
    let hostname = Json::Str("futurebit-apollo-2".to_string());
    let control_board = Json::Str("v2".to_string());
    assert_eq!(futurebit::parse_hostname(Some(&hostname)), Some("futurebit-apollo-2".to_string()));
    let name = control_board.as_str().unwrap().to_string();
    let board = asic_rs::data::MinerControlBoard::unknown(name);
    assert!(!board.known);
    assert_eq!(board.name, "v2");
    assert_eq!(board.to_text(), "Unknown: v2");
}

#[test]
fn auth_debug_hides_secrets() {
    let auth = MinerAuth::new("root".to_string(), "hunter2".to_string());
    let shown = format!("{auth:?}");
    assert!(shown.contains("root"));
    assert!(!shown.contains("hunter2"));
    let token = MinerAuth::from_token("s3cr3t-token".to_string());
    assert!(!format!("{token:?}").contains("s3cr3t-token"));
}
