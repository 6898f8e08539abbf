use asic_rs::antminer;
use asic_rs::antminer::{PasswordOutcome, PasswordReply};
use asic_rs::antminer_firmware;
use asic_rs::auradine;
use asic_rs::auradine_web::{self, WebStep};
use asic_rs::avalon;
use asic_rs::data::{ConfigField, MessageSeverity, MiningMode};
use asic_rs::errors::ConfigError;
use asic_rs::fields::{ApiKind, DataField};
use asic_rs::json::{Json, JsonNumber};
use asic_rs::marathon::MaraWorkMode;
use asic_rs::marathon_miner;
use asic_rs::pools::{PoolConfig, PoolGroupConfig, PoolURL};
use asic_rs::tuning::TuningTarget;
use serde_json::Value;

fn to_json(v: &Value) -> Json {
    match v {
        Value::Null => Json::Null,
        Value::Bool(b) => Json::Bool(*b),
        Value::Number(n) => {
            if let Some(u) = n.as_u64() {
                Json::Number(JsonNumber::PosInt(u))
            } else if let Some(i) = n.as_i64() {
                Json::Number(JsonNumber::NegInt(i))
            } else {
                Json::Number(JsonNumber::Float(n.as_f64().unwrap().to_bits()))
            }
        }
        Value::String(s) => Json::Str(s.clone()),
        Value::Array(a) => Json::Array(a.iter().map(to_json).collect()),
        Value::Object(m) => Json::Object(m.iter().map(|(k, v)| (k.clone(), to_json(v))).collect()),
    }
}

fn to_value(j: &Json) -> Value {
    match j {
        Json::Null => Value::Null,
        Json::Bool(b) => Value::Bool(*b),
        Json::Number(JsonNumber::PosInt(u)) => Value::from(*u),
        Json::Number(JsonNumber::NegInt(i)) => Value::from(*i),
        Json::Number(JsonNumber::Float(bits)) => Value::from(f64::from_bits(*bits)),
        Json::Str(s) => Value::String(s.clone()),
        Json::Array(a) => Value::Array(a.iter().map(to_value).collect()),
        Json::Object(es) => {
            let mut m = serde_json::Map::new();
            for (k, v) in es {
                m.insert(k.clone(), to_value(v));
            }
            Value::Object(m)
        }
    }
}

fn parse(text: &str) -> Json {
    to_json(&serde_json::from_str::<Value>(text).unwrap())
}

fn v(text: &str) -> Value {
    serde_json::from_str(text).unwrap()
}

fn pool(url: &str, user: &str, pass: &str) -> PoolConfig {
    PoolConfig { url: PoolURL::new(url.to_string()), username: user.to_string(), password: pass.to_string() }
}

fn group(name: &str, quota: u32, pools: Vec<PoolConfig>) -> PoolGroupConfig {
    PoolGroupConfig { name: name.to_string(), quota, pools }
}

#[test]
fn mara_work_mode_names_are_read_in_any_case() {
    assert_eq!(marathon_miner::work_mode_from_text("  Sleep \n"), Some(MaraWorkMode::Sleep));
    assert_eq!(marathon_miner::work_mode_from_text("AUTO"), Some(MaraWorkMode::Auto));
    assert_eq!(marathon_miner::work_mode_from_text("fixed"), Some(MaraWorkMode::Fixed));
    assert_eq!(marathon_miner::work_mode_from_text("Stock"), Some(MaraWorkMode::Stock));
    assert_eq!(marathon_miner::work_mode_from_text("turbo"), None);
}

#[test]
fn mara_work_mode_in_config_reads_the_selector() {
    let cfg = parse(r#"{"mode": {"work-mode-selector": "Sleep", "concorde": {}}}"#);
    assert_eq!(marathon_miner::work_mode_in_config(&cfg), Ok(Some(MaraWorkMode::Sleep)));
    let none = parse(r#"{"mode": {}}"#);
    assert_eq!(marathon_miner::work_mode_in_config(&none), Ok(None));
    let bad = parse(r#"{"mode": {"work-mode-selector": "Hyper"}}"#);
    let err = marathon_miner::work_mode_in_config(&bad).unwrap_err();
    assert_eq!(err, ConfigError::UnknownWorkMode("hyper".to_string()));
    assert_eq!(err.to_text(), "unknown Mara work mode: hyper");
}

#[test]
fn mara_set_work_mode_round_trips() {
    let cfg = parse(r#"{"pools": [], "mode": {"work-mode-selector": "Stock", "x": 1}}"#);
    let updated = marathon_miner::set_work_mode(cfg, MaraWorkMode::Fixed).unwrap();
    assert_eq!(to_value(&updated), v(r#"{"pools": [], "mode": {"work-mode-selector": "Fixed", "x": 1}}"#));
    assert_eq!(marathon_miner::work_mode_in_config(&updated), Ok(Some(MaraWorkMode::Fixed)));
    let missing = parse(r#"{"mode": {"other": 1}}"#);
    assert!(matches!(marathon_miner::set_work_mode(missing, MaraWorkMode::Sleep), Err(ConfigError::NoWorkModeSelector)));
    assert_eq!(ConfigError::NoWorkModeSelector.to_text(), "MaraFW miner_config missing /mode/work-mode-selector");
}

#[test]
fn mara_is_mining_needs_mining_status() {
    let mining = parse(r#""Mining""#);
    let idle = parse(r#""Stopped""#);
    assert!(marathon_miner::parse_is_mining(Some(&mining)));
    assert!(!marathon_miner::parse_is_mining(Some(&idle)));
    assert!(!marathon_miner::parse_is_mining(None));
}

#[test]
fn mara_messages_map_levels() {
    let events = parse(r#"[
        {"level": "error", "message": "fan failed", "timestamp": 1700000000},
        {"level": "warning", "message": "hot"},
        {"level": "debug", "timestamp": 4294967297}
    ]"#);
    let msgs = marathon_miner::parse_messages(Some(&events));
    assert_eq!(msgs.len(), 3);
    assert_eq!(msgs[0].severity, MessageSeverity::Error);
    assert_eq!(msgs[0].timestamp, 1700000000);
    assert_eq!(msgs[0].message, "fan failed");
    assert_eq!(msgs[1].severity, MessageSeverity::Warning);
    assert_eq!(msgs[1].timestamp, 0);
    assert_eq!(msgs[2].severity, MessageSeverity::Info);
    assert_eq!(msgs[2].message, "");
    assert_eq!(msgs[2].timestamp, 1);
}

#[test]
fn mara_pools_pick_lowest_priority_alive_pool() {
    let data = parse(r#"[
        {"index": 0, "url": "stratum+tcp://a:3333", "user": "u0", "status": "Dead", "priority": 0, "accepted": 1},
        {"index": 1, "url": "stratum+tcp://b:3333", "user": "u1", "status": "Alive", "priority": 2},
        {"index": 2, "url": "", "user": "u2", "status": "Alive", "priority": 1, "rejected": 4}
    ]"#);
    let groups = marathon_miner::parse_pools(Some(&data));
    assert_eq!(groups.len(), 1);
    assert_eq!(groups[0].quota, 1);
    assert_eq!(groups[0].name, "");
    let p = &groups[0].pools;
    assert_eq!(p.len(), 3);
    assert_eq!(p[0].active, Some(false));
    assert_eq!(p[1].active, Some(false));
    assert_eq!(p[2].active, Some(true));
    assert_eq!(p[0].alive, Some(false));
    assert_eq!(p[2].url.is_none(), true);
    assert_eq!(p[1].url.as_ref().unwrap().as_text(), "stratum+tcp://b:3333");
    assert_eq!(p[2].rejected_shares, Some(4));
    assert_eq!(p[0].accepted_shares, Some(1));
    assert_eq!(p[1].position, Some(1));
    let empty = marathon_miner::parse_pools(None);
    assert_eq!(empty.len(), 1);
    assert!(empty[0].pools.is_empty());
}

#[test]
fn mara_history_finds_mode_before_sleep() {
    let history = parse(r#"[
        {"a": [{"type": "update", "path": ["Mode", "WorkModeSelector"], "from": "Stock", "to": "Sleep"}]},
        {"b": [{"type": "Update", "path": ["mode", "workmodeselector"], "from": "Fixed", "to": "sleep"}],
         "c": [{"type": "update", "path": ["Mode", "WorkModeSelector"], "from": "Auto", "to": "Sleep"}]}
    ]"#);
    assert_eq!(marathon_miner::last_mode_before_sleep(&history), Ok(Some(MaraWorkMode::Fixed)));
    let no_sleep = parse(r#"[{"a": [{"type": "update", "path": ["Mode", "WorkModeSelector"], "from": "Sleep", "to": "Auto"}]}]"#);
    assert_eq!(marathon_miner::last_mode_before_sleep(&no_sleep), Ok(None));
    let unknown = parse(r#"[{"a": [{"type": "update", "path": ["Mode", "WorkModeSelector"], "from": "Sleep", "to": "Weird"}]}]"#);
    assert_eq!(marathon_miner::last_mode_before_sleep(&unknown), Err(ConfigError::UnknownWorkMode("weird".to_string())));
    assert_eq!(marathon_miner::last_mode_before_sleep(&parse("{}")), Ok(None));
}

#[test]
fn mara_config_reply_reports_errors() {
    assert_eq!(marathon_miner::miner_config_reply(&parse(r#"{"error": false}"#)), Ok(true));
    assert_eq!(
        marathon_miner::miner_config_reply(&parse(r#"{"error": true, "msg": "bad"}"#)),
        Err("MaraFW miner_config POST failed: bad".to_string())
    );
    assert_eq!(
        marathon_miner::miner_config_reply(&parse(r#"{"error": true}"#)),
        Err("MaraFW miner_config POST failed: unknown error".to_string())
    );
}

#[test]
fn mara_pools_update_writes_groups_and_pools() {
    let config = vec![group("main", 3, vec![pool("stratum+tcp://a:1", "u", "p")]), group("backup", 1, vec![])];
    let updated = marathon_miner::pools_update(&config, parse(r#"{"fan": 1, "pools": ["old"]}"#)).unwrap();
    assert_eq!(
        to_value(&updated),
        v(r#"{"fan": 1,
              "pools": [{"url": "stratum+tcp://a:1", "user": "u", "pass": "p", "gid": 0}],
              "pool-group": [{"gid": 0, "alias": "main", "percent": 75}, {"gid": 1, "alias": "backup", "percent": 25}]}"#)
    );
    assert!(matches!(marathon_miner::pools_update(&config, parse("[]")), Err(ConfigError::NotAnObject)));
    let zero = vec![group("z", 0, vec![])];
    assert!(matches!(marathon_miner::pools_update(&zero, parse("{}")), Err(ConfigError::ZeroQuota)));
}

#[test]
fn mara_pause_and_resume_decisions() {
    assert_eq!(marathon_miner::pause_target(Some(MaraWorkMode::Sleep)), None);
    assert_eq!(marathon_miner::pause_target(None), Some(MaraWorkMode::Sleep));
    assert_eq!(marathon_miner::pause_target(Some(MaraWorkMode::Auto)), Some(MaraWorkMode::Sleep));
    assert_eq!(marathon_miner::resume_target(Some(MaraWorkMode::Auto), None), None);
    assert_eq!(marathon_miner::resume_target(Some(MaraWorkMode::Sleep), None), Some(MaraWorkMode::Stock));
    assert_eq!(
        marathon_miner::resume_target(Some(MaraWorkMode::Sleep), Some(MaraWorkMode::Fixed)),
        Some(MaraWorkMode::Fixed)
    );
    assert!(marathon_miner::asleep(Some(MaraWorkMode::Sleep)));
    assert!(!marathon_miner::asleep(None));
}

#[test]
fn mara_locations_name_web_commands() {
    let locs = marathon_miner::get_locations(DataField::Hashboards);
    assert_eq!(locs.len(), 2);
    assert_eq!(locs[0].command.command, "details");
    assert_eq!(locs[0].tag, Some("chip_data"));
    assert_eq!(locs[1].key, "/hashboards");
    let mac = marathon_miner::get_locations(DataField::Mac);
    assert_eq!(mac[0].command.api, ApiKind::Web);
    assert_eq!(mac[0].key, "/mac");
    assert!(marathon_miner::get_locations(DataField::ApiVersion).is_empty());
    let cfg = marathon_miner::get_configs_locations(ConfigField::Pools);
    assert_eq!(cfg[0].command.command, "miner_config");
    assert!(marathon_miner::get_configs_locations(ConfigField::Fan).is_empty());
}

#[test]
fn auradine_endpoint_strips_leading_slashes() {
    assert_eq!(auradine_web::endpoint_path("//mode"), "mode");
    assert_eq!(auradine_web::endpoint_path("led"), "led");
    assert_eq!(auradine_web::endpoint_path("a/b"), "a/b");
}

#[test]
fn auradine_post_payload_names_the_command() {
    let with_obj = auradine_web::build_post_payload("mode", Some(parse(r#"{"sleep": "on"}"#)));
    assert_eq!(to_value(&with_obj), v(r#"{"sleep": "on", "command": "mode"}"#));
    let kept = auradine_web::build_post_payload("mode", Some(parse(r#"{"command": "other"}"#)));
    assert_eq!(to_value(&kept), v(r#"{"command": "other"}"#));
    let scalar = auradine_web::build_post_payload("led", Some(parse("3")));
    assert_eq!(to_value(&scalar), v(r#"{"command": "led", "parameter": 3}"#));
    let none = auradine_web::build_post_payload("restart", None);
    assert_eq!(to_value(&none), v(r#"{"command": "restart"}"#));
}

#[test]
fn auradine_token_exchange() {
    let body = auradine_web::token_payload("admin", "pw");
    assert_eq!(to_value(&body), v(r#"{"command": "token", "user": "admin", "password": "pw"}"#));
    let answer = parse(r#"{"Token": [{"Token": "abc"}]}"#);
    assert_eq!(auradine_web::token_of(&answer), Some("abc".to_string()));
    assert_eq!(auradine_web::token_of(&parse("{}")), None);
}

#[test]
fn auradine_web_steps() {
    assert_eq!(auradine_web::on_http_status(1, 401), WebStep::Reauthenticate);
    assert_eq!(auradine_web::on_http_status(2, 401), WebStep::Fail);
    assert_eq!(auradine_web::on_http_status(1, 500), WebStep::Fail);
    assert_eq!(auradine_web::on_http_status(1, 200), WebStep::Read);
    assert!(auradine_web::retry_on_error(1, "Session expired"));
    assert!(auradine_web::retry_on_error(1, "invalid token"));
    assert!(!auradine_web::retry_on_error(2, "invalid token"));
    assert!(!auradine_web::retry_on_error(1, "bad parameter"));
}

#[test]
fn auradine_tuning_mode_and_payloads() {
    assert_eq!(auradine::parse_tuning_mode(Some(&parse(r#"{"Mode": "ECO"}"#))), Some(MiningMode::Low));
    assert_eq!(auradine::parse_tuning_mode(Some(&parse(r#"{"Mode": "turbo"}"#))), Some(MiningMode::High));
    assert_eq!(auradine::parse_tuning_mode(Some(&parse(r#"{"Mode": "normal"}"#))), Some(MiningMode::Normal));
    assert_eq!(auradine::parse_tuning_mode(Some(&parse(r#"{"Mode": "custom"}"#))), None);
    assert_eq!(auradine::number_text(" 1,234.5 W"), Some("1234.5".to_string()));
    assert_eq!(auradine::number_text("W"), None);
    assert_eq!(to_value(&auradine::led_payload(true)), v(r#"{"code": 3}"#));
    assert_eq!(to_value(&auradine::led_payload(false)), v(r#"{"code": 2}"#));
    assert_eq!(to_value(&auradine::sleep_payload(true)), v(r#"{"sleep": "on"}"#));
    assert_eq!(to_value(&auradine::power_limit_payload(3000)), v(r#"{"mode": "custom", "tune": "power", "power": 3000}"#));
    let config = vec![group("", 1, vec![pool("stratum+tcp://a:1", "u", "")])];
    let req = auradine::update_pools_request(&config).unwrap();
    assert_eq!(to_value(&req), v(r#"{"pools": [{"url": "stratum+tcp://a:1", "user": "u", "pass": "x"}]}"#));
    assert!(matches!(auradine::update_pools_request(&vec![]), Err(ConfigError::NoPools)));
    assert_eq!(ConfigError::NoPools.to_text(), "updatepools requires at least one pool");
}

#[test]
fn avalon_mac_gets_colons() {
    assert_eq!(avalon::normalize_mac_text(" AABBCCDDEEFF "), "aa:bb:cc:dd:ee:ff");
    assert_eq!(avalon::normalize_mac_text("aa:bb:cc:dd:ee:ff"), "aa:bb:cc:dd:ee:ff");
    let mac = parse(r#""0A1B2C3D4E5F""#);
    assert_eq!(avalon::parse_mac(Some(&mac)), Some(vec![0x0a, 0x1b, 0x2c, 0x3d, 0x4e, 0x5f]));
    assert_eq!(avalon::parse_mac(Some(&parse(r#""nope""#))), None);
    assert_eq!(avalon::parse_mac(None), None);
}

#[test]
fn antminer_tuning_and_config_locations() {
    let conf = parse(r#"{"bitmain-work-mode": "0", "pools": []}"#);
    let out = antminer::tuning_conf(&conf, TuningTarget::MiningMode(MiningMode::Low)).unwrap();
    assert_eq!(to_value(&out).get("bitmain-work-mode"), Some(&v("3")));
    assert!(matches!(antminer::tuning_conf(&conf, TuningTarget::Power(0)), Err(ConfigError::PowerTargetUnsupported)));
    let hr = antminer::tuning_conf(&conf, TuningTarget::HashRate(0)).unwrap_err();
    assert_eq!(hr.to_text(), "Hashrate tuning target is not supported on Antminer stock firmware");
    assert!(matches!(
        antminer::tuning_conf(&parse(r#"{"pools": []}"#), TuningTarget::MiningMode(MiningMode::High)),
        Err(ConfigError::NoMiningModeField)
    ));
    let locs = antminer::get_configs_locations(ConfigField::Pools);
    assert_eq!(locs[0].key, "/pools");
    assert_eq!(antminer::get_configs_locations(ConfigField::Tuning)[0].key, "");
    assert!(antminer::get_configs_locations(ConfigField::Scaling).is_empty());
}

#[test]
fn antminer_password_change_outcomes() {
    assert!(!antminer::try_new_password(PasswordReply::Refused));
    assert!(antminer::try_new_password(PasswordReply::Failed));
    assert_eq!(antminer::password_outcome(PasswordReply::Refused, true), PasswordOutcome::Unchanged);
    assert_eq!(antminer::password_outcome(PasswordReply::Accepted, true), PasswordOutcome::Changed);
    assert_eq!(antminer::password_outcome(PasswordReply::Accepted, false), PasswordOutcome::Unchanged);
    assert_eq!(antminer::password_outcome(PasswordReply::Failed, true), PasswordOutcome::Changed);
    assert_eq!(antminer::password_outcome(PasswordReply::Failed, false), PasswordOutcome::FailedUnchanged);
}

#[test]
fn antminer_model_and_version_from_cgi_answers() {
    let name = antminer_firmware::model_name(&parse(r#"{"miner_type": "Antminer S19 Pro"}"#));
    assert_eq!(name, "ANTMINER S19 PRO");
    assert_eq!(antminer_firmware::model_name(&parse("{}")), "");
    let unknown = antminer_firmware::unlisted_model("ANTMINER BHB42XXX").unwrap();
    assert_eq!(unknown.name, "ANTMINER BHB42XXX");
    assert!(antminer_firmware::unlisted_model("ANTMINER S19").is_none());
    let summary = parse(r#"{"INFO": {"CompileTime": "Thu Dec 22 17:46:28 CST 2022"}}"#);
    assert_eq!(antminer_firmware::compile_time(&summary), "Thu Dec 22 17:46:28 2022");
    let version = antminer_firmware::firmware_version(&summary).unwrap();
    assert_eq!((version.major, version.minor, version.patch), (2022, 12, 22));
    assert!(version.pre.is_empty() && version.build.is_empty());
    assert!(antminer_firmware::firmware_version(&parse(r#"{"INFO": {"CompileTime": "yesterday"}}"#)).is_none());
}
