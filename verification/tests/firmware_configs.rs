use asic_rs::collector::{combine_extracted, merge_values};
use asic_rs::data::{FanConfig, MessageSeverity, MiningMode};
use asic_rs::elphapex;
use asic_rs::epic;
use asic_rs::errors::ConfigError;
use asic_rs::fields::{rpc, web, DataField, DataLocation, MinerCommand, extract_field, required_commands};
use asic_rs::futurebit;
use asic_rs::avalon;
use asic_rs::json::{Json, JsonNumber};
use asic_rs::pools::{PoolConfig, PoolGroupConfig, PoolURL};
use asic_rs::traits::GetDataLocations;
use asic_rs::web_errors::{braiins_status_error, BraiinsError, PowerPlayError};
use serde_json::Value;

fn to_json(v: &Value) -> Json {
    match v {
        Value::Null => Json::Null,
        Value::Bool(b) => Json::Bool(*b),
        Value::Number(n) => {
            if let Some(u) = n.as_u64() {
                Json::Number(JsonNumber::PosInt(u))
            } else if let Some(i) = n.as_i64() {
                Json::Number(JsonNumber::NegInt(i))
            } else {
                Json::Number(JsonNumber::Float(n.as_f64().unwrap().to_bits()))
            }
        }
        Value::String(s) => Json::Str(s.clone()),
        Value::Array(a) => Json::Array(a.iter().map(to_json).collect()),
        Value::Object(m) => Json::Object(m.iter().map(|(k, v)| (k.clone(), to_json(v))).collect()),
    }
}

fn to_value(j: &Json) -> Value {
    match j {
        Json::Null => Value::Null,
        Json::Bool(b) => Value::Bool(*b),
        Json::Number(JsonNumber::PosInt(u)) => Value::from(*u),
        Json::Number(JsonNumber::NegInt(i)) => Value::from(*i),
        Json::Number(JsonNumber::Float(bits)) => Value::from(f64::from_bits(*bits)),
        Json::Str(s) => Value::String(s.clone()),
        Json::Array(a) => Value::Array(a.iter().map(to_value).collect()),
        Json::Object(es) => {
            let mut m = serde_json::Map::new();
            for (k, v) in es {
                m.insert(k.clone(), to_value(v));
            }
            Value::Object(m)
        }
    }
}

fn parse(text: &str) -> Json {
    to_json(&serde_json::from_str::<Value>(text).unwrap())
}

fn pool(url: &str, user: &str, pass: &str) -> PoolConfig {
    PoolConfig {
        url: PoolURL::new(url.to_string()),
        username: user.to_string(),
        password: pass.to_string(),
    }
}

fn v(text: &str) -> Value {
    serde_json::from_str(text).unwrap()
}

#[test]
fn merge_combines_objects_key_by_key() {
    let mut a = parse(r#"{"x": 1, "o": {"a": 1, "b": [1]}, "l": [1, 2]}"#);
    let b = parse(r#"{"y": 2, "o": {"b": [2], "c": 3}, "l": [3], "x": "s"}"#);
    merge_values(&mut a, b);
    assert_eq!(to_value(&a), v(r#"{"x": "s", "y": 2, "o": {"a": 1, "b": [1, 2], "c": 3}, "l": [1, 2, 3]}"#));
}

#[test]
fn merge_replaces_mismatched_values() {
    let mut a = parse(r#"{"x": 1}"#);
    merge_values(&mut a, parse("[1]"));
    assert_eq!(to_value(&a), v("[1]"));
    let mut a = parse("[1]");
    merge_values(&mut a, parse("7"));
    assert_eq!(to_value(&a), v("7"));
}

#[test]
fn combine_puts_values_under_tags() {
    assert!(combine_extracted(vec![]).is_none());
    let r = combine_extracted(vec![
        (Some("hashrate".to_string()), parse("12.5")),
        (Some("sleep".to_string()), parse(r#""on""#)),
    ])
    .unwrap();
    assert_eq!(to_value(&r), v(r#"{"hashrate": 12.5, "sleep": "on"}"#));
    let r = combine_extracted(vec![(None, parse("[1, 2]"))]).unwrap();
    assert_eq!(to_value(&r), v("[1, 2]"));
}

#[test]
fn extract_field_follows_locations() {
    let locations: Vec<DataLocation> = asic_rs::auradine::get_locations(DataField::IsMining);
    let answers: Vec<(MinerCommand, Json)> = vec![
        (rpc("summary"), parse(r#"{"SUMMARY": [{"MHS 5s": 100}]}"#)),
        (web("mode"), parse(r#"{"Mode": [{"Sleep": "on"}]}"#)),
    ];
    let value = extract_field(&locations, &answers).unwrap();
    assert_eq!(to_value(&value), v(r#"{"hashrate": 100, "sleep": "on"}"#));
    assert!(!asic_rs::auradine::parse_is_mining(Some(&value), None));

    let missing: Vec<(MinerCommand, Json)> = vec![(rpc("pools"), parse("{}"))];
    assert!(extract_field(&locations, &missing).is_none());
}

#[test]
fn required_commands_are_distinct() {
    let mut locations = asic_rs::auradine::get_locations(DataField::Hashboards);
    locations.extend(asic_rs::auradine::get_locations(DataField::Chips));
    let commands = required_commands(&locations);
    assert_eq!(commands.len(), 6);
    let names: Vec<&str> = commands.iter().map(|c| c.command).collect();
    assert_eq!(names, vec!["devs", "asccount", "ipreport", "temperature", "voltage", "frequency"]);
}

#[test]
fn location_tables_name_commands_and_pointers() {
    let antminer = asic_rs::antminer::AntMinerV2020::new(&asic_rs::data::UnknownMinerModel::from_name("S19"));
    let serial = antminer.get_locations(DataField::SerialNumber);
    assert_eq!(serial.len(), 2);
    assert_eq!(serial[1].key, "/serinum");
    assert!(antminer.get_locations(DataField::PsuFans).is_empty());
    let q = avalon::q_locations(DataField::Hashboards);
    assert_eq!(q[0].tag, Some("summary"));
    assert_eq!(avalon::a_series_locations(DataField::Mac)[0].key, "/VERSION/0/MAC");
    assert_eq!(elphapex::get_locations(DataField::Mac).len(), 2);
}

#[test]
fn parse_messages_uses_summary_status_last_error() {
    let summary = parse(
        r#"{
            "Status": {
                "Operating State": "AdjustingClockVoltage",
                "Last Command": "autostart",
                "Last Command Result": null,
                "Last Error": "Clock voltage adjustment failed"
            }
        }"#,
    );
    let messages = epic::parse_messages(Some(&summary), 1_700_000_000);

    assert_eq!(messages.len(), 1);
    assert_eq!(messages[0].message, "Clock voltage adjustment failed");
    assert_eq!(messages[0].severity, MessageSeverity::Error);
    assert_eq!(messages[0].timestamp, 1_700_000_000);
    let empty = parse(r#"{"Status": {"Last Error": ""}}"#);
    assert!(epic::parse_messages(Some(&empty), 0).is_empty());
}

#[test]
fn epic_scaling_and_fan_config() {
    let algorithms = parse(r#"{"Boost": {"x": 1}, "VoltageOptimizer": {"Min Throttle Target": 50, "Throttle Step": 5}}"#);
    let config = epic::parse_scaling_config(Some(&algorithms)).unwrap();
    assert_eq!(config.minimum, 50);
    assert_eq!(config.step, 5);
    let alt = parse(r#"{"A": {"min": 7, "step": 2}}"#);
    let config = epic::parse_scaling_config(Some(&alt)).unwrap();
    assert_eq!((config.minimum, config.step), (7, 2));
    assert!(matches!(epic::parse_scaling_config(Some(&parse("{}"))), Err(ConfigError::NoScalingConfig)));
    assert_eq!(
        ConfigError::NoScalingConfig.to_text(),
        "Failed to parse scaling config from summary perpetual tune data"
    );

    let fan = parse(r#"{"Auto": {"Target Temperature": 60, "Idle Speed": 20}}"#);
    assert_eq!(epic::parse_fan_config(Some(&fan)), Ok(FanConfig::Auto { idle_speed: Some(20) }));
    let fan = parse(r#"{"Manual": 75}"#);
    assert_eq!(epic::parse_fan_config(Some(&fan)), Ok(FanConfig::Manual { fan_speed: 75 }));
    let fan = parse(r#"{"Auto": {"Idle Speed": 20}}"#);
    assert_eq!(epic::parse_fan_config(Some(&fan)), Err(ConfigError::NoTargetTemperature));
    assert_eq!(epic::parse_fan_config(Some(&parse("{}"))), Err(ConfigError::UnknownFanMode));
    assert_eq!(epic::parse_fan_config(None), Err(ConfigError::NoFanMode));
    assert_eq!(ConfigError::UnknownFanMode.to_text(), "Failed to parse fan mode as Auto or Manual");
}

#[test]
fn epic_pools_config_reads_splits_and_summary() {
    let pools = parse(
        r#"{
            "summary": [
                {"pool": "u0", "login": "w0", "password": "p0"},
                {"pool": "", "login": "skip"},
                {"pool": "u1"}
            ],
            "hashratesplit": {"enabled": false}
        }"#,
    );
    let groups = epic::parse_pools_config(Some(&pools));
    assert_eq!(groups.len(), 1);
    assert_eq!(groups[0].pools.len(), 2);
    assert_eq!(groups[0].pools[1].username, "");

    let pools = parse(
        r#"{
            "hashratesplit": {"enabled": true, "hashrate_splits": [
                {"ratio": 60, "stratum_configs": [{"pool": "a"}]},
                {"stratum_configs": [{"pool": "b"}, {"pool": "c"}, {"pool": "d"}, {"pool": "e"}]},
                {"ratio": 5},
                {"ratio": 1}
            ]}
        }"#,
    );
    let groups = epic::parse_pools_config(Some(&pools));
    assert_eq!(groups.len(), 3);
    assert_eq!(groups[0].name, "group1");
    assert_eq!(groups[0].quota, 60);
    assert_eq!(groups[1].quota, 1);
    assert_eq!(groups[1].pools.len(), 3);
    assert_eq!(groups[2].name, "group3");
    assert!(epic::parse_pools_config(Some(&parse("[]"))).is_empty());
}

#[test]
fn epic_pools_overlay_current_stratum() {
    let summary = parse(
        r#"{
            "StratumConfigs": [{"pool": "u0", "login": "w0"}, {"pool": "u1", "login": "w1"}],
            "Stratum": {"Config Id": 1, "IsPoolConnected": true, "Current User": "cur", "Current Pool": "live"},
            "Session": {"Accepted": 9, "Rejected": 1}
        }"#,
    );
    let groups = epic::parse_pools(Some(&summary));
    let ps = &groups[0].pools;
    assert_eq!(ps.len(), 2);
    assert_eq!(ps[0].active, Some(false));
    assert_eq!(ps[0].user.as_deref(), Some("w0"));
    assert_eq!(ps[1].active, Some(true));
    assert_eq!(ps[1].alive, Some(true));
    assert_eq!(ps[1].user.as_deref(), Some("cur"));
    assert_eq!(ps[1].url.as_ref().map(|u| u.to_text()), Some("live".to_string()));
    assert_eq!(ps[1].accepted_shares, Some(9));
    assert_eq!(epic::parse_pools(None)[0].pools.len(), 0);
}

#[test]
fn epic_status_and_split_requests() {
    assert!(epic::parse_is_mining(Some(&parse(r#""Mining""#))));
    assert!(!epic::parse_is_mining(Some(&parse(r#""Idling""#))));
    assert!(!epic::parse_is_mining(None));

    let config = vec![
        PoolGroupConfig { name: "a".to_string(), quota: 1, pools: vec![] },
        PoolGroupConfig { name: "b".to_string(), quota: 2, pools: vec![pool("u", "w", "p")] },
    ];
    let groups = epic::pool_groups_to_write(&config).unwrap();
    assert_eq!(groups.len(), 1);
    assert_eq!(to_value(&epic::coin_payload(&groups[0]))["param"]["stratum_configs"][0]["login"], "w");
    assert!(matches!(epic::pool_groups_to_write(&vec![]), Err(ConfigError::NoNonEmptyGroups)));
    let many: Vec<PoolGroupConfig> = (0..4)
        .map(|i| PoolGroupConfig { name: format!("g{i}"), quota: 1, pools: vec![pool("u", "w", "p")] })
        .collect();
    assert!(matches!(epic::pool_groups_to_write(&many), Err(ConfigError::TooManyGroups)));

    assert_eq!(epic::split_ratios(&vec![67, 33]), vec![67, 33]);
    assert_eq!(epic::split_ratios(&vec![80, 80, 10]), vec![80, 20, 0]);
    assert_eq!(epic::split_ratios(&vec![10, 10, 10]), vec![10, 10, 80]);
    assert_eq!(epic::split_ratios(&vec![150]), vec![100]);
    let payload = to_value(&epic::split_payload(&many[..2].iter().map(|g| g.duplicate()).collect::<Vec<_>>(), &vec![40, 60]));
    assert_eq!(payload["param"][1]["ratio"], 60);
    assert_eq!(payload["param"][1]["sc_index"], 1);
    assert_eq!(payload["param"][0]["unique_worker_id_variant"], "MacAddress");
}

#[test]
fn parse_is_mining_accepts_boolean_status() {
    assert!(!futurebit::parse_is_mining(Some(&Json::Bool(false))));
    assert!(futurebit::parse_is_mining(Some(&Json::Bool(true))));
}

#[test]
fn futurebit_status_texts_and_hostname() {
    assert!(futurebit::parse_is_mining(Some(&parse(r#""ONLINE""#))));
    assert!(futurebit::parse_is_mining(Some(&parse(r#""Pending""#))));
    assert!(!futurebit::parse_is_mining(Some(&parse(r#""offline""#))));
    assert_eq!(futurebit::parse_hostname(Some(&parse(r#""futurebit-apollo-2""#))), Some("futurebit-apollo-2".to_string()));
    assert_eq!(futurebit::parse_hostname(Some(&parse(r#""""#))), None);
}

#[test]
fn parse_mcu_network_mac_ignores_zero_mac() {
    let data = parse(
        r#"[
            {"name": "miner", "mac": "00:00:00:00:00:00"},
            {"name": "eth0", "mac": "16:a1:04:59:2d:7d"}
        ]"#,
    );
    let expected: Option<Vec<u8>> = "16:a1:04:59:2d:7d"
        .parse::<macaddr::MacAddr>()
        .ok()
        .map(|m| m.as_bytes().to_vec());
    assert_eq!(futurebit::parse_mac(Some(&data)), expected);
}

#[test]
fn futurebit_mac_from_text() {
    assert_eq!(futurebit::parse_mac(Some(&parse(r#""16-A1-04-59-2D-7D""#))), Some(vec![0x16, 0xa1, 0x04, 0x59, 0x2d, 0x7d]));
    assert_eq!(futurebit::parse_mac(Some(&parse(r#""00:00:00:00:00:00""#))), None);
    assert_eq!(futurebit::parse_mac(Some(&parse(r#""not a mac""#))), None);
    assert!(futurebit::is_zero_mac(&vec![0, 0, 0, 0, 0, 0]));
}

#[test]
fn avalon_answers_and_parameters() {
    assert!(avalon::ascset_confirmed(&parse(r#"{"STATUS": [{"STATUS": "S", "Msg": "ASC 0 set OK"}]}"#)));
    assert!(!avalon::ascset_confirmed(&parse(r#"{"STATUS": [{"STATUS": "E", "Msg": "ASC 0 set OK"}]}"#)));
    assert_eq!(avalon::ascset_reply(&parse(r#"{"STATUS": [{"Msg": "nope"}]}"#)), Some(false));
    assert_eq!(avalon::ascset_reply(&parse(r#"{"STATUS": []}"#)), None);
    assert!(avalon::restart_confirmed(&parse(r#"{"STATUS": "RESTART"}"#)));
    assert_eq!(avalon::softoff_parameter(1700000005), "softoff,1:1700000005");
    assert_eq!(avalon::softon_parameter(7), "softon,1:7");
    assert_eq!(avalon::led_parameter(true), "1-1");
    assert!(avalon::resume_error_means_done("read failed: No data received"));
    assert!(!avalon::resume_error_means_done("refused"));
    let pools = avalon::parse_pools(Some(&parse(r#"[{"URL": "u", "Status": "Alive"}]"#)));
    assert_eq!(pools[0].pools[0].alive, Some(true));
    assert_eq!(avalon::parse_pools(None)[0].pools.len(), 0);
}

#[test]
fn web_error_texts() {
    assert_eq!(BraiinsError::HttpError(503).to_text(), "HTTP error: 503");
    assert_eq!(PowerPlayError::NetworkError("down".to_string()).to_text(), "Network error: down");
    assert_eq!(BraiinsError::Unauthorized.to_text(), "Unauthorized access");
    assert!(matches!(braiins_status_error(401), BraiinsError::Unauthorized));
    assert!(matches!(braiins_status_error(500), BraiinsError::HttpError(500)));
}

#[test]
fn elphapex_counts_modes_and_messages() {
    assert_eq!(elphapex::parse_count(Some(&parse(r#"" 1,234 GH""#))), Some(1234));
    assert_eq!(elphapex::parse_count(Some(&parse("42"))), Some(42));
    assert_eq!(elphapex::parse_count(Some(&parse(r#""abc""#))), None);
    assert_eq!(elphapex::parse_work_mode(Some(&parse(r#""2""#))), Some(MiningMode::High));
    assert_eq!(elphapex::parse_work_mode(Some(&parse("3"))), Some(MiningMode::Low));
    assert_eq!(elphapex::parse_work_mode(Some(&parse("1"))), None);
    assert!(!elphapex::parse_is_mining(Some(&parse(r#""1""#)), Some(true)));
    assert!(elphapex::parse_is_mining(None, Some(true)));
    assert_eq!(elphapex::parse_tuning_percent(Some(&parse(r#""300""#))), None);
    let summary = parse(r#"{"SUMMARY": [{"status": [{"status": "S"}, {"status": "w", "msg": "fan"}, {"status": "e"}]}]}"#);
    let messages = elphapex::parse_messages(Some(&summary), 9);
    assert_eq!(messages.len(), 2);
    assert_eq!(messages[0].message, "fan");
    assert_eq!(messages[1].message, "Elphapex status warning");
    assert_eq!(elphapex::parse_uptime(Some(&parse(r#"{"STATS": [{"elapsed": "3,600"}]}"#))), Some(3600));
    assert!(elphapex::blink_confirmed(true, Some("B000")));
    assert!(!elphapex::blink_confirmed(false, Some("B000")));
}

#[test]
fn elphapex_pools_mark_active_by_priority() {
    let data = parse(
        r#"{"POOLS": [
            {"index": 0, "url": "a", "status": "Alive", "priority": 2, "user": "w"},
            {"index": 1, "url": "b", "status": "alive", "priority": 1},
            {"url": "", "status": "Dead"}
        ]}"#,
    );
    let groups = elphapex::parse_pools(Some(&data));
    assert_eq!(groups[0].name, "default");
    let ps = &groups[0].pools;
    assert_eq!(ps[0].active, Some(false));
    assert_eq!(ps[1].active, Some(true));
    assert_eq!(ps[2].active, Some(false));
    assert_eq!(ps[2].position, Some(2));
    assert!(ps[2].url.is_none());
}

#[test]
fn test_parse_pools_config() {
    let config = parse(
        r#"{
            "pools": [
                {"url": "stratum+tcp://pool.invalid:3333", "user": "worker"},
                {"url": "stratum+tcp://backup.invalid:3333", "user": "worker"},
                {"url": "stratum+tcp://third.invalid:3333", "user": "worker", "pass": "p"}
            ]
        }"#,
    );
    let groups = elphapex::parse_pools_config(Some(&config));

    assert_eq!(groups.len(), 1);
    assert_eq!(groups[0].pools.len(), 3);
    assert_eq!(groups[0].pools[0].url.to_text(), "stratum+tcp://pool.invalid:3333");
    assert_eq!(groups[0].pools[0].username, "worker");
    assert_eq!(groups[0].pools[0].password, "x");
    assert_eq!(groups[0].pools[1].url.to_text(), "stratum+tcp://backup.invalid:3333");
    assert_eq!(groups[0].pools[1].username, "worker");
    assert_eq!(groups[0].pools[1].password, "x");
}

#[test]
fn elphapex_numbered_pool_settings() {
    let config = parse(r#"{"pool0url": "a", "pool0user": "u", "pool1_url": "", "pool2_url": "c", "pool2_pass": "p"}"#);
    let groups = elphapex::parse_pools_config(Some(&config));
    let ps = &groups[0].pools;
    assert_eq!(ps.len(), 2);
    assert_eq!(ps[0].password, "x");
    assert_eq!(ps[1].url.to_text(), "c");
    assert_eq!(ps[1].password, "p");
}
