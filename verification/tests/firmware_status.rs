use asic_rs::antminer;
use asic_rs::auradine;
use asic_rs::data::{MessageSeverity, MinerHardware};
use asic_rs::errors::ConfigError;
use asic_rs::json::{Json, JsonNumber};
use asic_rs::pools::{PoolConfig, PoolGroupConfig, PoolURL};
use serde_json::Value;

fn to_json(v: &Value) -> Json {
    match v {
        Value::Null => Json::Null,
        Value::Bool(b) => Json::Bool(*b),
        Value::Number(n) => {
            if let Some(u) = n.as_u64() {
                Json::Number(JsonNumber::PosInt(u))
            } else if let Some(i) = n.as_i64() {
                Json::Number(JsonNumber::NegInt(i))
            } else {
                Json::Number(JsonNumber::Float(n.as_f64().unwrap().to_bits()))
            }
        }
        Value::String(s) => Json::Str(s.clone()),
        Value::Array(a) => Json::Array(a.iter().map(to_json).collect()),
        Value::Object(m) => Json::Object(m.iter().map(|(k, v)| (k.clone(), to_json(v))).collect()),
    }
}

fn to_value(j: &Json) -> Value {
    match j {
        Json::Null => Value::Null,
        Json::Bool(b) => Value::Bool(*b),
        Json::Number(JsonNumber::PosInt(u)) => Value::from(*u),
        Json::Number(JsonNumber::NegInt(i)) => Value::from(*i),
        Json::Number(JsonNumber::Float(bits)) => Value::from(f64::from_bits(*bits)),
        Json::Str(s) => Value::String(s.clone()),
        Json::Array(a) => Value::Array(a.iter().map(to_value).collect()),
        Json::Object(es) => {
            let mut m = serde_json::Map::new();
            for (k, v) in es {
                m.insert(k.clone(), to_value(v));
            }
            Value::Object(m)
        }
    }
}

fn parse(text: &str) -> Json {
    to_json(&serde_json::from_str::<Value>(text).unwrap())
}

fn pool(url: &str, user: &str, pass: &str) -> PoolConfig {
    PoolConfig {
        url: PoolURL::new(url.to_string()),
        username: user.to_string(),
        password: pass.to_string(),
    }
}

#[test]
fn build_update_pools_payload_defaults_empty_passwords_to_x() {
    let config = vec![PoolGroupConfig {
        name: String::new(),
        quota: 1,
        pools: vec![pool("stratum+tcp://example.com:3333", "worker", "")],
    }];

    let payload = auradine::build_update_pools_payload(&config).unwrap();
    assert_eq!(to_value(&payload[0]).get("pass").and_then(Value::as_str), Some("x"));
}

#[test]
fn build_update_pools_payload_truncates_to_three_pools() {
    let config = vec![PoolGroupConfig {
        name: String::new(),
        quota: 1,
        pools: (0..4)
            .map(|idx| {
                pool(
                    &format!("stratum+tcp://pool{idx}.example.com:3333"),
                    &format!("worker{idx}"),
                    &format!("pass{idx}"),
                )
            })
            .collect(),
    }];

    let payload = auradine::build_update_pools_payload(&config).unwrap();
    assert_eq!(payload.len(), 3);
    assert_eq!(to_value(&payload[2]).get("user").and_then(Value::as_str), Some("worker2"));
}

#[test]
fn build_update_pools_payload_refuses_no_pools() {
    let config = vec![PoolGroupConfig { name: "g".to_string(), quota: 1, pools: vec![] }];
    assert!(matches!(auradine::build_update_pools_payload(&config), Err(ConfigError::NoPools)));
    assert!(matches!(auradine::build_update_pools_payload(&vec![]), Err(ConfigError::NoPools)));
}

#[test]
fn build_update_pools_payload_takes_pools_across_groups() {
    let config = vec![
        PoolGroupConfig { name: "a".to_string(), quota: 1, pools: vec![pool("u0", "w0", "p0")] },
        PoolGroupConfig { name: "b".to_string(), quota: 1, pools: vec![] },
        PoolGroupConfig {
            name: "c".to_string(),
            quota: 1,
            pools: vec![pool("u1", "w1", "p1"), pool("u2", "w2", "p2"), pool("u3", "w3", "")],
        },
    ];
    let payload = auradine::build_update_pools_payload(&config).unwrap();
    let urls: Vec<Value> = payload.iter().map(|p| to_value(p)["url"].clone()).collect();
    assert_eq!(urls, vec![Value::from("u0"), Value::from("u1"), Value::from("u2")]);
    assert_eq!(to_value(&payload[1])["pass"], "p1");
}

#[test]
fn antminer_pools_payload_keeps_passwords_and_truncates() {
    let config = vec![PoolGroupConfig {
        name: String::new(),
        quota: 1,
        pools: vec![pool("u0", "w0", ""), pool("u1", "w1", "p1"), pool("u2", "w2", "p2"), pool("u3", "w3", "p3")],
    }];
    let payload = antminer::pools_payload(&config);
    assert_eq!(payload.len(), 3);
    assert_eq!(to_value(&payload[0])["pass"], "");
    assert_eq!(to_value(&payload[2])["user"], "w2");
}

#[test]
fn antminer_parse_pools_reads_rpc_entries() {
    let pools = parse(
        r#"[
            {"URL": "stratum+tcp://a:1", "Accepted": 10, "Rejected": 2, "Stratum Active": true, "Status": "Alive", "User": "w"},
            {"URL": "stratum+tcp://b:1", "Status": "Dead"}
        ]"#,
    );
    let groups = antminer::parse_pools(Some(&pools));
    assert_eq!(groups.len(), 1);
    assert_eq!(groups[0].name, "");
    assert_eq!(groups[0].quota, 1);
    let ps = &groups[0].pools;
    assert_eq!(ps.len(), 2);
    assert_eq!(ps[0].position, Some(0));
    assert_eq!(ps[0].accepted_shares, Some(10));
    assert_eq!(ps[0].rejected_shares, Some(2));
    assert_eq!(ps[0].active, Some(true));
    assert_eq!(ps[0].alive, Some(true));
    assert_eq!(ps[0].user.as_deref(), Some("w"));
    assert_eq!(ps[1].position, Some(1));
    assert_eq!(ps[1].alive, Some(false));
    assert_eq!(ps[1].user, None);
    assert_eq!(ps[1].url.as_ref().map(|u| u.to_text()), Some("stratum+tcp://b:1".to_string()));

    assert!(antminer::parse_pools(None).is_empty());
    let not_array = parse(r#"{"a": 1}"#);
    let groups = antminer::parse_pools(Some(&not_array));
    assert_eq!(groups.len(), 1);
    assert!(groups[0].pools.is_empty());
}

#[test]
fn antminer_parse_pools_config_skips_empty_urls_and_keeps_three() {
    let pools = parse(
        r#"[
            {"url": "", "user": "x", "pass": "y"},
            {"url": "u1", "user": "w1"},
            {"url": "u2", "user": "w2", "pass": "p2"},
            {"user": "none"},
            {"url": "u3"},
            {"url": "u4", "user": "w4", "pass": "p4"}
        ]"#,
    );
    let groups = antminer::parse_pools_config(Some(&pools));
    assert_eq!(groups.len(), 1);
    let ps = &groups[0].pools;
    assert_eq!(ps.len(), 3);
    assert_eq!(ps[0].url.to_text(), "u1");
    assert_eq!(ps[0].password, "");
    assert_eq!(ps[1].password, "p2");
    assert_eq!(ps[2].url.to_text(), "u3");
    assert_eq!(ps[2].username, "");
    assert!(antminer::parse_pools_config(None).is_empty());
}

#[test]
fn antminer_parse_messages_skips_success_entries() {
    let status = parse(
        r#"[
            {"status": "s", "msg": "fine"},
            {"status": "E", "msg": "fan failure"},
            {"status": "w"},
            {"msg": "no status"},
            {"status": "i", "msg": "note"}
        ]"#,
    );
    let messages = antminer::parse_messages(Some(&status));
    assert_eq!(messages.len(), 3);
    assert_eq!(messages[0].code, 1);
    assert_eq!(messages[0].message, "fan failure");
    assert_eq!(messages[0].severity, MessageSeverity::Error);
    assert_eq!(messages[1].code, 2);
    assert_eq!(messages[1].message, "Unknown error");
    assert_eq!(messages[1].severity, MessageSeverity::Warning);
    assert_eq!(messages[2].code, 4);
    assert_eq!(messages[2].severity, MessageSeverity::Info);
    assert_eq!(messages[2].timestamp, 0);
    assert!(antminer::parse_messages(None).is_empty());
}

#[test]
fn antminer_parse_is_mining_by_status_then_hashrate() {
    let stopped = parse(r#""STOPPED""#);
    let mining = parse(r#""Mining""#);
    let one = parse(r#""1""#);
    let positive = parse("12.5");
    let zero = parse("0");
    assert!(!antminer::parse_is_mining(Some(&stopped), Some(&positive)));
    assert!(antminer::parse_is_mining(Some(&mining), Some(&zero)));
    assert!(!antminer::parse_is_mining(Some(&one), None));
    assert!(antminer::parse_is_mining(None, Some(&positive)));
    assert!(!antminer::parse_is_mining(None, Some(&zero)));
    assert!(!antminer::parse_is_mining(None, None));
}

#[test]
fn antminer_parse_light_flashing_accepts_flags_and_texts() {
    let t = parse("true");
    let text = parse(r#""TRUE""#);
    let one = parse(r#""1""#);
    let other = parse(r#""on""#);
    let number = parse("1");
    assert_eq!(antminer::parse_light_flashing(Some(&t)), Some(true));
    assert_eq!(antminer::parse_light_flashing(Some(&text)), Some(true));
    assert_eq!(antminer::parse_light_flashing(Some(&one)), Some(true));
    assert_eq!(antminer::parse_light_flashing(Some(&other)), Some(false));
    assert_eq!(antminer::parse_light_flashing(Some(&number)), None);
    assert_eq!(antminer::parse_light_flashing(None), None);
}

#[test]
fn auradine_parse_pools_uses_pool_numbers_and_dead_status() {
    let pools = parse(
        r#"[
            {"POOL": 7, "URL": "u0", "Status": "DEAD", "User": "w"},
            {"URL": "u1", "Status": "Alive"}
        ]"#,
    );
    let groups = auradine::parse_pools(Some(&pools));
    let ps = &groups[0].pools;
    assert_eq!(ps[0].position, Some(7));
    assert_eq!(ps[0].alive, Some(false));
    assert_eq!(ps[1].position, Some(1));
    assert_eq!(ps[1].alive, Some(true));
}

#[test]
fn auradine_parse_pools_config_sets_placeholder_password() {
    let pools = parse(
        r#"[
            {"URL": "u0", "User": "username.suffix", "Password": "secret"},
            {"URL": ""},
            {"URL": "u1"},
            {"URL": "u2", "User": "w2"},
            {"URL": "u3", "User": "w3"}
        ]"#,
    );
    let groups = auradine::parse_pools_config(Some(&pools));
    assert_eq!(groups.len(), 1);
    assert_eq!(groups[0].quota, 1);
    let ps = &groups[0].pools;
    assert_eq!(ps.len(), 4);
    assert_eq!(ps[0].username, "username.suffix");
    assert_eq!(ps[0].password, "x");
    assert_eq!(ps[1].username, "");
    let not_array = parse(r#"{"URL": "u"}"#);
    assert!(auradine::parse_pools_config(Some(&not_array)).is_empty());
}

#[test]
fn auradine_messages_and_light() {
    let led = parse(r#"{"Code": 3, "Msg": "Locate"}"#);
    let messages = auradine::parse_messages(Some(&led));
    assert_eq!(messages.len(), 1);
    assert_eq!(messages[0].code, 3);
    assert_eq!(messages[0].message, "Locate");
    assert_eq!(messages[0].severity, MessageSeverity::Info);
    let led = parse(r#"{"Code": 17}"#);
    let messages = auradine::parse_messages(Some(&led));
    assert_eq!(messages[0].message, "LED code 17");
    assert_eq!(messages[0].severity, MessageSeverity::Warning);
    let led = parse(r#"{}"#);
    let messages = auradine::parse_messages(Some(&led));
    assert_eq!(messages[0].code, 0);
    assert_eq!(messages[0].message, "LED code 0");
    assert!(auradine::parse_messages(Some(&parse("[]"))).is_empty());

    assert_eq!(auradine::parse_light_flashing(Some(&parse("3"))), Some(true));
    assert_eq!(auradine::parse_light_flashing(Some(&parse("2"))), Some(false));
    assert_eq!(auradine::parse_light_flashing(Some(&parse(r#""3""#))), None);
    assert_eq!(auradine::led_status_severity(2), MessageSeverity::Info);
    assert_eq!(auradine::led_status_severity(0), MessageSeverity::Warning);
}

#[test]
fn auradine_is_mining_prefers_sleep_state() {
    let status = parse(r#"{"hashrate": 5000.0, "sleep": "on"}"#);
    assert!(!auradine::parse_is_mining(Some(&status), Some(&parse("1"))));
    let status = parse(r#"{"hashrate": 0, "sleep": "OFF"}"#);
    assert!(auradine::parse_is_mining(Some(&status), None));
    let status = parse(r#"{"sleep": true, "hashrate": 10}"#);
    assert!(!auradine::parse_is_mining(Some(&status), None));
    let status = parse(r#"{"sleep": "maybe", "hashrate": 10}"#);
    assert!(auradine::parse_is_mining(Some(&status), None));
    let status = parse(r#"{"sleep": "maybe", "hashrate": "10"}"#);
    assert!(!auradine::parse_is_mining(Some(&status), Some(&parse("0.0"))));
    assert!(auradine::parse_is_mining(None, Some(&parse("2"))));
}

#[test]
fn auradine_board_ids_and_counts() {
    assert_eq!(auradine::board_position_from_id(0), None);
    assert_eq!(auradine::board_position_from_id(1), Some(0));
    assert_eq!(auradine::board_position_from_id(4), Some(3));
    assert_eq!(auradine::board_id_from_dev_entry(&parse(r#"{"ID": 9, "DEV": 2}"#), 0), Some(9));
    assert_eq!(auradine::board_id_from_dev_entry(&parse(r#"{"DEV": 2}"#), 0), Some(2));
    assert_eq!(auradine::board_id_from_dev_entry(&parse(r#"{}"#), 4), Some(5));
    let mut count: u8 = 2;
    auradine::update_board_count(&mut count, 5);
    assert_eq!(count, 5);
    auradine::update_board_count(&mut count, 3);
    assert_eq!(count, 5);
    auradine::update_board_count(&mut count, 300);
    assert_eq!(count, 5);
    auradine::update_board_count(&mut count, 0);
    assert_eq!(count, 5);
    assert_eq!(auradine::chip_id(&parse(r#"{"ID": 12}"#)), Some(12));
    assert_eq!(auradine::chip_id(&parse(r#"{"ID": 70000}"#)), None);
    assert_eq!(auradine::chip_id(&parse(r#"{"ID": "12"}"#)), None);
}

#[test]
fn auradine_hashboard_layout_counts_described_boards() {
    let hardware = MinerHardware { fans: None, boards: Some(vec![Some(132), Some(132), Some(132)]) };
    let api = parse(
        r#"{
            "asccount": {"BoardCount": 2, "AsicCount": 264},
            "devs": [{"ID": 1}, {"DEV": 4}],
            "serials": [1, 2],
            "temperature": [{"ID": 5}],
            "voltage": [{"ID": 300}],
            "frequency": []
        }"#,
    );
    assert_eq!(auradine::hashboard_layout(Some(&api), &hardware), (5, Some(132)));
    let api = parse(r#"{"asccount": {"BoardCount": 0, "AsicCount": 10}}"#);
    assert_eq!(auradine::hashboard_layout(Some(&api), &hardware), (0, Some(132)));
    assert_eq!(auradine::hashboard_layout(None, &hardware), (3, Some(132)));
    let api = parse(r#"[{"ID": 2}]"#);
    assert_eq!(auradine::hashboard_layout(Some(&api), &MinerHardware::empty()), (2, None));
    let api = parse(r#"{"asccount": {"BoardCount": 3, "AsicCount": 30}}"#);
    assert_eq!(auradine::hashboard_layout(Some(&api), &MinerHardware::empty()), (3, Some(10)));
}
