use asic_rs::json::{Json, JsonNumber};
use asic_rs::luxminer::parse_pool_config as lux_parse_pool_config;
use asic_rs::marathon::{build_pool_config, parse_pool_config as mara_parse_pool_config};
use asic_rs::pools::{PoolConfig, PoolGroupConfig, PoolURL};
use asic_rs::errors::ConfigError;
use serde_json::Value;

fn to_json(v: &Value) -> Json {
    match v {
        Value::Null => Json::Null,
        Value::Bool(b) => Json::Bool(*b),
        Value::Number(n) => {
            if let Some(u) = n.as_u64() {
                Json::Number(JsonNumber::PosInt(u))
            } else if let Some(i) = n.as_i64() {
                Json::Number(JsonNumber::NegInt(i))
            } else {
                Json::Number(JsonNumber::Float(n.as_f64().unwrap().to_bits()))
            }
        }
        Value::String(s) => Json::Str(s.clone()),
        Value::Array(a) => Json::Array(a.iter().map(to_json).collect()),
        Value::Object(m) => Json::Object(m.iter().map(|(k, v)| (k.clone(), to_json(v))).collect()),
    }
}

fn to_value(j: &Json) -> Value {
    match j {
        Json::Null => Value::Null,
        Json::Bool(b) => Value::Bool(*b),
        Json::Number(JsonNumber::PosInt(u)) => Value::from(*u),
        Json::Number(JsonNumber::NegInt(i)) => Value::from(*i),
        Json::Number(JsonNumber::Float(bits)) => Value::from(f64::from_bits(*bits)),
        Json::Str(s) => Value::String(s.clone()),
        Json::Array(a) => Value::Array(a.iter().map(to_value).collect()),
        Json::Object(es) => {
            let mut m = serde_json::Map::new();
            for (k, v) in es {
                m.insert(k.clone(), to_value(v));
            }
            Value::Object(m)
        }
    }
}

fn parse(text: &str) -> Json {
    to_json(&serde_json::from_str::<Value>(text).unwrap())
}

fn pool(url: &str, user: &str, pass: &str) -> PoolConfig {
    PoolConfig {
        url: PoolURL::new(url.to_string()),
        username: user.to_string(),
        password: pass.to_string(),
    }
}

#[test]
fn test_parse_lux_pools_config_with_empty_group() {
    let config = parse(
        r#"{
            "groups": [
                { "GROUP": 0, "Name": "default", "Quota": 80.0 },
                { "GROUP": 1, "Name": "testTWO", "Quota": 1.0 },
                { "GROUP": 2, "Name": "empty-group", "Quota": 5.0 }
            ],
            "pools": [
                {
                    "POOL": 0,
                    "GROUP": 0,
                    "Quota": 80.0,
                    "URL": "stratum+tcp://fuzz-7a3.invalid:17000",
                    "User": "rand-worker-a9"
                },
                {
                    "POOL": 1,
                    "GROUP": 1,
                    "Quota": 1.0,
                    "URL": "stratum+tcp://fuzz-c42.invalid:27001",
                    "User": "rand-worker-b4"
                }
            ]
        }"#,
    );

    let groups = lux_parse_pool_config(&config);

    assert_eq!(groups.len(), 3);
    assert_eq!(groups[0].name, "default");
    assert_eq!(groups[0].quota, 80);
    assert_eq!(groups[0].pools.len(), 1);
    assert_eq!(groups[1].name, "testTWO");
    assert_eq!(groups[1].quota, 1);
    assert_eq!(groups[1].pools.len(), 1);
    assert_eq!(groups[2].name, "empty-group");
    assert_eq!(groups[2].quota, 5);
    assert!(groups[2].pools.is_empty());
}

#[test]
fn test_parse_lux_pools_config_nested_response_with_password() {
    let config = parse(
        r#"{
            "groups": [
                {
                    "GROUPS": [
                        { "GROUP": 0, "Name": "default", "Quota": 80.0 },
                        { "GROUP": 1, "Name": "testTWO", "Quota": 20.0 }
                    ]
                }
            ],
            "pools": [
                {
                    "POOLS": [
                        {
                            "POOL": 0,
                            "GROUP": 0,
                            "Quota": 80.0,
                            "URL": "stratum+tcp://mock-alpha.invalid:31000",
                            "User": "synthetic-user-0",
                            "Password": "secret0"
                        },
                        {
                            "POOL": 1,
                            "GROUP": 1,
                            "Quota": 20.0,
                            "URL": "stratum+tcp://mock-beta.invalid:31001",
                            "User": "synthetic-user-1",
                            "Pass": "secret1"
                        }
                    ]
                }
            ],
            "poolopts": []
        }"#,
    );

    let groups = lux_parse_pool_config(&config);

    assert_eq!(groups.len(), 2);
    assert_eq!(groups[0].pools[0].password, "secret0");
    assert_eq!(groups[1].pools[0].password, "secret1");
}

#[test]
fn lux_pools_without_group_get_new_unnamed_groups_sorted_by_id() {
    let config = parse(
        r#"{
            "groups": [ { "GROUP": 5, "Name": "five", "Quota": 2 } ],
            "pools": [
                { "GROUP": 3, "Quota": 7.4, "URL": "stratum+tcp://a:1", "User": "u" },
                { "GROUP": 5, "URL": "stratum+tcp://b:1" },
                { "GROUP": 3, "URL": "" }
            ]
        }"#,
    );
    let groups = lux_parse_pool_config(&config);
    assert_eq!(groups.len(), 2);
    assert_eq!(groups[0].name, "");
    assert_eq!(groups[0].quota, 7);
    assert_eq!(groups[0].pools.len(), 1);
    assert_eq!(groups[0].pools[0].username, "u");
    assert_eq!(groups[1].name, "five");
    assert_eq!(groups[1].quota, 2);
    assert_eq!(groups[1].pools[0].url.to_text(), "stratum+tcp://b:1");
    assert_eq!(groups[1].pools[0].password, "");
}

#[test]
fn lux_quota_rounds_and_saturates() {
    let config = parse(
        r#"{
            "groups": [
                { "GROUP": 0, "Quota": 2.5 },
                { "GROUP": 1, "Quota": 5000000000 },
                { "GROUP": 2, "Quota": -3 },
                { "GROUP": 3, "Quota": "9" }
            ],
            "pools": []
        }"#,
    );
    let groups = lux_parse_pool_config(&config);
    let quotas: Vec<u32> = groups.iter().map(|g| g.quota).collect();
    assert_eq!(quotas, vec![3, u32::MAX, 0, 0]);
}

#[test]
fn test_build_pool_config_allows_empty_groups() {
    let (pool_groups, pools) = build_pool_config(&[]).unwrap();

    assert!(pool_groups.is_empty());
    assert!(pools.is_empty());
}

#[test]
fn test_to_pool_config_allows_empty_pools() {
    let config = vec![
        PoolGroupConfig { name: "primary".to_string(), quota: 80, pools: vec![] },
        PoolGroupConfig { name: "backup".to_string(), quota: 20, pools: vec![] },
    ];

    let (pool_groups, pools) = build_pool_config(&config).unwrap();

    assert_eq!(pool_groups.len(), 2);
    assert_eq!(pools.len(), 0);
    assert_eq!(to_value(&pool_groups[0])["alias"], "primary");
    assert_eq!(to_value(&pool_groups[0])["percent"], 80);
    assert_eq!(to_value(&pool_groups[1])["alias"], "backup");
    assert_eq!(to_value(&pool_groups[1])["percent"], 20);
}

#[test]
fn test_build_pool_config_ignores_groups_past_three() {
    let config = vec![
        PoolGroupConfig {
            name: "primary".to_string(),
            quota: 40,
            pools: vec![pool("stratum+tcp://pool0.invalid:3333", "user0", "pass0")],
        },
        PoolGroupConfig {
            name: "secondary".to_string(),
            quota: 30,
            pools: vec![pool("stratum+tcp://pool1.invalid:3333", "user1", "pass1")],
        },
        PoolGroupConfig {
            name: "tertiary".to_string(),
            quota: 20,
            pools: vec![pool("stratum+tcp://pool2.invalid:3333", "user2", "pass2")],
        },
        PoolGroupConfig {
            name: "ignored".to_string(),
            quota: 10,
            pools: vec![pool("stratum+tcp://pool3.invalid:3333", "user3", "pass3")],
        },
    ];

    let (pool_groups, pools) = build_pool_config(&config).unwrap();

    assert_eq!(pool_groups.len(), 3);
    assert_eq!(pools.len(), 3);
    assert_eq!(to_value(&pool_groups[0])["alias"], "primary");
    assert_eq!(to_value(&pool_groups[1])["alias"], "secondary");
    assert_eq!(to_value(&pool_groups[2])["alias"], "tertiary");
    assert!(pools.iter().all(|pool| to_value(pool)["user"] != "user3"));
}

#[test]
fn mara_percents_share_the_remainder_and_sum_to_100() {
    let config = vec![
        PoolGroupConfig { name: "a".to_string(), quota: 1, pools: vec![] },
        PoolGroupConfig { name: "b".to_string(), quota: 1, pools: vec![] },
        PoolGroupConfig { name: "c".to_string(), quota: 1, pools: vec![] },
    ];
    let (pool_groups, _) = build_pool_config(&config).unwrap();
    let percents: Vec<u64> =
        pool_groups.iter().map(|g| to_value(g)["percent"].as_u64().unwrap()).collect();
    assert_eq!(percents, vec![34, 33, 33]);
    assert_eq!(percents.iter().sum::<u64>(), 100);
}

#[test]
fn mara_zero_quota_is_refused() {
    let config = vec![
        PoolGroupConfig { name: "a".to_string(), quota: 3, pools: vec![] },
        PoolGroupConfig { name: "b".to_string(), quota: 0, pools: vec![] },
    ];
    assert!(matches!(build_pool_config(&config), Err(ConfigError::ZeroQuota)));
}

#[test]
fn mara_pools_carry_their_group_id() {
    let config = vec![
        PoolGroupConfig { name: "a".to_string(), quota: 3, pools: vec![pool("u0", "w0", "p0")] },
        PoolGroupConfig {
            name: "b".to_string(),
            quota: 1,
            pools: vec![pool("u1", "w1", "p1"), pool("u2", "w2", "p2")],
        },
    ];
    let (pool_groups, pools) = build_pool_config(&config).unwrap();
    assert_eq!(to_value(&pool_groups[0])["percent"], 75);
    assert_eq!(to_value(&pool_groups[1])["percent"], 25);
    assert_eq!(to_value(&pool_groups[1])["gid"], 1);
    let gids: Vec<u64> = pools.iter().map(|p| to_value(p)["gid"].as_u64().unwrap()).collect();
    assert_eq!(gids, vec![0, 1, 1]);
    assert_eq!(to_value(&pools[2])["url"], "u2");
    assert_eq!(to_value(&pools[2])["pass"], "p2");
}

#[test]
fn mara_parse_pool_config_groups_pools_by_gid() {
    let config = parse(
        r#"{
            "pool-group": [
                { "gid": 1, "alias": "second", "percent": 40 },
                { "gid": 0, "alias": "first", "percent": 60 }
            ],
            "pools": [
                { "gid": 0, "url": "stratum+tcp://a:1", "user": "ua", "pass": "pa" },
                { "gid": 1, "url": "stratum+tcp://b:1", "user": "ub", "pass": "pb" },
                { "gid": 0, "url": "stratum+tcp://c:1", "user": "uc", "pass": "pc" }
            ]
        }"#,
    );
    let groups = mara_parse_pool_config(&config);
    assert!(!groups.is_empty());
    let total: usize = groups.iter().map(|g| g.pools.len()).sum();
    assert_eq!(total, 3);
    let first = groups.iter().find(|g| g.name == "first").unwrap();
    assert_eq!(first.pools.len(), 2);
    assert_eq!(first.pools[1].username, "uc");
}
