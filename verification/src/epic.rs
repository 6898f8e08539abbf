//! ePIC PowerPlay firmware: stratum configurations, hash-rate splits, the
//! summary's pools, messages and status, and its scaling and fan settings.
use vstd::prelude::*;
use crate::fields::{ApiKind, DataField, DataLocation, LocationV, at, graphql, location_v, locations_view, tagged_at, web};
use crate::data::{ConfigField, FanConfig, MessageSeverity, MinerMessage, message_view, messages_view};
use crate::errors::{ConfigError, ConfigErrorV, TargetKind};
use crate::json::{
    Json, JsonV, entries_view, entry_push, item_push, items_view, json_array, json_bool,
    json_object, json_string, json_text, json_u64, opt_array, opt_bool, opt_get, opt_str, opt_u64,
    pointer_in, pointer_spec, str_in, str_or_empty, text_or_empty, u64_in, bool_in, view_opt,
    array_in, lemma_entries_view_len, lemma_items_view_len, entries_get, entries_lookup, get_in,
    text_opt, JsonNumber,
};
use crate::mac::{mac_from_text, mac_text_bytes};
use crate::tuning::TuningTarget;
use crate::numbers::{f64_ge_zero, f64_is_finite, f64_round_u32_checked, round_to_u32_checked};
use crate::pools::{
    PoolConfig, PoolConfigV, PoolData, PoolDataV, PoolGroupConfig, PoolGroupConfigV, PoolGroupData,
    PoolGroupDataV, PoolURL, at_most, pool_configs_view, pool_datas_view, pool_group_datas_view,
    pool_groups_view, opt_text,
};
use crate::text::{to_owned_text, ascii_lowercase_spec, ascii_uppercase_spec, contains_spec, contains_text, push_char, to_ascii_lowercase, to_ascii_uppercase, trim_text, unicode_trim, decimal_text, push_text, text_eq, u64_to_text};

verus! {

/// A stratum configuration entry with a non-empty `pool`: its `login` and
/// `password` (empty when missing).
pub open spec fn stratum_pool(p: JsonV) -> Option<PoolConfigV> {
    match opt_str(p.get("pool"@)) {
        Some(url) => if url.len() > 0 {
            Some(
                PoolConfigV {
                    url,
                    username: str_or_empty(p.get("login"@)),
                    password: str_or_empty(p.get("password"@)),
                },
            )
        } else {
            None
        },
        None => None,
    }
}

/// The stratum configuration entries with a non-empty `pool`, in order.
pub open spec fn stratum_pools(ps: Seq<JsonV>) -> Seq<PoolConfigV>
    decreases ps.len(),
{
    if ps.len() == 0 {
        Seq::empty()
    } else {
        let rest = stratum_pools(ps.drop_last());
        match stratum_pool(ps.last()) {
            Some(p) => rest.push(p),
            None => rest,
        }
    }
}

/// The pools of a stratum configuration list: the first three entries with
/// a non-empty `pool`; none when it is no array.
pub open spec fn stratum_configs(configs: JsonV) -> Seq<PoolConfigV> {
    match configs.array_of() {
        Some(ps) => at_most(stratum_pools(ps), 3),
        None => Seq::empty(),
    }
}

/// Read one stratum configuration entry.
fn read_stratum_pool(p: &Json) -> (r: Option<PoolConfig>)
    ensures
        match r {
            Some(c) => stratum_pool(p@) == Some(c@),
            None => stratum_pool(p@) is None,
        },
{
    let url = match str_in(p.get("pool")) {
        Some(u) => u,
        None => return None,
    };
    if url.unicode_len() == 0 {
        return None;
    }
    Some(
        PoolConfig {
            url: PoolURL::new(url.to_owned()),
            username: text_or_empty(p.get("login")),
            password: text_or_empty(p.get("password")),
        },
    )
}

/// The pools of a stratum configuration list (see [`stratum_configs`]).
pub fn parse_stratum_configs(configs: &Json) -> (r: Vec<PoolConfig>)
    ensures
        pool_configs_view(r@) == stratum_configs(configs@),
{
    let mut out: Vec<PoolConfig> = Vec::new();
    let items = match configs.as_array() {
        Some(items) => items,
        None => {
            assert(pool_configs_view(out@) =~= Seq::<PoolConfigV>::empty());
            return out;
        },
    };
    let ghost iv = items_view(items@);
    let mut i: usize = 0;
    assert(iv.take(0) =~= Seq::<JsonV>::empty());
    assert(pool_configs_view(out@) =~= Seq::<PoolConfigV>::empty());
    while i < items.len()
        invariant
            i <= items@.len(),
            iv == items_view(items@),
            iv.len() == items@.len(),
            forall|j: int| 0 <= j < items@.len() ==> #[trigger] iv[j] == items@[j]@,
            pool_configs_view(out@) == stratum_pools(iv.take(i as int)),
        decreases items@.len() - i,
    {
        let ghost before = out@;
        assert(iv.take(i + 1).drop_last() =~= iv.take(i as int));
        match read_stratum_pool(&items[i]) {
            Some(c) => {
                out.push(c);
                assert(pool_configs_view(out@) =~= pool_configs_view(before).push(c@));
            },
            None => {},
        }
        i = i + 1;
    }
    assert(iv.take(items@.len() as int) =~= iv);
    let ghost all = out@;
    out.truncate(3);
    assert(pool_configs_view(out@) =~= at_most(pool_configs_view(all), 3));
    out
}

/// The stratum configuration entry that writes one pool.
pub open spec fn stratum_entry(p: PoolConfigV) -> JsonV {
    JsonV::Object(
        seq![
            ("pool"@, JsonV::Str(p.url)),
            ("login"@, JsonV::Str(p.username)),
            ("password"@, JsonV::Str(p.password)),
        ],
    )
}

/// A stratum configuration entry carries its pool's own address under
/// `pool`, its user name under `login` and its password under `password`.
pub proof fn lemma_stratum_entry_fields(p: PoolConfigV)
    ensures
        stratum_entry(p).get("pool"@) == Some(JsonV::Str(p.url)),
        stratum_entry(p).get("login"@) == Some(JsonV::Str(p.username)),
        stratum_entry(p).get("password"@) == Some(JsonV::Str(p.password)),
{
    reveal_strlit("pool");
    reveal_strlit("login");
    reveal_strlit("password");
    let es = seq![
        ("pool"@, JsonV::Str(p.url)),
        ("login"@, JsonV::Str(p.username)),
        ("password"@, JsonV::Str(p.password)),
    ];
    assert("pool"@ != "login"@) by {
        assert("pool"@[0] != "login"@[0]);
    }
    assert("pool"@ != "password"@) by {
        assert("pool"@[1] != "password"@[1]);
    }
    assert("login"@ != "password"@) by {
        assert("login"@[0] != "password"@[0]);
    }
    assert(es.drop_first() =~= seq![("login"@, JsonV::Str(p.username)), ("password"@, JsonV::Str(p.password))]);
    assert(es.drop_first().drop_first() =~= seq![("password"@, JsonV::Str(p.password))]);
    assert(crate::json::entries_get(es.drop_first().drop_first(), "password"@) == Some(JsonV::Str(p.password)));
    assert(crate::json::entries_get(es.drop_first(), "password"@) == Some(JsonV::Str(p.password)));
    assert(crate::json::entries_get(es.drop_first(), "login"@) == Some(JsonV::Str(p.username)));
}

/// Reading a written stratum configuration entry gives back the pool it
/// was written for, when the pool has an address.
pub proof fn lemma_stratum_entry_reads_back(p: PoolConfigV)
    requires
        p.url.len() > 0,
    ensures
        stratum_pool(stratum_entry(p)) == Some(p),
{
    lemma_stratum_entry_fields(p);
}

/// Reading the stratum configurations written for a list of pools with
/// addresses gives back the first three of those pools, in order.
pub proof fn lemma_stratum_configs_read_back(pools: Seq<PoolConfigV>)
    requires
        forall|j: int| 0 <= j < pools.len() ==> (#[trigger] pools[j]).url.len() > 0,
    ensures
        stratum_pools(pools.map_values(|p: PoolConfigV| stratum_entry(p))) == pools,
        stratum_configs(JsonV::Array(pools.map_values(|p: PoolConfigV| stratum_entry(p)))) == at_most(pools, 3),
    decreases pools.len(),
{
    let es = pools.map_values(|p: PoolConfigV| stratum_entry(p));
    if pools.len() > 0 {
        let rest = pools.drop_last();
        lemma_stratum_configs_read_back(rest);
        assert(es.drop_last() =~= rest.map_values(|p: PoolConfigV| stratum_entry(p)));
        lemma_stratum_entry_reads_back(pools.last());
        assert(stratum_pools(es) =~= pools);
    } else {
        assert(es =~= Seq::<JsonV>::empty());
        assert(stratum_pools(es) =~= pools);
    }
}

/// Each stratum configuration written for a group is the entry of the pool
/// at the same place: one per pool, in order, carrying that pool's address,
/// user name and password.
pub proof fn lemma_stratum_configs_follow_pools(pools: Seq<PoolConfigV>, i: int)
    requires
        0 <= i < pools.len(),
    ensures
        pools.map_values(|p: PoolConfigV| stratum_entry(p)).len() == pools.len(),
        pools.map_values(|p: PoolConfigV| stratum_entry(p))[i].get("pool"@) == Some(JsonV::Str(pools[i].url)),
        pools.map_values(|p: PoolConfigV| stratum_entry(p))[i].get("login"@) == Some(JsonV::Str(pools[i].username)),
        pools.map_values(|p: PoolConfigV| stratum_entry(p))[i].get("password"@) == Some(JsonV::Str(pools[i].password)),
{
    lemma_stratum_entry_fields(pools[i]);
}

/// The stratum configuration entries that write the pools of a group.
pub fn to_stratum_configs(group: &PoolGroupConfig) -> (r: Vec<Json>)
    ensures
        items_view(r@) == group@.pools.map_values(|p: PoolConfigV| stratum_entry(p)),
{
    let ghost pv = group@.pools;
    let mut out: Vec<Json> = Vec::new();
    let mut i: usize = 0;
    while i < group.pools.len()
        invariant
            i <= group.pools@.len(),
            pv == pool_configs_view(group.pools@),
            items_view(out@) == pv.take(i as int).map_values(|p: PoolConfigV| stratum_entry(p)),
        decreases group.pools@.len() - i,
    {
        let p = &group.pools[i];
        let mut entries: Vec<(String, Json)> = Vec::new();
        entry_push(&mut entries, "pool", json_string(p.url.to_text()));
        entry_push(&mut entries, "login", json_text(p.username.as_str()));
        entry_push(&mut entries, "password", json_text(p.password.as_str()));
        proof {
            reveal_strlit("pool");
            reveal_strlit("login");
            reveal_strlit("password");
        }
        assert(entries_view(entries@) =~= seq![
            ("pool"@, JsonV::Str(p@.url)),
            ("login"@, JsonV::Str(p@.username)),
            ("password"@, JsonV::Str(p@.password)),
        ]);
        item_push(&mut out, json_object(entries));
        assert(pv.take(i + 1) =~= pv.take(i as int).push(p@));
        assert(items_view(out@) =~= pv.take(i + 1).map_values(|p: PoolConfigV| stratum_entry(p)));
        i = i + 1;
    }
    assert(pv.take(group.pools@.len() as int) =~= pv);
    out
}

/// The group a hash-rate split at place `idx` describes: named `group` and
/// its place counted from 1, its `ratio` as quota (1 when missing or too
/// large), and the pools of its `stratum_configs`.
pub open spec fn split_group(idx: int, split: JsonV) -> PoolGroupConfigV {
    PoolGroupConfigV {
        name: "group"@ + decimal_text((idx + 1) as nat),
        quota: match opt_u64(split.get("ratio"@)) {
            Some(r) => if r <= u32::MAX {
                r as u32
            } else {
                1
            },
            None => 1,
        },
        pools: match split.get("stratum_configs"@) {
            Some(c) => stratum_configs(c),
            None => Seq::empty(),
        },
    }
}

/// The configured pool groups: none unless the answer is an object; with
/// hash-rate splitting enabled the first three splits (see [`split_group`]),
/// else one unnamed group with quota 1 holding the `summary` pools.
pub open spec fn epic_pool_config(pools: Option<JsonV>) -> Seq<PoolGroupConfigV> {
    match pools {
        Some(JsonV::Object(_)) => {
            let o = pools->0;
            let hs = o.get("hashratesplit"@);
            if opt_bool(opt_get(hs, "enabled"@)) == Some(true) {
                let splits = match opt_array(opt_get(hs, "hashrate_splits"@)) {
                    Some(s) => s,
                    None => Seq::empty(),
                };
                at_most(Seq::new(splits.len(), |i: int| split_group(i, splits[i])), 3)
            } else {
                seq![
                    PoolGroupConfigV {
                        name: Seq::empty(),
                        quota: 1,
                        pools: match o.get("summary"@) {
                            Some(c) => stratum_configs(c),
                            None => Seq::empty(),
                        },
                    },
                ]
            }
        },
        _ => Seq::empty(),
    }
}

/// Read the group of the hash-rate split at `idx`.
fn read_split_group(idx: usize, split: &Json) -> (r: PoolGroupConfig)
    requires
        idx < usize::MAX,
    ensures
        r@ == split_group(idx as int, split@),
{
    let mut name = String::new();
    push_text(&mut name, "group");
    let n = u64_to_text((idx + 1) as u64);
    push_text(&mut name, n.as_str());
    proof {
        reveal_strlit("group");
    }
    let quota: u32 = match u64_in(split.get("ratio")) {
        Some(r) => if r <= 4294967295 {
            r as u32
        } else {
            1
        },
        None => 1,
    };
    let pools = match split.get("stratum_configs") {
        Some(c) => parse_stratum_configs(c),
        None => {
            let v: Vec<PoolConfig> = Vec::new();
            assert(pool_configs_view(v@) =~= Seq::<PoolConfigV>::empty());
            v
        },
    };
    PoolGroupConfig { name, quota, pools }
}

/// The configured pool groups of the pools answer (see [`epic_pool_config`]).
pub fn parse_pools_config(pools: Option<&Json>) -> (r: Vec<PoolGroupConfig>)
    ensures
        pool_groups_view(r@) == epic_pool_config(view_opt(pools)),
{
    let mut out: Vec<PoolGroupConfig> = Vec::new();
    let o = match pools {
        Some(o) => o,
        None => {
            assert(pool_groups_view(out@) =~= Seq::<PoolGroupConfigV>::empty());
            return out;
        },
    };
    match o {
        Json::Object(_) => {},
        _ => {
            assert(pool_groups_view(out@) =~= Seq::<PoolGroupConfigV>::empty());
            return out;
        },
    }
    let hs = o.get("hashratesplit");
    let enabled = match bool_in(crate::json::get_in(hs, "enabled")) {
        Some(b) => b,
        None => false,
    };
    if enabled {
        let empty: Vec<Json> = Vec::new();
        let splits: &Vec<Json> = match array_in(crate::json::get_in(hs, "hashrate_splits")) {
            Some(s) => s,
            None => &empty,
        };
        let ghost sv = items_view(splits@);
        proof {
            lemma_items_view_len(splits@);
            lemma_items_view_len(empty@);
        }
        let mut i: usize = 0;
        while i < splits.len()
            invariant
                i <= splits@.len(),
                sv == items_view(splits@),
                sv.len() == splits@.len(),
                forall|j: int| 0 <= j < splits@.len() ==> #[trigger] sv[j] == splits@[j]@,
                out@.len() == i,
                forall|j: int| 0 <= j < i ==> #[trigger] out@[j]@ == split_group(j, sv[j]),
            decreases splits@.len() - i,
        {
            let g = read_split_group(i, &splits[i]);
            out.push(g);
            i = i + 1;
        }
        let ghost all = out@;
        assert(pool_groups_view(all) =~= Seq::new(sv.len(), |i: int| split_group(i, sv[i])));
        out.truncate(3);
        assert(pool_groups_view(out@) =~= at_most(pool_groups_view(all), 3));
        out
    } else {
        let summary_pools = match o.get("summary") {
            Some(c) => parse_stratum_configs(c),
            None => {
                let v: Vec<PoolConfig> = Vec::new();
                assert(pool_configs_view(v@) =~= Seq::<PoolConfigV>::empty());
                v
            },
        };
        out.push(PoolGroupConfig { name: String::new(), quota: 1, pools: summary_pools });
        assert(pool_groups_view(out@) =~= epic_pool_config(view_opt(pools)));
        out
    }
}

/// A non-empty text as a pool address.
pub open spec fn nonempty_text(v: Option<JsonV>) -> Option<Seq<char>> {
    match opt_str(v) {
        Some(s) => if s.len() > 0 {
            Some(s)
        } else {
            None
        },
        None => None,
    }
}

/// Whether the pool at `idx` is the one the summary's `Stratum` entry
/// reports as current: its `Config Id` cut to 16 bits is the place cut to
/// 16 bits.
pub open spec fn is_current(idx: int, summary: JsonV) -> bool {
    match pointer_spec(summary, "/Stratum"@) {
        Some(JsonV::Object(_)) => match opt_u64(pointer_spec(summary, "/Stratum"@)->0.get("Config Id"@)) {
            Some(c) => (c as u16) == (idx as u16),
            None => false,
        },
        _ => false,
    }
}

/// The pool the stratum configuration at `idx` describes, updated from the
/// summary's `Stratum` (and `Session` counters) when it is the current one.
pub open spec fn summary_pool(idx: int, config: JsonV, summary: JsonV) -> PoolDataV {
    if is_current(idx, summary) {
        let st = pointer_spec(summary, "/Stratum"@)->0;
        let session = pointer_spec(summary, "/Session"@);
        let counters = match session {
            Some(JsonV::Object(_)) => (
                opt_u64(session->0.get("Accepted"@)),
                opt_u64(session->0.get("Rejected"@)),
            ),
            _ => (None, None),
        };
        PoolDataV {
            position: Some(idx as u16),
            url: nonempty_text(st.get("Current Pool"@)),
            accepted_shares: counters.0,
            rejected_shares: counters.1,
            active: Some(true),
            alive: opt_bool(st.get("IsPoolConnected"@)),
            user: opt_str(st.get("Current User"@)),
        }
    } else {
        PoolDataV {
            position: Some(idx as u16),
            url: nonempty_text(config.get("pool"@)),
            accepted_shares: None,
            rejected_shares: None,
            active: Some(false),
            alive: None,
            user: opt_str(config.get("login"@)),
        }
    }
}

/// The reported pool groups: one unnamed group with quota 1 holding a pool
/// for each entry of `StratumConfigs` (see [`summary_pool`]).
pub open spec fn epic_pools(summary: Option<JsonV>) -> Seq<PoolGroupDataV> {
    let configs = match summary {
        Some(s) => match pointer_spec(s, "/StratumConfigs"@) {
            Some(JsonV::Array(cs)) => cs,
            _ => Seq::empty(),
        },
        None => Seq::empty(),
    };
    seq![
        PoolGroupDataV {
            name: Seq::empty(),
            quota: 1,
            pools: Seq::new(configs.len(), |i: int| summary_pool(i, configs[i], summary->0)),
        },
    ]
}

/// The optional owned text of an optional string value.
fn owned_str(o: Option<&Json>) -> (r: Option<String>)
    ensures
        opt_text(r) == opt_str(view_opt(o)),
{
    match str_in(o) {
        Some(t) => Some(t.to_owned()),
        None => None,
    }
}

/// A non-empty text value as a pool address.
fn nonempty_url(o: Option<&Json>) -> (r: Option<PoolURL>)
    ensures
        crate::pools::opt_url(r) == nonempty_text(view_opt(o)),
{
    match str_in(o) {
        Some(t) => if t.unicode_len() == 0 {
            None
        } else {
            Some(PoolURL::new(t.to_owned()))
        },
        None => None,
    }
}

/// Read the pool of the stratum configuration at `idx`.
fn read_summary_pool(idx: usize, config: &Json, summary: &Json) -> (r: PoolData)
    ensures
        r@ == summary_pool(idx as int, config@, summary@),
{
    let stratum = summary.pointer("/Stratum");
    let current = match stratum {
        Some(Json::Object(_)) => match u64_in(stratum.unwrap().get("Config Id")) {
            Some(c) => (c as u16) == (idx as u16),
            None => false,
        },
        _ => false,
    };
    if current {
        let st = stratum.unwrap();
        let session = summary.pointer("/Session");
        let (accepted, rejected) = match session {
            Some(Json::Object(_)) => {
                let s = session.unwrap();
                (u64_in(s.get("Accepted")), u64_in(s.get("Rejected")))
            },
            _ => (None, None),
        };
        PoolData {
            position: Some(idx as u16),
            url: nonempty_url(st.get("Current Pool")),
            accepted_shares: accepted,
            rejected_shares: rejected,
            active: Some(true),
            alive: bool_in(st.get("IsPoolConnected")),
            user: owned_str(st.get("Current User")),
        }
    } else {
        PoolData {
            position: Some(idx as u16),
            url: nonempty_url(config.get("pool")),
            accepted_shares: None,
            rejected_shares: None,
            active: Some(false),
            alive: None,
            user: owned_str(config.get("login")),
        }
    }
}

/// The reported pool groups of a summary (see [`epic_pools`]).
pub fn parse_pools(summary: Option<&Json>) -> (r: Vec<PoolGroupData>)
    ensures
        pool_group_datas_view(r@) == epic_pools(view_opt(summary)),
{
    let mut out: Vec<PoolData> = Vec::new();
    let ghost configs = match view_opt(summary) {
        Some(s) => match pointer_spec(s, "/StratumConfigs"@) {
            Some(JsonV::Array(cs)) => cs,
            _ => Seq::empty(),
        },
        None => Seq::empty(),
    };
    if let Some(s) = summary {
        if let Some(Json::Array(items)) = s.pointer("/StratumConfigs") {
            proof {
                lemma_items_view_len(items@);
            }
            assert(configs == items_view(items@));
            let mut i: usize = 0;
            while i < items.len()
                invariant
                    i <= items@.len(),
                    configs == items_view(items@),
                    configs.len() == items@.len(),
                    forall|j: int| 0 <= j < items@.len() ==> #[trigger] configs[j] == items@[j]@,
                    out@.len() == i,
                    forall|j: int| 0 <= j < i ==> #[trigger] out@[j]@ == summary_pool(j, configs[j], s@),
                decreases items@.len() - i,
            {
                let p = read_summary_pool(i, &items[i], s);
                out.push(p);
                i = i + 1;
            }
        }
    }
    assert(pool_datas_view(out@) =~= Seq::new(
        configs.len(),
        |i: int| summary_pool(i, configs[i], view_opt(summary)->0),
    ));
    let r = vec![PoolGroupData { name: String::new(), quota: 1, pools: out }];
    assert(pool_group_datas_view(r@) =~= epic_pools(view_opt(summary)));
    r
}

/// The messages of a summary: its `Status` / `Last Error` text when it is
/// not empty, as an error raised at `timestamp` (cut to 32 bits) with code 0.
pub open spec fn epic_messages(summary: Option<JsonV>, timestamp: u64) -> Seq<
    (u32, u64, Seq<char>, MessageSeverity),
> {
    let last = match summary {
        Some(s) => opt_str(pointer_spec(s, "/Status/Last Error"@)),
        None => None,
    };
    match last {
        Some(e) => if e.len() > 0 {
            seq![(timestamp as u32, 0u64, e, MessageSeverity::Error)]
        } else {
            Seq::empty()
        },
        None => Seq::empty(),
    }
}

/// The messages of a summary read at `timestamp` (see [`epic_messages`]).
pub fn parse_messages(summary: Option<&Json>, timestamp: u64) -> (r: Vec<MinerMessage>)
    ensures
        messages_view(r@) == epic_messages(view_opt(summary), timestamp),
{
    let mut out: Vec<MinerMessage> = Vec::new();
    match str_in(pointer_in(summary, "/Status/Last Error")) {
        Some(e) => if e.unicode_len() > 0 {
            out.push(MinerMessage::new(timestamp as u32, 0, e.to_owned(), MessageSeverity::Error));
        },
        None => {},
    }
    assert(messages_view(out@) =~= epic_messages(view_opt(summary), timestamp));
    out
}

/// Whether the miner mines: its operating state is a text other than
/// `Idling`.
pub fn parse_is_mining(state: Option<&Json>) -> (r: bool)
    ensures
        r == match opt_str(view_opt(state)) {
            Some(s) => s != "Idling"@,
            None => false,
        },
{
    match str_in(state) {
        Some(s) => !text_eq(s, "Idling"),
        None => false,
    }
}

/// A scaling configuration: the step and the lowest allowed value, with the
/// shutdown settings the firmware may add.
#[derive(Debug)]
pub struct ScalingConfig {
    /// Scaling step size used by the firmware.
    pub step: u32,
    /// Minimum allowed scaling value.
    pub minimum: u32,
    /// Whether the miner may shut down when scaling cannot protect it.
    pub shutdown: Option<bool>,
    /// Shutdown delay in firmware-defined seconds, as the bits of an IEEE-754
    /// single-precision number.
    pub shutdown_duration: Option<u32>,
}

impl ScalingConfig {
    /// A scaling configuration without shutdown settings.
    pub fn new(step: u32, minimum: u32) -> (r: ScalingConfig)
        ensures
            r.step == step,
            r.minimum == minimum,
            r.shutdown is None,
            r.shutdown_duration is None,
    {
        ScalingConfig { step, minimum, shutdown: None, shutdown_duration: None }
    }

    /// The same configuration with shutdown allowed or not.
    pub fn with_shutdown(self, shutdown: bool) -> (r: ScalingConfig)
        ensures
            r.step == self.step,
            r.minimum == self.minimum,
            r.shutdown == Some(shutdown),
            r.shutdown_duration == self.shutdown_duration,
    {
        ScalingConfig { shutdown: Some(shutdown), ..self }
    }
}

/// A value that is an integer fitting in `u32`.
pub open spec fn u32_of(v: Option<JsonV>) -> Option<u32> {
    match opt_u64(v) {
        Some(n) => if n <= u32::MAX {
            Some(n as u32)
        } else {
            None
        },
        None => None,
    }
}

/// The first of two keys present in an entry (whatever its value).
pub open spec fn either_key(stats: JsonV, k1: Seq<char>, k2: Seq<char>) -> Option<JsonV> {
    match stats.get(k1) {
        Some(v) => Some(v),
        None => stats.get(k2),
    }
}

/// The scaling step and minimum an algorithm's statistics give:
/// `Throttle Step` (or `step`) and `Min Throttle Target` (or `min`), both
/// integers fitting in `u32`.
pub open spec fn scaling_of(stats: JsonV) -> Option<(u32, u32)> {
    match (
        u32_of(either_key(stats, "Throttle Step"@, "step"@)),
        u32_of(either_key(stats, "Min Throttle Target"@, "min"@)),
    ) {
        (Some(step), Some(min)) => Some((step, min)),
        _ => None,
    }
}

/// The scaling of the first algorithm whose statistics give one.
pub open spec fn first_scaling(es: Seq<(Seq<char>, JsonV)>) -> Option<(u32, u32)>
    decreases es.len(),
{
    if es.len() == 0 {
        None
    } else {
        match scaling_of(es[0].1) {
            Some(x) => Some(x),
            None => first_scaling(es.drop_first()),
        }
    }
}

/// Read an integer that fits in `u32`.
fn read_u32(v: Option<&Json>) -> (r: Option<u32>)
    ensures
        r == u32_of(view_opt(v)),
{
    match u64_in(v) {
        Some(n) => if n <= 4294967295 {
            Some(n as u32)
        } else {
            None
        },
        None => None,
    }
}

/// The scaling configuration of the perpetual-tune algorithms: that of the
/// first algorithm whose statistics give one (see [`scaling_of`]); fails
/// with [`ConfigError::NoScalingConfig`] when none does or there are no
/// algorithms.
pub fn parse_scaling_config(algorithms: Option<&Json>) -> (r: Result<ScalingConfig, ConfigError>)
    ensures
        match r {
            Ok(c) => {
                &&& match view_opt(algorithms) {
                    Some(JsonV::Object(es)) => first_scaling(es) == Some((c.step, c.minimum)),
                    _ => false,
                }
                &&& c.shutdown is None
                &&& c.shutdown_duration is None
            },
            Err(e) => {
                &&& e == ConfigError::NoScalingConfig
                &&& match view_opt(algorithms) {
                    Some(JsonV::Object(es)) => first_scaling(es) is None,
                    _ => true,
                }
            },
        },
{
    let entries = match algorithms {
        Some(Json::Object(es)) => es,
        _ => return Err(ConfigError::NoScalingConfig),
    };
    let ghost ev = entries_view(entries@);
    proof {
        lemma_entries_view_len(entries@);
    }
    let mut i: usize = 0;
    assert(ev.skip(0) =~= ev);
    while i < entries.len()
        invariant
            i <= entries@.len(),
            ev == entries_view(entries@),
            ev.len() == entries@.len(),
            forall|j: int| 0 <= j < entries@.len() ==> #[trigger] ev[j] == (entries@[j].0@, entries@[j].1@),
            first_scaling(ev) == first_scaling(ev.skip(i as int)),
            view_opt(algorithms) == Some(JsonV::Object(ev)),
        decreases entries@.len() - i,
    {
        let stats = &entries[i].1;
        assert(ev.skip(i as int).drop_first() =~= ev.skip(i + 1));
        assert(ev.skip(i as int)[0] == ev[i as int]);
        let step = match stats.get("Throttle Step") {
            Some(v) => read_u32(Some(v)),
            None => read_u32(stats.get("step")),
        };
        let minimum = match stats.get("Min Throttle Target") {
            Some(v) => read_u32(Some(v)),
            None => read_u32(stats.get("min")),
        };
        assert(step == u32_of(either_key(ev[i as int].1, "Throttle Step"@, "step"@)));
        assert(minimum == u32_of(either_key(ev[i as int].1, "Min Throttle Target"@, "min"@)));
        match (step, minimum) {
            (Some(s), Some(m)) => {
                assert(scaling_of(ev[i as int].1) == Some((s, m)));
                assert(first_scaling(ev.skip(i as int)) == Some((s, m)));
                return Ok(ScalingConfig::new(s, m));
            },
            _ => {},
        }
        i = i + 1;
    }
    assert(ev.skip(entries@.len() as int).len() == 0);
    Err(ConfigError::NoScalingConfig)
}

/// The fan configuration of the summary's fan mode: `Auto` with a number as
/// `Target Temperature` (and its `Idle Speed`, where it is an integer),
/// else a `Manual` speed.
pub open spec fn epic_fan_config(fan_mode: Option<JsonV>) -> Result<FanConfig, ConfigError> {
    match fan_mode {
        None => Err(ConfigError::NoFanMode),
        Some(m) => match m.get("Auto"@) {
            Some(auto) => match auto.get("Target Temperature"@) {
                Some(JsonV::Number(_)) => Ok(FanConfig::Auto { idle_speed: opt_u64(auto.get("Idle Speed"@)) }),
                _ => Err(ConfigError::NoTargetTemperature),
            },
            None => match opt_u64(m.get("Manual"@)) {
                Some(speed) => Ok(FanConfig::Manual { fan_speed: speed }),
                None => Err(ConfigError::UnknownFanMode),
            },
        },
    }
}

/// The fan configuration of the summary's fan mode (see [`epic_fan_config`]).
pub fn parse_fan_config(fan_mode: Option<&Json>) -> (r: Result<FanConfig, ConfigError>)
    ensures
        r == epic_fan_config(view_opt(fan_mode)),
{
    let m = match fan_mode {
        Some(m) => m,
        None => return Err(ConfigError::NoFanMode),
    };
    match m.get("Auto") {
        Some(auto) => match auto.get("Target Temperature") {
            Some(Json::Number(_)) => Ok(FanConfig::Auto { idle_speed: u64_in(auto.get("Idle Speed")) }),
            _ => Err(ConfigError::NoTargetTemperature),
        },
        None => match u64_in(m.get("Manual")) {
            Some(speed) => Ok(FanConfig::Manual { fan_speed: speed }),
            None => Err(ConfigError::UnknownFanMode),
        },
    }
}

/// The groups a pool configuration writes: those with at least one pool.
pub open spec fn written_groups(groups: Seq<PoolGroupConfigV>) -> Seq<PoolGroupConfigV>
    decreases groups.len(),
{
    if groups.len() == 0 {
        Seq::empty()
    } else {
        let rest = written_groups(groups.drop_last());
        if groups.last().pools.len() > 0 {
            rest.push(groups.last())
        } else {
            rest
        }
    }
}

/// The groups a pool configuration writes (see [`written_groups`]); fails
/// with [`ConfigError::NoNonEmptyGroups`] when there is none and with
/// [`ConfigError::TooManyGroups`] when there are more than three.
pub fn pool_groups_to_write(config: &Vec<PoolGroupConfig>) -> (r: Result<Vec<PoolGroupConfig>, ConfigError>)
    ensures
        match r {
            Ok(gs) => pool_groups_view(gs@) == written_groups(pool_groups_view(config@))
                && 1 <= gs@.len() <= 3,
            Err(e) => {
                let n = written_groups(pool_groups_view(config@)).len();
                (n == 0 && e == ConfigError::NoNonEmptyGroups) || (n > 3 && e
                    == ConfigError::TooManyGroups)
            },
        },
{
    let ghost cv = pool_groups_view(config@);
    let mut out: Vec<PoolGroupConfig> = Vec::new();
    let mut i: usize = 0;
    assert(cv.take(0) =~= Seq::<PoolGroupConfigV>::empty());
    while i < config.len()
        invariant
            i <= config@.len(),
            cv == pool_groups_view(config@),
            pool_groups_view(out@) == written_groups(cv.take(i as int)),
        decreases config@.len() - i,
    {
        let ghost before = out@;
        assert(cv.take(i + 1).drop_last() =~= cv.take(i as int));
        if config[i].pools.len() > 0 {
            out.push(config[i].duplicate());
            assert(pool_groups_view(out@) =~= pool_groups_view(before).push(config@[i as int]@));
        }
        i = i + 1;
    }
    assert(cv.take(config@.len() as int) =~= cv);
    if out.len() == 0 {
        return Err(ConfigError::NoNonEmptyGroups);
    }
    if out.len() > 3 {
        return Err(ConfigError::TooManyGroups);
    }
    Ok(out)
}

/// The ratios the hash-rate split writes for the groups' rounded shares (in
/// percent), when `left` percent are still to be given out: each group but
/// the last gets its share bounded by what is left, and the last group gets
/// the rest.
pub open spec fn split_ratios_left(left: u32, shares: Seq<u32>) -> Seq<u32>
    decreases shares.len(),
{
    if shares.len() == 0 {
        Seq::empty()
    } else if shares.len() == 1 {
        seq![left]
    } else {
        let r = if shares[0] <= left {
            shares[0]
        } else {
            left
        };
        seq![r] + split_ratios_left((left - r) as u32, shares.drop_first())
    }
}

/// The ratios the hash-rate split writes: all 100 percent are given out.
pub open spec fn split_ratios_spec(shares: Seq<u32>) -> Seq<u32> {
    split_ratios_left(100, shares)
}

/// The sum of a list of ratios.
pub open spec fn ratio_sum(rs: Seq<u32>) -> int
    decreases rs.len(),
{
    if rs.len() == 0 {
        0
    } else {
        rs[0] + ratio_sum(rs.drop_first())
    }
}

proof fn lemma_split_left_sum(left: u32, shares: Seq<u32>)
    requires
        shares.len() > 0,
    ensures
        ratio_sum(split_ratios_left(left, shares)) == left,
        split_ratios_left(left, shares).len() == shares.len(),
        forall|i: int| 0 <= i < shares.len() ==> #[trigger] split_ratios_left(left, shares)[i] <= left,
    decreases shares.len(),
{
    let out = split_ratios_left(left, shares);
    if shares.len() == 1 {
        assert(out.drop_first() =~= Seq::<u32>::empty());
        assert(ratio_sum(out.drop_first()) == 0);
        assert(out[0] == left);
    } else {
        let r = if shares[0] <= left {
            shares[0]
        } else {
            left
        };
        let rest = split_ratios_left((left - r) as u32, shares.drop_first());
        lemma_split_left_sum((left - r) as u32, shares.drop_first());
        assert(out.drop_first() =~= rest);
        assert(out[0] == r);
        assert(ratio_sum(out) == r + ratio_sum(rest));
        assert forall|i: int| 0 <= i < shares.len() implies #[trigger] out[i] <= left by {
            if i > 0 {
                assert(out[i] == rest[i - 1]);
            }
        }
    }
}

/// The ratios of a hash-rate split: one for each group, none above 100, and
/// together exactly 100.
pub proof fn lemma_split_ratios_sum_to_100(shares: Seq<u32>)
    requires
        shares.len() > 0,
    ensures
        split_ratios_spec(shares).len() == shares.len(),
        ratio_sum(split_ratios_spec(shares)) == 100,
        forall|i: int| 0 <= i < shares.len() ==> #[trigger] split_ratios_spec(shares)[i] <= 100,
{
    lemma_split_left_sum(100, shares);
}

/// The ratios the hash-rate split writes (see [`split_ratios_spec`]).
pub fn split_ratios(shares: &Vec<u32>) -> (r: Vec<u32>)
    ensures
        r@ == split_ratios_spec(shares@),
{
    let n = shares.len();
    let mut out: Vec<u32> = Vec::new();
    let mut allocated: u32 = 0;
    let mut i: usize = 0;
    assert(shares@.skip(0) =~= shares@);
    assert(out@ + split_ratios_left(100, shares@) =~= split_ratios_left(100, shares@));
    while i < n
        invariant
            n == shares@.len(),
            i <= n,
            allocated <= 100,
            out@ + split_ratios_left((100 - allocated) as u32, shares@.skip(i as int))
                == split_ratios_spec(shares@),
        decreases n - i,
    {
        let remaining: u32 = 100 - allocated;
        let ghost rest = shares@.skip(i as int);
        let ghost prev = out@;
        assert(rest.drop_first() =~= shares@.skip(i + 1));
        assert(rest[0] == shares@[i as int]);
        if i + 1 == n {
            out.push(remaining);
            assert(rest.len() == 1);
            assert(shares@.skip(i + 1).len() == 0);
            assert(out@ + split_ratios_left(remaining, shares@.skip(i + 1)) =~= prev + split_ratios_left(remaining, rest));
        } else {
            let share = shares[i];
            let bounded = if share <= remaining {
                share
            } else {
                remaining
            };
            allocated = allocated + bounded;
            out.push(bounded);
            assert(out@ + split_ratios_left((100 - allocated) as u32, shares@.skip(i + 1))
                =~= prev + split_ratios_left(remaining, rest));
        }
        i = i + 1;
    }
    assert(shares@.skip(n as int).len() == 0);
    assert(out@ =~= out@ + split_ratios_left((100 - allocated) as u32, shares@.skip(n as int)));
    out
}

/// The request that writes one pool group as the miner's only coin
/// configuration: `BTC`, the group's stratum configurations, no unique ids.
pub open spec fn coin_payload_spec(g: PoolGroupConfigV) -> JsonV {
    JsonV::Object(
        seq![
            (
                "param"@,
                JsonV::Object(
                    seq![
                        ("coin"@, JsonV::Str("BTC"@)),
                        ("stratum_configs"@, JsonV::Array(g.pools.map_values(|p: PoolConfigV| stratum_entry(p)))),
                        ("unique_id"@, JsonV::Bool(false)),
                    ],
                ),
            ),
        ],
    )
}

/// The request that writes a group holds, under `param`, the coin `BTC`
/// and a stratum configuration for every pool of the group, at the pool's
/// place, carrying that pool's address, user name and password.
pub proof fn lemma_coin_payload_carries_pools(g: PoolGroupConfigV, i: int)
    requires
        0 <= i < g.pools.len(),
    ensures
        coin_payload_spec(g).get("param"@) is Some,
        coin_payload_spec(g).get("param"@)->0.get("coin"@) == Some(JsonV::Str("BTC"@)),
        coin_payload_spec(g).get("param"@)->0.get("stratum_configs"@) is Some,
        coin_payload_spec(g).get("param"@)->0.get("stratum_configs"@)->0.at(i) is Some,
        coin_payload_spec(g).get("param"@)->0.get("stratum_configs"@)->0.at(i)->0.get("pool"@) == Some(
            JsonV::Str(g.pools[i].url),
        ),
        coin_payload_spec(g).get("param"@)->0.get("stratum_configs"@)->0.at(i)->0.get("login"@) == Some(
            JsonV::Str(g.pools[i].username),
        ),
        coin_payload_spec(g).get("param"@)->0.get("stratum_configs"@)->0.at(i)->0.get("password"@) == Some(
            JsonV::Str(g.pools[i].password),
        ),
{
    reveal_strlit("param");
    reveal_strlit("coin");
    reveal_strlit("stratum_configs");
    reveal_strlit("unique_id");
    let cs = JsonV::Array(g.pools.map_values(|p: PoolConfigV| stratum_entry(p)));
    let es = seq![("coin"@, JsonV::Str("BTC"@)), ("stratum_configs"@, cs), ("unique_id"@, JsonV::Bool(false))];
    assert("coin"@ != "stratum_configs"@) by {
        assert("coin"@[0] != "stratum_configs"@[0]);
    }
    assert(es.drop_first() =~= seq![("stratum_configs"@, cs), ("unique_id"@, JsonV::Bool(false))]);
    assert(crate::json::entries_get(es.drop_first(), "stratum_configs"@) == Some(cs));
    assert(crate::json::entries_get(es, "stratum_configs"@) == Some(cs));
    lemma_stratum_configs_follow_pools(g.pools, i);
}

/// Build the request that writes one pool group (see [`coin_payload_spec`]).
pub fn coin_payload(group: &PoolGroupConfig) -> (r: Json)
    ensures
        r@ == coin_payload_spec(group@),
{
    let configs = to_stratum_configs(group);
    let mut param: Vec<(String, Json)> = Vec::new();
    entry_push(&mut param, "coin", json_text("BTC"));
    entry_push(&mut param, "stratum_configs", json_array(configs));
    entry_push(&mut param, "unique_id", json_bool(false));
    let mut top: Vec<(String, Json)> = Vec::new();
    entry_push(&mut top, "param", json_object(param));
    proof {
        reveal_strlit("coin");
        reveal_strlit("BTC");
        reveal_strlit("stratum_configs");
        reveal_strlit("unique_id");
        reveal_strlit("param");
    }
    assert(entries_view(param@) =~= seq![
        ("coin"@, JsonV::Str("BTC"@)),
        ("stratum_configs"@, JsonV::Array(group@.pools.map_values(|p: PoolConfigV| stratum_entry(p)))),
        ("unique_id"@, JsonV::Bool(false)),
    ]);
    assert(entries_view(top@) =~= seq![("param"@, JsonV::Object(entries_view(param@)))]);
    json_object(top)
}

/// The hash-rate split entry of the group at `idx` with the given ratio.
pub open spec fn split_entry(idx: int, g: PoolGroupConfigV, ratio: u32) -> JsonV {
    JsonV::Object(
        seq![
            ("coin"@, JsonV::Str("BTC"@)),
            ("ratio"@, JsonV::Number(crate::json::JsonNumber::PosInt(ratio as u64))),
            ("sc_index"@, JsonV::Number(crate::json::JsonNumber::PosInt(idx as u64))),
            ("stratum_configs"@, JsonV::Array(g.pools.map_values(|p: PoolConfigV| stratum_entry(p)))),
            ("unique_id"@, JsonV::Bool(false)),
            ("unique_worker_id_variant"@, JsonV::Str("MacAddress"@)),
        ],
    )
}

/// The request that writes the groups as a hash-rate split with the given
/// ratios (see [`split_ratios`]).
pub open spec fn split_payload_spec(groups: Seq<PoolGroupConfigV>, ratios: Seq<u32>) -> JsonV {
    JsonV::Object(
        seq![
            (
                "param"@,
                JsonV::Array(Seq::new(groups.len(), |i: int| split_entry(i, groups[i], ratios[i]))),
            ),
        ],
    )
}

/// Build the hash-rate split entry of one group.
fn split_entry_of(idx: usize, group: &PoolGroupConfig, ratio: u32) -> (r: Json)
    ensures
        r@ == split_entry(idx as int, group@, ratio),
{
    let configs = to_stratum_configs(group);
    let mut e: Vec<(String, Json)> = Vec::new();
    entry_push(&mut e, "coin", json_text("BTC"));
    entry_push(&mut e, "ratio", json_u64(ratio as u64));
    entry_push(&mut e, "sc_index", json_u64(idx as u64));
    entry_push(&mut e, "stratum_configs", json_array(configs));
    entry_push(&mut e, "unique_id", json_bool(false));
    entry_push(&mut e, "unique_worker_id_variant", json_text("MacAddress"));
    proof {
        reveal_strlit("coin");
        reveal_strlit("BTC");
        reveal_strlit("ratio");
        reveal_strlit("sc_index");
        reveal_strlit("stratum_configs");
        reveal_strlit("unique_id");
        reveal_strlit("unique_worker_id_variant");
        reveal_strlit("MacAddress");
    }
    assert(entries_view(e@) =~= split_entry(idx as int, group@, ratio)->Object_0);
    json_object(e)
}

/// Build the hash-rate split request (see [`split_payload_spec`]).
pub fn split_payload(groups: &Vec<PoolGroupConfig>, ratios: &Vec<u32>) -> (r: Json)
    requires
        ratios@.len() == groups@.len(),
    ensures
        r@ == split_payload_spec(pool_groups_view(groups@), ratios@),
{
    let ghost gv = pool_groups_view(groups@);
    let mut items: Vec<Json> = Vec::new();
    let mut i: usize = 0;
    while i < groups.len()
        invariant
            i <= groups@.len(),
            ratios@.len() == groups@.len(),
            gv == pool_groups_view(groups@),
            items_view(items@) == Seq::new(i as nat, |j: int| split_entry(j, gv[j], ratios@[j])),
        decreases groups@.len() - i,
    {
        let e = split_entry_of(i, &groups[i], ratios[i]);
        item_push(&mut items, e);
        assert(items_view(items@) =~= Seq::new((i + 1) as nat, |j: int| split_entry(j, gv[j], ratios@[j])));
        i = i + 1;
    }
    let mut top: Vec<(String, Json)> = Vec::new();
    entry_push(&mut top, "param", json_array(items));
    proof {
        reveal_strlit("param");
    }
    assert(entries_view(top@) =~= split_payload_spec(gv, ratios@)->Object_0);
    json_object(top)
}

/// Where ePIC PowerPlay reports each field.
pub open spec fn epic_locations(field: DataField) -> Seq<LocationV> {
    match field {
        DataField::Mac => seq![location_v(ApiKind::Web, "network"@, ""@, None)],
        DataField::Hostname => seq![location_v(ApiKind::Web, "summary"@, "/Hostname"@, None)],
        DataField::Uptime => seq![location_v(ApiKind::Web, "summary"@, "/Session/Uptime"@, None)],
        DataField::Wattage => seq![location_v(ApiKind::Web, "summary"@, "/Power Supply Stats/Input Power"@, None)],
        DataField::TuningTarget => seq![location_v(ApiKind::Web, "summary"@, ""@, None)],
        DataField::Fans => seq![location_v(ApiKind::Web, "summary"@, "/Fans Rpm"@, None)],
        DataField::Hashboards => seq![location_v(ApiKind::Web, "temps"@, ""@, Some("Board Temps"@)), location_v(ApiKind::Web, "summary"@, ""@, Some("Summary"@)), location_v(ApiKind::Web, "capabilities"@, ""@, Some("Capabilities"@))],
        DataField::Chips => seq![location_v(ApiKind::Web, "temps/chip"@, ""@, Some("Chip Temps"@)), location_v(ApiKind::Web, "voltages"@, ""@, Some("Chip Voltages"@)), location_v(ApiKind::Web, "hashrate"@, ""@, Some("Chip Hashrates"@)), location_v(ApiKind::Web, "clocks"@, ""@, Some("Chip Clocks"@))],
        DataField::Pools => seq![location_v(ApiKind::Web, "summary"@, ""@, None)],
        DataField::IsMining => seq![location_v(ApiKind::Web, "summary"@, "/Status/Operating State"@, None)],
        DataField::LightFlashing => seq![location_v(ApiKind::Web, "summary"@, "/Misc/Locate Miner State"@, None)],
        DataField::ControlBoardVersion => seq![location_v(ApiKind::Web, "capabilities"@, "/Control Board Version/cpuHardware"@, Some("cpu"@)), location_v(ApiKind::Web, "capabilities"@, "/Control Board Version/platform"@, Some("platform"@))],
        DataField::SerialNumber => seq![location_v(ApiKind::Web, "capabilities"@, "/Control Board Version/cpuSerial"@, None)],
        DataField::ExpectedHashrate => seq![location_v(ApiKind::Web, "capabilities"@, "/Default Hashrate"@, None)],
        DataField::FirmwareVersion => seq![location_v(ApiKind::Web, "summary"@, "/Software"@, None)],
        DataField::Hashrate => seq![location_v(ApiKind::Web, "summary"@, "/HBs"@, None)],
        DataField::Messages => seq![location_v(ApiKind::Web, "summary"@, ""@, None)],
        _ => Seq::empty(),
    }
}

/// Where ePIC PowerPlay reports a field (see [`epic_locations`]).
pub fn get_locations(field: DataField) -> (r: Vec<DataLocation>)
    ensures
        locations_view(r@) == epic_locations(field),
{
    match field {
        DataField::Mac => vec![at(web("network"), "")],
        DataField::Hostname => vec![at(web("summary"), "/Hostname")],
        DataField::Uptime => vec![at(web("summary"), "/Session/Uptime")],
        DataField::Wattage => vec![at(web("summary"), "/Power Supply Stats/Input Power")],
        DataField::TuningTarget => vec![at(web("summary"), "")],
        DataField::Fans => vec![at(web("summary"), "/Fans Rpm")],
        DataField::Hashboards => vec![tagged_at(web("temps"), "", "Board Temps"), tagged_at(web("summary"), "", "Summary"), tagged_at(web("capabilities"), "", "Capabilities")],
        DataField::Chips => vec![tagged_at(web("temps/chip"), "", "Chip Temps"), tagged_at(web("voltages"), "", "Chip Voltages"), tagged_at(web("hashrate"), "", "Chip Hashrates"), tagged_at(web("clocks"), "", "Chip Clocks")],
        DataField::Pools => vec![at(web("summary"), "")],
        DataField::IsMining => vec![at(web("summary"), "/Status/Operating State")],
        DataField::LightFlashing => vec![at(web("summary"), "/Misc/Locate Miner State")],
        DataField::ControlBoardVersion => vec![tagged_at(web("capabilities"), "/Control Board Version/cpuHardware", "cpu"), tagged_at(web("capabilities"), "/Control Board Version/platform", "platform")],
        DataField::SerialNumber => vec![at(web("capabilities"), "/Control Board Version/cpuSerial")],
        DataField::ExpectedHashrate => vec![at(web("capabilities"), "/Default Hashrate")],
        DataField::FirmwareVersion => vec![at(web("summary"), "/Software")],
        DataField::Hashrate => vec![at(web("summary"), "/HBs")],
        DataField::Messages => vec![at(web("summary"), "")],
        _ => vec![],
    }
}

/// Where ePIC PowerPlay keeps its configuration.
pub open spec fn epic_config_locations(field: ConfigField) -> Seq<LocationV> {
    match field {
        ConfigField::Fan => seq![location_v(ApiKind::Web, "summary"@, "/Fans/Fan Mode"@, None)],
        ConfigField::Pools => seq![
            location_v(ApiKind::Web, "summary"@, "/StratumConfigs"@, Some("summary"@)),
            location_v(ApiKind::Web, "hashratesplit/config"@, ""@, Some("hashratesplit"@)),
        ],
        ConfigField::Scaling => seq![location_v(ApiKind::Web, "summary"@, "/PerpetualTune/Algorithm"@, None)],
        ConfigField::Tuning => seq![location_v(ApiKind::Web, "summary"@, ""@, None)],
        ConfigField::Temperature => Seq::empty(),
    }
}

/// Where ePIC PowerPlay keeps a configuration field (see
/// [`epic_config_locations`]).
pub fn get_configs_locations(field: ConfigField) -> (r: Vec<DataLocation>)
    ensures
        locations_view(r@) == epic_config_locations(field),
{
    match field {
        ConfigField::Fan => vec![at(web("summary"), "/Fans/Fan Mode")],
        ConfigField::Pools => vec![
            tagged_at(web("summary"), "/StratumConfigs", "summary"),
            tagged_at(web("hashratesplit/config"), "", "hashratesplit"),
        ],
        ConfigField::Scaling => vec![at(web("summary"), "/PerpetualTune/Algorithm")],
        ConfigField::Tuning => vec![at(web("summary"), "")],
        ConfigField::Temperature => vec![],
    }
}

/// The MAC address of the `network` answer: the `mac_address` of its
/// `dhcp` interface, or of its `static` one when it has no `dhcp`, as the
/// bytes `MacAddr::from_str` reads.
pub open spec fn epic_mac(network: Option<JsonV>) -> Option<Seq<u8>> {
    match network {
        Some(JsonV::Object(es)) => {
            let iface = match entries_get(es, "dhcp"@) {
                Some(v) => Some(v),
                None => entries_get(es, "static"@),
            };
            match opt_str(opt_get(iface, "mac_address"@)) {
                Some(s) => mac_text_bytes(s),
                None => None,
            }
        },
        _ => None,
    }
}

/// The MAC address of the `network` answer (see [`epic_mac`]), as its
/// bytes.
pub fn parse_mac(network: Option<&Json>) -> (r: Option<Vec<u8>>)
    ensures
        match r {
            Some(b) => epic_mac(view_opt(network)) == Some(b@),
            None => epic_mac(view_opt(network)) is None,
        },
{
    match network {
        Some(Json::Object(es)) => {
            let iface = match entries_lookup(es, "dhcp") {
                Some(v) => Some(v),
                None => entries_lookup(es, "static"),
            };
            match str_in(get_in(iface, "mac_address")) {
                Some(s) => mac_from_text(s),
                None => None,
            }
        },
        _ => None,
    }
}

/// Whether a character is dropped from an algorithm name: a space, `_` or
/// `-`.
pub open spec fn name_separator(c: char) -> bool {
    c == ' ' || c == '_' || c == '-'
}

/// An algorithm name as it is compared: trimmed, ASCII-lower-cased, without
/// spaces, `_` and `-`.
pub open spec fn algorithm_key(s: Seq<char>) -> Seq<char> {
    ascii_lowercase_spec(unicode_trim(s)).filter(|c: char| !name_separator(c))
}

/// The perpetual-tune algorithm a compared name names.
pub open spec fn algorithm_named(k: Seq<char>) -> Option<Seq<char>> {
    if k == "chiptune"@ {
        Some("ChipTune"@)
    } else if k == "voltageoptimizer"@ {
        Some("VoltageOptimizer"@)
    } else if k == "power"@ || k == "powertune"@ {
        Some("PowerTune"@)
    } else if k == "boardtune"@ {
        Some("BoardTune"@)
    } else {
        None
    }
}

/// The perpetual-tune algorithm a name names (see [`algorithm_key`] and
/// [`algorithm_named`]).
pub fn perpetual_tune_algorithm(name: &str) -> (r: Option<&'static str>)
    ensures
        text_opt(r) == algorithm_named(algorithm_key(name@)),
{
    let lower = to_ascii_lowercase(trim_text(name).as_str());
    let t = lower.as_str();
    let n = t.unicode_len();
    let mut k = String::new();
    let mut i: usize = 0;
    while i < n
        invariant
            n == t@.len(),
            i <= n,
            k@ == t@.subrange(0, i as int).filter(|c: char| !name_separator(c)),
        decreases n - i,
    {
        let c = t.get_char(i);
        assert(t@.subrange(0, i + 1).drop_last() =~= t@.subrange(0, i as int));
        assert(t@.subrange(0, i + 1).last() == c);
        proof {
            reveal(Seq::filter);
        }
        if !(c == ' ' || c == '_' || c == '-') {
            push_char(&mut k, c);
        }
        i = i + 1;
    }
    assert(t@.subrange(0, n as int) =~= t@);
    let ks = k.as_str();
    if text_eq(ks, "chiptune") {
        Some("ChipTune")
    } else if text_eq(ks, "voltageoptimizer") {
        Some("VoltageOptimizer")
    } else if text_eq(ks, "power") || text_eq(ks, "powertune") {
        Some("PowerTune")
    } else if text_eq(ks, "boardtune") {
        Some("BoardTune")
    } else {
        None
    }
}

/// The algorithm a tuning request uses: `PowerTune` for a power target; for
/// a hash-rate target the one the configuration names, which must be given,
/// known and other than `PowerTune`; mining-mode targets are not supported.
pub open spec fn tuning_algorithm_spec(target: TuningTarget, algorithm: Option<Seq<char>>) -> Result<Seq<char>, ConfigErrorV> {
    match target {
        TuningTarget::Power(_) => Ok("PowerTune"@),
        TuningTarget::HashRate(_) => match algorithm {
            None => Err(ConfigErrorV::MissingAlgorithm),
            Some(a) => match algorithm_named(algorithm_key(a)) {
                None => Err(ConfigErrorV::UnsupportedAlgorithm(a)),
                Some(name) => if name == "PowerTune"@ {
                    Err(ConfigErrorV::AlgorithmMismatch)
                } else {
                    Ok(name)
                },
            },
        },
        TuningTarget::MiningMode(_) => Err(ConfigErrorV::MiningModeTargetUnsupported),
    }
}

/// The algorithm a tuning request uses (see [`tuning_algorithm_spec`]).
pub fn tuning_algorithm(target: TuningTarget, algorithm: Option<&str>) -> (r: Result<&'static str, ConfigError>)
    ensures
        match r {
            Ok(a) => tuning_algorithm_spec(target, text_opt(algorithm)) == Ok::<Seq<char>, ConfigErrorV>(a@),
            Err(e) => tuning_algorithm_spec(target, text_opt(algorithm)) == Err::<Seq<char>, ConfigErrorV>(e@),
        },
{
    proof {
        reveal_strlit("PowerTune");
        reveal_strlit("ChipTune");
        reveal_strlit("VoltageOptimizer");
        reveal_strlit("BoardTune");
    }
    match target {
        TuningTarget::Power(_) => Ok("PowerTune"),
        TuningTarget::HashRate(_) => match algorithm {
            None => Err(ConfigError::MissingAlgorithm),
            Some(a) => match perpetual_tune_algorithm(a) {
                None => Err(ConfigError::UnsupportedAlgorithm(to_owned_text(a))),
                Some(name) => if text_eq(name, "PowerTune") {
                    Err(ConfigError::AlgorithmMismatch)
                } else {
                    Ok(name)
                },
            },
        },
        TuningTarget::MiningMode(_) => Err(ConfigError::MiningModeTargetUnsupported),
    }
}

/// The body of a perpetual-tune request.
pub open spec fn tune_payload_spec(algorithm: Seq<char>, target: u32, step: u32, minimum: u32) -> JsonV {
    JsonV::Object(
        seq![
            (
                "param"@,
                JsonV::Object(
                    seq![
                        ("algo"@, JsonV::Str(algorithm)),
                        ("target"@, JsonV::Number(JsonNumber::PosInt(target as u64))),
                        ("min_throttle"@, JsonV::Number(JsonNumber::PosInt(minimum as u64))),
                        ("throttle_step"@, JsonV::Number(JsonNumber::PosInt(step as u64))),
                    ],
                ),
            ),
        ],
    )
}

/// The body of a perpetual-tune request for an algorithm and a whole
/// target, with the scaling's minimum and step; refused without a scaling
/// configuration.
pub fn perpetual_tune_payload(algorithm: &str, target: u32, scaling: Option<&ScalingConfig>) -> (r: Result<Json, ConfigError>)
    ensures
        match scaling {
            Some(sc) => (r matches Ok(j) && j@ == tune_payload_spec(algorithm@, target, sc.step, sc.minimum)),
            None => r == Err::<Json, ConfigError>(ConfigError::MissingScaling),
        },
{
    let sc = match scaling {
        Some(sc) => sc,
        None => return Err(ConfigError::MissingScaling),
    };
    let mut inner: Vec<(String, Json)> = Vec::new();
    entry_push(&mut inner, "algo", json_text(algorithm));
    entry_push(&mut inner, "target", json_u64(target as u64));
    entry_push(&mut inner, "min_throttle", json_u64(sc.minimum as u64));
    entry_push(&mut inner, "throttle_step", json_u64(sc.step as u64));
    assert(entries_view(inner@) =~= seq![
        ("algo"@, JsonV::Str(algorithm@)),
        ("target"@, JsonV::Number(JsonNumber::PosInt(target as u64))),
        ("min_throttle"@, JsonV::Number(JsonNumber::PosInt(sc.minimum as u64))),
        ("throttle_step"@, JsonV::Number(JsonNumber::PosInt(sc.step as u64))),
    ]);
    let mut outer: Vec<(String, Json)> = Vec::new();
    entry_push(&mut outer, "param", json_object(inner));
    assert(entries_view(outer@) =~= seq![
        (
            "param"@,
            JsonV::Object(
                seq![
                    ("algo"@, JsonV::Str(algorithm@)),
                    ("target"@, JsonV::Number(JsonNumber::PosInt(target as u64))),
                    ("min_throttle"@, JsonV::Number(JsonNumber::PosInt(sc.minimum as u64))),
                    ("throttle_step"@, JsonV::Number(JsonNumber::PosInt(sc.step as u64))),
                ],
            ),
        ),
    ]);
    Ok(json_object(outer))
}

/// The first perpetual-tune algorithm of a summary and its statistics: the
/// first entry of the object at `/PerpetualTune/Algorithm`.
pub open spec fn first_algorithm(summary: JsonV) -> Option<(Seq<char>, JsonV)> {
    match pointer_spec(summary, "/PerpetualTune/Algorithm"@) {
        Some(JsonV::Object(es)) => if es.len() > 0 {
            Some(es[0])
        } else {
            None
        },
        _ => None,
    }
}

/// The first perpetual-tune algorithm of a summary and its statistics (see
/// [`first_algorithm`]).
pub fn first_perpetual_tune_algorithm(summary: &Json) -> (r: Option<(&str, &Json)>)
    ensures
        match r {
            Some((a, st)) => first_algorithm(summary@) == Some((a@, st@)),
            None => first_algorithm(summary@) is None,
        },
{
    match summary.pointer("/PerpetualTune/Algorithm") {
        Some(Json::Object(es)) => {
            proof {
                lemma_entries_view_len(es@);
            }
            if es.len() > 0 {
                Some((es[0].0.as_str(), &es[0].1))
            } else {
                None
            }
        },
        _ => None,
    }
}

/// Whether tuning statistics describe a power target: their `Unit`
/// (trimmed, ASCII-upper-cased) holds `W`, or the algorithm drives power
/// and its name holds `power` in any ASCII case.
pub open spec fn power_target_spec(stats: JsonV, algorithm: Seq<char>, drives_power: bool) -> bool {
    ascii_uppercase_spec(unicode_trim(str_or_empty(stats.get("Unit"@)))).contains('W') || (drives_power
        && contains_spec(ascii_lowercase_spec(algorithm), "power"@))
}

/// Whether tuning statistics describe a power target (see
/// [`power_target_spec`]); otherwise they describe a hash rate in their unit.
pub fn target_is_power(stats: &Json, algorithm: &str, drives_power: bool) -> (r: bool)
    ensures
        r == power_target_spec(stats@, algorithm@, drives_power),
{
    let unit = match str_in(stats.get("Unit")) {
        Some(u) => u,
        None => "",
    };
    proof {
        reveal_strlit("");
    }
    assert(unit@ =~= str_or_empty(stats@.get("Unit"@)));
    let upper = to_ascii_uppercase(trim_text(unit).as_str());
    let u = upper.as_str();
    let n = u.unicode_len();
    let mut has_w = false;
    let mut i: usize = 0;
    while i < n
        invariant
            n == u@.len(),
            i <= n,
            has_w == exists|j: int| 0 <= j < i && u@[j] == 'W',
        decreases n - i,
    {
        if u.get_char(i) == 'W' {
            has_w = true;
        }
        i = i + 1;
    }
    assert(has_w == u@.contains('W'));
    if has_w {
        return true;
    }
    drives_power && contains_text(to_ascii_lowercase(algorithm).as_str(), "power")
}

/// The idle speed written for automatic fans: the configured one, else 20.
pub open spec fn idle_or_default(idle_speed: Option<u64>) -> u64 {
    match idle_speed {
        Some(s) => s,
        None => 20u64,
    }
}

/// The fan mode of a fan request: automatic fans with a whole target
/// temperature and their idle speed (20 when none is set), or a manual
/// speed.
pub open spec fn fan_mode_value(config: FanConfig, target_temp: u64) -> JsonV {
    match config {
        FanConfig::Auto { idle_speed } => JsonV::Object(
            seq![
                (
                    "Auto"@,
                    JsonV::Object(
                        seq![
                            ("Target Temperature"@, JsonV::Number(JsonNumber::PosInt(target_temp))),
                            ("Idle Speed"@, JsonV::Number(JsonNumber::PosInt(idle_or_default(idle_speed)))),
                        ],
                    ),
                ),
            ],
        ),
        FanConfig::Manual { fan_speed } => JsonV::Object(
            seq![("Manual"@, JsonV::Number(JsonNumber::PosInt(fan_speed)))],
        ),
    }
}

/// The body of a fan request: its fan mode (see [`fan_mode_value`]) under
/// `param`.
pub open spec fn fan_payload_spec(config: FanConfig, target_temp: u64) -> JsonV {
    JsonV::Object(seq![("param"@, fan_mode_value(config, target_temp))])
}

/// The body of a fan request (see [`fan_payload_spec`]); the whole target
/// temperature is used only for automatic fans.
pub fn fan_payload(config: FanConfig, target_temp: u64) -> (r: Json)
    ensures
        r@ == fan_payload_spec(config, target_temp),
{
    let inner = match config {
        FanConfig::Auto { idle_speed } => {
            let mut auto: Vec<(String, Json)> = Vec::new();
            entry_push(&mut auto, "Target Temperature", json_u64(target_temp));
            entry_push(
                &mut auto,
                "Idle Speed",
                json_u64(
                    match idle_speed {
                        Some(s) => s,
                        None => 20,
                    },
                ),
            );
            let ghost idle = idle_or_default(idle_speed);
            assert(entries_view(auto@) =~= seq![
                ("Target Temperature"@, JsonV::Number(JsonNumber::PosInt(target_temp))),
                ("Idle Speed"@, JsonV::Number(JsonNumber::PosInt(idle))),
            ]);
            let mut mode: Vec<(String, Json)> = Vec::new();
            entry_push(&mut mode, "Auto", json_object(auto));
            assert(entries_view(mode@) =~= seq![
                (
                    "Auto"@,
                    JsonV::Object(
                        seq![
                            ("Target Temperature"@, JsonV::Number(JsonNumber::PosInt(target_temp))),
                            ("Idle Speed"@, JsonV::Number(JsonNumber::PosInt(idle))),
                        ],
                    ),
                ),
            ]);
            let v = json_object(mode);
            assert(v@ =~~= fan_mode_value(config, target_temp));
            v
        },
        FanConfig::Manual { fan_speed } => {
            let mut mode: Vec<(String, Json)> = Vec::new();
            entry_push(&mut mode, "Manual", json_u64(fan_speed));
            assert(entries_view(mode@) =~= seq![("Manual"@, JsonV::Number(JsonNumber::PosInt(fan_speed)))]);
            let v = json_object(mode);
            assert(v@ =~~= fan_mode_value(config, target_temp));
            v
        },
    };
    assert(inner@ == fan_mode_value(config, target_temp));
    let mut outer: Vec<(String, Json)> = Vec::new();
    entry_push(&mut outer, "param", inner);
    assert(entries_view(outer@) =~= seq![("param"@, inner@)]);
    json_object(outer)
}

/// The whole target a tuning request sends for a target value (by the bits
/// of its `f64`) of the given kind: refused when it is not finite, then when
/// it is negative, then when it rounds to more than `u32::MAX`; else the
/// rounded value.
pub open spec fn whole_target_spec(bits: u64, kind: TargetKind) -> Result<u32, ConfigError> {
    if !f64_is_finite(bits) {
        Err(ConfigError::TargetNotFinite(kind))
    } else if !f64_ge_zero(bits) {
        Err(ConfigError::TargetNegative(kind))
    } else {
        match f64_round_u32_checked(bits) {
            Some(Some(v)) => Ok(v),
            _ => Err(ConfigError::TargetTooLarge(kind)),
        }
    }
}

/// The whole target a tuning request sends (see [`whole_target_spec`]).
pub fn whole_target(bits: u64, kind: TargetKind) -> (r: Result<u32, ConfigError>)
    ensures
        r == whole_target_spec(bits, kind),
{
    let exponent = (bits / 0x10_0000_0000_0000) % 2048;
    let fraction = bits % 0x10_0000_0000_0000;
    let sign = bits / 0x8000_0000_0000_0000;
    if exponent == 2047 {
        return Err(ConfigError::TargetNotFinite(kind));
    }
    if sign != 0 && !(exponent == 0 && fraction == 0) {
        return Err(ConfigError::TargetNegative(kind));
    }
    match round_to_u32_checked(bits) {
        Some(Some(v)) => Ok(v),
        _ => Err(ConfigError::TargetTooLarge(kind)),
    }
}

/// The number a tuning target carries (by its bits): its watts or its
/// terahashes per second; a mining mode carries none.
pub open spec fn target_bits(target: TuningTarget) -> Option<u64> {
    match target {
        TuningTarget::Power(b) => Some(b),
        TuningTarget::HashRate(b) => Some(b),
        TuningTarget::MiningMode(_) => None,
    }
}

/// The kind of number a tuning target carries.
pub open spec fn target_kind(target: TuningTarget) -> TargetKind {
    match target {
        TuningTarget::Power(_) => TargetKind::Power,
        _ => TargetKind::Hashrate,
    }
}

/// The body of a tuning request for a target: its algorithm (see
/// [`tuning_algorithm_spec`]), then its whole target (see
/// [`whole_target_spec`]), then the scaling's minimum and step, each step
/// refusing the request on its error.
pub open spec fn tuning_request_spec(
    target: TuningTarget,
    algorithm: Option<Seq<char>>,
    scaling: Option<(u32, u32)>,
) -> Result<JsonV, ConfigErrorV> {
    match tuning_algorithm_spec(target, algorithm) {
        Err(e) => Err(e),
        Ok(a) => match whole_target_spec(target_bits(target)->0, target_kind(target)) {
            Err(e) => Err(e@),
            Ok(t) => match scaling {
                None => Err(ConfigErrorV::MissingScaling),
                Some((step, minimum)) => Ok(tune_payload_spec(a, t, step, minimum)),
            },
        },
    }
}

/// The body of a tuning request (see [`tuning_request_spec`]).
pub fn tuning_request(target: TuningTarget, algorithm: Option<&str>, scaling: Option<&ScalingConfig>) -> (r: Result<Json, ConfigError>)
    ensures
        ({
            let sc = match scaling {
                Some(s) => Some((s.step, s.minimum)),
                None => None,
            };
            match r {
                Ok(j) => tuning_request_spec(target, text_opt(algorithm), sc) == Ok::<JsonV, ConfigErrorV>(j@),
                Err(e) => tuning_request_spec(target, text_opt(algorithm), sc) == Err::<JsonV, ConfigErrorV>(e@),
            }
        }),
{
    let algo = match tuning_algorithm(target, algorithm) {
        Ok(a) => a,
        Err(e) => return Err(e),
    };
    let (bits, kind) = match target {
        TuningTarget::Power(b) => (b, TargetKind::Power),
        TuningTarget::HashRate(b) => (b, TargetKind::Hashrate),
        TuningTarget::MiningMode(_) => return Err(ConfigError::MiningModeTargetUnsupported),
    };
    let t = match whole_target(bits, kind) {
        Ok(t) => t,
        Err(e) => return Err(e),
    };
    perpetual_tune_payload(algo, t, scaling)
}

/// The control board an ePIC miner without a `platform` names by its CPU.
#[derive(Debug, Clone, Copy, PartialEq, Eq, Structural)]
pub enum CpuBoard {
    /// An Antminer AMLogic board.
    AMLogic,
    /// An Antminer BeagleBone Black board.
    BeagleBoneBlack,
    /// An Antminer Xilinx board.
    Xilinx,
    /// The ePIC UMC board.
    EPicUMC,
}

/// The board a CPU text names: by its upper-case form, `AMLOGIC`, then
/// `GENERIC AM33XX`, then `XILINX`; any other CPU is an ePIC UMC.
pub open spec fn cpu_board_spec(cpu: Seq<char>) -> CpuBoard {
    let upper = crate::text::unicode_uppercase(cpu);
    if contains_spec(upper, "AMLOGIC"@) {
        CpuBoard::AMLogic
    } else if contains_spec(upper, "GENERIC AM33XX"@) {
        CpuBoard::BeagleBoneBlack
    } else if contains_spec(upper, "XILINX"@) {
        CpuBoard::Xilinx
    } else {
        CpuBoard::EPicUMC
    }
}

/// The board a CPU text names (see [`cpu_board_spec`]).
pub fn cpu_board(cpu: &str) -> (r: CpuBoard)
    ensures
        r == cpu_board_spec(cpu@),
{
    let upper = crate::text::to_uppercase(cpu);
    if contains_text(upper.as_str(), "AMLOGIC") {
        CpuBoard::AMLogic
    } else if contains_text(upper.as_str(), "GENERIC AM33XX") {
        CpuBoard::BeagleBoneBlack
    } else if contains_text(upper.as_str(), "XILINX") {
        CpuBoard::Xilinx
    } else {
        CpuBoard::EPicUMC
    }
}

} // verus!
