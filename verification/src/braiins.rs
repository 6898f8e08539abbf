//! Braiins OS: where it reports each field, its pools and appeals, the
//! pool-group request, and its version strings.
use vstd::prelude::*;
use crate::data::{MessageSeverity, MinerMessage, message_view, messages_view};
use crate::fields::{
    ApiKind, DataField, DataLocation, LocationV, at, graphql, location_v, locations_view, rpc,
    tagged_at, web,
};
use crate::json::{
    Json, JsonNumber, JsonV, entries_view, entry_push, item_push, items_view, json_array,
    json_object, json_string, json_text, json_u64, lemma_items_view_len, opt_bool, opt_str, opt_u64,
    pointer_spec, split_on, split_text, str_in, u64_in, bool_in, view_opt, i64_in, opt_i64,
};
use crate::pools::{
    PoolConfigV, PoolData, PoolDataV, PoolGroupConfig, PoolGroupConfigV, PoolGroupData,
    PoolGroupDataV, PoolURL, opt_text, pool_datas_view, pool_group_datas_view, pool_groups_view,
};
use crate::version::{SemVersion, parse_semver, sem_view, semver_of};
use crate::text::{eq_ignore_ascii_case, eq_ignore_ascii_case_spec, push_char, push_text, text_eq};

verus! {

/// Where Braiins OS (25.07 and later) reports each field.
pub open spec fn braiins_locations(field: DataField) -> Seq<LocationV> {
    match field {
        DataField::Mac => seq![location_v(ApiKind::Web, "network"@, "/mac_address"@, None)],
        DataField::Hostname => seq![location_v(ApiKind::Web, "network"@, "/hostname"@, None)],
        DataField::ApiVersion => seq![location_v(ApiKind::Web, "version"@, ""@, None)],
        DataField::FirmwareVersion => seq![location_v(ApiKind::Web, "miner/details"@, "/bos_version/current"@, None)],
        DataField::Hashrate => seq![location_v(ApiKind::Web, "miner/stats"@, "/miner_stats/real_hashrate/last_5s/gigahash_per_second"@, None)],
        DataField::ExpectedHashrate => seq![location_v(ApiKind::Web, "miner/details"@, "/sticker_hashrate/gigahash_per_second"@, None)],
        DataField::Fans => seq![location_v(ApiKind::Web, "cooling/state"@, "/fans"@, None)],
        DataField::Hashboards => seq![location_v(ApiKind::Web, "miner/hw/hashboards"@, "/hashboards"@, None)],
        DataField::LightFlashing => seq![location_v(ApiKind::Web, "actions/locate"@, ""@, None)],
        DataField::IsMining => seq![location_v(ApiKind::Web, "miner/details"@, "/status"@, None)],
        DataField::Uptime => seq![location_v(ApiKind::Web, "miner/details"@, "/system_uptime_s"@, None)],
        DataField::ControlBoardVersion => seq![location_v(ApiKind::Web, "miner/details"@, "/control_board_soc_family"@, None)],
        DataField::Pools => seq![location_v(ApiKind::Web, "pools"@, "/0/pools"@, None)],
        DataField::Wattage => seq![location_v(ApiKind::Web, "miner/stats"@, "/power_stats/approximated_consumption/watt"@, None)],
        DataField::TuningTarget => seq![location_v(ApiKind::Web, "configuration/miner"@, "/tuner/tuner_mode"@, Some("mode"@)), location_v(ApiKind::Web, "configuration/miner"@, "/tuner/power_target/watt"@, Some("configured_power"@)), location_v(ApiKind::Web, "configuration/miner"@, "/tuner/hashrate_target/terahash_per_second"@, Some("configured_hashrate"@)), location_v(ApiKind::Web, "performance/tuner-state"@, "/mode_state/powertargetmodestate/current_target/watt"@, Some("scaled_power"@)), location_v(ApiKind::Web, "performance/tuner-state"@, "/mode_state/hashratetargetmodestate/current_target/terahash_per_second"@, Some("scaled_hashrate"@))],
        DataField::SerialNumber => seq![location_v(ApiKind::Web, "miner/details"@, "/serial_number"@, None)],
        DataField::Messages => seq![location_v(ApiKind::GraphQl, "{\n                events {\n                    appeals {\n                        id\n                        kind\n                        message\n                        timestamp\n                    }\n                }\n            }"@, "/events/appeals"@, None)],
        _ => Seq::empty(),
    }
}


/// Where Braiins OS reports a field (see [`braiins_locations`]).
pub fn get_locations(field: DataField) -> (r: Vec<DataLocation>)
    ensures
        locations_view(r@) == braiins_locations(field),
{
    match field {
        DataField::Mac => vec![at(web("network"), "/mac_address")],
        DataField::Hostname => vec![at(web("network"), "/hostname")],
        DataField::ApiVersion => vec![at(web("version"), "")],
        DataField::FirmwareVersion => vec![at(web("miner/details"), "/bos_version/current")],
        DataField::Hashrate => vec![at(web("miner/stats"), "/miner_stats/real_hashrate/last_5s/gigahash_per_second")],
        DataField::ExpectedHashrate => vec![at(web("miner/details"), "/sticker_hashrate/gigahash_per_second")],
        DataField::Fans => vec![at(web("cooling/state"), "/fans")],
        DataField::Hashboards => vec![at(web("miner/hw/hashboards"), "/hashboards")],
        DataField::LightFlashing => vec![at(web("actions/locate"), "")],
        DataField::IsMining => vec![at(web("miner/details"), "/status")],
        DataField::Uptime => vec![at(web("miner/details"), "/system_uptime_s")],
        DataField::ControlBoardVersion => vec![at(web("miner/details"), "/control_board_soc_family")],
        DataField::Pools => vec![at(web("pools"), "/0/pools")],
        DataField::Wattage => vec![at(web("miner/stats"), "/power_stats/approximated_consumption/watt")],
        DataField::TuningTarget => vec![tagged_at(web("configuration/miner"), "/tuner/tuner_mode", "mode"), tagged_at(web("configuration/miner"), "/tuner/power_target/watt", "configured_power"), tagged_at(web("configuration/miner"), "/tuner/hashrate_target/terahash_per_second", "configured_hashrate"), tagged_at(web("performance/tuner-state"), "/mode_state/powertargetmodestate/current_target/watt", "scaled_power"), tagged_at(web("performance/tuner-state"), "/mode_state/hashratetargetmodestate/current_target/terahash_per_second", "scaled_hashrate")],
        DataField::SerialNumber => vec![at(web("miner/details"), "/serial_number")],
        DataField::Messages => vec![at(graphql("{\n                events {\n                    appeals {\n                        id\n                        kind\n                        message\n                        timestamp\n                    }\n                }\n            }"), "/events/appeals")],
        _ => vec![],
    }
}

/// The pool a Braiins pool entry at `idx` describes.
pub open spec fn bos_pool(idx: int, p: JsonV) -> PoolDataV {
    PoolDataV {
        position: Some(idx as u16),
        url: opt_str(pointer_spec(p, "/url"@)),
        accepted_shares: opt_u64(pointer_spec(p, "/stats/accepted_shares"@)),
        rejected_shares: opt_u64(pointer_spec(p, "/stats/rejected_shares"@)),
        active: opt_bool(pointer_spec(p, "/active"@)),
        alive: opt_bool(pointer_spec(p, "/alive"@)),
        user: opt_str(pointer_spec(p, "/user"@)),
    }
}

/// The reported pool groups: one unnamed group with quota 1 holding a pool
/// per entry of the pools list (none when it is missing or no array).
pub open spec fn bos_pools(pools: Option<JsonV>) -> Seq<PoolGroupDataV> {
    let ps = match pools {
        Some(JsonV::Array(ps)) => ps,
        _ => Seq::empty(),
    };
    seq![
        PoolGroupDataV {
            name: Seq::empty(),
            quota: 1,
            pools: Seq::new(ps.len(), |i: int| bos_pool(i, ps[i])),
        },
    ]
}

/// Read the pool entry at `idx`.
fn read_bos_pool(idx: usize, p: &Json) -> (r: PoolData)
    ensures
        r@ == bos_pool(idx as int, p@),
{
    PoolData {
        position: Some(idx as u16),
        url: match str_in(p.pointer("/url")) {
            Some(u) => Some(PoolURL::new(u.to_owned())),
            None => None,
        },
        accepted_shares: u64_in(p.pointer("/stats/accepted_shares")),
        rejected_shares: u64_in(p.pointer("/stats/rejected_shares")),
        active: bool_in(p.pointer("/active")),
        alive: bool_in(p.pointer("/alive")),
        user: match str_in(p.pointer("/user")) {
            Some(u) => Some(u.to_owned()),
            None => None,
        },
    }
}

/// The reported pool groups (see [`bos_pools`]).
pub fn parse_pools(pools: Option<&Json>) -> (r: Vec<PoolGroupData>)
    ensures
        pool_group_datas_view(r@) == bos_pools(view_opt(pools)),
{
    let mut out: Vec<PoolData> = Vec::new();
    let ghost ps = match view_opt(pools) {
        Some(JsonV::Array(ps)) => ps,
        _ => Seq::empty(),
    };
    match pools {
        Some(Json::Array(items)) => {
            proof {
                lemma_items_view_len(items@);
            }
            assert(ps == items_view(items@));
            let mut i: usize = 0;
            while i < items.len()
                invariant
                    i <= items@.len(),
                    ps == items_view(items@),
                    ps.len() == items@.len(),
                    forall|j: int| 0 <= j < items@.len() ==> #[trigger] ps[j] == items@[j]@,
                    out@.len() == i,
                    forall|j: int| 0 <= j < i ==> #[trigger] out@[j]@ == bos_pool(j, ps[j]),
                decreases items@.len() - i,
            {
                let p = read_bos_pool(i, &items[i]);
                out.push(p);
                i = i + 1;
            }
        },
        _ => {},
    }
    assert(pool_datas_view(out@) =~= Seq::new(ps.len(), |i: int| bos_pool(i, ps[i])));
    let r = vec![PoolGroupData { name: String::new(), quota: 1, pools: out }];
    assert(pool_group_datas_view(r@) =~= bos_pools(view_opt(pools)));
    r
}

/// The pointer `/k` reads the member `k` of an object, for the member names
/// the pool entries are read by.
proof fn lemma_pool_pointers(v: JsonV)
    requires
        v is Object,
    ensures
        pointer_spec(v, "/url"@) == v.get("url"@),
        pointer_spec(v, "/user"@) == v.get("user"@),
        pointer_spec(v, "/active"@) == v.get("active"@),
        pointer_spec(v, "/alive"@) == v.get("alive"@),
        v.get("stats"@) is Some && v.get("stats"@)->0 is Object ==> pointer_spec(v, "/stats/accepted_shares"@)
            == v.get("stats"@)->0.get("accepted_shares"@),
        v.get("stats"@) is Some && v.get("stats"@)->0 is Object ==> pointer_spec(v, "/stats/rejected_shares"@)
            == v.get("stats"@)->0.get("rejected_shares"@),
{
    reveal_strlit("url");
    reveal_strlit("/url");
    reveal_strlit("user");
    reveal_strlit("/user");
    reveal_strlit("active");
    reveal_strlit("/active");
    reveal_strlit("alive");
    reveal_strlit("/alive");
    reveal_strlit("stats");
    reveal_strlit("accepted_shares");
    reveal_strlit("rejected_shares");
    reveal_strlit("/stats/accepted_shares");
    reveal_strlit("/stats/rejected_shares");
    assert("/url"@ =~= seq!['/'] + "url"@);
    assert("/user"@ =~= seq!['/'] + "user"@);
    assert("/active"@ =~= seq!['/'] + "active"@);
    assert("/alive"@ =~= seq!['/'] + "alive"@);
    assert(crate::json::plain_token("url"@));
    assert(crate::json::plain_token("user"@));
    assert(crate::json::plain_token("active"@));
    assert(crate::json::plain_token("alive"@));
    crate::json::lemma_pointer_member(v, "url"@);
    crate::json::lemma_pointer_member(v, "user"@);
    crate::json::lemma_pointer_member(v, "active"@);
    crate::json::lemma_pointer_member(v, "alive"@);
    match v.get("stats"@) {
        Some(st) => if st is Object {
        assert(crate::json::plain_token("stats"@));
        assert(crate::json::plain_token("accepted_shares"@));
        assert(crate::json::plain_token("rejected_shares"@));
        assert("/stats/accepted_shares"@ =~= seq!['/'] + "stats"@ + seq!['/'] + "accepted_shares"@);
        assert("/stats/rejected_shares"@ =~= seq!['/'] + "stats"@ + seq!['/'] + "rejected_shares"@);
        crate::json::lemma_pointer_member2(v, "stats"@, "accepted_shares"@);
        crate::json::lemma_pointer_member2(v, "stats"@, "rejected_shares"@);
        },
        None => {},
    }
}

/// Every reported pool is read from its own entry of the pools list: its
/// address from `url`, its user from `user`, whether it is active and alive
/// from `active` and `alive`, and its share counts from the `stats` object;
/// the pools form one group, one pool per entry, in order.
pub proof fn lemma_bos_pool_fields(ps: Seq<JsonV>, i: int)
    requires
        0 <= i < ps.len(),
        ps[i] is Object,
    ensures
        bos_pools(Some(JsonV::Array(ps))).len() == 1,
        bos_pools(Some(JsonV::Array(ps)))[0].pools.len() == ps.len(),
        bos_pools(Some(JsonV::Array(ps)))[0].pools[i].url == opt_str(ps[i].get("url"@)),
        bos_pools(Some(JsonV::Array(ps)))[0].pools[i].user == opt_str(ps[i].get("user"@)),
        bos_pools(Some(JsonV::Array(ps)))[0].pools[i].active == opt_bool(ps[i].get("active"@)),
        bos_pools(Some(JsonV::Array(ps)))[0].pools[i].alive == opt_bool(ps[i].get("alive"@)),
        ps[i].get("stats"@) is Some && ps[i].get("stats"@)->0 is Object ==> bos_pools(
            Some(JsonV::Array(ps)),
        )[0].pools[i].accepted_shares == opt_u64(ps[i].get("stats"@)->0.get("accepted_shares"@)),
        ps[i].get("stats"@) is Some && ps[i].get("stats"@)->0 is Object ==> bos_pools(
            Some(JsonV::Array(ps)),
        )[0].pools[i].rejected_shares == opt_u64(ps[i].get("stats"@)->0.get("rejected_shares"@)),
{
    lemma_pool_pointers(ps[i]);
}

/// How serious an appeal is: `error` and `warning` (in any case) as such,
/// anything else information.
pub open spec fn appeal_severity(kind: Option<Seq<char>>) -> MessageSeverity {
    match kind {
        Some(k) => if eq_ignore_ascii_case_spec(k, "error"@) {
            MessageSeverity::Error
        } else if eq_ignore_ascii_case_spec(k, "warning"@) {
            MessageSeverity::Warning
        } else {
            MessageSeverity::Info
        },
        None => MessageSeverity::Info,
    }
}

/// The message of an appeal: its `timestamp` (0 when missing, cut to 32
/// bits), code 0, its `message` (or `Unknown`) and its severity.
pub open spec fn appeal_message(a: JsonV) -> (u32, u64, Seq<char>, MessageSeverity) {
    (
        (match opt_u64(a.get("timestamp"@)) {
            Some(t) => t,
            None => 0,
        }) as u32,
        0u64,
        match opt_str(a.get("message"@)) {
            Some(m) => m,
            None => "Unknown"@,
        },
        appeal_severity(opt_str(a.get("kind"@))),
    )
}

/// The severity of an appeal follows its `kind` in any ASCII case:
/// `warning` gives a warning, `error` an error, any other kind, or none,
/// information.  The message holds the appeal's `message` text.
pub proof fn lemma_appeal_severity(a: JsonV)
    ensures
        opt_str(a.get("kind"@)) matches Some(k) && crate::text::ascii_lowercase_spec(k) == "warning"@
            ==> appeal_message(a).3 == MessageSeverity::Warning,
        opt_str(a.get("kind"@)) matches Some(k) && crate::text::ascii_lowercase_spec(k) == "error"@
            ==> appeal_message(a).3 == MessageSeverity::Error,
        opt_str(a.get("kind"@)) matches Some(k) && crate::text::ascii_lowercase_spec(k) != "warning"@
            && crate::text::ascii_lowercase_spec(k) != "error"@ ==> appeal_message(a).3 == MessageSeverity::Info,
        opt_str(a.get("kind"@)) is None ==> appeal_message(a).3 == MessageSeverity::Info,
        opt_str(a.get("message"@)) matches Some(m) ==> appeal_message(a).2 == m,
{
    reveal_strlit("warning");
    reveal_strlit("error");
    match opt_str(a.get("kind"@)) {
        Some(k) => {
        let w = "warning"@;
        let e = "error"@;
        assert(w =~= seq!['w', 'a', 'r', 'n', 'i', 'n', 'g']);
        assert(e =~= seq!['e', 'r', 'r', 'o', 'r']);
        assert forall|i: int| 0 <= i < w.len() implies !('A' <= #[trigger] w[i] && w[i] <= 'Z') by {}
        assert forall|i: int| 0 <= i < e.len() implies !('A' <= #[trigger] e[i] && e[i] <= 'Z') by {}
        crate::text::lemma_case_blind_match(k, w);
        crate::text::lemma_case_blind_match(k, e);
        },
        None => {},
    }
}

/// The messages of the appeals list: one per appeal, in order.
pub fn parse_messages(appeals: Option<&Json>) -> (r: Vec<MinerMessage>)
    ensures
        messages_view(r@) == match view_opt(appeals) {
            Some(JsonV::Array(items)) => Seq::new(items.len(), |i: int| appeal_message(items[i])),
            _ => Seq::empty(),
        },
{
    let mut out: Vec<MinerMessage> = Vec::new();
    match appeals {
        Some(Json::Array(items)) => {
            let ghost iv = items_view(items@);
            proof {
                lemma_items_view_len(items@);
            }
            let mut i: usize = 0;
            while i < items.len()
                invariant
                    i <= items@.len(),
                    iv == items_view(items@),
                    iv.len() == items@.len(),
                    forall|j: int| 0 <= j < items@.len() ==> #[trigger] iv[j] == items@[j]@,
                    out@.len() == i,
                    forall|j: int| 0 <= j < i ==> #[trigger] message_view(out@[j]) == appeal_message(iv[j]),
                decreases items@.len() - i,
            {
                let a = &items[i];
                let timestamp: u64 = match u64_in(a.get("timestamp")) {
                    Some(t) => t,
                    None => 0,
                };
                let text = match str_in(a.get("message")) {
                    Some(m) => m.to_owned(),
                    None => "Unknown".to_owned(),
                };
                let severity = match str_in(a.get("kind")) {
                    Some(k) => if eq_ignore_ascii_case(k, "error") {
                        MessageSeverity::Error
                    } else if eq_ignore_ascii_case(k, "warning") {
                        MessageSeverity::Warning
                    } else {
                        MessageSeverity::Info
                    },
                    None => MessageSeverity::Info,
                };
                out.push(MinerMessage::new(timestamp as u32, 0, text, severity));
                i = i + 1;
            }
            assert(messages_view(out@) =~= Seq::new(iv.len(), |i: int| appeal_message(iv[i])));
        },
        _ => {
            assert(messages_view(out@) =~= Seq::<(u32, u64, Seq<char>, MessageSeverity)>::empty());
        },
    }
    out
}

/// Whether the miner mines: its status is 2 (normal).
pub fn parse_is_mining(status: Option<&Json>) -> (r: bool)
    ensures
        r == (opt_u64(view_opt(status)) == Some(2u64)),
{
    match u64_in(status) {
        Some(s) => s == 2,
        None => false,
    }
}

/// The entry that writes one pool of a group: `url`, `user`, `password`.
pub open spec fn bos_pool_entry(p: PoolConfigV) -> JsonV {
    JsonV::Object(
        seq![
            ("url"@, JsonV::Str(p.url)),
            ("user"@, JsonV::Str(p.username)),
            ("password"@, JsonV::Str(p.password)),
        ],
    )
}

/// The entry that writes one pool group: its name, its pools, and its quota
/// as the load-balancing strategy.
pub open spec fn bos_group_entry(g: PoolGroupConfigV) -> JsonV {
    JsonV::Object(
        seq![
            ("name"@, JsonV::Str(g.name)),
            ("pools"@, JsonV::Array(g.pools.map_values(|p: PoolConfigV| bos_pool_entry(p)))),
            (
                "load_balance_strategy"@,
                JsonV::Object(
                    seq![
                        (
                            "quota"@,
                            JsonV::Object(
                                seq![("value"@, JsonV::Number(JsonNumber::PosInt(g.quota as u64)))],
                            ),
                        ),
                    ],
                ),
            ),
        ],
    )
}

/// The entry that writes a group holds the group's name under `name`, its
/// quota under `load_balance_strategy.quota.value`, and under `pools` one
/// entry per pool of the group, in order, each with that pool's `url`,
/// `user` and `password`.
pub proof fn lemma_bos_group_entry_fields(g: PoolGroupConfigV, i: int)
    requires
        0 <= i < g.pools.len(),
    ensures
        bos_group_entry(g).get("name"@) == Some(JsonV::Str(g.name)),
        bos_group_entry(g).get("load_balance_strategy"@) is Some,
        bos_group_entry(g).get("load_balance_strategy"@)->0.get("quota"@) is Some,
        bos_group_entry(g).get("load_balance_strategy"@)->0.get("quota"@)->0.get("value"@) == Some(
            JsonV::Number(JsonNumber::PosInt(g.quota as u64)),
        ),
        bos_group_entry(g).get("pools"@) is Some,
        bos_group_entry(g).get("pools"@)->0.at(i) is Some,
        bos_group_entry(g).get("pools"@)->0.at(i)->0.get("url"@) == Some(JsonV::Str(g.pools[i].url)),
        bos_group_entry(g).get("pools"@)->0.at(i)->0.get("user"@) == Some(JsonV::Str(g.pools[i].username)),
        bos_group_entry(g).get("pools"@)->0.at(i)->0.get("password"@) == Some(JsonV::Str(g.pools[i].password)),
{
    reveal_strlit("name");
    reveal_strlit("pools");
    reveal_strlit("load_balance_strategy");
    reveal_strlit("quota");
    reveal_strlit("value");
    reveal_strlit("url");
    reveal_strlit("user");
    reveal_strlit("password");
    let p = g.pools[i];
    let pes = seq![("url"@, JsonV::Str(p.url)), ("user"@, JsonV::Str(p.username)), ("password"@, JsonV::Str(p.password))];
    assert("url"@ != "user"@) by {
        assert("url"@[1] != "user"@[1]);
    }
    assert("url"@ != "password"@) by {
        assert("url"@[0] != "password"@[0]);
    }
    assert("user"@ != "password"@) by {
        assert("user"@[0] != "password"@[0]);
    }
    crate::json::lemma_get_listed(pes, 0);
    crate::json::lemma_get_listed(pes, 1);
    crate::json::lemma_get_listed(pes, 2);
    let ls = JsonV::Object(seq![("quota"@, JsonV::Object(seq![("value"@, JsonV::Number(JsonNumber::PosInt(g.quota as u64)))]))]);
    let ges = seq![
        ("name"@, JsonV::Str(g.name)),
        ("pools"@, JsonV::Array(g.pools.map_values(|q: PoolConfigV| bos_pool_entry(q)))),
        ("load_balance_strategy"@, ls),
    ];
    assert("name"@ != "pools"@) by {
        assert("name"@[0] != "pools"@[0]);
    }
    assert("name"@ != "load_balance_strategy"@) by {
        assert("name"@[0] != "load_balance_strategy"@[0]);
    }
    assert("pools"@ != "load_balance_strategy"@) by {
        assert("pools"@[0] != "load_balance_strategy"@[0]);
    }
    crate::json::lemma_get_listed(ges, 0);
    crate::json::lemma_get_listed(ges, 1);
    crate::json::lemma_get_listed(ges, 2);
    crate::json::lemma_get_listed(seq![("quota"@, JsonV::Object(seq![("value"@, JsonV::Number(JsonNumber::PosInt(g.quota as u64)))]))], 0);
    crate::json::lemma_get_listed(seq![("value"@, JsonV::Number(JsonNumber::PosInt(g.quota as u64)))], 0);
}

/// Build the entry that writes one pool group (see [`bos_group_entry`]).
fn group_entry(g: &PoolGroupConfig) -> (r: Json)
    ensures
        r@ == bos_group_entry(g@),
{
    let ghost pv = g@.pools;
    let mut pools: Vec<Json> = Vec::new();
    let mut i: usize = 0;
    proof {
        reveal_strlit("url");
        reveal_strlit("user");
        reveal_strlit("password");
        reveal_strlit("name");
        reveal_strlit("pools");
        reveal_strlit("load_balance_strategy");
        reveal_strlit("quota");
        reveal_strlit("value");
    }
    while i < g.pools.len()
        invariant
            i <= g.pools@.len(),
            pv == crate::pools::pool_configs_view(g.pools@),
            items_view(pools@) == pv.take(i as int).map_values(|p: PoolConfigV| bos_pool_entry(p)),
        decreases g.pools@.len() - i,
    {
        let p = &g.pools[i];
        let mut e: Vec<(String, Json)> = Vec::new();
        entry_push(&mut e, "url", json_string(p.url.to_text()));
        entry_push(&mut e, "user", json_text(p.username.as_str()));
        entry_push(&mut e, "password", json_text(p.password.as_str()));
        assert(entries_view(e@) =~= bos_pool_entry(p@)->Object_0);
        item_push(&mut pools, json_object(e));
        assert(pv.take(i + 1) =~= pv.take(i as int).push(p@));
        assert(items_view(pools@) =~= pv.take(i + 1).map_values(|p: PoolConfigV| bos_pool_entry(p)));
        i = i + 1;
    }
    assert(pv.take(g.pools@.len() as int) =~= pv);
    let mut value: Vec<(String, Json)> = Vec::new();
    entry_push(&mut value, "value", json_u64(g.quota as u64));
    let mut quota: Vec<(String, Json)> = Vec::new();
    entry_push(&mut quota, "quota", json_object(value));
    let mut e: Vec<(String, Json)> = Vec::new();
    entry_push(&mut e, "name", json_text(g.name.as_str()));
    entry_push(&mut e, "pools", json_array(pools));
    entry_push(&mut e, "load_balance_strategy", json_object(quota));
    assert(entries_view(e@) =~= bos_group_entry(g@)->Object_0);
    json_object(e)
}

/// The `pools/batch` request that writes the pool groups: one entry per
/// group, in order (see [`bos_group_entry`]).
pub fn pools_batch_payload(config: &Vec<PoolGroupConfig>) -> (r: Json)
    ensures
        r@ == JsonV::Array(pool_groups_view(config@).map_values(|g: PoolGroupConfigV| bos_group_entry(g))),
{
    let ghost gv = pool_groups_view(config@);
    let mut items: Vec<Json> = Vec::new();
    let mut i: usize = 0;
    while i < config.len()
        invariant
            i <= config@.len(),
            gv == pool_groups_view(config@),
            items_view(items@) == gv.take(i as int).map_values(|g: PoolGroupConfigV| bos_group_entry(g)),
        decreases config@.len() - i,
    {
        let e = group_entry(&config[i]);
        item_push(&mut items, e);
        assert(gv.take(i + 1) =~= gv.take(i as int).push(config@[i as int]@));
        assert(items_view(items@) =~= gv.take(i + 1).map_values(|g: PoolGroupConfigV| bos_group_entry(g)));
        i = i + 1;
    }
    assert(gv.take(config@.len() as int) =~= gv);
    json_array(items)
}

/// Whether a character occurs in a text.
pub open spec fn has_char(s: Seq<char>, c: char) -> bool {
    exists|i: int| 0 <= i < s.len() && s[i] == c
}

/// The last of the parts that holds a dot.
pub open spec fn last_dotted(parts: Seq<Seq<char>>) -> Option<Seq<char>>
    decreases parts.len(),
{
    if parts.len() == 0 {
        None
    } else if has_char(parts.last(), '.') {
        Some(parts.last())
    } else {
        last_dotted(parts.drop_last())
    }
}

/// A number component without its leading zeros.
pub open spec fn strip_zeros(c: Seq<char>) -> Seq<char>
    decreases c.len(),
{
    if c.len() > 0 && c[0] == '0' {
        strip_zeros(c.drop_first())
    } else {
        c
    }
}

/// A number component without its leading zeros, `0` when nothing is left.
pub open spec fn norm_component(c: Seq<char>) -> Seq<char> {
    if strip_zeros(c).len() == 0 {
        seq!['0']
    } else {
        strip_zeros(c)
    }
}

/// Components joined by dots.
pub open spec fn join_dots(cs: Seq<Seq<char>>) -> Seq<char>
    decreases cs.len(),
{
    if cs.len() == 0 {
        Seq::empty()
    } else if cs.len() == 1 {
        cs[0]
    } else {
        join_dots(cs.drop_last()).push('.') + cs.last()
    }
}

/// The semantic-version text of a Braiins OS version: its last
/// `-`-separated part that holds a dot, with each dotted component stripped
/// of leading zeros, and `.0` added when it has two components.
pub open spec fn bos_version_text(full: Seq<char>) -> Option<Seq<char>> {
    match last_dotted(split_on(full, '-')) {
        None => None,
        Some(v) => {
            let comps = split_on(v, '.');
            let normalized = join_dots(comps.map_values(|c: Seq<char>| norm_component(c)));
            Some(
                if comps.len() == 2 {
                    normalized + seq!['.', '0']
                } else {
                    normalized
                },
            )
        },
    }
}

/// Whether a text holds a character.
fn text_has_char(s: &str, c: char) -> (r: bool)
    ensures
        r == has_char(s@, c),
{
    let n = s.unicode_len();
    let mut i: usize = 0;
    while i < n
        invariant
            n == s@.len(),
            i <= n,
            forall|j: int| 0 <= j < i ==> s@[j] != c,
        decreases n - i,
    {
        if s.get_char(i) == c {
            return true;
        }
        i = i + 1;
    }
    false
}

/// A number component without its leading zeros, `0` when nothing is left.
fn normalize_component(c: &str) -> (r: String)
    ensures
        r@ == norm_component(c@),
{
    let n = c.unicode_len();
    let mut i: usize = 0;
    assert(c@.skip(0) =~= c@);
    while i < n && c.get_char(i) == '0'
        invariant
            n == c@.len(),
            i <= n,
            strip_zeros(c@) == strip_zeros(c@.skip(i as int)),
        decreases n - i,
    {
        assert(c@.skip(i as int).drop_first() =~= c@.skip(i + 1));
        i = i + 1;
    }
    if i == n {
        assert(c@.skip(n as int).len() == 0);
        let mut z = String::new();
        push_char(&mut z, '0');
        assert(z@ =~= seq!['0']);
        return z;
    }
    assert(strip_zeros(c@.skip(i as int)) == c@.skip(i as int));
    let rest = c.substring_char(i, n);
    assert(rest@ =~= c@.skip(i as int));
    rest.to_owned()
}

/// The semantic-version text of a Braiins OS version (see
/// [`bos_version_text`]).
pub fn bos_version_string(full: &str) -> (r: Option<String>)
    ensures
        crate::pools::opt_text(r) == bos_version_text(full@),
{
    let parts = split_text(full, '-');
    let ghost pv = parts@.map_values(|t: String| t@);
    let mut k: usize = parts.len();
    let mut found: Option<usize> = None;
    assert(pv.take(k as int) =~= pv);
    while k > 0 && found.is_none()
        invariant
            k <= parts@.len(),
            pv == parts@.map_values(|t: String| t@),
            pv == split_on(full@, '-'),
            found is None ==> last_dotted(pv) == last_dotted(pv.take(k as int)),
            found matches Some(i) ==> i < parts@.len() && last_dotted(pv) == Some(pv[i as int]),
        decreases k,
    {
        assert(pv.take(k as int).drop_last() =~= pv.take(k - 1));
        assert(pv.take(k as int).last() == parts@[k - 1]@);
        if text_has_char(parts[k - 1].as_str(), '.') {
            found = Some(k - 1);
        }
        k = k - 1;
    }
    let idx = match found {
        Some(i) => i,
        None => {
            assert(pv.take(0).len() == 0);
            return None;
        },
    };
    let v = parts[idx].as_str();
    assert(last_dotted(pv) == Some(v@));
    let comps = split_text(v, '.');
    let ghost cv = comps@.map_values(|t: String| t@);
    let ghost nv = cv.map_values(|c: Seq<char>| norm_component(c));
    let mut out = String::new();
    let mut i: usize = 0;
    assert(nv.take(0) =~= Seq::<Seq<char>>::empty());
    while i < comps.len()
        invariant
            i <= comps@.len(),
            cv == comps@.map_values(|t: String| t@),
            cv == split_on(v@, '.'),
            nv == cv.map_values(|c: Seq<char>| norm_component(c)),
            out@ == join_dots(nv.take(i as int)),
        decreases comps@.len() - i,
    {
        let ghost before = out@;
        let c = normalize_component(comps[i].as_str());
        if i > 0 {
            push_char(&mut out, '.');
        }
        push_text(&mut out, c.as_str());
        assert(nv.take(i + 1).drop_last() =~= nv.take(i as int));
        assert(nv.take(i + 1).last() == c@);
        if i == 0 {
            assert(out@ =~= join_dots(nv.take(1)));
        } else {
            assert(out@ =~= join_dots(nv.take(i + 1)));
        }
        i = i + 1;
    }
    assert(nv.take(comps@.len() as int) =~= nv);
    if comps.len() == 2 {
        push_char(&mut out, '.');
        push_char(&mut out, '0');
        assert(out@ =~= join_dots(nv) + seq!['.', '0']);
    }
    Some(out)
}

/// The semantic version of a Braiins OS version string: the version its
/// normalized text (see [`bos_version_text`]) reads as, when it reads as one.
pub fn parse_bos_version(full: &str) -> (r: Option<SemVersion>)
    ensures
        match r {
            Some(v) => match bos_version_text(full@) {
                Some(t) => semver_of(t) == Some(sem_view(v)),
                None => false,
            },
            None => match bos_version_text(full@) {
                Some(t) => semver_of(t) is None,
                None => true,
            },
        },
{
    match bos_version_string(full) {
        Some(t) => parse_semver(t.as_str()),
        None => None,
    }
}

/// Whether the tuner's mode puts the hash-rate target first: a `mode` of
/// `HASHRATE_TARGET` or 2.  Any other mode (`POWER_TARGET`, 1, or none) puts
/// the power target first; the other target is the fallback either way.
pub open spec fn prefers_hashrate_spec(value: JsonV) -> bool {
    opt_str(value.get("mode"@)) == Some("HASHRATE_TARGET"@) || opt_i64(value.get("mode"@)) == Some(2i64)
}

/// Whether the tuner's mode puts the hash-rate target first (see
/// [`prefers_hashrate_spec`]).
pub fn prefers_hashrate(value: &Json) -> (r: bool)
    ensures
        r == prefers_hashrate_spec(value@),
{
    let mode = value.get("mode");
    match str_in(mode) {
        Some(s) => if text_eq(s, "HASHRATE_TARGET") {
            return true;
        },
        None => {},
    }
    i64_in(mode) == Some(2i64)
}

/// The keys of a tagged pair of targets: `<prefix>_power` and
/// `<prefix>_hashrate`.
pub fn tagged_target_keys(prefix: &str) -> (r: (String, String))
    ensures
        r.0@ == prefix@ + "_power"@,
        r.1@ == prefix@ + "_hashrate"@,
{
    let mut power = String::new();
    push_text(&mut power, prefix);
    push_text(&mut power, "_power");
    let mut hashrate = String::new();
    push_text(&mut hashrate, prefix);
    push_text(&mut hashrate, "_hashrate");
    (power, hashrate)
}

} // verus!
