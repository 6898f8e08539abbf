//! LuxOS pool configuration.
use vstd::prelude::*;
use crate::json::{
    Json, JsonNumber, JsonV, opt_u64, opt_str, opt_bool, str_or_empty, array_or_empty, view_opt, u64_in, str_in,
    array_in, text_or_empty, pointer_spec, items_view, opt_array, lemma_items_view_len,
};
use crate::numbers::{f64_round_to_u32, round_to_u32};
use crate::pools::{PoolData, PoolDataV, PoolGroupData, PoolGroupDataV, pool_datas_view, pool_group_datas_view};
use crate::pools::{
    PoolConfig, PoolConfigV, PoolGroupConfig, PoolGroupConfigV, pool_groups_view, KeyedGroup,
    KeyedPool, keyed_groups_view, keyed_pools_view, add_pools, sort_by_gid, strip_gids, place_pools,
    sort_groups_by_gid, into_groups,
};

use crate::data::{ConfigField, MessageSeverity, MinerMessage, message_view, messages_view};
use crate::fields::{
    ApiKind, DataField, DataLocation, LocationV, at, location_p, location_v, locations_view, rpc,
    rpc_with, tagged_at,
};
use crate::text::{contains_spec, contains_text, decimal_text, push_text, text_eq, u64_to_text};
use vstd::relations::{sorted_by, total_ordering};

verus! {

/// The quota LuxOS reports: an integer that fits in `u32`; any other number
/// that is finite and not negative, rounded (saturating at `u32::MAX`);
/// 0 otherwise.
pub open spec fn lux_quota(o: Option<JsonV>) -> u32 {
    match o {
        Some(JsonV::Number(JsonNumber::PosInt(v))) => if v <= u32::MAX {
            v as u32
        } else {
            u32::MAX
        },
        Some(JsonV::Number(JsonNumber::Float(bits))) => match f64_round_to_u32(bits) {
            Some(q) => q,
            None => 0,
        },
        _ => 0,
    }
}

/// Read a LuxOS quota.
pub fn parse_quota(value: Option<&Json>) -> (r: u32)
    ensures
        r == lux_quota(view_opt(value)),
{
    match value {
        Some(Json::Number(JsonNumber::PosInt(v))) => if *v <= u32::MAX as u64 {
            *v as u32
        } else {
            u32::MAX
        },
        Some(Json::Number(JsonNumber::Float(bits))) => match round_to_u32(*bits) {
            Some(q) => q,
            None => 0,
        },
        _ => 0,
    }
}

/// A LuxOS group entry, when it carries a `GROUP` id.
pub open spec fn lux_group(g: JsonV) -> Option<(u64, PoolGroupConfigV)> {
    match opt_u64(g.get("GROUP"@)) {
        None => None,
        Some(gid) => Some(
            (
                gid,
                PoolGroupConfigV {
                    name: str_or_empty(g.get("Name"@)),
                    quota: lux_quota(g.get("Quota"@)),
                    pools: Seq::empty(),
                },
            ),
        ),
    }
}

/// A LuxOS group entry is read from its own fields: it counts only with a
/// `GROUP` id, which becomes the group's id; its name is its `Name`; its
/// quota is its `Quota` when that is an integer that fits in `u32`; it
/// starts with no pools.
pub proof fn lemma_lux_group_reads_entry(g: JsonV)
    ensures
        opt_u64(g.get("GROUP"@)) is None ==> lux_group(g) is None,
        opt_u64(g.get("GROUP"@)) is Some ==> lux_group(g) is Some,
        opt_u64(g.get("GROUP"@)) is Some ==> (lux_group(g)->0).0 == opt_u64(g.get("GROUP"@))->0,
        opt_u64(g.get("GROUP"@)) is Some && opt_str(g.get("Name"@)) is Some ==> (lux_group(g)->0).1.name
            == opt_str(g.get("Name"@))->0,
        opt_u64(g.get("GROUP"@)) is Some && opt_u64(g.get("Quota"@)) is Some && opt_u64(g.get("Quota"@))->0
            <= u32::MAX ==> (lux_group(g)->0).1.quota == opt_u64(g.get("Quota"@))->0,
        opt_u64(g.get("GROUP"@)) is Some ==> (lux_group(g)->0).1.pools.len() == 0,
{
}

/// The LuxOS group entries that carry a group id, in order.
pub open spec fn lux_groups(gs: Seq<JsonV>) -> Seq<(u64, PoolGroupConfigV)>
    decreases gs.len(),
{
    if gs.len() == 0 {
        Seq::empty()
    } else {
        let rest = lux_groups(gs.drop_last());
        match lux_group(gs.last()) {
            Some(x) => rest.push(x),
            None => rest,
        }
    }
}

/// The password of a LuxOS pool entry: `Password`, or `Pass` when there is no
/// `Password` at all.
pub open spec fn lux_password(p: JsonV) -> Seq<char> {
    match p.get("Password"@) {
        Some(v) => str_or_empty(Some(v)),
        None => str_or_empty(p.get("Pass"@)),
    }
}

/// A LuxOS pool entry with a non-empty `URL`: its group id (0 when missing),
/// the quota a group created for it gets, and the pool.
pub open spec fn lux_pool(p: JsonV) -> Option<(u64, u32, PoolConfigV)> {
    match opt_str(p.get("URL"@)) {
        Some(url) => if url.len() > 0 {
            Some(
                (
                    match opt_u64(p.get("GROUP"@)) {
                        Some(g) => g,
                        None => 0,
                    },
                    lux_quota(p.get("Quota"@)),
                    PoolConfigV {
                        url,
                        username: str_or_empty(p.get("User"@)),
                        password: lux_password(p),
                    },
                ),
            )
        } else {
            None
        },
        None => None,
    }
}

/// A LuxOS pool entry is read from its own fields: it counts only with a
/// non-empty `URL`, which becomes the pool's address; its group is its
/// `GROUP` (0 when missing); its user is its `User`; its password is its
/// `Password`, or its `Pass` when it has no `Password`.
pub proof fn lemma_lux_pool_reads_entry(p: JsonV)
    ensures
        !(opt_str(p.get("URL"@)) is Some && opt_str(p.get("URL"@))->0.len() > 0) ==> lux_pool(p) is None,
        opt_str(p.get("URL"@)) is Some && opt_str(p.get("URL"@))->0.len() > 0 ==> {
            &&& lux_pool(p) is Some
            &&& (lux_pool(p)->0).2.url == opt_str(p.get("URL"@))->0
            &&& (lux_pool(p)->0).0 == (if opt_u64(p.get("GROUP"@)) is Some {
                opt_u64(p.get("GROUP"@))->0
            } else {
                0
            })
            &&& (opt_str(p.get("User"@)) is Some ==> (lux_pool(p)->0).2.username == opt_str(p.get("User"@))->0)
            &&& (opt_str(p.get("Password"@)) is Some ==> (lux_pool(p)->0).2.password == opt_str(p.get("Password"@))->0)
            &&& (p.get("Password"@) is None && opt_str(p.get("Pass"@)) is Some ==> (lux_pool(p)->0).2.password
                == opt_str(p.get("Pass"@))->0)
        },
{
}

/// The LuxOS pool entries with a non-empty `URL`, in order.
pub open spec fn lux_pools(ps: Seq<JsonV>) -> Seq<(u64, u32, PoolConfigV)>
    decreases ps.len(),
{
    if ps.len() == 0 {
        Seq::empty()
    } else {
        let rest = lux_pools(ps.drop_last());
        match lux_pool(ps.last()) {
            Some(x) => rest.push(x),
            None => rest,
        }
    }
}

/// The first of two pointers that names something in `config`.
pub open spec fn first_pointer(config: JsonV, p1: Seq<char>, p2: Seq<char>) -> Option<JsonV> {
    match pointer_spec(config, p1) {
        Some(v) => Some(v),
        None => pointer_spec(config, p2),
    }
}

/// The pool groups a LuxOS `groups`/`pools` answer describes: the groups
/// (read from `/groups/0/GROUPS`, else `/groups`), each pool (from
/// `/pools/0/POOLS`, else `/pools`) placed into the first group with its id
/// (or a new unnamed group with the pool's quota), sorted by group id.
pub open spec fn lux_pool_config(config: JsonV) -> Seq<PoolGroupConfigV> {
    let gs = array_or_empty(first_pointer(config, "/groups/0/GROUPS"@, "/groups"@));
    let ps = array_or_empty(first_pointer(config, "/pools/0/POOLS"@, "/pools"@));
    strip_gids(sort_by_gid(add_pools(lux_groups(gs), lux_pools(ps))))
}

/// Read one group entry.
fn read_lux_group(g: &Json) -> (r: Option<KeyedGroup>)
    ensures
        match r {
            Some(x) => lux_group(g@) == Some(crate::pools::keyed_view(x)),
            None => lux_group(g@) is None,
        },
{
    let gid = match u64_in(g.get("GROUP")) {
        Some(v) => v,
        None => return None,
    };
    let name = text_or_empty(g.get("Name"));
    let quota = parse_quota(g.get("Quota"));
    let pools: Vec<PoolConfig> = Vec::new();
    assert(crate::pools::pool_configs_view(pools@) =~= Seq::<PoolConfigV>::empty());
    Some((gid, PoolGroupConfig { name, quota, pools }))
}

/// Read one pool entry.
fn read_lux_pool(p: &Json) -> (r: Option<KeyedPool>)
    ensures
        match r {
            Some(x) => lux_pool(p@) == Some(crate::pools::keyed_pool_view(x)),
            None => lux_pool(p@) is None,
        },
{
    let url = match str_in(p.get("URL")) {
        Some(u) => u,
        None => return None,
    };
    if url.unicode_len() == 0 {
        return None;
    }
    let gid = match u64_in(p.get("GROUP")) {
        Some(g) => g,
        None => 0,
    };
    let password = match p.get("Password") {
        Some(v) => text_or_empty(Some(v)),
        None => text_or_empty(p.get("Pass")),
    };
    let pool = PoolConfig {
        url: crate::pools::PoolURL::new(url.to_owned()),
        username: text_or_empty(p.get("User")),
        password,
    };
    Some((gid, parse_quota(p.get("Quota")), pool))
}

/// The elements of the array the first pointer that names something names.
fn first_array<'a>(config: &'a Json, p1: &str, p2: &str) -> (r: Option<&'a Vec<Json>>)
    ensures
        r matches Some(a) ==> crate::json::opt_array(first_pointer(config@, p1@, p2@)) == Some(items_view(a@))
            && items_view(a@).len() == a@.len()
            && forall|i: int| 0 <= i < a@.len() ==> #[trigger] items_view(a@)[i] == a@[i]@,
        r is None ==> crate::json::opt_array(first_pointer(config@, p1@, p2@)) is None,
{
    let found = match config.pointer(p1) {
        Some(v) => Some(v),
        None => config.pointer(p2),
    };
    array_in(found)
}

/// The pool groups a LuxOS `groups`/`pools` answer describes (see
/// [`lux_pool_config`]).
pub fn parse_pool_config(config: &Json) -> (r: Vec<PoolGroupConfig>)
    ensures
        pool_groups_view(r@) == lux_pool_config(config@),
{
    let empty: Vec<Json> = Vec::new();
    let gs: &Vec<Json> = match first_array(config, "/groups/0/GROUPS", "/groups") {
        Some(a) => a,
        None => &empty,
    };
    let ps: &Vec<Json> = match first_array(config, "/pools/0/POOLS", "/pools") {
        Some(a) => a,
        None => &empty,
    };
    let ghost gsv = array_or_empty(first_pointer(config@, "/groups/0/GROUPS"@, "/groups"@));
    let ghost psv = array_or_empty(first_pointer(config@, "/pools/0/POOLS"@, "/pools"@));
    assert(items_view(empty@) =~= Seq::<JsonV>::empty());
    proof {
        crate::json::lemma_items_view_len(gs@);
        crate::json::lemma_items_view_len(ps@);
    }
    assert(items_view(gs@) == gsv);
    assert(items_view(ps@) == psv);
    let mut groups: Vec<KeyedGroup> = Vec::new();
    let mut i: usize = 0;
    while i < gs.len()
        invariant
            i <= gs@.len(),
            gsv == items_view(gs@),
            gsv.len() == gs@.len(),
            forall|j: int| 0 <= j < gs@.len() ==> #[trigger] gsv[j] == gs@[j]@,
            keyed_groups_view(groups@) == lux_groups(gsv.take(i as int)),
        decreases gs@.len() - i,
    {
        let ghost before = groups@;
        assert(gsv.take(i + 1).drop_last() =~= gsv.take(i as int));
        match read_lux_group(&gs[i]) {
            Some(g) => {
                groups.push(g);
                assert(keyed_groups_view(groups@) =~= keyed_groups_view(before).push(crate::pools::keyed_view(g)));
            },
            None => {},
        }
        i = i + 1;
    }
    assert(gsv.take(gs@.len() as int) =~= gsv);
    let mut pools: Vec<KeyedPool> = Vec::new();
    let mut i: usize = 0;
    while i < ps.len()
        invariant
            i <= ps@.len(),
            psv == items_view(ps@),
            psv.len() == ps@.len(),
            forall|j: int| 0 <= j < ps@.len() ==> #[trigger] psv[j] == ps@[j]@,
            keyed_pools_view(pools@) == lux_pools(psv.take(i as int)),
        decreases ps@.len() - i,
    {
        let ghost before = pools@;
        assert(psv.take(i + 1).drop_last() =~= psv.take(i as int));
        match read_lux_pool(&ps[i]) {
            Some(p) => {
                pools.push(p);
                assert(keyed_pools_view(pools@) =~= keyed_pools_view(before).push(crate::pools::keyed_pool_view(p)));
            },
            None => {},
        }
        i = i + 1;
    }
    assert(psv.take(ps@.len() as int) =~= psv);
    let placed = place_pools(groups, pools);
    let sorted = sort_groups_by_gid(placed);
    into_groups(sorted)
}

/// Where LuxOS reports each field.
pub open spec fn luxminer_locations(field: DataField) -> Seq<LocationV> {
    match field {
        DataField::Mac => seq![location_v(ApiKind::Rpc, "config"@, "/CONFIG/0/MACAddr"@, None)],
        DataField::Fans => seq![location_v(ApiKind::Rpc, "fans"@, "/FANS"@, None)],
        DataField::ApiVersion => seq![location_v(ApiKind::Rpc, "version"@, "/VERSION/0/API"@, None)],
        DataField::FirmwareVersion => seq![location_v(ApiKind::Rpc, "version"@, "/VERSION/0/Miner"@, None)],
        DataField::Hostname => seq![location_v(ApiKind::Rpc, "config"@, "/CONFIG/0/Hostname"@, None)],
        DataField::Hashboards => seq![location_v(ApiKind::Rpc, "stats"@, "/STATS/1"@, Some("STATS"@)), location_v(ApiKind::Rpc, "temps"@, ""@, None), location_p(ApiKind::Rpc, "voltageget"@, "0"@, "/VOLTAGE"@, Some("VOLTAGE_0"@)), location_p(ApiKind::Rpc, "voltageget"@, "1"@, "/VOLTAGE"@, Some("VOLTAGE_1"@)), location_p(ApiKind::Rpc, "voltageget"@, "2"@, "/VOLTAGE"@, Some("VOLTAGE_2"@)), location_p(ApiKind::Rpc, "voltageget"@, "0"@, "/VOLTAGE"@, Some("VOLTAGE_PSU"@)), location_v(ApiKind::Rpc, "temps"@, ""@, Some("TEMPS"@)), location_v(ApiKind::Rpc, "devs"@, "/DEVS"@, Some("DEVS"@))],
        DataField::Chips => seq![location_p(ApiKind::Rpc, "healthchipget"@, "0"@, "/CHIPS"@, Some("CHIPS_0"@)), location_p(ApiKind::Rpc, "healthchipget"@, "1"@, "/CHIPS"@, Some("CHIPS_1"@)), location_p(ApiKind::Rpc, "healthchipget"@, "2"@, "/CHIPS"@, Some("CHIPS_2"@))],
        DataField::LightFlashing => seq![location_v(ApiKind::Rpc, "config"@, "/CONFIG/0/RedLed"@, None)],
        DataField::IsMining => seq![location_v(ApiKind::Rpc, "summary"@, "/SUMMARY/0/GHS 5s"@, None)],
        DataField::Uptime => seq![location_v(ApiKind::Rpc, "stats"@, "/STATS/1/Elapsed"@, None)],
        DataField::Pools => seq![location_v(ApiKind::Rpc, "pools"@, "/POOLS"@, None)],
        DataField::Wattage => seq![location_v(ApiKind::Rpc, "power"@, "/POWER/0/Watts"@, None)],
        DataField::TuningTarget => seq![location_v(ApiKind::Rpc, "config"@, "/CONFIG/0/Profile"@, Some("Profile"@)), location_v(ApiKind::Rpc, "profiles"@, "/PROFILES"@, Some("Profiles"@))],
        DataField::SerialNumber => seq![location_v(ApiKind::Rpc, "config"@, "/CONFIG/0/SerialNumber"@, None)],
        DataField::Messages => seq![location_v(ApiKind::Rpc, "events"@, "/EVENTS"@, None)],
        DataField::ControlBoardVersion => seq![location_v(ApiKind::Rpc, "config"@, "/CONFIG/0/ControlBoardType"@, None)],
        DataField::Hashrate => seq![location_v(ApiKind::Rpc, "stats"@, "/STATS/1/GHS 5s"@, None)],
        DataField::ExpectedHashrate => seq![location_v(ApiKind::Rpc, "devs"@, "/DEVS"@, None)],
        DataField::FluidTemperature => seq![location_v(ApiKind::Rpc, "temps"@, ""@, None)],
        _ => Seq::empty(),
    }
}


/// Where LuxOS reports a field (see [`luxminer_locations`]).
pub fn get_locations(field: DataField) -> (r: Vec<DataLocation>)
    ensures
        locations_view(r@) == luxminer_locations(field),
{
    match field {
        DataField::Mac => vec![at(rpc("config"), "/CONFIG/0/MACAddr")],
        DataField::Fans => vec![at(rpc("fans"), "/FANS")],
        DataField::ApiVersion => vec![at(rpc("version"), "/VERSION/0/API")],
        DataField::FirmwareVersion => vec![at(rpc("version"), "/VERSION/0/Miner")],
        DataField::Hostname => vec![at(rpc("config"), "/CONFIG/0/Hostname")],
        DataField::Hashboards => vec![tagged_at(rpc("stats"), "/STATS/1", "STATS"), at(rpc("temps"), ""), tagged_at(rpc_with("voltageget", "0"), "/VOLTAGE", "VOLTAGE_0"), tagged_at(rpc_with("voltageget", "1"), "/VOLTAGE", "VOLTAGE_1"), tagged_at(rpc_with("voltageget", "2"), "/VOLTAGE", "VOLTAGE_2"), tagged_at(rpc_with("voltageget", "0"), "/VOLTAGE", "VOLTAGE_PSU"), tagged_at(rpc("temps"), "", "TEMPS"), tagged_at(rpc("devs"), "/DEVS", "DEVS")],
        DataField::Chips => vec![tagged_at(rpc_with("healthchipget", "0"), "/CHIPS", "CHIPS_0"), tagged_at(rpc_with("healthchipget", "1"), "/CHIPS", "CHIPS_1"), tagged_at(rpc_with("healthchipget", "2"), "/CHIPS", "CHIPS_2")],
        DataField::LightFlashing => vec![at(rpc("config"), "/CONFIG/0/RedLed")],
        DataField::IsMining => vec![at(rpc("summary"), "/SUMMARY/0/GHS 5s")],
        DataField::Uptime => vec![at(rpc("stats"), "/STATS/1/Elapsed")],
        DataField::Pools => vec![at(rpc("pools"), "/POOLS")],
        DataField::Wattage => vec![at(rpc("power"), "/POWER/0/Watts")],
        DataField::TuningTarget => vec![tagged_at(rpc("config"), "/CONFIG/0/Profile", "Profile"), tagged_at(rpc("profiles"), "/PROFILES", "Profiles")],
        DataField::SerialNumber => vec![at(rpc("config"), "/CONFIG/0/SerialNumber")],
        DataField::Messages => vec![at(rpc("events"), "/EVENTS")],
        DataField::ControlBoardVersion => vec![at(rpc("config"), "/CONFIG/0/ControlBoardType")],
        DataField::Hashrate => vec![at(rpc("stats"), "/STATS/1/GHS 5s")],
        DataField::ExpectedHashrate => vec![at(rpc("devs"), "/DEVS")],
        DataField::FluidTemperature => vec![at(rpc("temps"), "")],
        _ => vec![],
    }
}

/// Where LuxOS keeps its pool configuration: the `GROUPS` of the `groups`
/// answer and the `POOLS` of the `pools` answer, under those tags.
pub open spec fn luxminer_config_locations(field: ConfigField) -> Seq<LocationV> {
    match field {
        ConfigField::Pools => seq![
            location_v(ApiKind::Rpc, "groups"@, "/GROUPS"@, Some("groups"@)),
            location_v(ApiKind::Rpc, "pools"@, "/POOLS"@, Some("pools"@)),
        ],
        _ => Seq::empty(),
    }
}

/// Where LuxOS keeps a configuration field (see
/// [`luxminer_config_locations`]).
pub fn get_configs_locations(field: ConfigField) -> (r: Vec<DataLocation>)
    ensures
        locations_view(r@) == luxminer_config_locations(field),
{
    match field {
        ConfigField::Pools => vec![tagged_at(rpc("groups"), "/GROUPS", "groups"), tagged_at(rpc("pools"), "/POOLS", "pools")],
        _ => vec![],
    }
}

/// The profile a tuning answer selects: the first entry of its `Profiles`
/// whose `Profile Name` is the text of its `Profile`.
pub open spec fn selected_profile(data: JsonV) -> Option<JsonV> {
    match (opt_str(data.get("Profile"@)), opt_array(data.get("Profiles"@))) {
        (Some(name), Some(ps)) => first_named(ps, name),
        _ => None,
    }
}

/// The first entry of a list whose `Profile Name` is `name`.
pub open spec fn first_named(ps: Seq<JsonV>, name: Seq<char>) -> Option<JsonV>
    decreases ps.len(),
{
    if ps.len() == 0 {
        None
    } else if opt_str(ps[0].get("Profile Name"@)) == Some(name) {
        Some(ps[0])
    } else {
        first_named(ps.drop_first(), name)
    }
}

/// The profile a tuning answer selects (see [`selected_profile`]); its
/// `Watts` are the power target.
pub fn current_profile(data: &Json) -> (r: Option<&Json>)
    ensures
        match r {
            Some(p) => selected_profile(data@) == Some(p@),
            None => selected_profile(data@) is None,
        },
{
    let name = match str_in(data.get("Profile")) {
        Some(n) => n,
        None => return None,
    };
    let ps = match array_in(data.get("Profiles")) {
        Some(ps) => ps,
        None => return None,
    };
    let ghost pv = items_view(ps@);
    proof {
        lemma_items_view_len(ps@);
    }
    let mut i: usize = 0;
    assert(pv.skip(0) =~= pv);
    while i < ps.len()
        invariant
            i <= ps@.len(),
            pv == items_view(ps@),
            pv.len() == ps@.len(),
            forall|j: int| 0 <= j < ps@.len() ==> #[trigger] pv[j] == ps@[j]@,
            selected_profile(data@) == first_named(pv.skip(i as int), name@),
        decreases ps@.len() - i,
    {
        assert(pv.skip(i as int)[0] == pv[i as int]);
        assert(pv.skip(i as int).drop_first() =~= pv.skip(i + 1));
        let p = &ps[i];
        match str_in(p.get("Profile Name")) {
            Some(n) => if text_eq(n, name) {
                return Some(p);
            },
            None => {},
        }
        i = i + 1;
    }
    assert(pv.skip(i as int).len() == 0);
    None
}

/// The mode of the red LED that shows the fault light: `blink`, or `auto`
/// to switch it off.
pub fn fault_led_mode(fault: bool) -> (r: &'static str)
    ensures
        r@ == if fault {
            "blink"@
        } else {
            "auto"@
        },
{
    if fault {
        "blink"
    } else {
        "auto"
    }
}

/// Whether the miner mines: its hash rate is a number above zero.
pub fn parse_is_mining(hashrate: Option<&Json>) -> (r: bool)
    ensures
        r == match view_opt(hashrate) {
            Some(h) => crate::numbers::json_gt_zero(h) == Some(true),
            None => false,
        },
{
    match hashrate {
        Some(Json::Number(n)) => crate::numbers::number_is_positive(n),
        _ => false,
    }
}

/// The serial number: a non-empty text.
pub fn parse_serial_number(serial: Option<&Json>) -> (r: Option<String>)
    ensures
        crate::pools::opt_text(r) == match opt_str(view_opt(serial)) {
            Some(s) => if s.len() > 0 {
                Some(s)
            } else {
                None
            },
            None => None,
        },
{
    match str_in(serial) {
        Some(s) => if s.unicode_len() > 0 {
            Some(s.to_owned())
        } else {
            None
        },
        None => None,
    }
}

/// Whether a text ends with a suffix.
pub open spec fn ends_with(s: Seq<char>, suffix: Seq<char>) -> bool {
    s.len() >= suffix.len() && s.subrange(s.len() - suffix.len(), s.len() as int) == suffix
}

/// Whether a text ends with a suffix.
fn text_ends_with(s: &str, suffix: &str) -> (r: bool)
    ensures
        r == ends_with(s@, suffix@),
{
    let n = s.unicode_len();
    let m = suffix.unicode_len();
    if n < m {
        return false;
    }
    let tail = s.substring_char(n - m, n);
    text_eq(tail, suffix)
}

/// The event codes LuxOS raises in normal operation.
pub open spec fn routine_code(code: Seq<char>) -> bool {
    code == "MINER_TUNED"@ || code == "MINER_TUNING"@ || code == "IDLE"@ || code == "SLEEP"@
        || code == "REBOOT_USER"@ || code == "SHUTDOWN_USER"@ || code == "REBOOT_SYSINIT"@
        || code == "HASH_ON_DISCONNECT"@
}

/// How serious an event is: failures, panics and shutdowns not asked for by
/// the user are errors, routine events information, anything else a
/// warning.
pub open spec fn event_severity(code: Seq<char>) -> MessageSeverity {
    if contains_spec(code, "FAILURE"@) || contains_spec(code, "PANIC"@) || (contains_spec(code, "SHUTDOWN"@)
        && !ends_with(code, "USER"@)) {
        MessageSeverity::Error
    } else if routine_code(code) {
        MessageSeverity::Info
    } else {
        MessageSeverity::Warning
    }
}

/// The text of an event: its description (or its code), prefixed by
/// `[target id] ` or `[target] ` where it names a target.
pub open spec fn event_text(event: JsonV, code: Seq<char>) -> Seq<char> {
    let description = match opt_str(event.get("Description"@)) {
        Some(d) => d,
        None => code,
    };
    match (opt_str(event.get("Target"@)), opt_u64(event.get("ID"@))) {
        (Some(t), Some(id)) => "["@ + t + " "@ + decimal_text(id as nat) + "] "@ + description,
        (Some(t), None) => "["@ + t + "] "@ + description,
        _ => description,
    }
}

/// The message of an event with a `Code`.
pub open spec fn event_message(event: JsonV) -> Option<(u32, u64, Seq<char>, MessageSeverity)> {
    match opt_str(event.get("Code"@)) {
        Some(code) => Some((0u32, 0u64, event_text(event, code), event_severity(code))),
        None => None,
    }
}

/// The messages of a list of events, in order.
pub open spec fn event_messages(items: Seq<JsonV>) -> Seq<(u32, u64, Seq<char>, MessageSeverity)>
    decreases items.len(),
{
    if items.len() == 0 {
        Seq::empty()
    } else {
        let rest = event_messages(items.drop_last());
        match event_message(items.last()) {
            Some(m) => rest.push(m),
            None => rest,
        }
    }
}

/// Read the message of one event.
fn read_event(event: &Json) -> (r: Option<MinerMessage>)
    ensures
        match r {
            Some(m) => event_message(event@) == Some(message_view(m)),
            None => event_message(event@) is None,
        },
{
    let code = match str_in(event.get("Code")) {
        Some(c) => c,
        None => return None,
    };
    let description = match str_in(event.get("Description")) {
        Some(d) => d,
        None => code,
    };
    proof {
        reveal_strlit("[");
        reveal_strlit(" ");
        reveal_strlit("] ");
    }
    let text = match (str_in(event.get("Target")), u64_in(event.get("ID"))) {
        (Some(t), Some(id)) => {
            let mut s = String::new();
            push_text(&mut s, "[");
            push_text(&mut s, t);
            push_text(&mut s, " ");
            let d = u64_to_text(id);
            push_text(&mut s, d.as_str());
            push_text(&mut s, "] ");
            push_text(&mut s, description);
            assert(s@ =~= "["@ + t@ + " "@ + decimal_text(id as nat) + "] "@ + description@);
            s
        },
        (Some(t), None) => {
            let mut s = String::new();
            push_text(&mut s, "[");
            push_text(&mut s, t);
            push_text(&mut s, "] ");
            push_text(&mut s, description);
            assert(s@ =~= "["@ + t@ + "] "@ + description@);
            s
        },
        _ => description.to_owned(),
    };
    let severity = if contains_text(code, "FAILURE") || contains_text(code, "PANIC") || (contains_text(
        code,
        "SHUTDOWN",
    ) && !text_ends_with(code, "USER")) {
        MessageSeverity::Error
    } else if text_eq(code, "MINER_TUNED") || text_eq(code, "MINER_TUNING") || text_eq(code, "IDLE")
        || text_eq(code, "SLEEP") || text_eq(code, "REBOOT_USER") || text_eq(code, "SHUTDOWN_USER")
        || text_eq(code, "REBOOT_SYSINIT") || text_eq(code, "HASH_ON_DISCONNECT") {
        MessageSeverity::Info
    } else {
        MessageSeverity::Warning
    };
    Some(MinerMessage::new(0, 0, text, severity))
}

/// The messages of the events list (see [`event_message`]); none when it is
/// missing or no array.
pub fn parse_messages(events: Option<&Json>) -> (r: Vec<MinerMessage>)
    ensures
        messages_view(r@) == match crate::json::opt_array(view_opt(events)) {
            Some(items) => event_messages(items),
            None => Seq::empty(),
        },
{
    let mut out: Vec<MinerMessage> = Vec::new();
    let items = match array_in(events) {
        Some(items) => items,
        None => {
            assert(messages_view(out@) =~= Seq::<(u32, u64, Seq<char>, MessageSeverity)>::empty());
            return out;
        },
    };
    let ghost iv = items_view(items@);
    let mut i: usize = 0;
    assert(iv.take(0) =~= Seq::<JsonV>::empty());
    assert(messages_view(out@) =~= Seq::<(u32, u64, Seq<char>, MessageSeverity)>::empty());
    while i < items.len()
        invariant
            i <= items@.len(),
            iv == items_view(items@),
            iv.len() == items@.len(),
            forall|j: int| 0 <= j < items@.len() ==> #[trigger] iv[j] == items@[j]@,
            messages_view(out@) == event_messages(iv.take(i as int)),
        decreases items@.len() - i,
    {
        let ghost before = out@;
        assert(iv.take(i + 1).drop_last() =~= iv.take(i as int));
        match read_event(&items[i]) {
            Some(m) => {
                out.push(m);
                assert(messages_view(out@) =~= messages_view(before).push(message_view(m)));
            },
            None => {},
        }
        i = i + 1;
    }
    assert(iv.take(items@.len() as int) =~= iv);
    out
}

/// Descending order of group ids.
pub open spec fn desc(a: u32, b: u32) -> bool {
    a >= b
}

/// The ids of the current groups that carry one, cut to 32 bits, in order.
pub open spec fn current_group_ids(groups: Seq<JsonV>) -> Seq<u32>
    decreases groups.len(),
{
    if groups.len() == 0 {
        Seq::empty()
    } else {
        let rest = current_group_ids(groups.drop_last());
        match opt_u64(groups.last().get("GROUP"@)) {
            Some(id) => rest.push(id as u32),
            None => rest,
        }
    }
}

/// A step of replacing the pool configuration.
#[derive(Debug)]
pub enum LuxPoolAction {
    /// Remove the group with this id.
    RemoveGroup(u32),
    /// Add a group with a name and a quota.
    AddGroup { name: String, quota: u32 },
    /// Add a pool to the group at the given place of the new configuration.
    AddPool { url: String, user: String, pass: String, group: String },
}

/// The value of a step.
pub enum LuxPoolActionV {
    RemoveGroup(u32),
    AddGroup(Seq<char>, u32),
    AddPool(Seq<char>, Seq<char>, Seq<char>, Seq<char>),
}

/// The value of a step.
pub open spec fn action_view(a: LuxPoolAction) -> LuxPoolActionV {
    match a {
        LuxPoolAction::RemoveGroup(id) => LuxPoolActionV::RemoveGroup(id),
        LuxPoolAction::AddGroup { name, quota } => LuxPoolActionV::AddGroup(name@, quota),
        LuxPoolAction::AddPool { url, user, pass, group } => LuxPoolActionV::AddPool(url@, user@, pass@, group@),
    }
}

/// The values of a list of steps.
pub open spec fn actions_view(s: Seq<LuxPoolAction>) -> Seq<LuxPoolActionV> {
    s.map_values(|a: LuxPoolAction| action_view(a))
}

/// The steps that add the pools of the groups from group `start` on, group
/// after group, each pool naming its group's place.
pub open spec fn pool_steps(groups: Seq<PoolGroupConfigV>) -> Seq<LuxPoolActionV>
    decreases groups.len(),
{
    if groups.len() == 0 {
        Seq::empty()
    } else {
        let idx = groups.len() - 1;
        pool_steps(groups.drop_last()) + groups.last().pools.map_values(
            |p: PoolConfigV| LuxPoolActionV::AddPool(p.url, p.username, p.password, decimal_text(idx as nat)),
        )
    }
}

/// The steps that replace the pool configuration: remove every current
/// group, highest id first; add the new groups in order; add their pools.
pub open spec fn replace_steps(current: Seq<JsonV>, groups: Seq<PoolGroupConfigV>) -> Seq<LuxPoolActionV> {
    current_group_ids(current).sort_by(|a: u32, b: u32| desc(a, b)).map_values(
        |id: u32| LuxPoolActionV::RemoveGroup(id),
    ) + groups.map_values(|g: PoolGroupConfigV| LuxPoolActionV::AddGroup(g.name, g.quota)) + pool_steps(groups)
}

proof fn lemma_desc_total()
    ensures
        total_ordering(|a: u32, b: u32| desc(a, b)),
{
}

/// Sort ids, highest first.
fn sort_desc(ids: Vec<u32>) -> (r: Vec<u32>)
    ensures
        r@ == ids@.sort_by(|a: u32, b: u32| desc(a, b)),
{
    let ghost leq = |a: u32, b: u32| desc(a, b);
    let mut out: Vec<u32> = Vec::new();
    let mut i: usize = 0;
    assert(ids@.take(0) =~= Seq::<u32>::empty());
    while i < ids.len()
        invariant
            i <= ids@.len(),
            sorted_by(out@, leq),
            out@.to_multiset() == ids@.take(i as int).to_multiset(),
            leq == (|a: u32, b: u32| desc(a, b)),
        decreases ids@.len() - i,
    {
        let x = ids[i];
        let mut j: usize = 0;
        while j < out.len() && out[j] >= x
            invariant
                j <= out@.len(),
                forall|k: int| 0 <= k < j ==> out@[k] >= x,
            decreases out@.len() - j,
        {
            j = j + 1;
        }
        let ghost before = out@;
        out.insert(j, x);
        proof {
            vstd::seq_lib::to_multiset_insert(before, j as int, x);
            vstd::seq_lib::to_multiset_build(ids@.take(i as int), x);
            assert(ids@.take(i + 1) =~= ids@.take(i as int).push(x));
            assert forall|a: int, b: int| 0 <= a < b < out@.len() implies #[trigger] leq(out@[a], out@[b]) by {
                if b < j {
                    assert(out@[a] == before[a] && out@[b] == before[b]);
                } else if b == j {
                    assert(out@[a] == before[a]);
                } else if a == j {
                    assert(out@[b] == before[b - 1]);
                    if j < before.len() {
                        assert(before[j as int] < x);
                        if b - 1 > j {
                            assert(leq(before[j as int], before[b - 1]));
                        }
                    }
                } else if a < j {
                    assert(out@[a] == before[a] && out@[b] == before[b - 1]);
                } else {
                    assert(out@[a] == before[a - 1] && out@[b] == before[b - 1]);
                }
            }
        }
        i = i + 1;
    }
    assert(ids@.take(ids@.len() as int) =~= ids@);
    proof {
        lemma_desc_total();
        ids@.lemma_sort_by_ensures(leq);
        vstd::seq_lib::lemma_sorted_unique(out@, ids@.sort_by(leq), leq);
    }
    out
}

/// The steps that replace the pool configuration (see [`replace_steps`]),
/// from the current groups answer (`/groups/0/GROUPS`, else `/groups`).
pub fn replace_pools_steps(current: Option<&Json>, config: &Vec<PoolGroupConfig>) -> (r: Vec<LuxPoolAction>)
    ensures
        actions_view(r@) == replace_steps(
            match current {
                Some(c) => array_or_empty(first_pointer(c@, "/groups/0/GROUPS"@, "/groups"@)),
                None => Seq::empty(),
            },
            pool_groups_view(config@),
        ),
{
    let empty: Vec<Json> = Vec::new();
    let groups: &Vec<Json> = match current {
        Some(c) => match first_array(c, "/groups/0/GROUPS", "/groups") {
            Some(a) => a,
            None => &empty,
        },
        None => &empty,
    };
    let ghost gv = items_view(groups@);
    proof {
        crate::json::lemma_items_view_len(groups@);
        crate::json::lemma_items_view_len(empty@);
    }
    let mut ids: Vec<u32> = Vec::new();
    let mut i: usize = 0;
    assert(gv.take(0) =~= Seq::<JsonV>::empty());
    while i < groups.len()
        invariant
            i <= groups@.len(),
            gv == items_view(groups@),
            gv.len() == groups@.len(),
            forall|j: int| 0 <= j < groups@.len() ==> #[trigger] gv[j] == groups@[j]@,
            ids@ == current_group_ids(gv.take(i as int)),
        decreases groups@.len() - i,
    {
        assert(gv.take(i + 1).drop_last() =~= gv.take(i as int));
        match u64_in(groups[i].get("GROUP")) {
            Some(id) => ids.push(id as u32),
            None => {},
        }
        i = i + 1;
    }
    assert(gv.take(groups@.len() as int) =~= gv);
    let sorted = sort_desc(ids);
    let ghost cv = pool_groups_view(config@);
    let mut out: Vec<LuxPoolAction> = Vec::new();
    let mut k: usize = 0;
    while k < sorted.len()
        invariant
            k <= sorted@.len(),
            actions_view(out@) == sorted@.take(k as int).map_values(|id: u32| LuxPoolActionV::RemoveGroup(id)),
        decreases sorted@.len() - k,
    {
        let ghost before = out@;
        out.push(LuxPoolAction::RemoveGroup(sorted[k]));
        assert(actions_view(out@) =~= actions_view(before).push(LuxPoolActionV::RemoveGroup(sorted@[k as int])));
        assert(sorted@.take(k + 1) =~= sorted@.take(k as int).push(sorted@[k as int]));
        assert(actions_view(out@) =~= sorted@.take(k + 1).map_values(|id: u32| LuxPoolActionV::RemoveGroup(id)));
        k = k + 1;
    }
    assert(sorted@.take(sorted@.len() as int) =~= sorted@);
    let ghost removals = actions_view(out@);
    let mut g: usize = 0;
    assert(cv.take(0).map_values(|g: PoolGroupConfigV| LuxPoolActionV::AddGroup(g.name, g.quota)) =~= Seq::<LuxPoolActionV>::empty());
    assert(actions_view(out@) =~= removals + cv.take(0).map_values(|g: PoolGroupConfigV| LuxPoolActionV::AddGroup(g.name, g.quota)));
    while g < config.len()
        invariant
            g <= config@.len(),
            cv == pool_groups_view(config@),
            actions_view(out@) == removals + cv.take(g as int).map_values(
                |g: PoolGroupConfigV| LuxPoolActionV::AddGroup(g.name, g.quota),
            ),
        decreases config@.len() - g,
    {
        let ghost before = out@;
        let name = config[g].name.clone();
        out.push(LuxPoolAction::AddGroup { name, quota: config[g].quota });
        assert(actions_view(out@) =~= actions_view(before).push(LuxPoolActionV::AddGroup(cv[g as int].name, cv[g as int].quota)));
        assert(cv.take(g + 1) =~= cv.take(g as int).push(cv[g as int]));
        assert(actions_view(out@) =~= removals + cv.take(g + 1).map_values(
            |g: PoolGroupConfigV| LuxPoolActionV::AddGroup(g.name, g.quota),
        ));
        g = g + 1;
    }
    assert(cv.take(config@.len() as int) =~= cv);
    let ghost added = actions_view(out@);
    let mut g: usize = 0;
    assert(pool_steps(cv.take(0)) =~= Seq::<LuxPoolActionV>::empty());
    assert(actions_view(out@) =~= added + pool_steps(cv.take(0)));
    while g < config.len()
        invariant
            g <= config@.len(),
            cv == pool_groups_view(config@),
            actions_view(out@) == added + pool_steps(cv.take(g as int)),
        decreases config@.len() - g,
    {
        let group = &config[g];
        let label = u64_to_text(g as u64);
        let ghost start = out@;
        let ghost pv = group@.pools;
        let mut p: usize = 0;
        assert(actions_view(out@) =~= actions_view(start) + pv.take(0).map_values(
            |q: PoolConfigV| LuxPoolActionV::AddPool(q.url, q.username, q.password, decimal_text(g as nat)),
        ));
        while p < group.pools.len()
            invariant
                p <= group.pools@.len(),
                pv == crate::pools::pool_configs_view(group.pools@),
                label@ == decimal_text(g as nat),
                actions_view(out@) == actions_view(start) + pv.take(p as int).map_values(
                    |q: PoolConfigV| LuxPoolActionV::AddPool(q.url, q.username, q.password, decimal_text(g as nat)),
                ),
            decreases group.pools@.len() - p,
        {
            let pool = &group.pools[p];
            let ghost before = out@;
            out.push(
                LuxPoolAction::AddPool {
                    url: pool.url.to_text(),
                    user: pool.username.clone(),
                    pass: pool.password.clone(),
                    group: label.clone(),
                },
            );
            assert(actions_view(out@) =~= actions_view(before).push(
                LuxPoolActionV::AddPool(pv[p as int].url, pv[p as int].username, pv[p as int].password, decimal_text(g as nat)),
            ));
            assert(pv.take(p + 1) =~= pv.take(p as int).push(pv[p as int]));
            assert(actions_view(out@) =~= actions_view(start) + pv.take(p + 1).map_values(
                |q: PoolConfigV| LuxPoolActionV::AddPool(q.url, q.username, q.password, decimal_text(g as nat)),
            ));
            p = p + 1;
        }
        assert(pv.take(group.pools@.len() as int) =~= pv);
        assert(cv.take(g + 1).drop_last() =~= cv.take(g as int));
        assert(cv.take(g + 1).last() == group@);
        assert(actions_view(out@) =~= added + pool_steps(cv.take(g + 1)));
        g = g + 1;
    }
    assert(cv.take(config@.len() as int) =~= cv);
    out
}

/// The pool a LuxOS `pools` entry describes: its `POOL` number (cut to 16
/// bits) as position, alive when its `Status` is `Alive`.
pub open spec fn lux_pool_data(p: JsonV) -> PoolDataV {
    PoolDataV {
        position: match opt_u64(p.get("POOL"@)) {
            Some(n) => Some(n as u16),
            None => None,
        },
        url: opt_str(p.get("URL"@)),
        accepted_shares: opt_u64(p.get("Accepted"@)),
        rejected_shares: opt_u64(p.get("Rejected"@)),
        active: opt_bool(p.get("Stratum Active"@)),
        alive: match opt_str(p.get("Status"@)) {
            Some(s) => Some(s == "Alive"@),
            None => None,
        },
        user: opt_str(p.get("User"@)),
    }
}

/// A reported pool with its group id (0 when missing) and the quota a group
/// created for it gets.
pub open spec fn lux_keyed_data(p: JsonV) -> (u64, u32, PoolDataV) {
    (
        match opt_u64(p.get("GROUP"@)) {
            Some(g) => g,
            None => 0,
        },
        lux_quota(p.get("Quota"@)),
        lux_pool_data(p),
    )
}

/// The index of the first reported group with id `gid`, or -1.
pub open spec fn data_gid_index(acc: Seq<(u64, PoolGroupDataV)>, gid: u64) -> int
    decreases acc.len(),
{
    if acc.len() == 0 {
        -1
    } else if acc[0].0 == gid {
        0
    } else {
        let r = data_gid_index(acc.drop_first(), gid);
        if r < 0 {
            -1
        } else {
            r + 1
        }
    }
}

/// Place one reported pool: into the first group with its id, or into a
/// new unnamed group with that id and the pool's quota at the end.
pub open spec fn add_data_pool(acc: Seq<(u64, PoolGroupDataV)>, p: (u64, u32, PoolDataV)) -> Seq<
    (u64, PoolGroupDataV),
> {
    let i = data_gid_index(acc, p.0);
    if i >= 0 {
        acc.update(
            i,
            (p.0, PoolGroupDataV { name: acc[i].1.name, quota: acc[i].1.quota, pools: acc[i].1.pools.push(p.2) }),
        )
    } else {
        acc.push((p.0, PoolGroupDataV { name: Seq::empty(), quota: p.1, pools: seq![p.2] }))
    }
}

/// Place the reported pools one after the other.
pub open spec fn add_data_pools(ps: Seq<(u64, u32, PoolDataV)>) -> Seq<(u64, PoolGroupDataV)>
    decreases ps.len(),
{
    if ps.len() == 0 {
        Seq::empty()
    } else {
        add_data_pool(add_data_pools(ps.drop_last()), ps.last())
    }
}

/// Insert a reported group into a list sorted by id, after the groups with
/// an id not greater than its own.
pub open spec fn insert_data_by_gid(s: Seq<(u64, PoolGroupDataV)>, x: (u64, PoolGroupDataV)) -> Seq<
    (u64, PoolGroupDataV),
>
    decreases s.len(),
{
    if s.len() == 0 {
        seq![x]
    } else if s.last().0 <= x.0 {
        s.push(x)
    } else {
        insert_data_by_gid(s.drop_last(), x).push(s.last())
    }
}

/// The reported groups sorted by id, stably.
pub open spec fn sort_data_by_gid(s: Seq<(u64, PoolGroupDataV)>) -> Seq<(u64, PoolGroupDataV)>
    decreases s.len(),
{
    if s.len() == 0 {
        s
    } else {
        insert_data_by_gid(sort_data_by_gid(s.drop_last()), s.last())
    }
}

/// The reported pool groups of a LuxOS `pools` answer: each pool placed
/// into the group of its id (see [`add_data_pool`]), groups sorted by id.
pub open spec fn lux_reported_groups(pools: Option<JsonV>) -> Seq<PoolGroupDataV> {
    let ps = match crate::json::opt_array(pools) {
        Some(ps) => ps,
        None => Seq::empty(),
    };
    sort_data_by_gid(add_data_pools(ps.map_values(|p: JsonV| lux_keyed_data(p)))).map_values(
        |g: (u64, PoolGroupDataV)| g.1,
    )
}

proof fn lemma_data_gid_index(acc: Seq<(u64, PoolGroupDataV)>, gid: u64)
    ensures
        -1 <= data_gid_index(acc, gid) < acc.len(),
        data_gid_index(acc, gid) >= 0 ==> acc[data_gid_index(acc, gid)].0 == gid,
        forall|j: int| 0 <= j < acc.len() && (data_gid_index(acc, gid) < 0 || j < data_gid_index(acc, gid)) ==> #[trigger] acc[j].0 != gid,
    decreases acc.len(),
{
    if acc.len() > 0 && acc[0].0 != gid {
        lemma_data_gid_index(acc.drop_first(), gid);
        assert forall|j: int| 0 <= j < acc.len() && (data_gid_index(acc, gid) < 0 || j < data_gid_index(acc, gid)) implies #[trigger] acc[j].0 != gid by {
            if j > 0 {
                assert(acc[j] == acc.drop_first()[j - 1]);
            }
        }
    }
}

proof fn lemma_insert_data_by_gid(s: Seq<(u64, PoolGroupDataV)>, x: (u64, PoolGroupDataV), j: int)
    requires
        0 <= j <= s.len(),
        forall|k: int| j <= k < s.len() ==> #[trigger] s[k].0 > x.0,
        j > 0 ==> s[j - 1].0 <= x.0,
    ensures
        insert_data_by_gid(s, x) == s.take(j).push(x) + s.skip(j),
    decreases s.len(),
{
    if s.len() == 0 {
        assert(s.take(j).push(x) + s.skip(j) =~= seq![x]);
    } else if s.last().0 <= x.0 {
        assert(j == s.len());
        assert(s.take(j).push(x) + s.skip(j) =~= s.push(x));
    } else {
        lemma_insert_data_by_gid(s.drop_last(), x, j);
        assert(s.take(j).push(x) + s.skip(j) =~= (s.drop_last().take(j).push(x) + s.drop_last().skip(j)).push(s.last()));
    }
}

/// The value of a keyed reported group.
pub open spec fn keyed_data_view(g: (u64, PoolGroupData)) -> (u64, PoolGroupDataV) {
    (g.0, g.1@)
}

/// The values of a list of keyed reported groups.
pub open spec fn keyed_datas_view(gs: Seq<(u64, PoolGroupData)>) -> Seq<(u64, PoolGroupDataV)> {
    gs.map_values(|g: (u64, PoolGroupData)| keyed_data_view(g))
}

/// Read one entry of a LuxOS `pools` answer.
fn read_lux_pool_data(p: &Json) -> (r: (u64, u32, PoolData))
    ensures
        (r.0, r.1, r.2@) == lux_keyed_data(p@),
{
    let gid = match u64_in(p.get("GROUP")) {
        Some(g) => g,
        None => 0,
    };
    let position = match u64_in(p.get("POOL")) {
        Some(n) => Some(n as u16),
        None => None,
    };
    let alive = match str_in(p.get("Status")) {
        Some(s) => Some(text_eq(s, "Alive")),
        None => None,
    };
    let data = PoolData {
        position,
        url: match str_in(p.get("URL")) {
            Some(u) => Some(crate::pools::PoolURL::new(u.to_owned())),
            None => None,
        },
        accepted_shares: u64_in(p.get("Accepted")),
        rejected_shares: u64_in(p.get("Rejected")),
        active: crate::json::bool_in(p.get("Stratum Active")),
        alive,
        user: match str_in(p.get("User")) {
            Some(u) => Some(u.to_owned()),
            None => None,
        },
    };
    (gid, parse_quota(p.get("Quota")), data)
}

/// The reported pool groups of a LuxOS `pools` answer (see
/// [`lux_reported_groups`]).
pub fn parse_pools(pools: Option<&Json>) -> (r: Vec<PoolGroupData>)
    ensures
        pool_group_datas_view(r@) == lux_reported_groups(view_opt(pools)),
{
    let empty: Vec<Json> = Vec::new();
    let items: &Vec<Json> = match array_in(pools) {
        Some(a) => a,
        None => &empty,
    };
    let ghost iv = items_view(items@);
    proof {
        crate::json::lemma_items_view_len(items@);
        crate::json::lemma_items_view_len(empty@);
    }
    let ghost kv = iv.map_values(|p: JsonV| lux_keyed_data(p));
    let mut acc: Vec<(u64, PoolGroupData)> = Vec::new();
    let mut i: usize = 0;
    assert(kv.take(0) =~= Seq::<(u64, u32, PoolDataV)>::empty());
    assert(keyed_datas_view(acc@) =~= Seq::<(u64, PoolGroupDataV)>::empty());
    while i < items.len()
        invariant
            i <= items@.len(),
            iv == items_view(items@),
            iv.len() == items@.len(),
            forall|j: int| 0 <= j < items@.len() ==> #[trigger] iv[j] == items@[j]@,
            kv == iv.map_values(|p: JsonV| lux_keyed_data(p)),
            keyed_datas_view(acc@) == add_data_pools(kv.take(i as int)),
        decreases items@.len() - i,
    {
        let (gid, quota, data) = read_lux_pool_data(&items[i]);
        let ghost dv = data@;
        let ghost before = keyed_datas_view(acc@);
        proof {
            lemma_data_gid_index(before, gid);
        }
        let mut found: Option<usize> = None;
        let mut j: usize = 0;
        while j < acc.len() && found.is_none()
            invariant
                j <= acc@.len(),
                before == keyed_datas_view(acc@),
                found is None ==> forall|k: int| 0 <= k < j ==> #[trigger] before[k].0 != gid,
                found matches Some(f) ==> f == data_gid_index(before, gid),
                -1 <= data_gid_index(before, gid) < before.len(),
                data_gid_index(before, gid) >= 0 ==> before[data_gid_index(before, gid)].0 == gid,
                forall|k: int| 0 <= k < before.len() && (data_gid_index(before, gid) < 0 || k < data_gid_index(before, gid)) ==> #[trigger] before[k].0 != gid,
            decreases acc@.len() - j,
        {
            assert(before[j as int].0 == acc@[j as int].0);
            if acc[j].0 == gid {
                found = Some(j);
            }
            j = j + 1;
        }
        match found {
            Some(f) => {
                let mut g = acc.remove(f);
                let ghost old_pools = pool_datas_view(g.1.pools@);
                g.1.pools.push(data);
                assert(pool_datas_view(g.1.pools@) =~= old_pools.push(dv));
                acc.insert(f, g);
                assert(keyed_datas_view(acc@) =~= add_data_pool(before, (gid, quota, dv)));
            },
            None => {
                assert(data_gid_index(before, gid) == -1);
                let mut ps: Vec<PoolData> = Vec::new();
                ps.push(data);
                assert(pool_datas_view(ps@) =~= seq![dv]);
                acc.push((gid, PoolGroupData { name: String::new(), quota, pools: ps }));
                assert(keyed_datas_view(acc@) =~= add_data_pool(before, (gid, quota, dv)));
            },
        }
        assert(kv.take(i + 1).drop_last() =~= kv.take(i as int));
        assert(kv.take(i + 1).last() == (gid, quota, dv));
        i = i + 1;
    }
    assert(kv.take(items@.len() as int) =~= kv);
    let ghost gv = keyed_datas_view(acc@);
    let n0 = acc.len();
    assert(gv.len() == n0);
    let mut rest = acc;
    let mut rev: Vec<(u64, PoolGroupData)> = Vec::new();
    while rest.len() > 0
        invariant
            keyed_datas_view(rest@) + keyed_datas_view(rev@).reverse() == gv,
            gv.len() <= usize::MAX,
        decreases rest@.len(),
    {
        let ghost before_rest = rest@;
        let ghost before_rev = rev@;
        let g = rest.pop().unwrap();
        rev.push(g);
        assert(keyed_datas_view(before_rest) =~= keyed_datas_view(rest@).push(keyed_data_view(g)));
        assert(keyed_datas_view(rev@).reverse() =~= seq![keyed_data_view(g)] + keyed_datas_view(before_rev).reverse());
    }
    assert(keyed_datas_view(rest@) =~= Seq::<(u64, PoolGroupDataV)>::empty());
    assert(keyed_datas_view(rev@).reverse() =~= gv);
    let mut sorted: Vec<(u64, PoolGroupData)> = Vec::new();
    let mut done: usize = 0;
    assert(gv.take(0) =~= Seq::<(u64, PoolGroupDataV)>::empty());
    assert(gv.skip(0) =~= gv);
    while rev.len() > 0
        invariant
            keyed_datas_view(rev@).reverse() == gv.skip(done as int),
            done <= gv.len(),
            gv.len() <= usize::MAX,
            keyed_datas_view(sorted@) == sort_data_by_gid(gv.take(done as int)),
        decreases rev@.len(),
    {
        let ghost before_rev = rev@;
        let g = rev.pop().unwrap();
        assert(keyed_datas_view(before_rev).reverse() =~= seq![keyed_data_view(g)] + keyed_datas_view(rev@).reverse());
        assert(gv.skip(done as int)[0] == keyed_data_view(g));
        assert(done < gv.len());
        let ghost sv = keyed_datas_view(sorted@);
        let mut j: usize = sorted.len();
        while j > 0 && sorted[j - 1].0 > g.0
            invariant
                j <= sorted@.len(),
                sv == keyed_datas_view(sorted@),
                forall|k: int| j <= k < sorted@.len() ==> #[trigger] sv[k].0 > g.0,
            decreases j,
        {
            j = j - 1;
        }
        proof {
            lemma_insert_data_by_gid(sv, keyed_data_view(g), j as int);
        }
        sorted.insert(j, g);
        assert(keyed_datas_view(sorted@) =~= sv.take(j as int).push(keyed_data_view(g)) + sv.skip(j as int));
        assert(gv.take(done + 1).drop_last() =~= gv.take(done as int));
        assert(gv.take(done + 1).last() == keyed_data_view(g));
        assert(gv.skip(done + 1) =~= gv.skip(done as int).drop_first());
        done = done + 1;
        assert(keyed_datas_view(rev@).reverse() =~= gv.skip(done as int));
    }
    assert(gv.skip(done as int).len() == 0);
    assert(gv.take(done as int) =~= gv);
    let ghost sorted_v = keyed_datas_view(sorted@);
    let mut out: Vec<PoolGroupData> = Vec::new();
    let mut rev2: Vec<(u64, PoolGroupData)> = Vec::new();
    let mut rest2 = sorted;
    while rest2.len() > 0
        invariant
            keyed_datas_view(rest2@) + keyed_datas_view(rev2@).reverse() == sorted_v,
        decreases rest2@.len(),
    {
        let ghost before_rest = rest2@;
        let ghost before_rev = rev2@;
        let g = rest2.pop().unwrap();
        rev2.push(g);
        assert(keyed_datas_view(before_rest) =~= keyed_datas_view(rest2@).push(keyed_data_view(g)));
        assert(keyed_datas_view(rev2@).reverse() =~= seq![keyed_data_view(g)] + keyed_datas_view(before_rev).reverse());
    }
    assert(keyed_datas_view(rest2@) =~= Seq::<(u64, PoolGroupDataV)>::empty());
    assert(keyed_datas_view(rev2@).reverse() =~= sorted_v);
    let ghost target = sorted_v.map_values(|g: (u64, PoolGroupDataV)| g.1);
    while rev2.len() > 0
        invariant
            pool_group_datas_view(out@) + keyed_datas_view(rev2@).reverse().map_values(
                |g: (u64, PoolGroupDataV)| g.1,
            ) == target,
        decreases rev2@.len(),
    {
        let ghost before_rev = rev2@;
        let ghost before_out = out@;
        let g = rev2.pop().unwrap();
        let ghost gk = keyed_data_view(g);
        let (_, group) = g;
        out.push(group);
        assert(keyed_datas_view(before_rev).reverse() =~= seq![gk] + keyed_datas_view(rev2@).reverse());
        assert(pool_group_datas_view(out@) =~= pool_group_datas_view(before_out).push(gk.1));
        assert(pool_group_datas_view(out@) + keyed_datas_view(rev2@).reverse().map_values(
            |g: (u64, PoolGroupDataV)| g.1,
        ) =~= pool_group_datas_view(before_out) + keyed_datas_view(before_rev).reverse().map_values(
            |g: (u64, PoolGroupDataV)| g.1,
        ));
    }
    assert(keyed_datas_view(rev2@).reverse().map_values(|g: (u64, PoolGroupDataV)| g.1) =~= Seq::<PoolGroupDataV>::empty());
    assert(pool_group_datas_view(out@) =~= target);
    out
}

} // verus!
