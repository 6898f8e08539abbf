//! FutureBit Apollo firmware: status, host name and the MAC address among
//! the reported network interfaces.
use vstd::prelude::*;
use crate::fields::{ApiKind, DataField, DataLocation, LocationV, at, graphql, location_v, locations_view, tagged_at, web};
use crate::mac::{mac_from_text, mac_text_bytes};
use crate::json::{Json, JsonV, get_in, items_view, opt_get, opt_str, str_in, view_opt, lemma_items_view_len};
use crate::pools::{PoolData, PoolDataV, PoolGroupData, PoolGroupDataV, PoolURL, pool_datas_view, pool_group_datas_view};
use crate::text::{decimal_text, eq_ignore_ascii_case, eq_ignore_ascii_case_spec, push_text, u64_to_text};

verus! {

/// Whether the miner mines: a boolean status as it is, or a text that is
/// `online`, `pending` or `true` in any ASCII case.
pub open spec fn apollo_is_mining(status: Option<JsonV>) -> bool {
    match status {
        Some(JsonV::Bool(b)) => b,
        Some(JsonV::Str(s)) => eq_ignore_ascii_case_spec(s, "online"@) || eq_ignore_ascii_case_spec(
            s,
            "pending"@,
        ) || eq_ignore_ascii_case_spec(s, "true"@),
        _ => false,
    }
}

/// Whether the miner mines (see [`apollo_is_mining`]).
pub fn parse_is_mining(status: Option<&Json>) -> (r: bool)
    ensures
        r == apollo_is_mining(view_opt(status)),
{
    match status {
        Some(Json::Bool(b)) => *b,
        Some(Json::Str(s)) => {
            let s = s.as_str();
            eq_ignore_ascii_case(s, "online") || eq_ignore_ascii_case(s, "pending")
                || eq_ignore_ascii_case(s, "true")
        },
        _ => false,
    }
}

/// The host name: a non-empty text.
pub fn parse_hostname(hostname: Option<&Json>) -> (r: Option<String>)
    ensures
        crate::pools::opt_text(r) == match opt_str(view_opt(hostname)) {
            Some(s) => if s.len() > 0 {
                Some(s)
            } else {
                None
            },
            None => None,
        },
{
    match str_in(hostname) {
        Some(s) => if s.unicode_len() > 0 {
            Some(s.to_owned())
        } else {
            None
        },
        None => None,
    }
}


/// Whether every byte of an address is zero.
pub open spec fn all_zero(b: Seq<u8>) -> bool {
    forall|i: int| 0 <= i < b.len() ==> b[i] == 0
}

/// Whether an address is all zeros.
pub fn is_zero_mac(mac: &Vec<u8>) -> (r: bool)
    ensures
        r == all_zero(mac@),
{
    let mut i: usize = 0;
    while i < mac.len()
        invariant
            i <= mac@.len(),
            forall|j: int| 0 <= j < i ==> mac@[j] == 0,
        decreases mac@.len() - i,
    {
        if mac[i] != 0 {
            return false;
        }
        i = i + 1;
    }
    true
}

/// The address a text gives when it reads as a MAC address that is not all
/// zeros.
pub open spec fn usable_mac(s: Option<Seq<char>>) -> Option<Seq<u8>> {
    match s {
        Some(t) => match mac_text_bytes(t) {
            Some(b) => if all_zero(b) {
                None
            } else {
                Some(b)
            },
            None => None,
        },
        None => None,
    }
}

/// The first usable address among the `mac` texts of a list of interfaces.
pub open spec fn first_usable_mac(networks: Seq<JsonV>) -> Option<Seq<u8>>
    decreases networks.len(),
{
    if networks.len() == 0 {
        None
    } else {
        match usable_mac(opt_str(networks[0].get("mac"@))) {
            Some(b) => Some(b),
            None => first_usable_mac(networks.drop_first()),
        }
    }
}

/// The MAC address of the miner: the first usable address among a list of
/// interfaces, or the address a text gives, when it is usable.
pub open spec fn apollo_mac(mac: Option<JsonV>) -> Option<Seq<u8>> {
    match mac {
        Some(JsonV::Array(networks)) => first_usable_mac(networks),
        Some(v) => usable_mac(opt_str(Some(v))),
        None => None,
    }
}

/// The usable address a text gives.
fn read_usable_mac(s: Option<&str>) -> (r: Option<Vec<u8>>)
    ensures
        match r {
            Some(b) => usable_mac(crate::json::text_opt(s)) == Some(b@),
            None => usable_mac(crate::json::text_opt(s)) is None,
        },
{
    match s {
        Some(t) => match mac_from_text(t) {
            Some(b) => if is_zero_mac(&b) {
                None
            } else {
                Some(b)
            },
            None => None,
        },
        None => None,
    }
}

/// The MAC address of the miner (see [`apollo_mac`]), as its bytes.
pub fn parse_mac(mac: Option<&Json>) -> (r: Option<Vec<u8>>)
    ensures
        match r {
            Some(b) => apollo_mac(view_opt(mac)) == Some(b@),
            None => apollo_mac(view_opt(mac)) is None,
        },
{
    match mac {
        Some(Json::Array(networks)) => {
            let ghost nv = items_view(networks@);
            proof {
                lemma_items_view_len(networks@);
            }
            let mut i: usize = 0;
            assert(nv.skip(0) =~= nv);
            while i < networks.len()
                invariant
                    i <= networks@.len(),
                    nv == items_view(networks@),
                    nv.len() == networks@.len(),
                    forall|j: int| 0 <= j < networks@.len() ==> #[trigger] nv[j] == networks@[j]@,
                    first_usable_mac(nv) == first_usable_mac(nv.skip(i as int)),
                    view_opt(mac) == Some(JsonV::Array(nv)),
                decreases networks@.len() - i,
            {
                assert(nv.skip(i as int).drop_first() =~= nv.skip(i + 1));
                assert(nv.skip(i as int)[0] == nv[i as int]);
                match read_usable_mac(str_in(networks[i].get("mac"))) {
                    Some(b) => {
                        return Some(b);
                    },
                    None => {},
                }
                i = i + 1;
            }
            assert(nv.skip(networks@.len() as int).len() == 0);
            None
        },
        Some(v) => read_usable_mac(v.as_str()),
        None => None,
    }
}

/// Where the FutureBit Apollo firmware reports each field.
pub open spec fn futurebit_locations(field: DataField) -> Seq<LocationV> {
    match field {
        DataField::Mac => seq![location_v(ApiKind::GraphQl, "{\n                Mcu {\n                    stats {\n                        result {\n                            stats {\n                                hostname\n                                network {\n                                    name\n                                    address\n                                    mac\n                                }\n                            }\n                        }\n                        error { message }\n                    }\n                }\n            }"@, "/Mcu/stats/result/stats/network"@, None)],
        DataField::Hostname => seq![location_v(ApiKind::GraphQl, "{\n                Mcu {\n                    stats {\n                        result {\n                            stats {\n                                hostname\n                                network {\n                                    name\n                                    address\n                                    mac\n                                }\n                            }\n                        }\n                        error { message }\n                    }\n                }\n            }"@, "/Mcu/stats/result/stats/hostname"@, None)],
        DataField::SerialNumber => seq![location_v(ApiKind::GraphQl, "{\n                Miner {\n                    stats {\n                        result {\n                            stats {\n                                version\n                                statVersion\n                                versions {\n                                    miner\n                                }\n                                master {\n                                    hwAddr\n                                }\n                                slaves {\n                                    uid\n                                }\n                            }\n                        }\n                        error { message }\n                    }\n                }\n            }"@, "/Miner/stats/result/stats/0/slaves/0/uid"@, None)],
        DataField::FirmwareVersion => seq![location_v(ApiKind::GraphQl, "{\n                Miner {\n                    stats {\n                        result {\n                            stats {\n                                version\n                                statVersion\n                                versions {\n                                    miner\n                                }\n                                master {\n                                    hwAddr\n                                }\n                                slaves {\n                                    uid\n                                }\n                            }\n                        }\n                        error { message }\n                    }\n                }\n            }"@, "/Miner/stats/result/stats/0/versions/miner"@, None)],
        DataField::ApiVersion => seq![location_v(ApiKind::GraphQl, "{\n                Miner {\n                    stats {\n                        result {\n                            stats {\n                                version\n                                statVersion\n                                versions {\n                                    miner\n                                }\n                                master {\n                                    hwAddr\n                                }\n                                slaves {\n                                    uid\n                                }\n                            }\n                        }\n                        error { message }\n                    }\n                }\n            }"@, "/Miner/stats/result/stats/0/statVersion"@, None)],
        DataField::ControlBoardVersion => seq![location_v(ApiKind::GraphQl, "{\n                Miner {\n                    stats {\n                        result {\n                            stats {\n                                version\n                                statVersion\n                                versions {\n                                    miner\n                                }\n                                master {\n                                    hwAddr\n                                }\n                                slaves {\n                                    uid\n                                }\n                            }\n                        }\n                        error { message }\n                    }\n                }\n            }"@, "/Miner/stats/result/stats/0/version"@, None)],
        DataField::Hashboards => seq![location_v(ApiKind::GraphQl, "{\n                Miner {\n                    stats {\n                        result {\n                            stats {\n                                master {\n                                    intervals {\n                                        int_30 {\n                                            bySol\n                                            byDiff\n                                        }\n                                    }\n                                }\n                                slots {\n                                    int_0 {\n                                        chips\n                                        pwrOn\n                                        temperature\n                                        temperature1\n                                        ghs\n                                    }\n                                }\n                                slaves {\n                                    uid\n                                }\n                            }\n                        }\n                        error { message }\n                    }\n                }\n            }"@, "/Miner/stats/result/stats/0"@, None)],
        DataField::Chips => seq![location_v(ApiKind::GraphQl, "{\n                Miner {\n                    stats {\n                        result {\n                            stats {\n                                master {\n                                    intervals {\n                                        int_30 {\n                                            bySol\n                                            byDiff\n                                        }\n                                    }\n                                }\n                                slots {\n                                    int_0 {\n                                        chips\n                                        pwrOn\n                                        temperature\n                                        temperature1\n                                        ghs\n                                    }\n                                }\n                                slaves {\n                                    uid\n                                }\n                            }\n                        }\n                        error { message }\n                    }\n                }\n            }"@, "/Miner/stats/result/stats/0"@, None)],
        DataField::Hashrate => seq![location_v(ApiKind::GraphQl, "{\n                Miner {\n                    stats {\n                        result {\n                            stats {\n                                slots {\n                                    int_0 {\n                                        ghs\n                                    }\n                                }\n                            }\n                        }\n                        error { message }\n                    }\n                }\n            }"@, "/Miner/stats/result/stats/0/slots/int_0/ghs"@, None)],
        DataField::ExpectedHashrate => seq![location_v(ApiKind::GraphQl, "{\n                Miner {\n                    stats {\n                        result {\n                            stats {\n                                master {\n                                    intervals {\n                                        int_30 {\n                                            byDiff\n                                        }\n                                    }\n                                }\n                            }\n                        }\n                        error { message }\n                    }\n                }\n            }"@, "/Miner/stats/result/stats/0/master/intervals/int_30/byDiff"@, None)],
        DataField::Fans => seq![location_v(ApiKind::GraphQl, "{\n                Miner {\n                    stats {\n                        result {\n                            stats {\n                                fans {\n                                    int_0 {\n                                        rpm\n                                    }\n                                }\n                            }\n                        }\n                        error { message }\n                    }\n                }\n            }"@, "/Miner/stats/result/stats/0/fans/int_0/rpm"@, None)],
        DataField::Wattage => seq![location_v(ApiKind::GraphQl, "{\n                Miner {\n                    stats {\n                        result {\n                            stats {\n                                master {\n                                    boardsW\n                                }\n                            }\n                        }\n                        error { message }\n                    }\n                }\n            }"@, "/Miner/stats/result/stats/0/master/boardsW"@, None)],
        DataField::Uptime => seq![location_v(ApiKind::GraphQl, "{\n                Miner {\n                    stats {\n                        result {\n                            stats {\n                                master {\n                                    upTime\n                                }\n                            }\n                        }\n                        error { message }\n                    }\n                }\n            }"@, "/Miner/stats/result/stats/0/master/upTime"@, None)],
        DataField::IsMining => seq![location_v(ApiKind::GraphQl, "{\n                Miner {\n                    online {\n                        result {\n                            online {\n                                status\n                            }\n                        }\n                        error { message }\n                    }\n                }\n            }"@, "/Miner/online/result/online/status"@, None)],
        DataField::Pools => seq![location_v(ApiKind::GraphQl, "{\n                Miner {\n                    stats {\n                        result {\n                            stats {\n                                pool {\n                                    host\n                                    port\n                                    userName\n                                    intervals {\n                                        int_0 {\n                                            sharesAccepted\n                                            sharesRejected\n                                            inService\n                                        }\n                                    }\n                                }\n                            }\n                        }\n                        error { message }\n                    }\n                }\n            }"@, "/Miner/stats/result/stats/0/pool"@, None)],
        _ => Seq::empty(),
    }
}

/// Where the FutureBit Apollo firmware reports a field (see [`futurebit_locations`]).
pub fn get_locations(field: DataField) -> (r: Vec<DataLocation>)
    ensures
        locations_view(r@) == futurebit_locations(field),
{
    match field {
        DataField::Mac => vec![at(graphql("{\n                Mcu {\n                    stats {\n                        result {\n                            stats {\n                                hostname\n                                network {\n                                    name\n                                    address\n                                    mac\n                                }\n                            }\n                        }\n                        error { message }\n                    }\n                }\n            }"), "/Mcu/stats/result/stats/network")],
        DataField::Hostname => vec![at(graphql("{\n                Mcu {\n                    stats {\n                        result {\n                            stats {\n                                hostname\n                                network {\n                                    name\n                                    address\n                                    mac\n                                }\n                            }\n                        }\n                        error { message }\n                    }\n                }\n            }"), "/Mcu/stats/result/stats/hostname")],
        DataField::SerialNumber => vec![at(graphql("{\n                Miner {\n                    stats {\n                        result {\n                            stats {\n                                version\n                                statVersion\n                                versions {\n                                    miner\n                                }\n                                master {\n                                    hwAddr\n                                }\n                                slaves {\n                                    uid\n                                }\n                            }\n                        }\n                        error { message }\n                    }\n                }\n            }"), "/Miner/stats/result/stats/0/slaves/0/uid")],
        DataField::FirmwareVersion => vec![at(graphql("{\n                Miner {\n                    stats {\n                        result {\n                            stats {\n                                version\n                                statVersion\n                                versions {\n                                    miner\n                                }\n                                master {\n                                    hwAddr\n                                }\n                                slaves {\n                                    uid\n                                }\n                            }\n                        }\n                        error { message }\n                    }\n                }\n            }"), "/Miner/stats/result/stats/0/versions/miner")],
        DataField::ApiVersion => vec![at(graphql("{\n                Miner {\n                    stats {\n                        result {\n                            stats {\n                                version\n                                statVersion\n                                versions {\n                                    miner\n                                }\n                                master {\n                                    hwAddr\n                                }\n                                slaves {\n                                    uid\n                                }\n                            }\n                        }\n                        error { message }\n                    }\n                }\n            }"), "/Miner/stats/result/stats/0/statVersion")],
        DataField::ControlBoardVersion => vec![at(graphql("{\n                Miner {\n                    stats {\n                        result {\n                            stats {\n                                version\n                                statVersion\n                                versions {\n                                    miner\n                                }\n                                master {\n                                    hwAddr\n                                }\n                                slaves {\n                                    uid\n                                }\n                            }\n                        }\n                        error { message }\n                    }\n                }\n            }"), "/Miner/stats/result/stats/0/version")],
        DataField::Hashboards => vec![at(graphql("{\n                Miner {\n                    stats {\n                        result {\n                            stats {\n                                master {\n                                    intervals {\n                                        int_30 {\n                                            bySol\n                                            byDiff\n                                        }\n                                    }\n                                }\n                                slots {\n                                    int_0 {\n                                        chips\n                                        pwrOn\n                                        temperature\n                                        temperature1\n                                        ghs\n                                    }\n                                }\n                                slaves {\n                                    uid\n                                }\n                            }\n                        }\n                        error { message }\n                    }\n                }\n            }"), "/Miner/stats/result/stats/0")],
        DataField::Chips => vec![at(graphql("{\n                Miner {\n                    stats {\n                        result {\n                            stats {\n                                master {\n                                    intervals {\n                                        int_30 {\n                                            bySol\n                                            byDiff\n                                        }\n                                    }\n                                }\n                                slots {\n                                    int_0 {\n                                        chips\n                                        pwrOn\n                                        temperature\n                                        temperature1\n                                        ghs\n                                    }\n                                }\n                                slaves {\n                                    uid\n                                }\n                            }\n                        }\n                        error { message }\n                    }\n                }\n            }"), "/Miner/stats/result/stats/0")],
        DataField::Hashrate => vec![at(graphql("{\n                Miner {\n                    stats {\n                        result {\n                            stats {\n                                slots {\n                                    int_0 {\n                                        ghs\n                                    }\n                                }\n                            }\n                        }\n                        error { message }\n                    }\n                }\n            }"), "/Miner/stats/result/stats/0/slots/int_0/ghs")],
        DataField::ExpectedHashrate => vec![at(graphql("{\n                Miner {\n                    stats {\n                        result {\n                            stats {\n                                master {\n                                    intervals {\n                                        int_30 {\n                                            byDiff\n                                        }\n                                    }\n                                }\n                            }\n                        }\n                        error { message }\n                    }\n                }\n            }"), "/Miner/stats/result/stats/0/master/intervals/int_30/byDiff")],
        DataField::Fans => vec![at(graphql("{\n                Miner {\n                    stats {\n                        result {\n                            stats {\n                                fans {\n                                    int_0 {\n                                        rpm\n                                    }\n                                }\n                            }\n                        }\n                        error { message }\n                    }\n                }\n            }"), "/Miner/stats/result/stats/0/fans/int_0/rpm")],
        DataField::Wattage => vec![at(graphql("{\n                Miner {\n                    stats {\n                        result {\n                            stats {\n                                master {\n                                    boardsW\n                                }\n                            }\n                        }\n                        error { message }\n                    }\n                }\n            }"), "/Miner/stats/result/stats/0/master/boardsW")],
        DataField::Uptime => vec![at(graphql("{\n                Miner {\n                    stats {\n                        result {\n                            stats {\n                                master {\n                                    upTime\n                                }\n                            }\n                        }\n                        error { message }\n                    }\n                }\n            }"), "/Miner/stats/result/stats/0/master/upTime")],
        DataField::IsMining => vec![at(graphql("{\n                Miner {\n                    online {\n                        result {\n                            online {\n                                status\n                            }\n                        }\n                        error { message }\n                    }\n                }\n            }"), "/Miner/online/result/online/status")],
        DataField::Pools => vec![at(graphql("{\n                Miner {\n                    stats {\n                        result {\n                            stats {\n                                pool {\n                                    host\n                                    port\n                                    userName\n                                    intervals {\n                                        int_0 {\n                                            sharesAccepted\n                                            sharesRejected\n                                            inService\n                                        }\n                                    }\n                                }\n                            }\n                        }\n                        error { message }\n                    }\n                }\n            }"), "/Miner/stats/result/stats/0/pool")],
        _ => vec![],
    }
}

/// The reported pool: none without pool data or without a `host` text;
/// else one unnamed group with quota 1 holding the pool at position 0,
/// addressed `host:port` (the port cut to 16 bits, 0 when missing), active
/// and alive when it is in service, with its share counts and `userName`.
/// The numbers (port, share counts, in-service count) are read by the
/// caller.
pub open spec fn apollo_pools(
    pool: Option<JsonV>,
    port: Option<u64>,
    accepted: Option<u64>,
    rejected: Option<u64>,
    in_service: Option<u64>,
) -> Seq<PoolGroupDataV> {
    match opt_str(opt_get(pool, "host"@)) {
        None => Seq::empty(),
        Some(host) => {
            let p16 = (match port {
                Some(p) => p,
                None => 0,
            }) as u16;
            let active = match in_service {
                Some(u) => Some(u > 0),
                None => None,
            };
            seq![
                PoolGroupDataV {
                    name: Seq::empty(),
                    quota: 1,
                    pools: seq![
                        PoolDataV {
                            position: Some(0),
                            url: Some(host + ":"@ + decimal_text(p16 as nat)),
                            accepted_shares: accepted,
                            rejected_shares: rejected,
                            active: active,
                            alive: active,
                            user: opt_str(opt_get(pool, "userName"@)),
                        },
                    ],
                },
            ]
        },
    }
}

/// The reported pool (see [`apollo_pools`]).
pub fn parse_pools(
    pool: Option<&Json>,
    port: Option<u64>,
    accepted: Option<u64>,
    rejected: Option<u64>,
    in_service: Option<u64>,
) -> (r: Vec<PoolGroupData>)
    ensures
        pool_group_datas_view(r@) == apollo_pools(view_opt(pool), port, accepted, rejected, in_service),
{
    let host = match str_in(get_in(pool, "host")) {
        Some(h) => h,
        None => {
            let r: Vec<PoolGroupData> = Vec::new();
            assert(pool_group_datas_view(r@) =~= Seq::<PoolGroupDataV>::empty());
            return r;
        },
    };
    let p = match port {
        Some(p) => p,
        None => 0,
    };
    let p16 = p as u16;
    let mut url = String::new();
    push_text(&mut url, host);
    push_text(&mut url, ":");
    let digits = u64_to_text(p16 as u64);
    push_text(&mut url, digits.as_str());
    let active = match in_service {
        Some(u) => Some(u > 0),
        None => None,
    };
    let user = match str_in(get_in(pool, "userName")) {
        Some(u) => Some(u.to_owned()),
        None => None,
    };
    let pd = PoolData {
        position: Some(0),
        url: Some(PoolURL::new(url)),
        accepted_shares: accepted,
        rejected_shares: rejected,
        active,
        alive: active,
        user,
    };
    let pools = vec![pd];
    assert(pool_datas_view(pools@) =~= seq![pd@]);
    let r = vec![PoolGroupData { name: String::new(), quota: 1, pools }];
    assert(pool_group_datas_view(r@) =~= apollo_pools(view_opt(pool), port, accepted, rejected, in_service));
    r
}

/// A miner action sent as a GraphQL mutation.
#[derive(Debug, Clone, Copy, PartialEq, Eq, Structural)]
pub enum ApolloAction {
    Restart,
    Stop,
    Start,
}

/// The name of an action in its mutation, its answer and its error text.
pub open spec fn action_name(a: ApolloAction) -> Seq<char> {
    match a {
        ApolloAction::Restart => "restart"@,
        ApolloAction::Stop => "stop"@,
        ApolloAction::Start => "start"@,
    }
}

/// The mutation that performs an action.
pub open spec fn action_mutation(a: ApolloAction) -> Seq<char> {
    "mutation { Miner { "@ + action_name(a) + " { error { message } } } }"@
}

/// The mutation that performs an action (see [`action_mutation`]).
pub fn mutation_for(a: ApolloAction) -> (r: &'static str)
    ensures
        r@ == action_mutation(a),
{
    proof {
        reveal_strlit("mutation { Miner { ");
        reveal_strlit(" { error { message } } } }");
        reveal_strlit("restart");
        reveal_strlit("stop");
        reveal_strlit("start");
        reveal_strlit("mutation { Miner { restart { error { message } } } }");
        reveal_strlit("mutation { Miner { stop { error { message } } } }");
        reveal_strlit("mutation { Miner { start { error { message } } } }");
    }
    let r = match a {
        ApolloAction::Restart => "mutation { Miner { restart { error { message } } } }",
        ApolloAction::Stop => "mutation { Miner { stop { error { message } } } }",
        ApolloAction::Start => "mutation { Miner { start { error { message } } } }",
    };
    assert(r@ =~= action_mutation(a));
    r
}

/// Why an action failed, by its answer: the text at
/// `/Miner/<action>/error/message`, reported as `Apollo <action> failed: `
/// and the text; none when the answer holds no such text.
pub open spec fn action_failure(answer: JsonV, a: ApolloAction) -> Option<Seq<char>> {
    match opt_str(opt_get(opt_get(opt_get(answer.get("Miner"@), action_name(a)), "error"@), "message"@)) {
        Some(m) => Some("Apollo "@ + action_name(a) + " failed: "@ + m),
        None => None,
    }
}

/// Why an action failed (see [`action_failure`]).
pub fn mutation_failure(answer: &Json, a: ApolloAction) -> (r: Option<String>)
    ensures
        match r {
            Some(t) => action_failure(answer@, a) == Some(t@),
            None => action_failure(answer@, a) is None,
        },
{
    let name = match a {
        ApolloAction::Restart => "restart",
        ApolloAction::Stop => "stop",
        ApolloAction::Start => "start",
    };
    assert(name@ == action_name(a));
    match str_in(get_in(get_in(get_in(answer.get("Miner"), name), "error"), "message")) {
        Some(m) => {
            let mut t = String::new();
            push_text(&mut t, "Apollo ");
            push_text(&mut t, name);
            push_text(&mut t, " failed: ");
            push_text(&mut t, m);
            assert(t@ =~= "Apollo "@ + action_name(a) + " failed: "@ + m@);
            Some(t)
        },
        None => None,
    }
}

} // verus!
