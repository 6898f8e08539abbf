//! Avalon firmware (A-series and Q): where it reports each field, its pools,
//! and how its `ascset` and `restart` answers are read.
use vstd::prelude::*;
use crate::antminer::{read_rpc_pool, rpc_pool};
use crate::fields::{
    ApiKind, DataField, DataLocation, LocationV, at, location_v, locations_view, rpc, tagged_at, web,
};
use crate::json::{Json, JsonV, array_or_empty, items_view, opt_array, opt_str, str_in, view_opt};
use crate::pools::{PoolData, PoolDataV, PoolGroupData, PoolGroupDataV, pool_datas_view, pool_group_datas_view};
use crate::mac::{mac_from_text, mac_text_bytes};
use crate::text::{push_char, to_lowercase, trim_text, unicode_lowercase, unicode_trim, contains_spec, contains_text, decimal_text, push_text, text_eq, u64_to_text};

verus! {

/// Where the Avalon A-series firmware reports each field.
pub open spec fn avalon_a_locations(field: DataField) -> Seq<LocationV> {
    match field {
        DataField::Mac => seq![location_v(ApiKind::Rpc, "version"@, "/VERSION/0/MAC"@, None)],
        DataField::ControlBoardVersion => seq![location_v(ApiKind::Rpc, "version"@, "/VERSION/0/HWTYPE"@, None)],
        DataField::SerialNumber => seq![location_v(ApiKind::Rpc, "version"@, "/VERSION/0/DNA"@, None)],
        DataField::ApiVersion => seq![location_v(ApiKind::Rpc, "version"@, "/VERSION/0/API"@, None)],
        DataField::FirmwareVersion => seq![location_v(ApiKind::Rpc, "version"@, "/VERSION/0/VERSION"@, None)],
        DataField::Hashrate => seq![location_v(ApiKind::Rpc, "devs"@, "/DEVS/0/MHS 1m"@, None)],
        DataField::ExpectedHashrate => seq![location_v(ApiKind::Rpc, "stats"@, "/STATS/0/MM ID0/GHSmm"@, None)],
        DataField::Hashboards => seq![location_v(ApiKind::Rpc, "stats"@, "/STATS/0/MM ID0"@, None)],
        DataField::Chips => seq![location_v(ApiKind::Rpc, "stats"@, "/STATS/0/MM ID0"@, None)],
        DataField::Wattage => seq![location_v(ApiKind::Rpc, "stats"@, "/STATS/0/MM ID0/PS"@, None)],
        DataField::TuningTarget => seq![location_v(ApiKind::Rpc, "stats"@, "/STATS/0/MM ID0/PS"@, None)],
        DataField::Fans => seq![location_v(ApiKind::Rpc, "stats"@, "/STATS/0/MM ID0"@, None)],
        DataField::LightFlashing => seq![location_v(ApiKind::Rpc, "stats"@, "/STATS/0/MM ID0/Led"@, None)],
        DataField::Uptime => seq![location_v(ApiKind::Rpc, "stats"@, "/STATS/0/Elapsed"@, None)],
        DataField::Pools => seq![location_v(ApiKind::Rpc, "pools"@, "/POOLS"@, None)],
        _ => Seq::empty(),
    }
}


/// Where the Avalon A-series firmware reports a field (see [`avalon_a_locations`]).
pub fn a_series_locations(field: DataField) -> (r: Vec<DataLocation>)
    ensures
        locations_view(r@) == avalon_a_locations(field),
{
    match field {
        DataField::Mac => vec![at(rpc("version"), "/VERSION/0/MAC")],
        DataField::ControlBoardVersion => vec![at(rpc("version"), "/VERSION/0/HWTYPE")],
        DataField::SerialNumber => vec![at(rpc("version"), "/VERSION/0/DNA")],
        DataField::ApiVersion => vec![at(rpc("version"), "/VERSION/0/API")],
        DataField::FirmwareVersion => vec![at(rpc("version"), "/VERSION/0/VERSION")],
        DataField::Hashrate => vec![at(rpc("devs"), "/DEVS/0/MHS 1m")],
        DataField::ExpectedHashrate => vec![at(rpc("stats"), "/STATS/0/MM ID0/GHSmm")],
        DataField::Hashboards => vec![at(rpc("stats"), "/STATS/0/MM ID0")],
        DataField::Chips => vec![at(rpc("stats"), "/STATS/0/MM ID0")],
        DataField::Wattage => vec![at(rpc("stats"), "/STATS/0/MM ID0/PS")],
        DataField::TuningTarget => vec![at(rpc("stats"), "/STATS/0/MM ID0/PS")],
        DataField::Fans => vec![at(rpc("stats"), "/STATS/0/MM ID0")],
        DataField::LightFlashing => vec![at(rpc("stats"), "/STATS/0/MM ID0/Led")],
        DataField::Uptime => vec![at(rpc("stats"), "/STATS/0/Elapsed")],
        DataField::Pools => vec![at(rpc("pools"), "/POOLS")],
        _ => vec![],
    }
}

/// Where the Avalon Q firmware reports each field.
pub open spec fn avalon_q_locations(field: DataField) -> Seq<LocationV> {
    match field {
        DataField::Mac => seq![location_v(ApiKind::Rpc, "version"@, "/VERSION/0/MAC"@, None)],
        DataField::ApiVersion => seq![location_v(ApiKind::Rpc, "version"@, "/VERSION/0/API"@, None)],
        DataField::FirmwareVersion => seq![location_v(ApiKind::Rpc, "version"@, "/VERSION/0/CGMiner"@, None)],
        DataField::Hashrate => seq![location_v(ApiKind::Rpc, "devs"@, "/DEVS/0/MHS 1m"@, None)],
        DataField::ExpectedHashrate => seq![location_v(ApiKind::Rpc, "stats"@, "/STATS/0/MM ID0:Summary/STATS/GHSmm"@, None)],
        DataField::Hashboards => seq![location_v(ApiKind::Rpc, "stats"@, "/STATS/0/MM ID0:Summary/STATS"@, Some("summary"@))],
        DataField::Chips => seq![location_v(ApiKind::Rpc, "stats"@, "/STATS/0/HBinfo"@, None)],
        DataField::AverageTemperature => seq![location_v(ApiKind::Rpc, "stats"@, "/STATS/0/MM ID0:Summary/STATS/ITemp"@, None)],
        DataField::TuningTarget => seq![location_v(ApiKind::Rpc, "stats"@, "/STATS/0/MM ID0:Summary/STATS/MPO"@, None)],
        DataField::Wattage => seq![location_v(ApiKind::Rpc, "stats"@, "/STATS/0/MM ID0:Summary/STATS/WALLPOWER"@, None)],
        DataField::Fans => seq![location_v(ApiKind::Rpc, "stats"@, "/STATS/0/MM ID0:Summary/STATS"@, None)],
        DataField::LightFlashing => seq![location_v(ApiKind::Rpc, "stats"@, "/STATS/0/MM ID0:Summary/STATS/Led"@, None)],
        DataField::Uptime => seq![location_v(ApiKind::Rpc, "stats"@, "/STATS/0/Elapsed"@, None)],
        DataField::Pools => seq![location_v(ApiKind::Rpc, "pools"@, "/POOLS"@, None)],
        _ => Seq::empty(),
    }
}


/// Where the Avalon Q firmware reports a field (see [`avalon_q_locations`]).
pub fn q_locations(field: DataField) -> (r: Vec<DataLocation>)
    ensures
        locations_view(r@) == avalon_q_locations(field),
{
    match field {
        DataField::Mac => vec![at(rpc("version"), "/VERSION/0/MAC")],
        DataField::ApiVersion => vec![at(rpc("version"), "/VERSION/0/API")],
        DataField::FirmwareVersion => vec![at(rpc("version"), "/VERSION/0/CGMiner")],
        DataField::Hashrate => vec![at(rpc("devs"), "/DEVS/0/MHS 1m")],
        DataField::ExpectedHashrate => vec![at(rpc("stats"), "/STATS/0/MM ID0:Summary/STATS/GHSmm")],
        DataField::Hashboards => vec![tagged_at(rpc("stats"), "/STATS/0/MM ID0:Summary/STATS", "summary")],
        DataField::Chips => vec![at(rpc("stats"), "/STATS/0/HBinfo")],
        DataField::AverageTemperature => vec![at(rpc("stats"), "/STATS/0/MM ID0:Summary/STATS/ITemp")],
        DataField::TuningTarget => vec![at(rpc("stats"), "/STATS/0/MM ID0:Summary/STATS/MPO")],
        DataField::Wattage => vec![at(rpc("stats"), "/STATS/0/MM ID0:Summary/STATS/WALLPOWER")],
        DataField::Fans => vec![at(rpc("stats"), "/STATS/0/MM ID0:Summary/STATS")],
        DataField::LightFlashing => vec![at(rpc("stats"), "/STATS/0/MM ID0:Summary/STATS/Led")],
        DataField::Uptime => vec![at(rpc("stats"), "/STATS/0/Elapsed")],
        DataField::Pools => vec![at(rpc("pools"), "/POOLS")],
        _ => vec![],
    }
}

/// The reported pool groups: one unnamed group with quota 1 holding the
/// pools of the `pools` answer (none when it is missing or no array).
pub open spec fn avalon_pools(pools: Option<JsonV>) -> Seq<PoolGroupDataV> {
    let ps = array_or_empty(pools);
    seq![
        PoolGroupDataV {
            name: Seq::empty(),
            quota: 1,
            pools: Seq::new(ps.len(), |i: int| rpc_pool(i, ps[i])),
        },
    ]
}

/// Every pool of the `pools` answer is read from its own entry, at its
/// place: the address from `URL`, the user from `User`, the share counts
/// from `Accepted` and `Rejected`, whether it is active from
/// `Stratum Active`.
pub proof fn lemma_avalon_pool_fields(ps: Seq<JsonV>, i: int)
    requires
        0 <= i < ps.len(),
    ensures
        avalon_pools(Some(JsonV::Array(ps))).len() == 1,
        avalon_pools(Some(JsonV::Array(ps)))[0].pools.len() == ps.len(),
        avalon_pools(Some(JsonV::Array(ps)))[0].pools[i].url == opt_str(ps[i].get("URL"@)),
        avalon_pools(Some(JsonV::Array(ps)))[0].pools[i].user == opt_str(ps[i].get("User"@)),
        avalon_pools(Some(JsonV::Array(ps)))[0].pools[i].accepted_shares == crate::json::opt_u64(ps[i].get("Accepted"@)),
        avalon_pools(Some(JsonV::Array(ps)))[0].pools[i].rejected_shares == crate::json::opt_u64(ps[i].get("Rejected"@)),
        avalon_pools(Some(JsonV::Array(ps)))[0].pools[i].active == crate::json::opt_bool(ps[i].get("Stratum Active"@)),
{
}

/// The reported pool groups (see [`avalon_pools`]).
pub fn parse_pools(pools: Option<&Json>) -> (r: Vec<PoolGroupData>)
    ensures
        pool_group_datas_view(r@) == avalon_pools(view_opt(pools)),
{
    let mut out: Vec<PoolData> = Vec::new();
    let ghost ps = array_or_empty(view_opt(pools));
    match pools {
        Some(Json::Array(items)) => {
            proof {
                crate::json::lemma_items_view_len(items@);
            }
            assert(ps == items_view(items@));
            let mut i: usize = 0;
            while i < items.len()
                invariant
                    i <= items@.len(),
                    ps == items_view(items@),
                    ps.len() == items@.len(),
                    forall|j: int| 0 <= j < items@.len() ==> #[trigger] ps[j] == items@[j]@,
                    out@.len() == i,
                    forall|j: int| 0 <= j < i ==> #[trigger] out@[j]@ == rpc_pool(j, ps[j]),
                decreases items@.len() - i,
            {
                let p = read_rpc_pool(i, &items[i]);
                out.push(p);
                i = i + 1;
            }
        },
        _ => {},
    }
    assert(pool_datas_view(out@) =~= Seq::new(ps.len(), |i: int| rpc_pool(i, ps[i])));
    let r = vec![PoolGroupData { name: String::new(), quota: 1, pools: out }];
    assert(pool_group_datas_view(r@) =~= avalon_pools(view_opt(pools)));
    r
}

/// The message the firmware answers a successful `ascset` with.
pub open spec fn set_ok_text() -> Seq<char> {
    "ASC 0 set OK"@
}

/// Whether an `ascset` answer confirms a pause or resume: its first status
/// has `STATUS` `S` and the message of success.
pub open spec fn ascset_confirmed_spec(answer: JsonV) -> bool {
    match opt_array(answer.get("STATUS"@)) {
        Some(st) => st.len() > 0 && opt_str(st[0].get("STATUS"@)) == Some("S"@) && opt_str(
            st[0].get("Msg"@),
        ) == Some(set_ok_text()),
        None => false,
    }
}

/// Whether an `ascset` answer confirms a pause or resume (see
/// [`ascset_confirmed_spec`]).
pub fn ascset_confirmed(answer: &Json) -> (r: bool)
    ensures
        r == ascset_confirmed_spec(answer@),
{
    match answer.get("STATUS") {
        Some(Json::Array(st)) => {
            proof {
                crate::json::lemma_items_view_len(st@);
            }
            if st.len() == 0 {
                return false;
            }
            let first = &st[0];
            let code_ok = match str_in(first.get("STATUS")) {
                Some(c) => text_eq(c, "S"),
                None => false,
            };
            let msg_ok = match str_in(first.get("Msg")) {
                Some(m) => text_eq(m, "ASC 0 set OK"),
                None => false,
            };
            code_ok && msg_ok
        },
        _ => false,
    }
}

/// What an `ascset` answer for the light or the power limit says: whether
/// its first status message is the message of success; nothing when there
/// is no such message (the request then fails).
pub open spec fn ascset_reply_spec(answer: JsonV) -> Option<bool> {
    match opt_array(answer.get("STATUS"@)) {
        Some(st) => if st.len() > 0 {
            match opt_str(st[0].get("Msg"@)) {
                Some(m) => Some(m == set_ok_text()),
                None => None,
            }
        } else {
            None
        },
        None => None,
    }
}

/// What an `ascset` answer for the light or the power limit says (see
/// [`ascset_reply_spec`]).
pub fn ascset_reply(answer: &Json) -> (r: Option<bool>)
    ensures
        r == ascset_reply_spec(answer@),
{
    match answer.get("STATUS") {
        Some(Json::Array(st)) => {
            proof {
                crate::json::lemma_items_view_len(st@);
            }
            if st.len() == 0 {
                return None;
            }
            match str_in(st[0].get("Msg")) {
                Some(m) => Some(text_eq(m, "ASC 0 set OK")),
                None => None,
            }
        },
        _ => None,
    }
}

/// Whether a `restart` answer confirms the restart: its `STATUS` text is
/// `RESTART`.
pub fn restart_confirmed(answer: &Json) -> (r: bool)
    ensures
        r == (opt_str(answer@.get("STATUS"@)) == Some("RESTART"@)),
{
    match str_in(answer.get("STATUS")) {
        Some(s) => text_eq(s, "RESTART"),
        None => false,
    }
}

/// The `ascset` parameter that switches mining off at a time (seconds since
/// the epoch): `softoff,1:` and the time.
pub fn softoff_parameter(timestamp: u64) -> (r: String)
    ensures
        r@ == "softoff,1:"@ + decimal_text(timestamp as nat),
{
    let mut s = String::new();
    push_text(&mut s, "softoff,1:");
    let t = u64_to_text(timestamp);
    push_text(&mut s, t.as_str());
    s
}

/// The `ascset` parameter that switches mining on at a time (seconds since
/// the epoch): `softon,1:` and the time.
pub fn softon_parameter(timestamp: u64) -> (r: String)
    ensures
        r@ == "softon,1:"@ + decimal_text(timestamp as nat),
{
    let mut s = String::new();
    push_text(&mut s, "softon,1:");
    let t = u64_to_text(timestamp);
    push_text(&mut s, t.as_str());
    s
}

/// The `ascset` LED parameter: `1-1` to switch the light on, `1-0` off.
pub fn led_parameter(fault: bool) -> (r: &'static str)
    ensures
        r@ == if fault {
            "1-1"@
        } else {
            "1-0"@
        },
{
    if fault {
        "1-1"
    } else {
        "1-0"
    }
}

/// Whether a failed resume request still succeeded: switching mining on
/// closes the connection, so an error that no data came or that the request
/// timed out means the miner took the command.
pub fn resume_error_means_done(error: &str) -> (r: bool)
    ensures
        r == (contains_spec(error@, "No data received"@) || contains_spec(error@, "timed out"@)),
{
    contains_text(error, "No data received") || contains_text(error, "timed out")
}

/// The number of bytes UTF-8 takes for a character.
pub open spec fn utf8_width(c: char) -> nat {
    if (c as u32) < 0x80 {
        1
    } else if (c as u32) < 0x800 {
        2
    } else if (c as u32) < 0x10000 {
        3
    } else {
        4
    }
}

/// The number of bytes UTF-8 takes for a text (`str::len`).
pub open spec fn utf8_len(s: Seq<char>) -> nat
    decreases s.len(),
{
    if s.len() == 0 {
        0
    } else {
        utf8_len(s.drop_last()) + utf8_width(s.last())
    }
}

/// A text with a `:` before every character at an even position other than
/// the first (`aabbcc` becomes `aa:bb:cc`).
pub open spec fn with_colons(s: Seq<char>) -> Seq<char>
    decreases s.len(),
{
    if s.len() == 0 {
        Seq::empty()
    } else {
        let i = s.len() - 1;
        if i > 0 && i % 2 == 0 {
            with_colons(s.drop_last()).push(':').push(s.last())
        } else {
            with_colons(s.drop_last()).push(s.last())
        }
    }
}

/// The text an Avalon MAC address is read from: the reported text trimmed
/// and lower-cased, with colons put in when it is twelve bytes without any.
pub open spec fn avalon_mac_text(raw: Seq<char>) -> Seq<char> {
    let m = unicode_lowercase(unicode_trim(raw));
    if utf8_len(m) == 12 && !m.contains(':') {
        with_colons(m)
    } else {
        m
    }
}

/// The MAC address an Avalon reports: the bytes `MacAddr::from_str` reads
/// from [`avalon_mac_text`].
pub open spec fn avalon_mac(mac: Option<JsonV>) -> Option<Seq<u8>> {
    match opt_str(mac) {
        Some(s) => mac_text_bytes(avalon_mac_text(s)),
        None => None,
    }
}

/// The number of bytes UTF-8 takes for a text.
fn utf8_length(s: &str) -> (r: u128)
    ensures
        r == utf8_len(s@),
{
    let n = s.unicode_len();
    let mut total: u128 = 0;
    let mut i: usize = 0;
    while i < n
        invariant
            n == s@.len(),
            i <= n,
            total == utf8_len(s@.subrange(0, i as int)),
            total <= 4 * i,
        decreases n - i,
    {
        let c = s.get_char(i);
        let w: u128 = if (c as u32) < 0x80 {
            1
        } else if (c as u32) < 0x800 {
            2
        } else if (c as u32) < 0x10000 {
            3
        } else {
            4
        };
        assert(s@.subrange(0, i + 1).drop_last() =~= s@.subrange(0, i as int));
        total = total + w;
        i = i + 1;
    }
    assert(s@.subrange(0, n as int) =~= s@);
    total
}

/// The text an Avalon MAC address is read from (see [`avalon_mac_text`]).
pub fn normalize_mac_text(raw: &str) -> (r: String)
    ensures
        r@ == avalon_mac_text(raw@),
{
    let m = to_lowercase(trim_text(raw).as_str());
    let n = m.as_str().unicode_len();
    let mut has_colon = false;
    let mut i: usize = 0;
    while i < n
        invariant
            n == m@.len(),
            i <= n,
            has_colon == exists|j: int| 0 <= j < i && m@[j] == ':',
        decreases n - i,
    {
        if m.as_str().get_char(i) == ':' {
            has_colon = true;
        }
        i = i + 1;
    }
    assert(has_colon == m@.contains(':'));
    if utf8_length(m.as_str()) == 12 && !has_colon {
        let mut out = String::new();
        let mut k: usize = 0;
        while k < n
            invariant
                n == m@.len(),
                k <= n,
                out@ == with_colons(m@.subrange(0, k as int)),
            decreases n - k,
        {
            let c = m.as_str().get_char(k);
            if k > 0 && k % 2 == 0 {
                push_char(&mut out, ':');
            }
            push_char(&mut out, c);
            assert(m@.subrange(0, k + 1).drop_last() =~= m@.subrange(0, k as int));
            k = k + 1;
        }
        assert(m@.subrange(0, n as int) =~= m@);
        out
    } else {
        m
    }
}

/// The MAC address an Avalon reports (see [`avalon_mac`]), as its bytes.
pub fn parse_mac(mac: Option<&Json>) -> (r: Option<Vec<u8>>)
    ensures
        match r {
            Some(b) => avalon_mac(view_opt(mac)) == Some(b@),
            None => avalon_mac(view_opt(mac)) is None,
        },
{
    match str_in(mac) {
        Some(s) => {
            let text = normalize_mac_text(s);
            mac_from_text(text.as_str())
        },
        None => None,
    }
}

} // verus!
