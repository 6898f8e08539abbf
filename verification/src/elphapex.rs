//! Elphapex firmware: where it reports each field, its counts written as
//! text, work modes, messages, uptime and pools.
use vstd::prelude::*;
use crate::data::{ConfigField, MessageSeverity, MinerMessage, MiningMode, message_view, messages_view};
use crate::fields::{
    ApiKind, DataField, DataLocation, LocationV, at, location_v, locations_view, rpc, tagged_at, web,
};
use crate::json::{
    Json, JsonV, items_view, lemma_items_view_len, opt_array, opt_get, opt_str, opt_u64, pointer_in,
    pointer_spec, split_on, split_text, str_in, str_or_empty, text_or_empty, u64_in, view_opt,
};
use crate::pools::{
    PoolConfig, PoolConfigV, PoolData, PoolDataV, PoolGroupConfig, PoolGroupConfigV, PoolGroupData,
    PoolGroupDataV, PoolURL, at_most, opt_text, opt_url, pool_configs_view, pool_datas_view,
    pool_group_datas_view, pool_groups_view,
};
use crate::text::{
    ascii_uppercase_spec, to_ascii_uppercase, decimal_text, eq_ignore_ascii_case, eq_ignore_ascii_case_spec, is_digit, parse_i64,
    parse_i64_spec, parse_u64, parse_u64_spec, push_char, push_text, text_eq, trim_text,
    u64_to_text, unicode_trim,
};

verus! {

/// Where the Elphapex firmware reports each field.
pub open spec fn elphapex_locations(field: DataField) -> Seq<LocationV> {
    match field {
        DataField::Mac => seq![location_v(ApiKind::Web, "get_system_info"@, "/macaddr"@, None), location_v(ApiKind::Web, "get_network_info"@, "/macaddr"@, None)],
        DataField::SerialNumber => seq![location_v(ApiKind::Web, "stats"@, "/INFO/dev_sn"@, None)],
        DataField::Hostname => seq![location_v(ApiKind::Web, "get_system_info"@, "/hostname"@, None)],
        DataField::ApiVersion => seq![location_v(ApiKind::Web, "summary"@, "/STATUS/api_version"@, None)],
        DataField::FirmwareVersion => seq![location_v(ApiKind::Web, "get_system_info"@, "/system_filesystem_version"@, None), location_v(ApiKind::Web, "stats"@, "/INFO/miner_version"@, None)],
        DataField::ControlBoardVersion => seq![location_v(ApiKind::Web, "stats"@, "/INFO/hw_version"@, None)],
        DataField::Hashboards => seq![location_v(ApiKind::Web, "stats"@, ""@, None)],
        DataField::Hashrate => seq![location_v(ApiKind::Web, "stats"@, ""@, None)],
        DataField::ExpectedHashrate => seq![location_v(ApiKind::Web, "stats"@, ""@, None)],
        DataField::Fans => seq![location_v(ApiKind::Web, "stats"@, ""@, None)],
        DataField::Uptime => seq![location_v(ApiKind::Web, "stats"@, ""@, None)],
        DataField::Messages => seq![location_v(ApiKind::Web, "summary"@, ""@, None)],
        DataField::LightFlashing => seq![location_v(ApiKind::Web, "get_blink_status"@, "/blink"@, None)],
        DataField::IsMining => seq![location_v(ApiKind::Web, "get_miner_conf"@, "/fc-work-mode"@, None)],
        DataField::Wattage => seq![location_v(ApiKind::Web, "get_power"@, "/power_output"@, None)],
        DataField::TuningPercent => seq![location_v(ApiKind::Web, "get_miner_conf"@, "/fc-freq-level"@, None)],
        DataField::TuningTarget => seq![location_v(ApiKind::Web, "get_miner_conf"@, ""@, None)],
        DataField::Pools => seq![location_v(ApiKind::Web, "pools"@, ""@, None)],
        _ => Seq::empty(),
    }
}


/// Where the Elphapex firmware reports a field (see [`elphapex_locations`]).
pub fn get_locations(field: DataField) -> (r: Vec<DataLocation>)
    ensures
        locations_view(r@) == elphapex_locations(field),
{
    match field {
        DataField::Mac => vec![at(web("get_system_info"), "/macaddr"), at(web("get_network_info"), "/macaddr")],
        DataField::SerialNumber => vec![at(web("stats"), "/INFO/dev_sn")],
        DataField::Hostname => vec![at(web("get_system_info"), "/hostname")],
        DataField::ApiVersion => vec![at(web("summary"), "/STATUS/api_version")],
        DataField::FirmwareVersion => vec![at(web("get_system_info"), "/system_filesystem_version"), at(web("stats"), "/INFO/miner_version")],
        DataField::ControlBoardVersion => vec![at(web("stats"), "/INFO/hw_version")],
        DataField::Hashboards => vec![at(web("stats"), "")],
        DataField::Hashrate => vec![at(web("stats"), "")],
        DataField::ExpectedHashrate => vec![at(web("stats"), "")],
        DataField::Fans => vec![at(web("stats"), "")],
        DataField::Uptime => vec![at(web("stats"), "")],
        DataField::Messages => vec![at(web("summary"), "")],
        DataField::LightFlashing => vec![at(web("get_blink_status"), "/blink")],
        DataField::IsMining => vec![at(web("get_miner_conf"), "/fc-work-mode")],
        DataField::Wattage => vec![at(web("get_power"), "/power_output")],
        DataField::TuningPercent => vec![at(web("get_miner_conf"), "/fc-freq-level")],
        DataField::TuningTarget => vec![at(web("get_miner_conf"), "")],
        DataField::Pools => vec![at(web("pools"), "")],
        _ => vec![],
    }
}

/// The digits of a count written as text: the leading run of digits and
/// commas, without the commas.
pub open spec fn count_digits(s: Seq<char>) -> Seq<char>
    decreases s.len(),
{
    if s.len() == 0 || !(is_digit(s[0]) || s[0] == ',') {
        Seq::empty()
    } else if s[0] == ',' {
        count_digits(s.drop_first())
    } else {
        seq![s[0]] + count_digits(s.drop_first())
    }
}

/// A count: an integer `>= 0`, or a text whose trimmed leading digits (commas
/// allowed) give a `u64`.
pub open spec fn count_of(v: Option<JsonV>) -> Option<u64> {
    match opt_u64(v) {
        Some(n) => Some(n),
        None => match opt_str(v) {
            Some(s) => {
                let d = count_digits(unicode_trim(s));
                if d.len() == 0 {
                    None
                } else {
                    parse_u64_spec(d)
                }
            },
            None => None,
        },
    }
}

/// The digits of a count written as text (see [`count_digits`]).
fn digits_of_count(s: &str) -> (r: String)
    ensures
        r@ == count_digits(s@),
{
    let n = s.unicode_len();
    let mut out = String::new();
    let mut i: usize = 0;
    assert(s@.skip(0) =~= s@);
    while i < n
        invariant
            n == s@.len(),
            i <= n,
            out@ + count_digits(s@.skip(i as int)) == count_digits(s@),
        decreases n - i,
    {
        let c = s.get_char(i);
        let ghost rest = s@.skip(i as int);
        assert(rest[0] == c);
        assert(rest.drop_first() =~= s@.skip(i + 1));
        if !(('0' <= c && c <= '9') || c == ',') {
            assert(count_digits(rest) == Seq::<char>::empty());
            assert(out@ =~= out@ + count_digits(rest));
            return out;
        }
        if c != ',' {
            let ghost before = out@;
            push_char(&mut out, c);
            assert(before + count_digits(rest) =~= out@ + count_digits(s@.skip(i + 1)));
        }
        i = i + 1;
    }
    assert(s@.skip(n as int).len() == 0);
    assert(out@ =~= out@ + count_digits(s@.skip(n as int)));
    out
}

/// Read a count (see [`count_of`]).
pub fn parse_count(value: Option<&Json>) -> (r: Option<u64>)
    ensures
        r == count_of(view_opt(value)),
{
    match u64_in(value) {
        Some(n) => Some(n),
        None => match str_in(value) {
            Some(s) => {
                let d = digits_of_count(trim_text(s).as_str());
                if d.as_str().unicode_len() == 0 {
                    None
                } else {
                    parse_u64(d.as_str())
                }
            },
            None => None,
        },
    }
}

/// A work-mode number: an integer of `i64`, or a text that parses as one.
pub open spec fn mode_number(v: Option<JsonV>) -> Option<i64> {
    match crate::json::opt_i64(v) {
        Some(n) => Some(n),
        None => match opt_str(v) {
            Some(s) => parse_i64_spec(s),
            None => None,
        },
    }
}

/// Read a work-mode number (see [`mode_number`]).
fn read_mode_number(value: Option<&Json>) -> (r: Option<i64>)
    ensures
        r == mode_number(view_opt(value)),
{
    match crate::json::i64_in(value) {
        Some(n) => Some(n),
        None => match str_in(value) {
            Some(s) => parse_i64(s),
            None => None,
        },
    }
}

/// The mining mode of a work-mode number: 0 normal, 2 high, 3 low.
pub open spec fn work_mode_of(n: Option<i64>) -> Option<MiningMode> {
    match n {
        Some(0) => Some(MiningMode::Normal),
        Some(2) => Some(MiningMode::High),
        Some(3) => Some(MiningMode::Low),
        _ => None,
    }
}

/// Elphapex numbers its work modes as the Antminer web interface does:
/// the number written for the work mode of `m` reads back as `m`.
pub proof fn lemma_work_mode_numbers(m: MiningMode)
    ensures
        work_mode_of(
            Some(crate::antminer::web_value(crate::antminer::MinerMode::from_mining_mode_spec(m)) as i64),
        ) == Some(m),
{
}

/// The mining mode a work-mode value gives (see [`work_mode_of`]).
pub fn parse_work_mode(value: Option<&Json>) -> (r: Option<MiningMode>)
    ensures
        r == work_mode_of(mode_number(view_opt(value))),
{
    match read_mode_number(value) {
        Some(0) => Some(MiningMode::Normal),
        Some(2) => Some(MiningMode::High),
        Some(3) => Some(MiningMode::Low),
        _ => None,
    }
}

/// The mining mode the miner configuration is tuned to: that of its
/// `fc-work-mode`.
pub fn parse_tuning_target(config: Option<&Json>) -> (r: Option<MiningMode>)
    ensures
        r == work_mode_of(mode_number(opt_get(view_opt(config), "fc-work-mode"@))),
{
    parse_work_mode(crate::json::get_in(config, "fc-work-mode"))
}

/// The tuning percentage: a count that fits in `u8`.
pub fn parse_tuning_percent(value: Option<&Json>) -> (r: Option<u8>)
    ensures
        r == match count_of(view_opt(value)) {
            Some(p) => if p <= u8::MAX {
                Some(p as u8)
            } else {
                None
            },
            None => None,
        },
{
    match parse_count(value) {
        Some(p) => if p <= 255 {
            Some(p as u8)
        } else {
            None
        },
        None => None,
    }
}

/// Whether the miner mines: its work mode is a number other than 1 (sleep);
/// without a work mode, whether its hash rate is above zero.
pub fn parse_is_mining(mode: Option<&Json>, hashrate_above_zero: Option<bool>) -> (r: bool)
    ensures
        r == match mode_number(view_opt(mode)) {
            Some(m) => m != 1,
            None => hashrate_above_zero == Some(true),
        },
{
    match read_mode_number(mode) {
        Some(m) => m != 1,
        None => match hashrate_above_zero {
            Some(b) => b,
            None => false,
        },
    }
}

/// The message of one status entry, when its `status` is a text other than
/// `s` (in any case): its `msg` (or a generic warning) as an error.
pub open spec fn elphapex_message(item: JsonV, timestamp: u32) -> Option<(u32, u64, Seq<char>, MessageSeverity)> {
    match opt_str(item.get("status"@)) {
        Some(state) => if eq_ignore_ascii_case_spec(state, "s"@) {
            None
        } else {
            Some(
                (
                    timestamp,
                    0u64,
                    match opt_str(item.get("msg"@)) {
                        Some(m) => m,
                        None => "Elphapex status warning"@,
                    },
                    MessageSeverity::Error,
                ),
            )
        },
        None => None,
    }
}

/// The messages of a list of status entries, in order.
pub open spec fn elphapex_messages(items: Seq<JsonV>, timestamp: u32) -> Seq<(u32, u64, Seq<char>, MessageSeverity)>
    decreases items.len(),
{
    if items.len() == 0 {
        Seq::empty()
    } else {
        let rest = elphapex_messages(items.drop_last(), timestamp);
        match elphapex_message(items.last(), timestamp) {
            Some(m) => rest.push(m),
            None => rest,
        }
    }
}

/// The messages of a summary read at `timestamp`: those of its
/// `/SUMMARY/0/status` entries (see [`elphapex_message`]).
pub fn parse_messages(summary: Option<&Json>, timestamp: u32) -> (r: Vec<MinerMessage>)
    ensures
        messages_view(r@) == match opt_array(
            match view_opt(summary) {
                Some(s) => pointer_spec(s, "/SUMMARY/0/status"@),
                None => None,
            },
        ) {
            Some(items) => elphapex_messages(items, timestamp),
            None => Seq::empty(),
        },
{
    let mut out: Vec<MinerMessage> = Vec::new();
    let items = match crate::json::array_in(pointer_in(summary, "/SUMMARY/0/status")) {
        Some(items) => items,
        None => {
            assert(messages_view(out@) =~= Seq::<(u32, u64, Seq<char>, MessageSeverity)>::empty());
            return out;
        },
    };
    let ghost iv = items_view(items@);
    let mut i: usize = 0;
    assert(iv.take(0) =~= Seq::<JsonV>::empty());
    assert(messages_view(out@) =~= Seq::<(u32, u64, Seq<char>, MessageSeverity)>::empty());
    while i < items.len()
        invariant
            i <= items@.len(),
            iv == items_view(items@),
            iv.len() == items@.len(),
            forall|j: int| 0 <= j < items@.len() ==> #[trigger] iv[j] == items@[j]@,
            messages_view(out@) == elphapex_messages(iv.take(i as int), timestamp),
        decreases items@.len() - i,
    {
        let ghost before = out@;
        assert(iv.take(i + 1).drop_last() =~= iv.take(i as int));
        let item = &items[i];
        match str_in(item.get("status")) {
            Some(state) => {
                if !eq_ignore_ascii_case(state, "s") {
                    let text = match str_in(item.get("msg")) {
                        Some(m) => m.to_owned(),
                        None => "Elphapex status warning".to_owned(),
                    };
                    let m = MinerMessage::new(timestamp, 0, text, MessageSeverity::Error);
                    out.push(m);
                    assert(messages_view(out@) =~= messages_view(before).push(message_view(m)));
                }
            },
            None => {},
        }
        i = i + 1;
    }
    assert(iv.take(items@.len() as int) =~= iv);
    out
}

/// The statistics entry of a `stats` answer: `/STATS/0`, else the first
/// element of `STATS`, else the answer itself.
pub open spec fn stats_entry(stats: JsonV) -> JsonV {
    match pointer_spec(stats, "/STATS/0"@) {
        Some(v) => v,
        None => match stats.get("STATS"@) {
            Some(JsonV::Array(a)) => if a.len() > 0 {
                a[0]
            } else {
                stats
            },
            _ => stats,
        },
    }
}

/// The time the miner has run, in seconds: the `elapsed` count of its
/// statistics entry (see [`stats_entry`]).
pub fn parse_uptime(stats: Option<&Json>) -> (r: Option<u64>)
    ensures
        r == match view_opt(stats) {
            Some(s) => count_of(stats_entry(s).get("elapsed"@)),
            None => None,
        },
{
    let s = match stats {
        Some(s) => s,
        None => return None,
    };
    let entry = match s.pointer("/STATS/0") {
        Some(v) => v,
        None => match s.get("STATS") {
            Some(Json::Array(a)) => {
                proof {
                    lemma_items_view_len(a@);
                }
                if a.len() > 0 {
                    &a[0]
                } else {
                    s
                }
            },
            _ => s,
        },
    };
    parse_count(entry.get("elapsed"))
}

/// Whether a pool entry's `status` says it is alive, when it has one.
pub open spec fn pool_alive(p: JsonV) -> Option<bool> {
    match opt_str(p.get("status"@)) {
        Some(s) => Some(eq_ignore_ascii_case_spec(s, "alive"@)),
        None => None,
    }
}

/// The priority and index of an alive pool entry that has both.
pub open spec fn candidate(p: JsonV) -> Option<(u64, u64)> {
    if pool_alive(p) == Some(true) {
        match (count_of(p.get("priority"@)), count_of(p.get("index"@))) {
            (Some(pr), Some(ix)) => Some((pr, ix)),
            _ => None,
        }
    } else {
        None
    }
}

/// The candidate with the lowest priority, the first one among equals.
pub open spec fn best_candidate(ps: Seq<JsonV>) -> Option<(u64, u64)>
    decreases ps.len(),
{
    if ps.len() == 0 {
        None
    } else {
        let rest = best_candidate(ps.drop_first());
        match candidate(ps[0]) {
            Some(c) => match rest {
                Some(r) => if r.0 < c.0 {
                    Some(r)
                } else {
                    Some(c)
                },
                None => Some(c),
            },
            None => rest,
        }
    }
}

/// The index of the pool the miner mines on: that of the best candidate.
pub open spec fn active_index(ps: Seq<JsonV>) -> Option<u64> {
    match best_candidate(ps) {
        Some(c) => Some(c.1),
        None => None,
    }
}

/// A non-empty text.
pub open spec fn nonempty(v: Option<JsonV>) -> Option<Seq<char>> {
    match opt_str(v) {
        Some(s) => if s.len() > 0 {
            Some(s)
        } else {
            None
        },
        None => None,
    }
}

/// The pool the entry at `idx` describes: its `index` (or its place) as
/// position when it fits in `u16`; active when its index is the active
/// one (or, without an index, when it is alive).
pub open spec fn elphapex_pool(idx: int, p: JsonV, active: Option<u64>) -> PoolDataV {
    let raw_index = count_of(p.get("index"@));
    PoolDataV {
        position: match raw_index {
            Some(i) if i <= u16::MAX => Some(i as u16),
            _ => if idx <= u16::MAX {
                Some(idx as u16)
            } else {
                None
            },
        },
        url: nonempty(p.get("url"@)),
        accepted_shares: count_of(p.get("accepted"@)),
        rejected_shares: count_of(p.get("rejected"@)),
        active: match raw_index {
            Some(i) => Some(Some(i) == active),
            None => pool_alive(p),
        },
        alive: pool_alive(p),
        user: nonempty(p.get("user"@)),
    }
}

/// The reported pool groups: none without a `POOLS` list, else one group
/// named `default` with quota 1 holding a pool per entry.
pub open spec fn elphapex_pools(data: Option<JsonV>) -> Seq<PoolGroupDataV> {
    match opt_array(opt_get(data, "POOLS"@)) {
        Some(ps) => seq![
            PoolGroupDataV {
                name: "default"@,
                quota: 1,
                pools: Seq::new(ps.len(), |i: int| elphapex_pool(i, ps[i], active_index(ps))),
            },
        ],
        None => Seq::empty(),
    }
}

/// Read whether a pool entry is alive.
fn read_pool_alive(p: &Json) -> (r: Option<bool>)
    ensures
        r == pool_alive(p@),
{
    match str_in(p.get("status")) {
        Some(s) => Some(eq_ignore_ascii_case(s, "alive")),
        None => None,
    }
}

/// A non-empty text value.
fn read_nonempty(v: Option<&Json>) -> (r: Option<&str>)
    ensures
        crate::json::text_opt(r) == nonempty(view_opt(v)),
{
    match str_in(v) {
        Some(s) => if s.unicode_len() > 0 {
            Some(s)
        } else {
            None
        },
        None => None,
    }
}

/// Read the pool entry at `idx`.
fn read_elphapex_pool(idx: usize, p: &Json, active: Option<u64>) -> (r: PoolData)
    ensures
        r@ == elphapex_pool(idx as int, p@, active),
{
    let raw_index = parse_count(p.get("index"));
    let position = match raw_index {
        Some(i) if i <= 65535 => Some(i as u16),
        _ => if idx <= 65535 {
            Some(idx as u16)
        } else {
            None
        },
    };
    let alive = read_pool_alive(p);
    let active_flag = match raw_index {
        Some(i) => Some(match active {
            Some(a) => a == i,
            None => false,
        }),
        None => alive,
    };
    PoolData {
        position,
        url: match read_nonempty(p.get("url")) {
            Some(u) => Some(PoolURL::new(u.to_owned())),
            None => None,
        },
        accepted_shares: parse_count(p.get("accepted")),
        rejected_shares: parse_count(p.get("rejected")),
        active: active_flag,
        alive,
        user: match read_nonempty(p.get("user")) {
            Some(u) => Some(u.to_owned()),
            None => None,
        },
    }
}

/// The reported pool groups (see [`elphapex_pools`]).
pub fn parse_pools(data: Option<&Json>) -> (r: Vec<PoolGroupData>)
    ensures
        pool_group_datas_view(r@) == elphapex_pools(view_opt(data)),
{
    let items = match crate::json::array_in(crate::json::get_in(data, "POOLS")) {
        Some(items) => items,
        None => {
            let r: Vec<PoolGroupData> = Vec::new();
            assert(pool_group_datas_view(r@) =~= Seq::<PoolGroupDataV>::empty());
            return r;
        },
    };
    let ghost iv = items_view(items@);
    let n = items.len();
    let mut best: Option<(u64, u64)> = None;
    let mut k: usize = n;
    assert(iv.skip(n as int).len() == 0);
    while k > 0
        invariant
            k <= n,
            n == items@.len(),
            iv == items_view(items@),
            iv.len() == items@.len(),
            forall|j: int| 0 <= j < items@.len() ==> #[trigger] iv[j] == items@[j]@,
            best == best_candidate(iv.skip(k as int)),
        decreases k,
    {
        k = k - 1;
        let p = &items[k];
        assert(iv.skip(k as int).drop_first() =~= iv.skip(k + 1));
        assert(iv.skip(k as int)[0] == iv[k as int]);
        let c = if read_pool_alive(p) == Some(true) {
            match (parse_count(p.get("priority")), parse_count(p.get("index"))) {
                (Some(pr), Some(ix)) => Some((pr, ix)),
                _ => None,
            }
        } else {
            None
        };
        assert(c == candidate(iv[k as int]));
        best = match c {
            Some(cv) => match best {
                Some(r) => if r.0 < cv.0 {
                    Some(r)
                } else {
                    Some(cv)
                },
                None => Some(cv),
            },
            None => best,
        };
    }
    assert(iv.skip(0) =~= iv);
    let active = match best {
        Some(b) => Some(b.1),
        None => None,
    };
    let mut out: Vec<PoolData> = Vec::new();
    let mut i: usize = 0;
    while i < n
        invariant
            i <= n,
            n == items@.len(),
            iv == items_view(items@),
            iv.len() == items@.len(),
            forall|j: int| 0 <= j < items@.len() ==> #[trigger] iv[j] == items@[j]@,
            active == active_index(iv),
            out@.len() == i,
            forall|j: int| 0 <= j < i ==> #[trigger] out@[j]@ == elphapex_pool(j, iv[j], active),
        decreases n - i,
    {
        let p = read_elphapex_pool(i, &items[i], active);
        out.push(p);
        i = i + 1;
    }
    assert(pool_datas_view(out@) =~= Seq::new(iv.len(), |i: int| elphapex_pool(i, iv[i], active_index(iv))));
    proof {
        reveal_strlit("default");
    }
    let r = vec![PoolGroupData { name: "default".to_owned(), quota: 1, pools: out }];
    assert(pool_group_datas_view(r@) =~= elphapex_pools(view_opt(data)));
    r
}

/// Whether the blink request was taken: code `B000` after switching the
/// light on, `B100` after switching it off.
pub fn blink_confirmed(flashing: bool, code: Option<&str>) -> (r: bool)
    ensures
        r == match code {
            Some(c) => if flashing {
                c@ == "B000"@
            } else {
                c@ == "B100"@
            },
            None => false,
        },
{
    match code {
        Some(c) => if flashing {
            text_eq(c, "B000")
        } else {
            text_eq(c, "B100")
        },
        None => false,
    }
}

/// A configured pool entry with a non-empty `url`: its `user` (or an empty
/// one) and its `pass` (or `x`).
pub open spec fn conf_pool(p: JsonV) -> Option<PoolConfigV> {
    match nonempty(p.get("url"@)) {
        Some(url) => Some(
            PoolConfigV {
                url,
                username: str_or_empty(p.get("user"@)),
                password: match opt_str(p.get("pass"@)) {
                    Some(s) => s,
                    None => "x"@,
                },
            },
        ),
        None => None,
    }
}

/// The configured pool entries with a non-empty `url`, in order.
pub open spec fn conf_pools(ps: Seq<JsonV>) -> Seq<PoolConfigV>
    decreases ps.len(),
{
    if ps.len() == 0 {
        Seq::empty()
    } else {
        let rest = conf_pools(ps.drop_last());
        match conf_pool(ps.last()) {
            Some(p) => rest.push(p),
            None => rest,
        }
    }
}

/// The key of a numbered pool setting: `pool`, the number, and the suffix.
pub open spec fn pool_key(idx: nat, suffix: Seq<char>) -> Seq<char> {
    "pool"@ + decimal_text(idx) + suffix
}

/// The text under the first of the keys that holds a text.
pub open spec fn first_text(config: JsonV, keys: Seq<Seq<char>>) -> Option<Seq<char>>
    decreases keys.len(),
{
    if keys.len() == 0 {
        None
    } else {
        match opt_str(config.get(keys[0])) {
            Some(s) => Some(s),
            None => first_text(config, keys.drop_first()),
        }
    }
}

/// The pool numbered `idx` in a flat configuration: its `url` (or `_url`)
/// when not empty, its `user` (or `_user`, else empty) and its `pw`
/// (or `pass`, or `_pass`, else `x`).
pub open spec fn numbered_pool(config: JsonV, idx: nat) -> Option<PoolConfigV> {
    match first_text(config, seq![pool_key(idx, "url"@), pool_key(idx, "_url"@)]) {
        Some(url) => if url.len() > 0 {
            Some(
                PoolConfigV {
                    url,
                    username: match first_text(config, seq![pool_key(idx, "user"@), pool_key(idx, "_user"@)]) {
                        Some(s) => s,
                        None => Seq::empty(),
                    },
                    password: match first_text(
                        config,
                        seq![pool_key(idx, "pw"@), pool_key(idx, "pass"@), pool_key(idx, "_pass"@)],
                    ) {
                        Some(s) => s,
                        None => "x"@,
                    },
                },
            )
        } else {
            None
        },
        None => None,
    }
}

/// A pool, when there is one, as a list.
pub open spec fn opt_pool(p: Option<PoolConfigV>) -> Seq<PoolConfigV> {
    match p {
        Some(x) => seq![x],
        None => Seq::empty(),
    }
}

/// The numbered pools 0 to `n - 1` that are set, in order.
pub open spec fn numbered_pools(config: JsonV, n: nat) -> Seq<PoolConfigV>
    decreases n,
{
    if n == 0 {
        Seq::empty()
    } else {
        numbered_pools(config, (n - 1) as nat) + opt_pool(numbered_pool(config, (n - 1) as nat))
    }
}

/// The configured pool groups: none without a configuration, else one group
/// named `default` with quota 1 holding the first three entries of its
/// `pools` list, or, without such a list, its numbered pools 0 to 2.
pub open spec fn elphapex_pool_config(config: Option<JsonV>) -> Seq<PoolGroupConfigV> {
    match config {
        None => Seq::empty(),
        Some(c) => seq![
            PoolGroupConfigV {
                name: "default"@,
                quota: 1,
                pools: match opt_array(c.get("pools"@)) {
                    Some(ps) => at_most(conf_pools(ps), 3),
                    None => numbered_pools(c, 3),
                },
            },
        ],
    }
}

/// The key of a numbered pool setting.
fn pool_key_text(idx: u64, suffix: &str) -> (r: String)
    ensures
        r@ == pool_key(idx as nat, suffix@),
{
    let mut s = String::new();
    push_text(&mut s, "pool");
    let d = u64_to_text(idx);
    push_text(&mut s, d.as_str());
    push_text(&mut s, suffix);
    proof {
        reveal_strlit("pool");
    }
    assert(s@ =~= pool_key(idx as nat, suffix@));
    s
}

/// The text under the first of the keys that holds a text.
fn first_text_of<'a>(config: &'a Json, keys: &Vec<String>) -> (r: Option<&'a str>)
    ensures
        crate::json::text_opt(r) == first_text(config@, keys@.map_values(|k: String| k@)),
{
    let ghost kv = keys@.map_values(|k: String| k@);
    let mut i: usize = 0;
    assert(kv.skip(0) =~= kv);
    while i < keys.len()
        invariant
            i <= keys@.len(),
            kv == keys@.map_values(|k: String| k@),
            first_text(config@, kv) == first_text(config@, kv.skip(i as int)),
        decreases keys@.len() - i,
    {
        assert(kv.skip(i as int).drop_first() =~= kv.skip(i + 1));
        assert(kv.skip(i as int)[0] == keys@[i as int]@);
        match str_in(config.get(keys[i].as_str())) {
            Some(s) => {
                return Some(s);
            },
            None => {},
        }
        i = i + 1;
    }
    assert(kv.skip(keys@.len() as int).len() == 0);
    None
}

/// Read the pool numbered `idx` in a flat configuration.
fn read_numbered_pool(config: &Json, idx: u64) -> (r: Option<PoolConfig>)
    ensures
        match r {
            Some(p) => numbered_pool(config@, idx as nat) == Some(p@),
            None => numbered_pool(config@, idx as nat) is None,
        },
{
    let url_keys = vec![pool_key_text(idx, "url"), pool_key_text(idx, "_url")];
    let user_keys = vec![pool_key_text(idx, "user"), pool_key_text(idx, "_user")];
    let pass_keys = vec![pool_key_text(idx, "pw"), pool_key_text(idx, "pass"), pool_key_text(idx, "_pass")];
    assert(url_keys@.map_values(|k: String| k@) =~= seq![pool_key(idx as nat, "url"@), pool_key(idx as nat, "_url"@)]);
    assert(user_keys@.map_values(|k: String| k@) =~= seq![pool_key(idx as nat, "user"@), pool_key(idx as nat, "_user"@)]);
    assert(pass_keys@.map_values(|k: String| k@) =~= seq![
        pool_key(idx as nat, "pw"@),
        pool_key(idx as nat, "pass"@),
        pool_key(idx as nat, "_pass"@),
    ]);
    let url = match first_text_of(config, &url_keys) {
        Some(u) => u,
        None => return None,
    };
    if url.unicode_len() == 0 {
        return None;
    }
    let username = match first_text_of(config, &user_keys) {
        Some(s) => s.to_owned(),
        None => String::new(),
    };
    let password = match first_text_of(config, &pass_keys) {
        Some(s) => s.to_owned(),
        None => {
            proof {
                reveal_strlit("x");
            }
            "x".to_owned()
        },
    };
    Some(PoolConfig { url: PoolURL::new(url.to_owned()), username, password })
}

/// Read a configured pool entry.
fn read_conf_pool(p: &Json) -> (r: Option<PoolConfig>)
    ensures
        match r {
            Some(c) => conf_pool(p@) == Some(c@),
            None => conf_pool(p@) is None,
        },
{
    let url = match read_nonempty(p.get("url")) {
        Some(u) => u,
        None => return None,
    };
    let password = match str_in(p.get("pass")) {
        Some(s) => s.to_owned(),
        None => {
            proof {
                reveal_strlit("x");
            }
            "x".to_owned()
        },
    };
    Some(PoolConfig { url: PoolURL::new(url.to_owned()), username: text_or_empty(p.get("user")), password })
}

/// The configured pool groups (see [`elphapex_pool_config`]).
pub fn parse_pools_config(config: Option<&Json>) -> (r: Vec<PoolGroupConfig>)
    ensures
        pool_groups_view(r@) == elphapex_pool_config(view_opt(config)),
{
    let c = match config {
        Some(c) => c,
        None => {
            let r: Vec<PoolGroupConfig> = Vec::new();
            assert(pool_groups_view(r@) =~= Seq::<PoolGroupConfigV>::empty());
            return r;
        },
    };
    let mut pools: Vec<PoolConfig> = Vec::new();
    match crate::json::array_in(c.get("pools")) {
        Some(items) => {
            let ghost iv = items_view(items@);
            let mut i: usize = 0;
            assert(iv.take(0) =~= Seq::<JsonV>::empty());
            assert(pool_configs_view(pools@) =~= Seq::<PoolConfigV>::empty());
            while i < items.len()
                invariant
                    i <= items@.len(),
                    iv == items_view(items@),
                    iv.len() == items@.len(),
                    forall|j: int| 0 <= j < items@.len() ==> #[trigger] iv[j] == items@[j]@,
                    pool_configs_view(pools@) == conf_pools(iv.take(i as int)),
                decreases items@.len() - i,
            {
                let ghost before = pools@;
                assert(iv.take(i + 1).drop_last() =~= iv.take(i as int));
                match read_conf_pool(&items[i]) {
                    Some(p) => {
                        pools.push(p);
                        assert(pool_configs_view(pools@) =~= pool_configs_view(before).push(p@));
                    },
                    None => {},
                }
                i = i + 1;
            }
            assert(iv.take(items@.len() as int) =~= iv);
            let ghost all = pools@;
            pools.truncate(3);
            assert(pool_configs_view(pools@) =~= at_most(pool_configs_view(all), 3));
        },
        None => {
            let mut idx: u64 = 0;
            assert(pool_configs_view(pools@) =~= numbered_pools(c@, 0));
            while idx < 3
                invariant
                    idx <= 3,
                    pool_configs_view(pools@) == numbered_pools(c@, idx as nat),
                decreases 3 - idx,
            {
                let ghost before = pools@;
                match read_numbered_pool(c, idx) {
                    Some(p) => {
                        pools.push(p);
                        assert(pool_configs_view(pools@) =~= pool_configs_view(before) + opt_pool(
                            numbered_pool(c@, idx as nat),
                        ));
                    },
                    None => {
                        assert(pool_configs_view(pools@) =~= pool_configs_view(before) + opt_pool(
                            numbered_pool(c@, idx as nat),
                        ));
                    },
                }
                idx = idx + 1;
            }
        },
    }
    proof {
        reveal_strlit("default");
    }
    let r = vec![PoolGroupConfig { name: "default".to_owned(), quota: 1, pools }];
    assert(pool_groups_view(r@) =~= elphapex_pool_config(view_opt(config)));
    r
}

/// Where the Elphapex firmware keeps its pool configuration: the whole
/// `get_miner_conf` answer.
pub open spec fn elphapex_config_locations(field: ConfigField) -> Seq<LocationV> {
    match field {
        ConfigField::Pools => seq![location_v(ApiKind::Web, "get_miner_conf"@, ""@, None)],
        _ => Seq::empty(),
    }
}

/// Where the Elphapex firmware keeps a configuration field (see
/// [`elphapex_config_locations`]).
pub fn get_configs_locations(field: ConfigField) -> (r: Vec<DataLocation>)
    ensures
        locations_view(r@) == elphapex_config_locations(field),
{
    match field {
        ConfigField::Pools => vec![at(web("get_miner_conf"), "")],
        _ => vec![],
    }
}

/// The firmware version the Elphapex firmware reports: the part of its
/// ASCII-upper-cased text after the last `V`, when that is not empty.
pub open spec fn elphapex_firmware_version(v: Option<JsonV>) -> Option<Seq<char>> {
    match opt_str(v) {
        Some(s) => {
            let t = split_on(ascii_uppercase_spec(s), 'V').last();
            if t.len() > 0 {
                Some(t)
            } else {
                None
            }
        },
        None => None,
    }
}

/// The firmware version the Elphapex firmware reports (see
/// [`elphapex_firmware_version`]).
pub fn parse_firmware_version(v: Option<&Json>) -> (r: Option<String>)
    ensures
        match r {
            Some(t) => elphapex_firmware_version(view_opt(v)) == Some(t@),
            None => elphapex_firmware_version(view_opt(v)) is None,
        },
{
    match str_in(v) {
        Some(s) => {
            let upper = to_ascii_uppercase(s);
            let mut parts = split_text(upper.as_str(), 'V');
            let ghost pv = parts@.map_values(|t: String| t@);
            let n = parts.len();
            let last = parts.remove(n - 1);
            assert(last@ == pv.last());
            if last.as_str().unicode_len() > 0 {
                Some(last)
            } else {
                None
            }
        },
        None => None,
    }
}

} // verus!
