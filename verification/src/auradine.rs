//! Auradine firmware: pools, messages, status and the shape of the hashboards
//! its RPC and web answers describe.
use vstd::prelude::*;
use crate::data::{MiningMode, MessageSeverity, MinerHardware, MinerMessage, message_view, messages_view};
use crate::errors::ConfigError;
use crate::json::{
    Json, JsonNumber, JsonV, entries_view, entry_push, json_array, json_text, json_u64, items_view, item_push, view_opt, opt_str, opt_u64, opt_bool, opt_get, opt_array,
    str_in, u64_in, bool_in, array_in, get_in, text_or_empty, str_or_empty,
};
use crate::numbers::{json_gt_zero, number_gt_zero, number_is_positive};
use crate::pools::{
    PoolConfig, PoolConfigV, PoolData, PoolDataV, PoolGroupConfig, PoolGroupConfigV, PoolGroupData,
    PoolGroupDataV, PoolURL, at_most, first_pools, flat_pools, pool_configs_view, pool_datas_view,
    pool_entry, pool_group_datas_view, pool_groups_view, pool_payload_entry, opt_text,
};
use crate::fields::{
    ApiKind, DataField, DataLocation, LocationV, at, location_v, locations_view, rpc, tagged_at, web,
};
use crate::text::{push_char, trim_text, unicode_trim, decimal_text, eq_ignore_ascii_case, eq_ignore_ascii_case_spec, push_text, text_eq, u64_to_text};

verus! {

/// The position of the board with the given id: ids count from 1.
pub open spec fn position_from_id(id: u64) -> Option<usize> {
    if 1 <= id && id - 1 <= usize::MAX {
        Some((id - 1) as usize)
    } else {
        None
    }
}

/// The position of the board with the given id (see [`position_from_id`]).
pub fn board_position_from_id(id: u64) -> (r: Option<usize>)
    ensures
        r == position_from_id(id),
{
    if id == 0 {
        return None;
    }
    let p = id - 1;
    if p <= usize::MAX as u64 {
        Some(p as usize)
    } else {
        None
    }
}

/// The id of a `devs` entry: its `ID`, else its `DEV`, else its place in the
/// list counted from 1.
pub open spec fn dev_board_id(board: JsonV, idx: int) -> u64 {
    match opt_u64(board.get("ID"@)) {
        Some(id) => id,
        None => match opt_u64(board.get("DEV"@)) {
            Some(d) => d,
            None => (idx + 1) as u64,
        },
    }
}

/// The id of the `devs` entry at `idx` (see [`dev_board_id`]); there always
/// is one.
pub fn board_id_from_dev_entry(board: &Json, idx: usize) -> (r: Option<u64>)
    requires
        idx < usize::MAX,
    ensures
        r == Some(dev_board_id(board@, idx as int)),
{
    match u64_in(board.get("ID")) {
        Some(id) => Some(id),
        None => match u64_in(board.get("DEV")) {
            Some(d) => Some(d),
            None => Some((idx + 1) as u64),
        },
    }
}

/// The board count once a board with the given id is known: ids from 1 to
/// 255 raise it to the id.
pub open spec fn raised_count(count: u8, id: u64) -> u8 {
    if 0 < id && id <= u8::MAX && count < id {
        id as u8
    } else {
        count
    }
}

/// Raise a board count by a board id (see [`raised_count`]).
pub fn update_board_count(board_count: &mut u8, board_id: u64)
    ensures
        *final(board_count) == raised_count(*old(board_count), board_id),
{
    if board_id > 0 && board_id <= 255 {
        let id = board_id as u8;
        if *board_count < id {
            *board_count = id;
        }
    }
}

/// The id of a chip entry, when it is an integer that fits in `u16`.
pub open spec fn chip_id_of(chip: JsonV) -> Option<u16> {
    match opt_u64(chip.get("ID"@)) {
        Some(id) => if id <= u16::MAX {
            Some(id as u16)
        } else {
            None
        },
        None => None,
    }
}

/// The id of a chip entry (see [`chip_id_of`]).
pub fn chip_id(chip: &Json) -> (r: Option<u16>)
    ensures
        r == chip_id_of(chip@),
{
    match u64_in(chip.get("ID")) {
        Some(id) => if id <= 65535 {
            Some(id as u16)
        } else {
            None
        },
        None => None,
    }
}

/// How serious an LED status code is: codes 2 and 3 inform, others warn.
pub open spec fn led_severity(code: u64) -> MessageSeverity {
    if code == 2 || code == 3 {
        MessageSeverity::Info
    } else {
        MessageSeverity::Warning
    }
}

/// How serious an LED status code is (see [`led_severity`]).
pub fn led_status_severity(code: u64) -> (r: MessageSeverity)
    ensures
        r == led_severity(code),
{
    if code == 2 || code == 3 {
        MessageSeverity::Info
    } else {
        MessageSeverity::Warning
    }
}

/// The password written for a pool: its own, or `x` when it has none.
pub open spec fn written_password(p: Seq<char>) -> Seq<char> {
    if p.len() == 0 {
        "x"@
    } else {
        p
    }
}

/// The pools an `updatepools` request writes: the first three pools of the
/// groups, each with its `url`, `user` and password (see [`written_password`]).
pub open spec fn update_pools_spec(groups: Seq<PoolGroupConfigV>) -> Seq<JsonV> {
    at_most(flat_pools(groups), 3).map_values(
        |p: PoolConfigV| pool_entry(p.url, p.username, written_password(p.password)),
    )
}

/// An `updatepools` request writes one entry for each of the first three
/// pools of the groups, in order, each with that pool's address and user
/// and its own password (`x` when it has none).
pub proof fn lemma_update_pools_entries(groups: Seq<PoolGroupConfigV>, i: int)
    requires
        0 <= i < update_pools_spec(groups).len(),
    ensures
        update_pools_spec(groups).len() == at_most(flat_pools(groups), 3).len(),
        i < flat_pools(groups).len(),
        update_pools_spec(groups)[i].get("url"@) == Some(JsonV::Str(flat_pools(groups)[i].url)),
        update_pools_spec(groups)[i].get("user"@) == Some(JsonV::Str(flat_pools(groups)[i].username)),
        flat_pools(groups)[i].password.len() > 0 ==> update_pools_spec(groups)[i].get("pass"@) == Some(
            JsonV::Str(flat_pools(groups)[i].password),
        ),
        flat_pools(groups)[i].password.len() == 0 ==> update_pools_spec(groups)[i].get("pass"@) == Some(
            JsonV::Str("x"@),
        ),
{
    let p = at_most(flat_pools(groups), 3)[i];
    assert(p == flat_pools(groups)[i]);
    crate::pools::lemma_pool_entry_fields(p.url, p.username, written_password(p.password));
}

/// Build the pools of an `updatepools` request (see [`update_pools_spec`]);
/// fails with [`ConfigError::NoPools`] exactly when the groups hold no pool.
pub fn build_update_pools_payload(config: &Vec<PoolGroupConfig>) -> (r: Result<Vec<Json>, ConfigError>)
    ensures
        match r {
            Ok(v) => flat_pools(pool_groups_view(config@)).len() > 0 && items_view(v@)
                == update_pools_spec(pool_groups_view(config@)),
            Err(e) => flat_pools(pool_groups_view(config@)).len() == 0 && e == ConfigError::NoPools,
        },
{
    let pools = first_pools(config, 3);
    let ghost pv = pool_configs_view(pools@);
    let mut out: Vec<Json> = Vec::new();
    let mut i: usize = 0;
    while i < pools.len()
        invariant
            i <= pools@.len(),
            pv == pool_configs_view(pools@),
            items_view(out@) == pv.take(i as int).map_values(
                |p: PoolConfigV| pool_entry(p.url, p.username, written_password(p.password)),
            ),
            out@.len() == i,
        decreases pools@.len() - i,
    {
        let p = &pools[i];
        let password = if p.password.as_str().unicode_len() == 0 {
            proof {
                reveal_strlit("x");
            }
            "x".to_owned()
        } else {
            p.password.clone()
        };
        let e = pool_payload_entry(p.url.to_text(), p.username.clone(), password);
        item_push(&mut out, e);
        assert(pv.take(i + 1) =~= pv.take(i as int).push(p@));
        assert(items_view(out@) =~= pv.take(i + 1).map_values(
            |p: PoolConfigV| pool_entry(p.url, p.username, written_password(p.password)),
        ));
        i = i + 1;
    }
    assert(pv.take(pools@.len() as int) =~= pv);
    if out.len() == 0 {
        return Err(ConfigError::NoPools);
    }
    Ok(out)
}

/// The pool an Auradine `pools` RPC entry describes, at place `idx` of the
/// list: its `POOL` number (cut to 16 bits) or else its place, and a pool
/// counts as alive unless its `Status` is `dead` in any case.
pub open spec fn aura_pool(idx: int, p: JsonV) -> PoolDataV {
    PoolDataV {
        position: match opt_u64(p.get("POOL"@)) {
            Some(n) => Some(n as u16),
            None => Some(idx as u16),
        },
        url: opt_str(p.get("URL"@)),
        accepted_shares: opt_u64(p.get("Accepted"@)),
        rejected_shares: opt_u64(p.get("Rejected"@)),
        active: opt_bool(p.get("Stratum Active"@)),
        alive: match opt_str(p.get("Status"@)) {
            Some(s) => Some(!eq_ignore_ascii_case_spec(s, "dead"@)),
            None => None,
        },
        user: opt_str(p.get("User"@)),
    }
}

/// Every pool of an Auradine `pools` answer is read from its own entry, at
/// its place: the address from `URL`, the user from `User`, the share
/// counts from `Accepted` and `Rejected`, whether it is active from
/// `Stratum Active`, and it is alive unless its `Status` is `dead` in any
/// ASCII case.
pub proof fn lemma_aura_pool_fields(ps: Seq<JsonV>, i: int)
    requires
        0 <= i < ps.len(),
    ensures
        aura_pool_groups(Some(JsonV::Array(ps))).len() == 1,
        aura_pool_groups(Some(JsonV::Array(ps)))[0].pools.len() == ps.len(),
        aura_pool_groups(Some(JsonV::Array(ps)))[0].pools[i].url == opt_str(ps[i].get("URL"@)),
        aura_pool_groups(Some(JsonV::Array(ps)))[0].pools[i].user == opt_str(ps[i].get("User"@)),
        aura_pool_groups(Some(JsonV::Array(ps)))[0].pools[i].accepted_shares == opt_u64(ps[i].get("Accepted"@)),
        aura_pool_groups(Some(JsonV::Array(ps)))[0].pools[i].rejected_shares == opt_u64(ps[i].get("Rejected"@)),
        aura_pool_groups(Some(JsonV::Array(ps)))[0].pools[i].active == opt_bool(ps[i].get("Stratum Active"@)),
        opt_str(ps[i].get("Status"@)) is Some ==> aura_pool_groups(Some(JsonV::Array(ps)))[0].pools[i].alive
            == Some(crate::text::ascii_lowercase_spec(opt_str(ps[i].get("Status"@))->0) != "dead"@),
        opt_u64(ps[i].get("POOL"@)) is Some ==> aura_pool_groups(Some(JsonV::Array(ps)))[0].pools[i].position
            == Some(opt_u64(ps[i].get("POOL"@))->0 as u16),
{
    reveal_strlit("dead");
    let d = "dead"@;
    assert(d =~= seq!['d', 'e', 'a', 'd']);
    assert forall|j: int| 0 <= j < d.len() implies !('A' <= #[trigger] d[j] && d[j] <= 'Z') by {}
    match opt_str(ps[i].get("Status"@)) {
        Some(s) => crate::text::lemma_case_blind_match(s, d),
        None => {},
    }
}

/// The reported pool groups: none without an answer, else one unnamed group
/// with quota 1 holding the pools of the answer (none when it is no array).
pub open spec fn aura_pool_groups(pools: Option<JsonV>) -> Seq<PoolGroupDataV> {
    match pools {
        None => Seq::empty(),
        Some(v) => seq![
            PoolGroupDataV {
                name: Seq::empty(),
                quota: 1,
                pools: match v.array_of() {
                    Some(ps) => Seq::new(ps.len(), |i: int| aura_pool(i, ps[i])),
                    None => Seq::empty(),
                },
            },
        ],
    }
}

/// The optional owned text of an optional string value.
fn owned_str(o: Option<&Json>) -> (r: Option<String>)
    ensures
        opt_text(r) == opt_str(view_opt(o)),
{
    match str_in(o) {
        Some(t) => Some(t.to_owned()),
        None => None,
    }
}

/// Read one entry of a `pools` RPC answer.
fn read_aura_pool(idx: usize, p: &Json) -> (r: PoolData)
    ensures
        r@ == aura_pool(idx as int, p@),
{
    let position = match u64_in(p.get("POOL")) {
        Some(n) => Some(n as u16),
        None => Some(idx as u16),
    };
    let url = match str_in(p.get("URL")) {
        Some(u) => Some(PoolURL::new(u.to_owned())),
        None => None,
    };
    let alive = match str_in(p.get("Status")) {
        Some(s) => Some(!eq_ignore_ascii_case(s, "dead")),
        None => None,
    };
    PoolData {
        position,
        url,
        accepted_shares: u64_in(p.get("Accepted")),
        rejected_shares: u64_in(p.get("Rejected")),
        active: bool_in(p.get("Stratum Active")),
        alive,
        user: owned_str(p.get("User")),
    }
}

/// The pool groups of a `pools` RPC answer (see [`aura_pool_groups`]).
pub fn parse_pools(pools: Option<&Json>) -> (r: Vec<PoolGroupData>)
    ensures
        pool_group_datas_view(r@) == aura_pool_groups(view_opt(pools)),
{
    let v = match pools {
        Some(v) => v,
        None => {
            let r: Vec<PoolGroupData> = Vec::new();
            assert(pool_group_datas_view(r@) =~= Seq::<PoolGroupDataV>::empty());
            return r;
        },
    };
    let mut out: Vec<PoolData> = Vec::new();
    match v.as_array() {
        Some(items) => {
            let ghost iv = items_view(items@);
            let mut i: usize = 0;
            while i < items.len()
                invariant
                    i <= items@.len(),
                    iv == items_view(items@),
                    iv.len() == items@.len(),
                    forall|j: int| 0 <= j < items@.len() ==> #[trigger] iv[j] == items@[j]@,
                    out@.len() == i,
                    forall|j: int| 0 <= j < i ==> #[trigger] out@[j]@ == aura_pool(j, iv[j]),
                decreases items@.len() - i,
            {
                let p = read_aura_pool(i, &items[i]);
                out.push(p);
                i = i + 1;
            }
            assert(pool_datas_view(out@) =~= Seq::new(iv.len(), |i: int| aura_pool(i, iv[i])));
        },
        None => {
            assert(pool_datas_view(out@) =~= Seq::<PoolDataV>::empty());
        },
    }
    let group = PoolGroupData { name: String::new(), quota: 1, pools: out };
    let r = vec![group];
    assert(pool_group_datas_view(r@) =~= aura_pool_groups(view_opt(pools)));
    r
}

/// A configured pool entry with a non-empty `URL`: its `User` (or an empty
/// one) and the password `x`.
pub open spec fn aura_conf_pool(p: JsonV) -> Option<PoolConfigV> {
    match opt_str(p.get("URL"@)) {
        Some(url) => if url.len() > 0 {
            Some(PoolConfigV { url, username: str_or_empty(p.get("User"@)), password: "x"@ })
        } else {
            None
        },
        None => None,
    }
}

/// The configured pool entries with a non-empty `URL`, in order.
pub open spec fn aura_conf_pools(ps: Seq<JsonV>) -> Seq<PoolConfigV>
    decreases ps.len(),
{
    if ps.len() == 0 {
        Seq::empty()
    } else {
        let rest = aura_conf_pools(ps.drop_last());
        match aura_conf_pool(ps.last()) {
            Some(p) => rest.push(p),
            None => rest,
        }
    }
}

/// The configured pool groups: none unless the answer is an array, else one
/// unnamed group with quota 1 holding its pools.
pub open spec fn aura_conf_groups(pools: Option<JsonV>) -> Seq<PoolGroupConfigV> {
    match opt_array(pools) {
        None => Seq::empty(),
        Some(ps) => seq![PoolGroupConfigV { name: Seq::empty(), quota: 1, pools: aura_conf_pools(ps) }],
    }
}

/// Read one configured pool entry.
fn read_aura_conf_pool(p: &Json) -> (r: Option<PoolConfig>)
    ensures
        match r {
            Some(c) => aura_conf_pool(p@) == Some(c@),
            None => aura_conf_pool(p@) is None,
        },
{
    let url = match str_in(p.get("URL")) {
        Some(u) => u,
        None => return None,
    };
    if url.unicode_len() == 0 {
        return None;
    }
    proof {
        reveal_strlit("x");
    }
    Some(
        PoolConfig {
            url: PoolURL::new(url.to_owned()),
            username: text_or_empty(p.get("User")),
            password: "x".to_owned(),
        },
    )
}

/// The configured pool groups of a `pools` RPC answer (see
/// [`aura_conf_groups`]).
pub fn parse_pools_config(pools: Option<&Json>) -> (r: Vec<PoolGroupConfig>)
    ensures
        pool_groups_view(r@) == aura_conf_groups(view_opt(pools)),
{
    let items = match array_in(pools) {
        Some(items) => items,
        None => {
            let r: Vec<PoolGroupConfig> = Vec::new();
            assert(pool_groups_view(r@) =~= Seq::<PoolGroupConfigV>::empty());
            return r;
        },
    };
    let mut out: Vec<PoolConfig> = Vec::new();
    let ghost iv = items_view(items@);
    let mut i: usize = 0;
    assert(iv.take(0) =~= Seq::<JsonV>::empty());
    assert(pool_configs_view(out@) =~= Seq::<PoolConfigV>::empty());
    while i < items.len()
        invariant
            i <= items@.len(),
            iv == items_view(items@),
            iv.len() == items@.len(),
            forall|j: int| 0 <= j < items@.len() ==> #[trigger] iv[j] == items@[j]@,
            pool_configs_view(out@) == aura_conf_pools(iv.take(i as int)),
        decreases items@.len() - i,
    {
        let ghost before = out@;
        assert(iv.take(i + 1).drop_last() =~= iv.take(i as int));
        match read_aura_conf_pool(&items[i]) {
            Some(c) => {
                out.push(c);
                assert(pool_configs_view(out@) =~= pool_configs_view(before).push(c@));
            },
            None => {},
        }
        i = i + 1;
    }
    assert(iv.take(items@.len() as int) =~= iv);
    let group = PoolGroupConfig { name: String::new(), quota: 1, pools: out };
    let r = vec![group];
    assert(pool_groups_view(r@) =~= aura_conf_groups(view_opt(pools)));
    r
}

/// Whether the locate light flashes: LED code 3.
pub fn parse_light_flashing(code: Option<&Json>) -> (r: Option<bool>)
    ensures
        r == match opt_u64(view_opt(code)) {
            Some(c) => Some(c == 3),
            None => None,
        },
{
    match u64_in(code) {
        Some(c) => Some(c == 3),
        None => None,
    }
}

/// The text of an LED entry: its `Msg`, else `LED code ` and the code.
pub open spec fn led_text(led: JsonV, code: u64) -> Seq<char> {
    match opt_str(led.get("Msg"@)) {
        Some(m) => m,
        None => "LED code "@ + decimal_text(code as nat),
    }
}

/// The messages of an LED entry: none unless it is an object, else one with
/// its `Code` (0 when missing), text (see [`led_text`]) and severity.
pub open spec fn led_messages(led: Option<JsonV>) -> Seq<(u32, u64, Seq<char>, MessageSeverity)> {
    match led {
        Some(JsonV::Object(_)) => {
            let l = led->0;
            let code = match opt_u64(l.get("Code"@)) {
                Some(c) => c,
                None => 0,
            };
            seq![(0u32, code, led_text(l, code), led_severity(code))]
        },
        _ => Seq::empty(),
    }
}

/// The messages of an LED entry (see [`led_messages`]).
pub fn parse_messages(led: Option<&Json>) -> (r: Vec<MinerMessage>)
    ensures
        messages_view(r@) == led_messages(view_opt(led)),
{
    let mut out: Vec<MinerMessage> = Vec::new();
    let l = match led {
        Some(l) => l,
        None => {
            assert(messages_view(out@) =~= led_messages(view_opt(led)));
            return out;
        },
    };
    match l {
        Json::Object(_) => {},
        _ => {
            assert(messages_view(out@) =~= led_messages(view_opt(led)));
            return out;
        },
    }
    let code = match u64_in(l.get("Code")) {
        Some(c) => c,
        None => 0,
    };
    let text = match str_in(l.get("Msg")) {
        Some(m) => m.to_owned(),
        None => {
            let mut t = String::new();
            push_text(&mut t, "LED code ");
            let digits = u64_to_text(code);
            push_text(&mut t, digits.as_str());
            proof {
                reveal_strlit("LED code ");
            }
            assert(t@ =~= "LED code "@ + decimal_text(code as nat));
            t
        },
    };
    let m = MinerMessage::new(0, code, text, led_status_severity(code));
    out.push(m);
    assert(messages_view(out@) =~= led_messages(view_opt(led)));
    out
}

/// What the tagged `sleep` and `hashrate` values of the status say about
/// mining, when they say anything: a `sleep` text `off` or `on` (in any
/// case), a `sleep` flag, or a `hashrate` number above zero.
pub open spec fn sleep_state(d: JsonV) -> Option<bool> {
    let st = opt_str(d.get("sleep"@));
    if st is Some && eq_ignore_ascii_case_spec(st->0, "off"@) {
        Some(true)
    } else if st is Some && eq_ignore_ascii_case_spec(st->0, "on"@) {
        Some(false)
    } else if opt_bool(d.get("sleep"@)) is Some {
        Some(!opt_bool(d.get("sleep"@))->0)
    } else {
        match d.get("hashrate"@) {
            Some(h) => json_gt_zero(h),
            None => None,
        }
    }
}

/// Whether the miner mines: by its status values (see [`sleep_state`]),
/// else by the summary hash rate being above zero, else not.
pub open spec fn aura_is_mining(status: Option<JsonV>, hashrate: Option<JsonV>) -> bool {
    let by_status = match status {
        Some(d) => sleep_state(d),
        None => None,
    };
    match by_status {
        Some(b) => b,
        None => match hashrate {
            Some(h) => json_gt_zero(h) == Some(true),
            None => false,
        },
    }
}

/// Whether a value is a number above zero, when it is a number.
fn number_above_zero(v: Option<&Json>) -> (r: Option<bool>)
    ensures
        r == match view_opt(v) {
            Some(h) => json_gt_zero(h),
            None => None,
        },
{
    match v {
        Some(Json::Number(n)) => Some(number_is_positive(n)),
        _ => None,
    }
}

/// Whether the miner mines (see [`aura_is_mining`]).
pub fn parse_is_mining(status: Option<&Json>, hashrate: Option<&Json>) -> (r: bool)
    ensures
        r == aura_is_mining(view_opt(status), view_opt(hashrate)),
{
    if let Some(d) = status {
        if let Some(state) = str_in(d.get("sleep")) {
            if eq_ignore_ascii_case(state, "off") {
                return true;
            }
            if eq_ignore_ascii_case(state, "on") {
                return false;
            }
        }
        if let Some(sleeping) = bool_in(d.get("sleep")) {
            return !sleeping;
        }
        if let Some(b) = number_above_zero(d.get("hashrate")) {
            return b;
        }
    }
    match number_above_zero(hashrate) {
        Some(b) => b,
        None => false,
    }
}

/// The control board's name in the answers, and whether the Auradine board
/// names are to be tried on it: the `internal_type` text (tried), else the
/// `driver` text (not tried), else the answer itself when it is a text
/// (tried).
pub open spec fn control_board_name_spec(v: Option<JsonV>) -> Option<(Seq<char>, bool)> {
    match v {
        None => None,
        Some(cb) => match opt_str(cb.get("internal_type"@)) {
            Some(t) => Some((t, true)),
            None => match opt_str(cb.get("driver"@)) {
                Some(d) => Some((d, false)),
                None => match cb.str_of() {
                    Some(s) => Some((s, true)),
                    None => None,
                },
            },
        },
    }
}

/// The control board's name in the answers (see
/// [`control_board_name_spec`]).  A name that no Auradine board name
/// matches, or that is not tried, is an unknown board.
pub fn control_board_name(v: Option<&Json>) -> (r: Option<(String, bool)>)
    ensures
        match control_board_name_spec(view_opt(v)) {
            Some((name, tried)) => r matches Some(x) && x.0@ == name && x.1 == tried,
            None => r is None,
        },
{
    let cb = match v {
        Some(cb) => cb,
        None => return None,
    };
    if let Some(t) = str_in(cb.get("internal_type")) {
        return Some((crate::text::to_owned_text(t), true));
    }
    if let Some(d) = str_in(cb.get("driver")) {
        return Some((crate::text::to_owned_text(d), false));
    }
    match cb.as_str() {
        Some(s) => Some((crate::text::to_owned_text(s), true)),
        None => None,
    }
}

/// The chips per board the `asccount` answer gives: `AsicCount` over
/// `BoardCount`, when both are integers, there is a board and the quotient
/// fits in `u16`.
pub open spec fn counted_chips_per_board(api: Option<JsonV>) -> Option<u16> {
    let count = opt_get(api, "asccount"@);
    match (opt_u64(opt_get(count, "BoardCount"@)), opt_u64(opt_get(count, "AsicCount"@))) {
        (Some(boards), Some(chips)) => if boards == 0 {
            None
        } else if chips / boards <= u16::MAX {
            Some((chips / boards) as u16)
        } else {
            None
        },
        _ => None,
    }
}

/// The board count before the answers are read: `asccount`'s `BoardCount`
/// when it fits in `u8`, else the model's board count, else 0.
pub open spec fn expected_board_count(api: Option<JsonV>, hardware: crate::data::MinerHardwareV) -> u8 {
    match opt_u64(opt_get(opt_get(api, "asccount"@), "BoardCount"@)) {
        Some(b) if b <= u8::MAX => b as u8,
        _ => match hardware.boards {
            Some(bs) => if bs.len() <= u8::MAX {
                bs.len() as u8
            } else {
                0
            },
            None => 0,
        },
    }
}

/// A board count raised by the ids of the `devs` entries.
pub open spec fn raised_by_devs(count: u8, devs: Seq<JsonV>) -> u8
    decreases devs.len(),
{
    if devs.len() == 0 {
        count
    } else {
        raised_count(
            raised_by_devs(count, devs.drop_last()),
            dev_board_id(devs.last(), devs.len() - 1),
        )
    }
}

/// A board count raised by the `ID`s of a list of board entries.
pub open spec fn raised_by_ids(count: u8, boards: Seq<JsonV>) -> u8
    decreases boards.len(),
{
    if boards.len() == 0 {
        count
    } else {
        let c = raised_by_ids(count, boards.drop_last());
        match opt_u64(boards.last().get("ID"@)) {
            Some(id) => raised_count(c, id),
            None => c,
        }
    }
}

/// The `devs` list of the answers: their `devs` array, or the answers
/// themselves when they are an array.
pub open spec fn devs_of(api: JsonV) -> Option<Seq<JsonV>> {
    match opt_array(api.get("devs"@)) {
        Some(d) => Some(d),
        None => api.array_of(),
    }
}

/// The number of hashboards the answers describe: the expected count (see
/// [`expected_board_count`]) raised by the ids of the `devs` entries, by the
/// number of `serials` (up to 255), and by the `ID`s in the `temperature`,
/// `voltage` and `frequency` lists.
pub open spec fn described_board_count(api: Option<JsonV>, hardware: crate::data::MinerHardwareV) -> u8 {
    let c0 = expected_board_count(api, hardware);
    match api {
        None => c0,
        Some(a) => {
            let c1 = match devs_of(a) {
                Some(d) => raised_by_devs(c0, d),
                None => c0,
            };
            let c2 = match opt_array(a.get("serials"@)) {
                Some(s) => {
                    let detected: u8 = if s.len() <= u8::MAX {
                        s.len() as u8
                    } else {
                        u8::MAX
                    };
                    if c1 < detected {
                        detected
                    } else {
                        c1
                    }
                },
                None => c1,
            };
            let c3 = match opt_array(a.get("temperature"@)) {
                Some(b) => raised_by_ids(c2, b),
                None => c2,
            };
            let c4 = match opt_array(a.get("voltage"@)) {
                Some(b) => raised_by_ids(c3, b),
                None => c3,
            };
            match opt_array(a.get("frequency"@)) {
                Some(b) => raised_by_ids(c4, b),
                None => c4,
            }
        },
    }
}

/// Raise a board count by the `ID`s of a list of board entries.
fn raise_by_ids(count: &mut u8, boards: &Vec<Json>)
    ensures
        *final(count) == raised_by_ids(*old(count), items_view(boards@)),
{
    let ghost bv = items_view(boards@);
    let ghost start = *count;
    proof {
        crate::json::lemma_items_view_len(boards@);
    }
    let mut i: usize = 0;
    assert(bv.take(0) =~= Seq::<JsonV>::empty());
    while i < boards.len()
        invariant
            i <= boards@.len(),
            bv == items_view(boards@),
            bv.len() == boards@.len(),
            forall|j: int| 0 <= j < boards@.len() ==> #[trigger] bv[j] == boards@[j]@,
            *count == raised_by_ids(start, bv.take(i as int)),
        decreases boards@.len() - i,
    {
        assert(bv.take(i + 1).drop_last() =~= bv.take(i as int));
        match u64_in(boards[i].get("ID")) {
            Some(id) => update_board_count(count, id),
            None => {},
        }
        i = i + 1;
    }
    assert(bv.take(boards@.len() as int) =~= bv);
}

/// The chips each board is expected to carry: the count the `asccount`
/// answer gives (see [`counted_chips_per_board`]), else the model's count
/// for the first board.
pub open spec fn layout_chips(api: Option<JsonV>, hardware: crate::data::MinerHardwareV) -> Option<u16> {
    match counted_chips_per_board(api) {
        Some(c) => Some(c),
        None => match hardware.boards {
            Some(b) => if 0 < b.len() {
                b[0]
            } else {
                None
            },
            None => None,
        },
    }
}

/// The shape of the hashboards the answers describe: how many boards there
/// are (see [`described_board_count`]) and how many chips each is expected
/// to carry (see [`layout_chips`]).
pub fn hashboard_layout(api: Option<&Json>, hardware: &MinerHardware) -> (r: (u8, Option<u16>))
    ensures
        r.0 == described_board_count(view_opt(api), hardware@),
        r.1 == layout_chips(view_opt(api), hardware@),
{
    let count_data = get_in(api, "asccount");
    let boards_opt = u64_in(get_in(count_data, "BoardCount"));
    let chips_opt = u64_in(get_in(count_data, "AsicCount"));
    let per_board: Option<u16> = match (boards_opt, chips_opt) {
        (Some(b), Some(c)) => if b == 0 {
            None
        } else if c / b <= 65535 {
            Some((c / b) as u16)
        } else {
            None
        },
        _ => None,
    };
    let expected_chips = match per_board {
        Some(c) => Some(c),
        None => hardware.chips_for_board(0),
    };
    let mut board_count: u8 = match boards_opt {
        Some(b) if b <= 255 => b as u8,
        _ => match hardware.board_count() {
            Some(c) => c,
            None => 0,
        },
    };
    let a = match api {
        Some(a) => a,
        None => return (board_count, expected_chips),
    };
    let devs = match array_in(a.get("devs")) {
        Some(d) => Some(d),
        None => a.as_array(),
    };
    if let Some(devs) = devs {
        let ghost dv = items_view(devs@);
        let ghost start = board_count;
        proof {
            crate::json::lemma_items_view_len(devs@);
        }
        let mut i: usize = 0;
        assert(dv.take(0) =~= Seq::<JsonV>::empty());
        while i < devs.len()
            invariant
                i <= devs@.len(),
                dv == items_view(devs@),
                dv.len() == devs@.len(),
                forall|j: int| 0 <= j < devs@.len() ==> #[trigger] dv[j] == devs@[j]@,
                board_count == raised_by_devs(start, dv.take(i as int)),
            decreases devs@.len() - i,
        {
            assert(dv.take(i + 1).drop_last() =~= dv.take(i as int));
            match board_id_from_dev_entry(&devs[i], i) {
                Some(id) => update_board_count(&mut board_count, id),
                None => {},
            }
            i = i + 1;
        }
        assert(dv.take(devs@.len() as int) =~= dv);
    }
    if let Some(serials) = array_in(a.get("serials")) {
        let detected: u8 = if serials.len() <= 255 {
            serials.len() as u8
        } else {
            255
        };
        if board_count < detected {
            board_count = detected;
        }
    }
    if let Some(b) = array_in(a.get("temperature")) {
        raise_by_ids(&mut board_count, b);
    }
    if let Some(b) = array_in(a.get("voltage")) {
        raise_by_ids(&mut board_count, b);
    }
    if let Some(b) = array_in(a.get("frequency")) {
        raise_by_ids(&mut board_count, b);
    }
    (board_count, expected_chips)
}

/// Where the Auradine firmware reports each field.
pub open spec fn auradine_locations(field: DataField) -> Seq<LocationV> {
    match field {
        DataField::Mac => seq![location_v(ApiKind::Web, "ipreport"@, "/IPReport/0/mac"@, None)],
        DataField::SerialNumber => seq![location_v(ApiKind::Web, "ipreport"@, "/IPReport/0/SerialNo"@, None)],
        DataField::Hostname => seq![location_v(ApiKind::Web, "ipreport"@, "/IPReport/0/hostname"@, None)],
        DataField::ApiVersion => seq![location_v(ApiKind::Rpc, "version"@, "/VERSION/0/API"@, None)],
        DataField::FirmwareVersion => seq![location_v(ApiKind::Rpc, "version"@, "/VERSION/0/GCMiner"@, None), location_v(ApiKind::Web, "ipreport"@, "/IPReport/0/version"@, None)],
        DataField::ControlBoardVersion => seq![location_v(ApiKind::Web, "ipreport"@, "/IPReport/0/InternalType"@, Some("internal_type"@)), location_v(ApiKind::Rpc, "devdetails"@, "/DEVDETAILS/0/Driver"@, Some("driver"@))],
        DataField::Hashboards => seq![location_v(ApiKind::Rpc, "devs"@, "/DEVS"@, Some("devs"@)), location_v(ApiKind::Rpc, "asccount"@, "/ASCCount/0"@, Some("asccount"@)), location_v(ApiKind::Web, "ipreport"@, "/IPReport/0/HBSerialNo"@, Some("serials"@)), location_v(ApiKind::Web, "temperature"@, "/Temperature"@, Some("temperature"@)), location_v(ApiKind::Web, "voltage"@, "/Voltage"@, Some("voltage"@)), location_v(ApiKind::Web, "frequency"@, "/Frequency"@, Some("frequency"@))],
        DataField::Chips => seq![location_v(ApiKind::Web, "temperature"@, "/Temperature"@, Some("temperature"@)), location_v(ApiKind::Web, "voltage"@, "/Voltage"@, Some("voltage"@)), location_v(ApiKind::Web, "frequency"@, "/Frequency"@, Some("frequency"@))],
        DataField::Hashrate => seq![location_v(ApiKind::Rpc, "summary"@, "/SUMMARY/0/MHS 5s"@, None)],
        DataField::ExpectedHashrate => seq![location_v(ApiKind::Rpc, "summary"@, "/SUMMARY/0/ThsThrottle"@, None), location_v(ApiKind::Web, "mode"@, "/Mode/0/Ths"@, None)],
        DataField::Fans => seq![location_v(ApiKind::Web, "fan"@, "/Fan"@, None)],
        DataField::PsuFans => seq![location_v(ApiKind::Web, "psu"@, "/PSU/0"@, None)],
        DataField::Wattage => seq![location_v(ApiKind::Rpc, "summary"@, "/SUMMARY/0/Wattage"@, None), location_v(ApiKind::Web, "psu"@, "/PSU/0/PowerIn"@, None)],
        DataField::TuningTarget => seq![location_v(ApiKind::Rpc, "summary"@, "/SUMMARY/0/ThsThrottle"@, None), location_v(ApiKind::Web, "mode"@, "/Mode/0"@, None)],
        DataField::LightFlashing => seq![location_v(ApiKind::Web, "led"@, "/LED/0/Code"@, None)],
        DataField::Messages => seq![location_v(ApiKind::Web, "led"@, "/LED/0"@, None)],
        DataField::Uptime => seq![location_v(ApiKind::Rpc, "summary"@, "/SUMMARY/0/Elapsed"@, None)],
        DataField::IsMining => seq![location_v(ApiKind::Rpc, "summary"@, "/SUMMARY/0/MHS 5s"@, Some("hashrate"@)), location_v(ApiKind::Web, "mode"@, "/Mode/0/Sleep"@, Some("sleep"@))],
        DataField::Pools => seq![location_v(ApiKind::Rpc, "pools"@, "/POOLS"@, None)],
        _ => Seq::empty(),
    }
}


/// Where the Auradine firmware reports a field (see [`auradine_locations`]).
pub fn get_locations(field: DataField) -> (r: Vec<DataLocation>)
    ensures
        locations_view(r@) == auradine_locations(field),
{
    match field {
        DataField::Mac => vec![at(web("ipreport"), "/IPReport/0/mac")],
        DataField::SerialNumber => vec![at(web("ipreport"), "/IPReport/0/SerialNo")],
        DataField::Hostname => vec![at(web("ipreport"), "/IPReport/0/hostname")],
        DataField::ApiVersion => vec![at(rpc("version"), "/VERSION/0/API")],
        DataField::FirmwareVersion => vec![at(rpc("version"), "/VERSION/0/GCMiner"), at(web("ipreport"), "/IPReport/0/version")],
        DataField::ControlBoardVersion => vec![tagged_at(web("ipreport"), "/IPReport/0/InternalType", "internal_type"), tagged_at(rpc("devdetails"), "/DEVDETAILS/0/Driver", "driver")],
        DataField::Hashboards => vec![tagged_at(rpc("devs"), "/DEVS", "devs"), tagged_at(rpc("asccount"), "/ASCCount/0", "asccount"), tagged_at(web("ipreport"), "/IPReport/0/HBSerialNo", "serials"), tagged_at(web("temperature"), "/Temperature", "temperature"), tagged_at(web("voltage"), "/Voltage", "voltage"), tagged_at(web("frequency"), "/Frequency", "frequency")],
        DataField::Chips => vec![tagged_at(web("temperature"), "/Temperature", "temperature"), tagged_at(web("voltage"), "/Voltage", "voltage"), tagged_at(web("frequency"), "/Frequency", "frequency")],
        DataField::Hashrate => vec![at(rpc("summary"), "/SUMMARY/0/MHS 5s")],
        DataField::ExpectedHashrate => vec![at(rpc("summary"), "/SUMMARY/0/ThsThrottle"), at(web("mode"), "/Mode/0/Ths")],
        DataField::Fans => vec![at(web("fan"), "/Fan")],
        DataField::PsuFans => vec![at(web("psu"), "/PSU/0")],
        DataField::Wattage => vec![at(rpc("summary"), "/SUMMARY/0/Wattage"), at(web("psu"), "/PSU/0/PowerIn")],
        DataField::TuningTarget => vec![at(rpc("summary"), "/SUMMARY/0/ThsThrottle"), at(web("mode"), "/Mode/0")],
        DataField::LightFlashing => vec![at(web("led"), "/LED/0/Code")],
        DataField::Messages => vec![at(web("led"), "/LED/0")],
        DataField::Uptime => vec![at(rpc("summary"), "/SUMMARY/0/Elapsed")],
        DataField::IsMining => vec![tagged_at(rpc("summary"), "/SUMMARY/0/MHS 5s", "hashrate"), tagged_at(web("mode"), "/Mode/0/Sleep", "sleep")],
        DataField::Pools => vec![at(rpc("pools"), "/POOLS")],
        _ => vec![],
    }
}

/// The mining mode an Auradine mode answer names under `Mode`: `eco` is
/// low, `normal` normal and `turbo` high, in any ASCII case.
pub open spec fn aura_mining_mode(mode: Option<JsonV>) -> Option<MiningMode> {
    match opt_str(opt_get(mode, "Mode"@)) {
        Some(s) => if eq_ignore_ascii_case_spec(s, "eco"@) {
            Some(MiningMode::Low)
        } else if eq_ignore_ascii_case_spec(s, "normal"@) {
            Some(MiningMode::Normal)
        } else if eq_ignore_ascii_case_spec(s, "turbo"@) {
            Some(MiningMode::High)
        } else {
            None
        },
        None => None,
    }
}

/// The mode an Auradine mode answer names follows its `Mode` text in any
/// ASCII case: `eco` is low, `normal` normal, `turbo` high, anything else
/// none.
pub proof fn lemma_aura_mode_names(mode: JsonV)
    ensures
        opt_str(mode.get("Mode"@)) is Some && crate::text::ascii_lowercase_spec(opt_str(mode.get("Mode"@))->0)
            == "eco"@ ==> aura_mining_mode(Some(mode)) == Some(MiningMode::Low),
        opt_str(mode.get("Mode"@)) is Some && crate::text::ascii_lowercase_spec(opt_str(mode.get("Mode"@))->0)
            == "normal"@ ==> aura_mining_mode(Some(mode)) == Some(MiningMode::Normal),
        opt_str(mode.get("Mode"@)) is Some && crate::text::ascii_lowercase_spec(opt_str(mode.get("Mode"@))->0)
            == "turbo"@ ==> aura_mining_mode(Some(mode)) == Some(MiningMode::High),
        opt_str(mode.get("Mode"@)) is Some && crate::text::ascii_lowercase_spec(opt_str(mode.get("Mode"@))->0)
            != "eco"@ && crate::text::ascii_lowercase_spec(opt_str(mode.get("Mode"@))->0) != "normal"@
            && crate::text::ascii_lowercase_spec(opt_str(mode.get("Mode"@))->0) != "turbo"@
            ==> aura_mining_mode(Some(mode)) is None,
        opt_str(mode.get("Mode"@)) is None ==> aura_mining_mode(Some(mode)) is None,
{
    reveal_strlit("eco");
    reveal_strlit("normal");
    reveal_strlit("turbo");
    let a = "eco"@;
    let b = "normal"@;
    let c = "turbo"@;
    assert(a =~= seq!['e', 'c', 'o']);
    assert(b =~= seq!['n', 'o', 'r', 'm', 'a', 'l']);
    assert(c =~= seq!['t', 'u', 'r', 'b', 'o']);
    assert forall|j: int| 0 <= j < a.len() implies !('A' <= #[trigger] a[j] && a[j] <= 'Z') by {}
    assert forall|j: int| 0 <= j < b.len() implies !('A' <= #[trigger] b[j] && b[j] <= 'Z') by {}
    assert forall|j: int| 0 <= j < c.len() implies !('A' <= #[trigger] c[j] && c[j] <= 'Z') by {}
    match opt_str(mode.get("Mode"@)) {
        Some(s) => {
            crate::text::lemma_case_blind_match(s, a);
            crate::text::lemma_case_blind_match(s, b);
            crate::text::lemma_case_blind_match(s, c);
        },
        None => {},
    }
}

/// The mining mode an Auradine mode answer names (see
/// [`aura_mining_mode`]).  A power or hash-rate target in the same answer
/// comes first; reading those numbers is left to the caller.
pub fn parse_tuning_mode(mode: Option<&Json>) -> (r: Option<MiningMode>)
    ensures
        r == aura_mining_mode(view_opt(mode)),
{
    match str_in(get_in(mode, "Mode")) {
        Some(s) => if eq_ignore_ascii_case(s, "eco") {
            Some(MiningMode::Low)
        } else if eq_ignore_ascii_case(s, "normal") {
            Some(MiningMode::Normal)
        } else if eq_ignore_ascii_case(s, "turbo") {
            Some(MiningMode::High)
        } else {
            None
        },
        None => None,
    }
}

/// Whether a character is kept in a number written with units: an ASCII
/// digit, `.` or `-`.
pub open spec fn number_char(c: char) -> bool {
    ('0' <= c && c <= '9') || c == '.' || c == '-'
}

/// The characters of a text that are kept in a number written with units.
pub open spec fn number_chars(s: Seq<char>) -> Seq<char> {
    s.filter(|c: char| number_char(c))
}

/// The number part of a text written with units (`1234 W` gives `1234`):
/// the kept characters of the trimmed text, when there is any.
pub open spec fn number_text_spec(s: Seq<char>) -> Option<Seq<char>> {
    let t = number_chars(unicode_trim(s));
    if t.len() == 0 {
        None
    } else {
        Some(t)
    }
}

/// The number part of a text written with units (see
/// [`number_text_spec`]); reading it as a number is left to the caller.
pub fn number_text(s: &str) -> (r: Option<String>)
    ensures
        match r {
            Some(t) => number_text_spec(s@) == Some(t@),
            None => number_text_spec(s@) is None,
        },
{
    let trimmed = trim_text(s);
    let t = trimmed.as_str();
    let n = t.unicode_len();
    let mut out = String::new();
    let mut i: usize = 0;
    while i < n
        invariant
            n == t@.len(),
            i <= n,
            out@ == number_chars(t@.subrange(0, i as int)),
        decreases n - i,
    {
        let c = t.get_char(i);
        let ghost pre = t@.subrange(0, i as int);
        assert(t@.subrange(0, i + 1).drop_last() =~= pre);
        assert(t@.subrange(0, i + 1).last() == c);
        proof {
            reveal(Seq::filter);
        }
        if ('0' <= c && c <= '9') || c == '.' || c == '-' {
            push_char(&mut out, c);
        }
        i = i + 1;
    }
    assert(t@.subrange(0, n as int) =~= t@);
    if out.as_str().unicode_len() == 0 {
        None
    } else {
        Some(out)
    }
}

/// The body of an LED request: code 3 switches the fault light on, 2 off.
pub fn led_payload(fault: bool) -> (r: Json)
    ensures
        r@ == JsonV::Object(
            seq![("code"@, JsonV::Number(JsonNumber::PosInt(if fault { 3u64 } else { 2u64 })))],
        ),
{
    let mut es: Vec<(String, Json)> = Vec::new();
    entry_push(&mut es, "code", json_u64(if fault { 3 } else { 2 }));
    assert(entries_view(es@) =~= seq![("code"@, JsonV::Number(JsonNumber::PosInt(if fault { 3u64 } else { 2u64 })))]);
    Json::Object(es)
}

/// The body of a mode request that puts the miner to sleep (`on`) or wakes
/// it (`off`).
pub fn sleep_payload(sleep: bool) -> (r: Json)
    ensures
        r@ == JsonV::Object(seq![("sleep"@, JsonV::Str(if sleep { "on"@ } else { "off"@ }))]),
{
    let mut es: Vec<(String, Json)> = Vec::new();
    entry_push(&mut es, "sleep", json_text(if sleep { "on" } else { "off" }));
    assert(entries_view(es@) =~= seq![("sleep"@, JsonV::Str(if sleep { "on"@ } else { "off"@ }))]);
    Json::Object(es)
}

/// The body of a mode request that sets a custom power limit in whole
/// watts.
pub fn power_limit_payload(watts: u64) -> (r: Json)
    ensures
        r@ == JsonV::Object(
            seq![
                ("mode"@, JsonV::Str("custom"@)),
                ("tune"@, JsonV::Str("power"@)),
                ("power"@, JsonV::Number(JsonNumber::PosInt(watts))),
            ],
        ),
{
    let mut es: Vec<(String, Json)> = Vec::new();
    entry_push(&mut es, "mode", json_text("custom"));
    entry_push(&mut es, "tune", json_text("power"));
    entry_push(&mut es, "power", json_u64(watts));
    assert(entries_view(es@) =~= seq![
        ("mode"@, JsonV::Str("custom"@)),
        ("tune"@, JsonV::Str("power"@)),
        ("power"@, JsonV::Number(JsonNumber::PosInt(watts))),
    ]);
    Json::Object(es)
}

/// The body of an `updatepools` request: the pools of
/// [`build_update_pools_payload`] under `pools`; fails the same way.
pub fn update_pools_request(config: &Vec<PoolGroupConfig>) -> (r: Result<Json, ConfigError>)
    ensures
        match r {
            Ok(j) => flat_pools(pool_groups_view(config@)).len() > 0 && j@ == JsonV::Object(
                seq![("pools"@, JsonV::Array(update_pools_spec(pool_groups_view(config@))))],
            ),
            Err(e) => flat_pools(pool_groups_view(config@)).len() == 0 && e == ConfigError::NoPools,
        },
{
    let pools = build_update_pools_payload(config)?;
    let mut es: Vec<(String, Json)> = Vec::new();
    entry_push(&mut es, "pools", json_array(pools));
    assert(entries_view(es@) =~= seq![("pools"@, JsonV::Array(update_pools_spec(pool_groups_view(config@))))]);
    Ok(Json::Object(es))
}

} // verus!
