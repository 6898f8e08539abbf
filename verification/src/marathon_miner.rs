//! MaraFW (Marathon): where it reports each field, its messages, mining
//! state and pools, its work modes and the decisions of pausing and resuming.
use vstd::prelude::*;
use crate::data::{MessageSeverity, MinerMessage, message_view, messages_view};
use crate::errors::{ConfigError, ConfigErrorV, err_v};
use crate::fields::{ApiKind, DataField, DataLocation, LocationV, at, location_v, locations_view, tagged_at, web};
use crate::json::{Json, JsonV, bool_in, json_array, opt_bool, entries_get, entries_insert, entries_lookup, entry_set, json_text, opt_get, i64_in, items_view, opt_array, opt_i64, opt_str, opt_u64, str_in, u64_in, view_opt};
use crate::pools::{PoolData, PoolDataV, PoolGroupData, PoolGroupDataV, PoolURL, pool_datas_view, pool_group_datas_view};
use crate::marathon::{MaraWorkMode, build_pool_config, has_zero_quota, kept_groups, pool_entries, pool_group_entry, work_mode_name};
use crate::pools::{PoolGroupConfig, PoolGroupConfigV, pool_groups_view};
use crate::text::{is_unicode_whitespace, trim_end_spec, trim_start_spec, push_text, ascii_lower, ascii_lowercase_spec, eq_ignore_ascii_case, eq_ignore_ascii_case_spec, text_eq, to_ascii_lowercase, trim_text, unicode_trim};

verus! {

/// Where MaraFW reports each field.
pub open spec fn marathon_locations(field: DataField) -> Seq<LocationV> {
    match field {
        DataField::Mac => seq![location_v(ApiKind::Web, "overview"@, "/mac"@, None)],
        DataField::FirmwareVersion => seq![location_v(ApiKind::Web, "overview"@, "/version_firmware"@, None)],
        DataField::ControlBoardVersion => seq![location_v(ApiKind::Web, "overview"@, "/control_board"@, None)],
        DataField::Hostname => seq![location_v(ApiKind::Web, "network_config"@, "/hostname"@, None)],
        DataField::Hashrate => seq![location_v(ApiKind::Web, "brief"@, "/hashrate_realtime"@, None)],
        DataField::ExpectedHashrate => seq![location_v(ApiKind::Web, "brief"@, "/hashrate_ideal"@, None)],
        DataField::Hashboards => seq![location_v(ApiKind::Web, "details"@, "/hashboard_infos"@, Some("chip_data"@)), location_v(ApiKind::Web, "hashboards"@, "/hashboards"@, Some("hb_temps"@))],
        DataField::Chips => seq![location_v(ApiKind::Web, "details"@, "/hashboard_infos"@, Some("chip_data"@))],
        DataField::Wattage => seq![location_v(ApiKind::Web, "brief"@, "/power_consumption_estimated"@, None)],
        DataField::TuningTarget => seq![location_v(ApiKind::Web, "miner_config"@, "/mode/concorde/power-target"@, None)],
        DataField::Fans => seq![location_v(ApiKind::Web, "fans"@, "/fans"@, None)],
        DataField::LightFlashing => seq![location_v(ApiKind::Web, "locate_miner"@, "/blinking"@, None)],
        DataField::IsMining => seq![location_v(ApiKind::Web, "brief"@, "/status"@, None)],
        DataField::Uptime => seq![location_v(ApiKind::Web, "brief"@, "/elapsed"@, None)],
        DataField::Pools => seq![location_v(ApiKind::Web, "pools"@, ""@, None)],
        DataField::Messages => seq![location_v(ApiKind::Web, "event_chart"@, "/event_flags"@, None)],
        _ => Seq::empty(),
    }
}

/// Where MaraFW reports a field (see [`marathon_locations`]).
pub fn get_locations(field: DataField) -> (r: Vec<DataLocation>)
    ensures
        locations_view(r@) == marathon_locations(field),
{
    match field {
        DataField::Mac => vec![at(web("overview"), "/mac")],
        DataField::FirmwareVersion => vec![at(web("overview"), "/version_firmware")],
        DataField::ControlBoardVersion => vec![at(web("overview"), "/control_board")],
        DataField::Hostname => vec![at(web("network_config"), "/hostname")],
        DataField::Hashrate => vec![at(web("brief"), "/hashrate_realtime")],
        DataField::ExpectedHashrate => vec![at(web("brief"), "/hashrate_ideal")],
        DataField::Hashboards => vec![tagged_at(web("details"), "/hashboard_infos", "chip_data"), tagged_at(web("hashboards"), "/hashboards", "hb_temps")],
        DataField::Chips => vec![tagged_at(web("details"), "/hashboard_infos", "chip_data")],
        DataField::Wattage => vec![at(web("brief"), "/power_consumption_estimated")],
        DataField::TuningTarget => vec![at(web("miner_config"), "/mode/concorde/power-target")],
        DataField::Fans => vec![at(web("fans"), "/fans")],
        DataField::LightFlashing => vec![at(web("locate_miner"), "/blinking")],
        DataField::IsMining => vec![at(web("brief"), "/status")],
        DataField::Uptime => vec![at(web("brief"), "/elapsed")],
        DataField::Pools => vec![at(web("pools"), "")],
        DataField::Messages => vec![at(web("event_chart"), "/event_flags")],
        _ => vec![],
    }
}

/// Where MaraFW keeps its pool configuration: the whole `miner_config`.
pub open spec fn marathon_config_locations(field: crate::data::ConfigField) -> Seq<LocationV> {
    match field {
        crate::data::ConfigField::Pools => seq![location_v(ApiKind::Web, "miner_config"@, ""@, None)],
        _ => Seq::empty(),
    }
}

/// Where MaraFW keeps a configuration field (see [`marathon_config_locations`]).
pub fn get_configs_locations(field: crate::data::ConfigField) -> (r: Vec<DataLocation>)
    ensures
        locations_view(r@) == marathon_config_locations(field),
{
    match field {
        crate::data::ConfigField::Pools => vec![at(web("miner_config"), "")],
        _ => vec![],
    }
}

/// The work mode a lower-case name names: `auto`, `fixed`, `stock` or
/// `sleep`.
pub open spec fn work_mode_named(t: Seq<char>) -> Option<MaraWorkMode> {
    if t == "auto"@ {
        Some(MaraWorkMode::Auto)
    } else if t == "fixed"@ {
        Some(MaraWorkMode::Fixed)
    } else if t == "stock"@ {
        Some(MaraWorkMode::Stock)
    } else if t == "sleep"@ {
        Some(MaraWorkMode::Sleep)
    } else {
        None
    }
}

/// The work mode a text names: the one its trimmed, ASCII-lower-cased form
/// names.
pub open spec fn work_mode_from_spec(s: Seq<char>) -> Option<MaraWorkMode> {
    work_mode_named(ascii_lowercase_spec(unicode_trim(s)))
}

/// The work mode a text names (see [`work_mode_from_spec`]); `None` for any
/// other text.
pub fn work_mode_from_text(s: &str) -> (r: Option<MaraWorkMode>)
    ensures
        r == work_mode_from_spec(s@),
{
    let t = to_ascii_lowercase(trim_text(s).as_str());
    proof {
        reveal_strlit("auto");
        reveal_strlit("fixed");
        reveal_strlit("stock");
        reveal_strlit("sleep");
    }
    if text_eq(t.as_str(), "auto") {
        Some(MaraWorkMode::Auto)
    } else if text_eq(t.as_str(), "fixed") {
        Some(MaraWorkMode::Fixed)
    } else if text_eq(t.as_str(), "stock") {
        Some(MaraWorkMode::Stock)
    } else if text_eq(t.as_str(), "sleep") {
        Some(MaraWorkMode::Sleep)
    } else {
        None
    }
}

/// A work mode's name, lower-cased, names that mode again.
pub proof fn lemma_work_mode_name_names_it(m: MaraWorkMode)
    ensures
        work_mode_named(ascii_lowercase_spec(work_mode_name(m))) == Some(m),
{
    reveal_strlit("Auto");
    reveal_strlit("Fixed");
    reveal_strlit("Stock");
    reveal_strlit("Sleep");
    reveal_strlit("auto");
    reveal_strlit("fixed");
    reveal_strlit("stock");
    reveal_strlit("sleep");
    let l = ascii_lowercase_spec(work_mode_name(m));
    assert(ascii_lower('A') == 'a');
    assert(ascii_lower('F') == 'f');
    assert(ascii_lower('S') == 's');
    match m {
        MaraWorkMode::Auto => {
            assert(l =~= "auto"@);
        },
        MaraWorkMode::Fixed => {
            assert(l =~= "fixed"@);
            assert(l.len() != "auto"@.len());
        },
        MaraWorkMode::Stock => {
            assert(l =~= "stock"@);
            assert(l[1] != "fixed"@[1]);
        },
        MaraWorkMode::Sleep => {
            assert(l =~= "sleep"@);
            assert(l[1] != "fixed"@[1]);
            assert(l[1] != "stock"@[1]);
        },
    }
}

/// The error for a text that names no work mode: it carries the text
/// trimmed and ASCII-lower-cased.
pub open spec fn work_mode_error(s: Seq<char>) -> ConfigErrorV {
    ConfigErrorV::UnknownWorkMode(ascii_lowercase_spec(unicode_trim(s)))
}

/// The error for a text that names no work mode (see [`work_mode_error`]).
fn unknown_work_mode(s: &str) -> (e: ConfigError)
    ensures
        e@ == work_mode_error(s@),
{
    ConfigError::UnknownWorkMode(to_ascii_lowercase(trim_text(s).as_str()))
}

/// A verdict with its error taken by its value.
pub open spec fn verdict_v(v: Option<Result<MaraWorkMode, ConfigError>>) -> Option<Result<MaraWorkMode, ConfigErrorV>> {
    match v {
        Some(r) => Some(err_v(r)),
        None => None,
    }
}

/// The text a miner configuration holds at `/mode/work-mode-selector`.
pub open spec fn selector_text(cfg: JsonV) -> Option<Seq<char>> {
    opt_str(opt_get(cfg.get("mode"@), "work-mode-selector"@))
}

/// The work mode a miner configuration selects: none when it holds no text
/// at `/mode/work-mode-selector`, an error when the text names no mode.
pub open spec fn config_work_mode(cfg: JsonV) -> Result<Option<MaraWorkMode>, ConfigErrorV> {
    match selector_text(cfg) {
        Some(s) => match work_mode_from_spec(s) {
            Some(m) => Ok(Some(m)),
            None => Err(work_mode_error(s)),
        },
        None => Ok(None),
    }
}

/// The work mode a miner configuration selects (see [`config_work_mode`]).
pub fn work_mode_in_config(cfg: &Json) -> (r: Result<Option<MaraWorkMode>, ConfigError>)
    ensures
        err_v(r) == config_work_mode(cfg@),
{
    match str_in(crate::json::get_in(cfg.get("mode"), "work-mode-selector")) {
        Some(s) => match work_mode_from_text(s) {
            Some(m) => Ok(Some(m)),
            None => Err(unknown_work_mode(s)),
        },
        None => Ok(None),
    }
}

/// The configuration with `/mode/work-mode-selector` set to the mode's
/// name; `None` when the configuration has no such entry.
pub open spec fn config_with_work_mode(cfg: JsonV, mode: MaraWorkMode) -> Option<JsonV> {
    match cfg {
        JsonV::Object(es) => match entries_get(es, "mode"@) {
            Some(JsonV::Object(ms)) => if entries_get(ms, "work-mode-selector"@) is Some {
                Some(
                    JsonV::Object(
                        entries_insert(
                            es,
                            "mode"@,
                            JsonV::Object(
                                entries_insert(ms, "work-mode-selector"@, JsonV::Str(work_mode_name(mode))),
                            ),
                        ),
                    ),
                )
            } else {
                None
            },
            _ => None,
        },
        _ => None,
    }
}

/// Set the work mode of a miner configuration (see
/// [`config_with_work_mode`]); a configuration without the entry is
/// refused.
pub fn set_work_mode(cfg: Json, mode: MaraWorkMode) -> (r: Result<Json, ConfigError>)
    ensures
        match config_with_work_mode(cfg@, mode) {
            Some(v) => (r matches Ok(j) && j@ == v),
            None => r == Err::<Json, ConfigError>(ConfigError::NoWorkModeSelector),
        },
{
    match cfg {
        Json::Object(mut es) => {
            proof {
                crate::json::lemma_entries_view_len(es@);
            }
            let selector: Option<Vec<(String, Json)>> = match entries_lookup(&es, "mode") {
                Some(m) => match m.duplicate() {
                    Json::Object(ms) => {
                        proof {
                            crate::json::lemma_entries_view_len(ms@);
                        }
                        if entries_lookup(&ms, "work-mode-selector").is_some() {
                            Some(ms)
                        } else {
                            None
                        }
                    },
                    _ => None,
                },
                None => None,
            };
            match selector {
                Some(mut ms) => {
                    entry_set(&mut ms, "work-mode-selector", json_text(mode.name()));
                    entry_set(&mut es, "mode", Json::Object(ms));
                    Ok(Json::Object(es))
                },
                None => Err(ConfigError::NoWorkModeSelector),
            }
        },
        _ => Err(ConfigError::NoWorkModeSelector),
    }
}

/// Setting the work mode of a configuration and reading it back gives that
/// mode: the configuration then holds the mode's name at
/// `/mode/work-mode-selector`, and that name selects the mode.
pub proof fn lemma_set_work_mode_reads_back(cfg: JsonV, mode: MaraWorkMode)
    requires
        config_with_work_mode(cfg, mode) is Some,
    ensures
        selector_text(config_with_work_mode(cfg, mode)->0) == Some(work_mode_name(mode)),
        config_work_mode(config_with_work_mode(cfg, mode)->0) == Ok::<Option<MaraWorkMode>, ConfigErrorV>(Some(mode)),
{
    let es = cfg->Object_0;
    let ms = entries_get(es, "mode"@)->0->Object_0;
    let inner = entries_insert(ms, "work-mode-selector"@, JsonV::Str(work_mode_name(mode)));
    crate::json::lemma_get_after_insert(es, "mode"@, JsonV::Object(inner), "mode"@);
    crate::json::lemma_get_after_insert(ms, "work-mode-selector"@, JsonV::Str(work_mode_name(mode)), "work-mode-selector"@);
    lemma_work_mode_name_untrimmed(mode);
    lemma_work_mode_name_names_it(mode);
}

/// A work mode's name has no white space to trim.
proof fn lemma_work_mode_name_untrimmed(m: MaraWorkMode)
    ensures
        unicode_trim(work_mode_name(m)) == work_mode_name(m),
{
    reveal_strlit("Auto");
    reveal_strlit("Fixed");
    reveal_strlit("Stock");
    reveal_strlit("Sleep");
    let n = work_mode_name(m);
    assert(!is_unicode_whitespace(n[0]));
    assert(trim_start_spec(n) == n);
    assert(!is_unicode_whitespace(n.last()));
    assert(trim_end_spec(n) == n);
}

/// Whether the miner mines: its `status` is `Mining`.
pub fn parse_is_mining(status: Option<&Json>) -> (r: bool)
    ensures
        r == (opt_str(view_opt(status)) == Some("Mining"@)),
{
    match str_in(status) {
        Some(s) => text_eq(s, "Mining"),
        None => false,
    }
}

/// The severity a message `level` names: `warning` and `error`, anything
/// else (or no level) is information.
pub open spec fn level_severity(level: Option<Seq<char>>) -> MessageSeverity {
    match level {
        Some(l) => if l == "warning"@ {
            MessageSeverity::Warning
        } else if l == "error"@ {
            MessageSeverity::Error
        } else {
            MessageSeverity::Info
        },
        None => MessageSeverity::Info,
    }
}

/// The message an event entry describes: its `timestamp` cut to 32 bits (0
/// when missing), code 0, its `message` (empty when missing) and the
/// severity of its `level`.
pub open spec fn mara_message(e: JsonV) -> (u32, u64, Seq<char>, MessageSeverity) {
    (
        (match opt_u64(e.get("timestamp"@)) {
            Some(t) => t,
            None => 0,
        }) as u32,
        0u64,
        match opt_str(e.get("message"@)) {
            Some(m) => m,
            None => Seq::empty(),
        },
        level_severity(opt_str(e.get("level"@))),
    )
}

/// The severity of an event follows its `level`: `warning` gives a warning,
/// `error` an error, any other level, or none, information.  The message
/// holds the event's `message` text.
pub proof fn lemma_mara_message_severity(e: JsonV)
    ensures
        opt_str(e.get("level"@)) == Some("warning"@) ==> mara_message(e).3 == MessageSeverity::Warning,
        opt_str(e.get("level"@)) == Some("error"@) ==> mara_message(e).3 == MessageSeverity::Error,
        opt_str(e.get("level"@)) != Some("warning"@) && opt_str(e.get("level"@)) != Some("error"@)
            ==> mara_message(e).3 == MessageSeverity::Info,
        opt_str(e.get("message"@)) is Some ==> mara_message(e).2 == opt_str(e.get("message"@))->0,
{
    reveal_strlit("warning");
    reveal_strlit("error");
    assert("warning"@ != "error"@) by {
        assert("warning"@[0] != "error"@[0]);
    }
}

/// The messages of the event list: one per entry, in order; none without a
/// list.
pub fn parse_messages(events: Option<&Json>) -> (r: Vec<MinerMessage>)
    ensures
        messages_view(r@) == match opt_array(view_opt(events)) {
            Some(items) => items.map_values(|e: JsonV| mara_message(e)),
            None => Seq::empty(),
        },
{
    let mut out: Vec<MinerMessage> = Vec::new();
    let items = match crate::json::array_in(events) {
        Some(items) => items,
        None => {
            assert(messages_view(out@) =~= Seq::<(u32, u64, Seq<char>, MessageSeverity)>::empty());
            return out;
        },
    };
    let ghost iv = items_view(items@);
    proof {
        crate::json::lemma_items_view_len(items@);
    }
    let mut i: usize = 0;
    while i < items.len()
        invariant
            i <= items@.len(),
            iv == items_view(items@),
            iv.len() == items@.len(),
            forall|j: int| 0 <= j < items@.len() ==> #[trigger] iv[j] == items@[j]@,
            out@.len() == i,
            forall|j: int| 0 <= j < i ==> #[trigger] message_view(out@[j]) == mara_message(iv[j]),
        decreases items@.len() - i,
    {
        let e = &items[i];
        let level = match str_in(e.get("level")) {
            Some(l) => if text_eq(l, "warning") {
                MessageSeverity::Warning
            } else if text_eq(l, "error") {
                MessageSeverity::Error
            } else {
                MessageSeverity::Info
            },
            None => MessageSeverity::Info,
        };
        let text = match str_in(e.get("message")) {
            Some(m) => m.to_owned(),
            None => String::new(),
        };
        let ts = match u64_in(e.get("timestamp")) {
            Some(t) => t,
            None => 0,
        };
        let ts32 = ts as u32;
        let m = MinerMessage::new(ts32, 0, text, level);
        out.push(m);
        i = i + 1;
    }
    assert(messages_view(out@) =~= iv.map_values(|e: JsonV| mara_message(e)));
    out
}

/// The pool MaraFW mines on, chosen over the first entries: among the
/// entries with a `status` of `Alive`, a `priority` and an `index`, the first
/// whose priority (cut to 32 bits) is below every earlier one's.  Gives that
/// priority and the entry's index cut to 16 bits.
pub open spec fn mara_pick(ps: Seq<JsonV>) -> (i32, Option<u16>)
    decreases ps.len(),
{
    if ps.len() == 0 {
        (0x7fff_ffffi32, None)
    } else {
        let st = mara_pick(ps.drop_last());
        let p = ps.last();
        match (opt_str(p.get("status"@)), opt_i64(p.get("priority"@)), opt_u64(p.get("index"@))) {
            (Some(s), Some(pr), Some(ix)) => if s == "Alive"@ && (pr as i32) < st.0 {
                (pr as i32, Some(ix as u16))
            } else {
                st
            },
            _ => st,
        }
    }
}

/// The pool an entry describes, given the index of the active pool: its
/// `index` cut to 16 bits as position, a non-empty `url`, its share counts,
/// its `user`, whether its `status` is `Alive`, and active when it has an
/// index equal to the active one.
pub open spec fn mara_pool(p: JsonV, active: Option<u16>) -> PoolDataV {
    let index = match opt_u64(p.get("index"@)) {
        Some(i) => Some(i as u16),
        None => None,
    };
    PoolDataV {
        position: index,
        url: match opt_str(p.get("url"@)) {
            Some(u) => if u.len() > 0 {
                Some(u)
            } else {
                None
            },
            None => None,
        },
        accepted_shares: opt_u64(p.get("accepted"@)),
        rejected_shares: opt_u64(p.get("rejected"@)),
        active: Some(
            match index {
                Some(i) => Some(i) == active,
                None => false,
            },
        ),
        alive: match opt_str(p.get("status"@)) {
            Some(s) => Some(s == "Alive"@),
            None => None,
        },
        user: opt_str(p.get("user"@)),
    }
}

/// The reported pools: one unnamed group with quota 1 holding a pool per
/// entry of the list (none without a list).
pub open spec fn mara_pools(data: Option<JsonV>) -> Seq<PoolGroupDataV> {
    let ps = match opt_array(data) {
        Some(ps) => ps,
        None => Seq::empty(),
    };
    let active = mara_pick(ps).1;
    seq![PoolGroupDataV { name: Seq::empty(), quota: 1, pools: ps.map_values(|p: JsonV| mara_pool(p, active)) }]
}

/// Read the pool an entry describes.
fn read_mara_pool(p: &Json, active: Option<u16>) -> (r: PoolData)
    ensures
        r@ == mara_pool(p@, active),
{
    let index = match u64_in(p.get("index")) {
        Some(i) => Some(i as u16),
        None => None,
    };
    let url = match str_in(p.get("url")) {
        Some(u) => if u.unicode_len() > 0 {
            Some(PoolURL::new(u.to_owned()))
        } else {
            None
        },
        None => None,
    };
    let is_active = match index {
        Some(i) => match active {
            Some(a) => a == i,
            None => false,
        },
        None => false,
    };
    PoolData {
        position: index,
        url,
        accepted_shares: u64_in(p.get("accepted")),
        rejected_shares: u64_in(p.get("rejected")),
        active: Some(is_active),
        alive: match str_in(p.get("status")) {
            Some(s) => Some(text_eq(s, "Alive")),
            None => None,
        },
        user: match str_in(p.get("user")) {
            Some(u) => Some(u.to_owned()),
            None => None,
        },
    }
}

/// The reported pools (see [`mara_pools`]).
pub fn parse_pools(data: Option<&Json>) -> (r: Vec<PoolGroupData>)
    ensures
        pool_group_datas_view(r@) == mara_pools(view_opt(data)),
{
    let empty: Vec<Json> = Vec::new();
    let items = match crate::json::array_in(data) {
        Some(items) => items,
        None => &empty,
    };
    let ghost iv = items_view(items@);
    proof {
        crate::json::lemma_items_view_len(items@);
        assert(items_view(empty@) =~= Seq::<JsonV>::empty());
    }
    let mut best: i32 = 0x7fff_ffff;
    let mut active: Option<u16> = None;
    let mut i: usize = 0;
    assert(iv.take(0) =~= Seq::<JsonV>::empty());
    while i < items.len()
        invariant
            i <= items@.len(),
            iv == items_view(items@),
            iv.len() == items@.len(),
            forall|j: int| 0 <= j < items@.len() ==> #[trigger] iv[j] == items@[j]@,
            (best, active) == mara_pick(iv.take(i as int)),
        decreases items@.len() - i,
    {
        let p = &items[i];
        assert(iv.take(i + 1).drop_last() =~= iv.take(i as int));
        assert(iv.take(i + 1).last() == iv[i as int]);
        match (str_in(p.get("status")), i64_in(p.get("priority")), u64_in(p.get("index"))) {
            (Some(s), Some(pr), Some(ix)) => {
                let pr32 = pr as i32;
                if text_eq(s, "Alive") && pr32 < best {
                    best = pr32;
                    active = Some(ix as u16);
                }
            },
            _ => {},
        }
        i = i + 1;
    }
    assert(iv.take(items@.len() as int) =~= iv);
    let mut out: Vec<PoolData> = Vec::new();
    let mut k: usize = 0;
    while k < items.len()
        invariant
            k <= items@.len(),
            iv == items_view(items@),
            iv.len() == items@.len(),
            forall|j: int| 0 <= j < items@.len() ==> #[trigger] iv[j] == items@[j]@,
            active == mara_pick(iv).1,
            out@.len() == k,
            forall|j: int| 0 <= j < k ==> #[trigger] out@[j]@ == mara_pool(iv[j], active),
        decreases items@.len() - k,
    {
        let p = read_mara_pool(&items[k], active);
        out.push(p);
        k = k + 1;
    }
    assert(pool_datas_view(out@) =~= iv.map_values(|p: JsonV| mara_pool(p, active)));
    let r = vec![PoolGroupData { name: String::new(), quota: 1, pools: out }];
    assert(pool_group_datas_view(r@) =~= mara_pools(view_opt(data)));
    r
}

/// Whether a change entry records an update of `Mode` / `WorkModeSelector`:
/// its `type` is `update` and its `path` is those two names, each in any
/// ASCII case.
pub open spec fn is_mode_update(c: JsonV) -> bool {
    &&& match opt_str(c.get("type"@)) {
        Some(t) => eq_ignore_ascii_case_spec(t, "update"@),
        None => false,
    }
    &&& match opt_array(c.get("path"@)) {
        Some(p) => p.len() == 2 && match (p[0].str_of(), p[1].str_of()) {
            (Some(a), Some(b)) => eq_ignore_ascii_case_spec(a, "Mode"@) && eq_ignore_ascii_case_spec(
                b,
                "WorkModeSelector"@,
            ),
            _ => false,
        },
        None => false,
    }
}

/// What one change says of the mode before sleep: nothing, the mode it
/// left for sleep (a change into sleep from another mode), or an error when
/// a mode it names is unknown.  Its `to` is read before its `from`.
pub open spec fn change_verdict(c: JsonV) -> Option<Result<MaraWorkMode, ConfigErrorV>> {
    if !is_mode_update(c) {
        None
    } else {
        match opt_str(c.get("to"@)) {
            None => None,
            Some(t) => match work_mode_from_spec(t) {
                None => Some(Err(work_mode_error(t))),
                Some(tm) => if tm != MaraWorkMode::Sleep {
                    None
                } else {
                    match opt_str(c.get("from"@)) {
                        None => None,
                        Some(f) => match work_mode_from_spec(f) {
                            None => Some(Err(work_mode_error(f))),
                            Some(fm) => if fm != MaraWorkMode::Sleep {
                                Some(Ok(fm))
                            } else {
                                None
                            },
                        },
                    }
                },
            },
        }
    }
}

/// The first verdict of a list of changes.
pub open spec fn changes_verdict(cs: Seq<JsonV>) -> Option<Result<MaraWorkMode, ConfigErrorV>>
    decreases cs.len(),
{
    if cs.len() == 0 {
        None
    } else {
        match change_verdict(cs[0]) {
            Some(v) => Some(v),
            None => changes_verdict(cs.drop_first()),
        }
    }
}

/// The changes a value lists (none when it is not a list).
pub open spec fn listed_changes(v: JsonV) -> Seq<JsonV> {
    match v.array_of() {
        Some(cs) => cs,
        None => Seq::empty(),
    }
}

/// The first verdict of the lists of changes of an entry's fields, in order.
pub open spec fn fields_verdict(es: Seq<(Seq<char>, JsonV)>) -> Option<Result<MaraWorkMode, ConfigErrorV>>
    decreases es.len(),
{
    if es.len() == 0 {
        None
    } else {
        match changes_verdict(listed_changes(es[0].1)) {
            Some(v) => Some(v),
            None => fields_verdict(es.drop_first()),
        }
    }
}

/// The first verdict of a history entry (none when it is not an object).
pub open spec fn entry_verdict(e: JsonV) -> Option<Result<MaraWorkMode, ConfigErrorV>> {
    match e.object_of() {
        Some(es) => fields_verdict(es),
        None => None,
    }
}

/// The first verdict of the history, newest (last) entry first.
pub open spec fn history_verdict(hs: Seq<JsonV>) -> Option<Result<MaraWorkMode, ConfigErrorV>>
    decreases hs.len(),
{
    if hs.len() == 0 {
        None
    } else {
        match entry_verdict(hs.last()) {
            Some(v) => Some(v),
            None => history_verdict(hs.drop_last()),
        }
    }
}

/// The work mode the miner was in before it last went to sleep, by its
/// configuration history: none when the history is not a list or records
/// no such change.
pub open spec fn mode_before_sleep(history: JsonV) -> Result<Option<MaraWorkMode>, ConfigErrorV> {
    match history.array_of() {
        Some(hs) => match history_verdict(hs) {
            Some(Ok(m)) => Ok(Some(m)),
            Some(Err(e)) => Err(e),
            None => Ok(None),
        },
        None => Ok(None),
    }
}

/// The verdict of one change (see [`change_verdict`]).
fn read_change(c: &Json) -> (r: Option<Result<MaraWorkMode, ConfigError>>)
    ensures
        verdict_v(r) == change_verdict(c@),
{
    let is_update = match str_in(c.get("type")) {
        Some(t) => eq_ignore_ascii_case(t, "update"),
        None => false,
    };
    let path_matches = match crate::json::array_in(c.get("path")) {
        Some(p) => {
            proof {
                crate::json::lemma_items_view_len(p@);
            }
            if p.len() == 2 {
                match (p[0].as_str(), p[1].as_str()) {
                    (Some(a), Some(b)) => eq_ignore_ascii_case(a, "Mode") && eq_ignore_ascii_case(b, "WorkModeSelector"),
                    _ => false,
                }
            } else {
                false
            }
        },
        None => false,
    };
    if !(is_update && path_matches) {
        return None;
    }
    let to = match str_in(c.get("to")) {
        Some(t) => t,
        None => return None,
    };
    match work_mode_from_text(to) {
        None => Some(Err(unknown_work_mode(to))),
        Some(tm) => if tm != MaraWorkMode::Sleep {
            None
        } else {
            match str_in(c.get("from")) {
                None => None,
                Some(f) => match work_mode_from_text(f) {
                    None => Some(Err(unknown_work_mode(f))),
                    Some(fm) => if fm != MaraWorkMode::Sleep {
                        Some(Ok(fm))
                    } else {
                        None
                    },
                },
            }
        },
    }
}

/// The first verdict of a list of changes (see [`changes_verdict`]).
fn scan_changes(cs: &Vec<Json>) -> (r: Option<Result<MaraWorkMode, ConfigError>>)
    ensures
        verdict_v(r) == changes_verdict(items_view(cs@)),
{
    let ghost iv = items_view(cs@);
    proof {
        crate::json::lemma_items_view_len(cs@);
    }
    let mut i: usize = 0;
    assert(iv.skip(0) =~= iv);
    while i < cs.len()
        invariant
            i <= cs@.len(),
            iv == items_view(cs@),
            iv.len() == cs@.len(),
            forall|j: int| 0 <= j < cs@.len() ==> #[trigger] iv[j] == cs@[j]@,
            changes_verdict(iv) == changes_verdict(iv.skip(i as int)),
        decreases cs@.len() - i,
    {
        assert(iv.skip(i as int)[0] == iv[i as int]);
        assert(iv.skip(i as int).drop_first() =~= iv.skip(i + 1));
        let v = read_change(&cs[i]);
        if v.is_some() {
            return v;
        }
        i = i + 1;
    }
    assert(iv.skip(i as int).len() == 0);
    None
}

/// The first verdict of a history entry (see [`entry_verdict`]).
fn scan_entry(e: &Json) -> (r: Option<Result<MaraWorkMode, ConfigError>>)
    ensures
        verdict_v(r) == entry_verdict(e@),
{
    let es = match e.as_object() {
        Some(es) => es,
        None => return None,
    };
    let ghost ev = crate::json::entries_view(es@);
    proof {
        crate::json::lemma_entries_view_len(es@);
    }
    let mut i: usize = 0;
    assert(ev.skip(0) =~= ev);
    while i < es.len()
        invariant
            i <= es@.len(),
            e@.object_of() == Some(ev),
            ev == crate::json::entries_view(es@),
            ev.len() == es@.len(),
            forall|j: int| 0 <= j < es@.len() ==> #[trigger] ev[j] == (es@[j].0@, es@[j].1@),
            fields_verdict(ev) == fields_verdict(ev.skip(i as int)),
        decreases es@.len() - i,
    {
        assert(ev.skip(i as int)[0] == ev[i as int]);
        assert(ev.skip(i as int).drop_first() =~= ev.skip(i + 1));
        let v = match es[i].1.as_array() {
            Some(cs) => scan_changes(cs),
            None => None,
        };
        if v.is_some() {
            return v;
        }
        i = i + 1;
    }
    assert(ev.skip(i as int).len() == 0);
    None
}

/// The work mode the miner was in before it last went to sleep (see
/// [`mode_before_sleep`]).
pub fn last_mode_before_sleep(history: &Json) -> (r: Result<Option<MaraWorkMode>, ConfigError>)
    ensures
        err_v(r) == mode_before_sleep(history@),
{
    let hs = match history.as_array() {
        Some(hs) => hs,
        None => return Ok(None),
    };
    let ghost hv = items_view(hs@);
    proof {
        crate::json::lemma_items_view_len(hs@);
    }
    let mut k: usize = hs.len();
    assert(hv.take(k as int) =~= hv);
    while k > 0
        invariant
            k <= hs@.len(),
            history@.array_of() == Some(hv),
            hv == items_view(hs@),
            hv.len() == hs@.len(),
            forall|j: int| 0 <= j < hs@.len() ==> #[trigger] hv[j] == hs@[j]@,
            history_verdict(hv) == history_verdict(hv.take(k as int)),
        decreases k,
    {
        assert(hv.take(k as int).last() == hv[k - 1]);
        assert(hv.take(k as int).drop_last() =~= hv.take(k - 1));
        let v = scan_entry(&hs[k - 1]);
        match v {
            Some(Ok(m)) => return Ok(Some(m)),
            Some(Err(e)) => return Err(e),
            None => {},
        }
        k = k - 1;
    }
    assert(hv.take(0).len() == 0);
    Ok(None)
}

/// The outcome of writing the miner configuration, by the firmware's reply:
/// refused when its `error` is `true`, with the text
/// `MaraFW miner_config POST failed: ` and the reply's `msg` (or
/// `unknown error`); accepted otherwise.
pub open spec fn config_reply(resp: JsonV) -> Result<bool, Seq<char>> {
    if opt_bool(resp.get("error"@)) == Some(true) {
        Err(
            "MaraFW miner_config POST failed: "@ + match opt_str(resp.get("msg"@)) {
                Some(m) => m,
                None => "unknown error"@,
            },
        )
    } else {
        Ok(true)
    }
}

/// The outcome of writing the miner configuration (see [`config_reply`]).
pub fn miner_config_reply(resp: &Json) -> (r: Result<bool, String>)
    ensures
        match r {
            Ok(b) => config_reply(resp@) == Ok::<bool, Seq<char>>(b),
            Err(m) => config_reply(resp@) == Err::<bool, Seq<char>>(m@),
        },
{
    if bool_in(resp.get("error")) == Some(true) {
        let mut text = "MaraFW miner_config POST failed: ".to_owned();
        match str_in(resp.get("msg")) {
            Some(m) => push_text(&mut text, m),
            None => push_text(&mut text, "unknown error"),
        }
        Err(text)
    } else {
        Ok(true)
    }
}

/// The miner configuration with the pool groups and pools MaraFW expects
/// for `config` (see [`build_pool_config`]) written under `pool-group` and
/// `pools`.
pub open spec fn config_with_pools(es: Seq<(Seq<char>, JsonV)>, groups: Seq<PoolGroupConfigV>) -> JsonV {
    JsonV::Object(
        entries_insert(
            entries_insert(
                es,
                "pool-group"@,
                JsonV::Array(Seq::new(groups.len(), |i: int| pool_group_entry(groups, i))),
            ),
            "pools"@,
            JsonV::Array(pool_entries(groups, groups.len() as int)),
        ),
    )
}

/// Write the pool configuration into the miner configuration: refused when
/// a kept group has quota 0, then when the miner configuration is not an
/// object; else [`config_with_pools`].
pub fn pools_update(config: &[PoolGroupConfig], miner_config: Json) -> (r: Result<Json, ConfigError>)
    ensures
        ({
            let groups = kept_groups(pool_groups_view(config@));
            if groups.len() > 0 && has_zero_quota(groups) {
                r == Err::<Json, ConfigError>(ConfigError::ZeroQuota)
            } else {
                match miner_config@ {
                    JsonV::Object(es) => (r matches Ok(j) && j@ == config_with_pools(es, groups)),
                    _ => r == Err::<Json, ConfigError>(ConfigError::NotAnObject),
                }
            }
        }),
{
    let (pool_groups, pools) = match build_pool_config(config) {
        Ok(built) => built,
        Err(e) => return Err(e),
    };
    match miner_config {
        Json::Object(mut es) => {
            entry_set(&mut es, "pool-group", json_array(pool_groups));
            entry_set(&mut es, "pools", json_array(pools));
            Ok(Json::Object(es))
        },
        _ => Err(ConfigError::NotAnObject),
    }
}

/// Whether the selected work mode is sleep.
pub fn asleep(current: Option<MaraWorkMode>) -> (r: bool)
    ensures
        r == (current == Some(MaraWorkMode::Sleep)),
{
    match current {
        Some(MaraWorkMode::Sleep) => true,
        _ => false,
    }
}

/// The work mode pausing selects, given the selected one: none when the
/// miner already sleeps, else sleep.
pub fn pause_target(current: Option<MaraWorkMode>) -> (r: Option<MaraWorkMode>)
    ensures
        r == if current == Some(MaraWorkMode::Sleep) {
            None
        } else {
            Some(MaraWorkMode::Sleep)
        },
{
    if asleep(current) {
        None
    } else {
        Some(MaraWorkMode::Sleep)
    }
}

/// The work mode resuming selects, given the selected one and the mode
/// before the last sleep: none when the miner does not sleep, else the mode
/// before sleep, or stock when it is unknown.
pub fn resume_target(current: Option<MaraWorkMode>, before_sleep: Option<MaraWorkMode>) -> (r: Option<MaraWorkMode>)
    ensures
        r == if current == Some(MaraWorkMode::Sleep) {
            Some(
                match before_sleep {
                    Some(m) => m,
                    None => MaraWorkMode::Stock,
                },
            )
        } else {
            None
        },
{
    if asleep(current) {
        Some(
            match before_sleep {
                Some(m) => m,
                None => MaraWorkMode::Stock,
            },
        )
    } else {
        None
    }
}

} // verus!
