//! Stock Antminer firmware: its miner configuration (`get_miner_conf` /
//! `set_miner_conf`), pools, messages and status values.
use vstd::prelude::*;
use crate::tuning::TuningTarget;
use crate::data::{
    ConfigField, AntMinerStockFirmware, DeviceInfo, HashAlgorithm, MinerHardwareV, MinerModel, FanConfig, MessageSeverity, MinerMessage, MiningMode, message_view, messages_view};
use crate::errors::ConfigError;
use crate::json::{
    Json, JsonNumber, JsonV, entries_view, items_view, entries_insert, entry_push, entry_set,
    item_push, json_text, json_u64, json_bool, json_array, json_object, json_string, view_opt,
    opt_str, opt_u64, opt_bool, opt_i64, get_in, str_in, u64_in, bool_in, array_in, text_or_empty,
    str_or_empty,
};
use crate::fields::{
    ApiKind, DataField, DataLocation, LocationV, at, location_v, locations_view, rpc, tagged_at, web,
};
use crate::traits::{
    GetDataLocations,
    ChangePassword, FactoryReset, GetDeviceInfo, Pause, ReadLogs, Restart, Resume, SetFaultLight,
    SetPowerLimit, SupportsFanConfig, SupportsPoolsConfig, SupportsScalingConfig, SupportsTuningConfig,
    UpgradeFirmware,
};
use crate::numbers::{json_gt_zero, number_is_positive};
use crate::pools::{
    PoolConfig, PoolConfigV, PoolData, PoolDataV, PoolGroupConfig, PoolGroupConfigV, PoolGroupData,
    PoolURL, PoolGroupDataV, pool_configs_view, pool_datas_view, pool_groups_view, pool_group_datas_view, at_most,
    flat_pools, first_pools, pool_entry, pool_payload_entry,
};
use crate::text::{
    eq_ignore_ascii_case, eq_ignore_ascii_case_spec, parse_u64, parse_u64_spec, text_eq,
    u64_to_text, decimal_text, to_lowercase, unicode_lowercase,
};

verus! {

/// The work modes of the stock Antminer firmware.
#[derive(Debug, Clone, Copy, PartialEq, Eq, Structural)]
pub enum MinerMode {
    Sleep,
    Low,
    Normal,
    High,
}

/// The number the web interface uses for a work mode.
pub open spec fn web_value(m: MinerMode) -> u8 {
    match m {
        MinerMode::Sleep => 1,
        MinerMode::Low => 3,
        MinerMode::Normal => 0,
        MinerMode::High => 2,
    }
}

/// The text of a work mode (its `Display`): the same number, written out.
pub open spec fn mode_text(m: MinerMode) -> Seq<char> {
    match m {
        MinerMode::Sleep => "1"@,
        MinerMode::Low => "3"@,
        MinerMode::High => "2"@,
        MinerMode::Normal => "0"@,
    }
}

impl MinerMode {
    /// The number the web interface uses for this mode.
    pub fn as_web_value(&self) -> (r: u8)
        ensures
            r == web_value(*self),
    {
        match self {
            MinerMode::Sleep => 1,
            MinerMode::Low => 3,
            MinerMode::Normal => 0,
            MinerMode::High => 2,
        }
    }

    /// The text of this mode (its `Display`).
    pub fn text(&self) -> (r: &'static str)
        ensures
            r@ == mode_text(*self),
    {
        match self {
            MinerMode::Sleep => "1",
            MinerMode::Low => "3",
            MinerMode::High => "2",
            MinerMode::Normal => "0",
        }
    }

    /// The work mode for a mining mode.
    pub open spec fn from_mining_mode_spec(mode: MiningMode) -> MinerMode {
        match mode {
            MiningMode::Low => MinerMode::Low,
            MiningMode::Normal => MinerMode::Normal,
            MiningMode::High => MinerMode::High,
        }
    }

    /// The work mode for a mining mode.
    pub fn from_mining_mode(mode: MiningMode) -> (r: MinerMode)
        ensures
            r == MinerMode::from_mining_mode_spec(mode),
    {
        match mode {
            MiningMode::Low => MinerMode::Low,
            MiningMode::Normal => MinerMode::Normal,
            MiningMode::High => MinerMode::High,
        }
    }
}

/// Whether a mode field's value names mode `m`: its text, or an integer
/// written as that text.
pub open spec fn mode_value_matches(v: JsonV, m: MinerMode) -> bool {
    match v.str_of() {
        Some(s) => s == mode_text(m),
        None => match v.i64_of() {
            Some(n) => n == web_value(m),
            None => false,
        },
    }
}

/// Whether the configuration is in mode `m`: `miner-mode` or
/// `bitmain-work-mode` names it.
pub open spec fn conf_mode_matches(conf: JsonV, m: MinerMode) -> bool {
    (conf.get("miner-mode"@) matches Some(v) && mode_value_matches(v, m)) || (conf.get(
        "bitmain-work-mode"@,
    ) matches Some(v) && mode_value_matches(v, m))
}

fn value_matches(v: &Json, mode: MinerMode) -> (r: bool)
    ensures
        r == mode_value_matches(v@, mode),
{
    match v.as_str() {
        Some(s) => {
            proof {
                reveal_strlit("0");
                reveal_strlit("1");
                reveal_strlit("2");
                reveal_strlit("3");
            }
            text_eq(s, mode.text())
        },
        None => match v.as_i64() {
            Some(n) => n == mode.as_web_value() as i64,
            None => false,
        },
    }
}

/// Whether the miner configuration is in the given work mode.
pub fn miner_conf_mode_matches(conf: &Json, mode: MinerMode) -> (r: bool)
    ensures
        r == conf_mode_matches(conf@, mode),
{
    let a = match conf.get("miner-mode") {
        Some(v) => value_matches(v, mode),
        None => false,
    };
    if a {
        return true;
    }
    match conf.get("bitmain-work-mode") {
        Some(v) => value_matches(v, mode),
        None => false,
    }
}

/// The field that holds the work mode: `miner-mode` when present, else
/// `bitmain-work-mode` when present.
pub open spec fn mode_key(conf: JsonV) -> Option<Seq<char>> {
    if conf.get("miner-mode"@) is Some {
        Some("miner-mode"@)
    } else if conf.get("bitmain-work-mode"@) is Some {
        Some("bitmain-work-mode"@)
    } else {
        None
    }
}

/// The field of the miner configuration that holds the work mode.
pub fn miner_mode_config_key(conf: &Json) -> (r: Option<&'static str>)
    ensures
        match r {
            Some(k) => mode_key(conf@) == Some(k@),
            None => mode_key(conf@) is None,
        },
{
    if conf.get("miner-mode").is_some() {
        Some("miner-mode")
    } else if conf.get("bitmain-work-mode").is_some() {
        Some("bitmain-work-mode")
    } else {
        None
    }
}

/// The value under `key`, or `default`.
pub open spec fn value_or(conf: JsonV, key: Seq<char>, default: JsonV) -> JsonV {
    match conf.get(key) {
        Some(v) => v,
        None => default,
    }
}

/// The configuration the web interface accepts back, built from the current
/// one: fan control (default off), fan PWM (default `"100"`), the work mode
/// field when there is one, frequency level (`freq-level`, else
/// `bitmain-freq-level`, default `"100"`) and pools (default empty).
pub open spec fn browser_payload(conf: JsonV) -> Seq<(Seq<char>, JsonV)> {
    let head = seq![
        ("bitmain-fan-ctrl"@, value_or(conf, "bitmain-fan-ctrl"@, JsonV::Bool(false))),
        ("bitmain-fan-pwm"@, value_or(conf, "bitmain-fan-pwm"@, JsonV::Str("100"@))),
    ];
    let with_mode = match mode_key(conf) {
        Some(k) => head.push((k, conf.get(k).unwrap())),
        None => head,
    };
    let freq = match conf.get("freq-level"@) {
        Some(v) => v,
        None => value_or(conf, "bitmain-freq-level"@, JsonV::Str("100"@)),
    };
    with_mode.push(("freq-level"@, freq)).push(
        ("pools"@, value_or(conf, "pools"@, JsonV::Array(Seq::empty()))),
    )
}

/// A copy of the value under `key`, or `default`.
fn copy_or(conf: &Json, key: &str, default: Json) -> (r: Json)
    ensures
        r@ == value_or(conf@, key@, default@),
{
    match conf.get(key) {
        Some(v) => v.duplicate(),
        None => default,
    }
}

/// The configuration entries the web interface accepts back (see
/// [`browser_payload`]).
pub fn browser_miner_conf_payload(conf: &Json) -> (r: Vec<(String, Json)>)
    ensures
        entries_view(r@) == browser_payload(conf@),
{
    let mut payload: Vec<(String, Json)> = Vec::new();
    entry_push(&mut payload, "bitmain-fan-ctrl", copy_or(conf, "bitmain-fan-ctrl", json_bool(false)));
    entry_push(&mut payload, "bitmain-fan-pwm", copy_or(conf, "bitmain-fan-pwm", json_text("100")));
    match miner_mode_config_key(conf) {
        Some(k) => {
            match conf.get(k) {
                Some(mode) => {
                    entry_push(&mut payload, k, mode.duplicate());
                },
                None => {},
            }
        },
        None => {},
    }
    let freq = match conf.get("freq-level") {
        Some(v) => v.duplicate(),
        None => copy_or(conf, "bitmain-freq-level", json_text("100")),
    };
    entry_push(&mut payload, "freq-level", freq);
    let empty: Vec<Json> = Vec::new();
    assert(items_view(empty@) =~= Seq::<JsonV>::empty());
    entry_push(&mut payload, "pools", copy_or(conf, "pools", json_array(empty)));
    payload
}

/// The configuration to send for a new pool list.
pub fn miner_conf_with_pools(conf: &Json, pools: Vec<Json>) -> (r: Json)
    ensures
        r@ == JsonV::Object(
            entries_insert(browser_payload(conf@), "pools"@, JsonV::Array(items_view(pools@))),
        ),
{
    let mut payload = browser_miner_conf_payload(conf);
    entry_set(&mut payload, "pools", json_array(pools));
    json_object(payload)
}

/// The configuration to send to switch to work mode `m`, when the current
/// configuration has a work mode field.
pub fn miner_conf_with_miner_mode(conf: &Json, mode: MinerMode) -> (r: Option<Json>)
    ensures
        match mode_key(conf@) {
            None => r is None,
            Some(k) => r matches Some(v) && v@ == JsonV::Object(
                entries_insert(browser_payload(conf@), k, JsonV::Number(JsonNumber::PosInt(web_value(mode) as u64))),
            ),
        },
{
    let k = match miner_mode_config_key(conf) {
        Some(k) => k,
        None => return None,
    };
    let mut payload = browser_miner_conf_payload(conf);
    entry_set(&mut payload, k, json_u64(mode.as_web_value() as u64));
    Some(json_object(payload))
}

/// The mining mode a work mode field names: `0` is normal, `2` high, `3` low
/// (as text or as an integer).
pub open spec fn mining_mode_of_value(v: JsonV) -> Option<MiningMode> {
    match v.str_of() {
        Some(s) => if s == "0"@ {
            Some(MiningMode::Normal)
        } else if s == "2"@ {
            Some(MiningMode::High)
        } else if s == "3"@ {
            Some(MiningMode::Low)
        } else {
            None
        },
        None => match v.i64_of() {
            Some(n) => if n == 0 {
                Some(MiningMode::Normal)
            } else if n == 2 {
                Some(MiningMode::High)
            } else if n == 3 {
                Some(MiningMode::Low)
            } else {
                None
            },
            None => None,
        },
    }
}

/// The mining mode a work mode field names.
pub fn miner_mode_from_value(v: &Json) -> (r: Option<MiningMode>)
    ensures
        r == mining_mode_of_value(v@),
{
    match v.as_str() {
        Some(s) => {
            proof {
                reveal_strlit("0");
                reveal_strlit("2");
                reveal_strlit("3");
            }
            if text_eq(s, "0") {
                Some(MiningMode::Normal)
            } else if text_eq(s, "2") {
                Some(MiningMode::High)
            } else if text_eq(s, "3") {
                Some(MiningMode::Low)
            } else {
                None
            }
        },
        None => match v.as_i64() {
            Some(n) => if n == 0 {
                Some(MiningMode::Normal)
            } else if n == 2 {
                Some(MiningMode::High)
            } else if n == 3 {
                Some(MiningMode::Low)
            } else {
                None
            },
            None => None,
        },
    }
}

/// Reading a work-mode field undoes writing it, in both encodings: the
/// text of the work mode of `m` (`0`, `2` or `3`, as `Display` writes it)
/// and its number (as the web interface writes it) both read back as `m`.
pub proof fn lemma_mode_value_reads_back(m: MiningMode)
    ensures
        mining_mode_of_value(JsonV::Str(mode_text(MinerMode::from_mining_mode_spec(m)))) == Some(m),
        mining_mode_of_value(JsonV::Number(JsonNumber::PosInt(web_value(MinerMode::from_mining_mode_spec(m)) as u64)))
            == Some(m),
{
    reveal_strlit("0");
    reveal_strlit("2");
    reveal_strlit("3");
    assert("0"@ != "2"@) by {
        assert("0"@[0] != "2"@[0]);
    }
    assert("0"@ != "3"@) by {
        assert("0"@[0] != "3"@[0]);
    }
    assert("2"@ != "3"@) by {
        assert("2"@[0] != "3"@[0]);
    }
}

/// A value names a work mode exactly when it reads as that mode's mining
/// mode: the mode check and the mode reading agree on every value.
pub proof fn lemma_mode_value_matches_reading(v: JsonV, m: MiningMode)
    ensures
        mode_value_matches(v, MinerMode::from_mining_mode_spec(m)) <==> mining_mode_of_value(v) == Some(m),
{
    reveal_strlit("0");
    reveal_strlit("2");
    reveal_strlit("3");
    assert("0"@ != "2"@) by {
        assert("0"@[0] != "2"@[0]);
    }
    assert("0"@ != "3"@) by {
        assert("0"@[0] != "3"@[0]);
    }
    assert("2"@ != "3"@) by {
        assert("2"@[0] != "3"@[0]);
    }
}

/// Whether a field holds the text or the number of the work mode of `m`.
pub open spec fn holds_mode_of(field: Option<JsonV>, m: MiningMode) -> bool {
    field == Some(JsonV::Str(mode_text(MinerMode::from_mining_mode_spec(m)))) || field == Some(
        JsonV::Number(JsonNumber::PosInt(web_value(MinerMode::from_mining_mode_spec(m)) as u64)),
    )
}

/// A configuration whose `miner-mode` holds the text or the number of the
/// work mode of `m`, or that has no `miner-mode` and whose
/// `bitmain-work-mode` holds it, is in mining mode `m`.
pub proof fn lemma_work_mode_field_reads_back(conf: JsonV, m: MiningMode)
    requires
        holds_mode_of(conf.get("miner-mode"@), m) || (conf.get("miner-mode"@) is None && holds_mode_of(
            conf.get("bitmain-work-mode"@),
            m,
        )),
    ensures
        conf_mining_mode(conf) == Some(m),
{
    lemma_mode_value_reads_back(m);
}

/// The mining mode of a configuration: the first of `miner-mode`,
/// `bitmain-work-mode` that names one.
pub open spec fn conf_mining_mode(conf: JsonV) -> Option<MiningMode> {
    let a = match conf.get("miner-mode"@) {
        Some(v) => mining_mode_of_value(v),
        None => None,
    };
    match a {
        Some(m) => Some(m),
        None => match conf.get("bitmain-work-mode"@) {
            Some(v) => mining_mode_of_value(v),
            None => None,
        },
    }
}

/// The mining mode of the miner configuration.
pub fn miner_conf_mining_mode(conf: &Json) -> (r: Option<MiningMode>)
    ensures
        r == conf_mining_mode(conf@),
{
    let a = match conf.get("miner-mode") {
        Some(v) => miner_mode_from_value(v),
        None => None,
    };
    match a {
        Some(m) => Some(m),
        None => match conf.get("bitmain-work-mode") {
            Some(v) => miner_mode_from_value(v),
            None => None,
        },
    }
}

/// Switching a configuration to the work mode of a mining mode and reading
/// the mining mode back gives that mode: the written configuration holds the
/// mode's number under the configuration's own mode field, and no other mode
/// field.
pub proof fn lemma_miner_mode_reads_back(conf: JsonV, m: MiningMode)
    requires
        mode_key(conf) is Some,
    ensures
        conf_mining_mode(
            JsonV::Object(
                entries_insert(
                    browser_payload(conf),
                    mode_key(conf)->0,
                    JsonV::Number(JsonNumber::PosInt(web_value(MinerMode::from_mining_mode_spec(m)) as u64)),
                ),
            ),
        ) == Some(m),
{
    reveal_strlit("miner-mode");
    reveal_strlit("bitmain-work-mode");
    reveal_strlit("bitmain-fan-ctrl");
    reveal_strlit("bitmain-fan-pwm");
    reveal_strlit("freq-level");
    reveal_strlit("pools");
    let k = mode_key(conf)->0;
    let mode = MinerMode::from_mining_mode_spec(m);
    let v = JsonV::Number(JsonNumber::PosInt(web_value(mode) as u64));
    let es = browser_payload(conf);
    let written = entries_insert(es, k, v);
    crate::json::lemma_get_after_insert(es, k, v, k);
    assert(mining_mode_of_value(v) == Some(m));
    if k == "bitmain-work-mode"@ {
        crate::json::lemma_get_after_insert(es, k, v, "miner-mode"@);
        assert("miner-mode"@ != k) by {
            assert("miner-mode"@[0] != k[0]);
        }
        assert(crate::json::entries_get(es, "miner-mode"@) is None) by {
            assert(es[0].0 != "miner-mode"@) by {
                assert(es[0].0[0] != "miner-mode"@[0]);
            }
            assert(es[1].0 != "miner-mode"@) by {
                assert(es[1].0[0] != "miner-mode"@[0]);
            }
            assert(es[2].0 != "miner-mode"@) by {
                assert(es[2].0[0] != "miner-mode"@[0]);
            }
            assert(es[3].0 != "miner-mode"@) by {
                assert(es[3].0[0] != "miner-mode"@[0]);
            }
            assert(es[4].0 != "miner-mode"@) by {
                assert(es[4].0[0] != "miner-mode"@[0]);
            }
            assert(es.len() == 5);
            reveal_with_fuel(crate::json::entries_get, 6);
        }
    }
}

/// The working chips and activity of the hashboard at `position` in the
/// `stats` answer: the chip count `chain_acn<n>` of its chain (numbered from
/// 1), cut to `u16`; the board is active when its hash rate is above zero
/// (read as a decimal by the caller) or it has working chips.
pub fn chain_board_state(stats: &Json, position: u8, hashrate_positive: bool) -> (r: (Option<u16>, bool))
    requires
        position < 255,
    ensures
        r.0 == match opt_u64(stats@.get("chain_acn"@ + decimal_text(position as nat + 1))) {
            Some(u) => Some(u as u16),
            None => None,
        },
        r.1 == (hashrate_positive || (r.0 matches Some(c) && c > 0)),
{
    let mut key = String::new();
    crate::text::push_text(&mut key, "chain_acn");
    let number = u64_to_text(position as u64 + 1);
    crate::text::push_text(&mut key, number.as_str());
    proof {
        reveal_strlit("chain_acn");
        assert(key@ =~= "chain_acn"@ + decimal_text(position as nat + 1));
    }
    let working: Option<u16> = match u64_in(stats.get(key.as_str())) {
        Some(u) => Some(u as u16),
        None => None,
    };
    let has_chips = match working {
        Some(c) => c > 0,
        None => false,
    };
    (working, hashrate_positive || has_chips)
}

/// An Antminer hashboard, but for its measurements.
#[derive(Clone, Debug)]
pub struct AntminerBoard {
    pub position: u8,
    pub expected_chips: Option<u16>,
    pub active: Option<bool>,
    pub working_chips: Option<u16>,
}

/// The state of the board at `p`: blank without a `stats` answer that is an
/// object; else its working chips and activity as [`chain_board_state`]
/// gives them, the hash rate counting as above zero when `rate_positive`
/// says so at `p`.
pub open spec fn antminer_board_holds(b: AntminerBoard, stats: Option<JsonV>, hw: MinerHardwareV, rate_positive: Seq<bool>, p: int) -> bool {
    &&& b.position == p
    &&& b.expected_chips == crate::epic_boards::hw_chips(hw, p)
    &&& match stats {
        Some(JsonV::Object(_)) => {
            let working = match opt_u64(stats->0.get("chain_acn"@ + decimal_text((p + 1) as nat))) {
                Some(u) => Some(u as u16),
                None => None,
            };
            let rate = 0 <= p < rate_positive.len() && rate_positive[p];
            &&& b.working_chips == working
            &&& b.active == Some(rate || (working matches Some(c) && c > 0))
        },
        _ => b.active is None && b.working_chips is None,
    }
}

/// The hashboards of an Antminer: one for each board the hardware has, each
/// as [`antminer_board_holds`] says.  `rate_positive[p]` tells whether the
/// hash rate `chain_rate<p + 1>` of the board at `p` is above zero.
pub fn antminer_boards(stats: Option<&Json>, hardware: &crate::data::MinerHardware, rate_positive: &Vec<bool>) -> (r: Vec<AntminerBoard>)
    ensures
        r@.len() == crate::epic_boards::hw_boards(hardware@),
        forall|p: int| 0 <= p < r@.len() ==> antminer_board_holds(#[trigger] r@[p], view_opt(stats), hardware@, rate_positive@, p),
{
    let n: u8 = match hardware.board_count() {
        Some(c) => c,
        None => 0,
    };
    let mut boards: Vec<AntminerBoard> = Vec::new();
    let mut p: u8 = 0;
    while p < n
        invariant
            p <= n,
            n == crate::epic_boards::hw_boards(hardware@),
            boards@.len() == p,
            forall|q: int| 0 <= q < p ==> antminer_board_holds(#[trigger] boards@[q], view_opt(stats), hardware@, rate_positive@, q),
        decreases n - p,
    {
        let expected_chips = hardware.chips_for_board(p as usize);
        let b = match stats {
            Some(s) => match s {
                Json::Object(_) => {
                    let rate = (p as usize) < rate_positive.len() && rate_positive[p as usize];
                    let (working_chips, active) = chain_board_state(s, p, rate);
                    proof {
                        assert((p as nat + 1) == ((p as int + 1) as nat));
                    }
                    AntminerBoard { position: p, expected_chips, active: Some(active), working_chips }
                },
                _ => AntminerBoard { position: p, expected_chips, active: None, working_chips: None },
            },
            None => AntminerBoard { position: p, expected_chips, active: None, working_chips: None },
        };
        boards.push(b);
        p = p + 1;
    }
    boards
}

/// A flag as the web interface writes it: a boolean, or the text `1`/`0`/
/// `true`/`false` (any case).
pub open spec fn flag_of_value(v: JsonV) -> Option<bool> {
    match v.bool_of() {
        Some(b) => Some(b),
        None => match v.str_of() {
            Some(s) => if s == "1"@ {
                Some(true)
            } else if s == "0"@ {
                Some(false)
            } else if eq_ignore_ascii_case_spec(s, "true"@) {
                Some(true)
            } else if eq_ignore_ascii_case_spec(s, "false"@) {
                Some(false)
            } else {
                None
            },
            None => None,
        },
    }
}

/// Read a flag.
pub fn bool_from_value(v: &Json) -> (r: Option<bool>)
    ensures
        r == flag_of_value(v@),
{
    match v.as_bool() {
        Some(b) => Some(b),
        None => match v.as_str() {
            Some(s) => if text_eq(s, "1") {
                Some(true)
            } else if text_eq(s, "0") {
                Some(false)
            } else if eq_ignore_ascii_case(s, "true") {
                Some(true)
            } else if eq_ignore_ascii_case(s, "false") {
                Some(false)
            } else {
                None
            },
            None => None,
        },
    }
}

/// A count as the web interface writes it: an integer `>= 0`, or a text
/// holding one.
pub open spec fn count_of_value(v: JsonV) -> Option<u64> {
    match v.u64_of() {
        Some(n) => Some(n),
        None => match v.str_of() {
            Some(s) => parse_u64_spec(s),
            None => None,
        },
    }
}

/// Read a count.
pub fn u64_from_value(v: &Json) -> (r: Option<u64>)
    ensures
        r == count_of_value(v@),
{
    match v.as_u64() {
        Some(n) => Some(n),
        None => match v.as_str() {
            Some(s) => parse_u64(s),
            None => None,
        },
    }
}

/// The configuration to send for a fan setting: firmware-driven fans turn
/// fan control off; a fixed speed turns it on with the speed (at most 100)
/// written as text.
pub open spec fn fan_payload(conf: JsonV, config: FanConfig) -> Seq<(Seq<char>, JsonV)> {
    match config {
        FanConfig::Auto { .. } => entries_insert(browser_payload(conf), "bitmain-fan-ctrl"@, JsonV::Bool(false)),
        FanConfig::Manual { fan_speed } => entries_insert(
            entries_insert(browser_payload(conf), "bitmain-fan-ctrl"@, JsonV::Bool(true)),
            "bitmain-fan-pwm"@,
            JsonV::Str(
                crate::text::decimal_text(
                    if fan_speed < 100 {
                        fan_speed as nat
                    } else {
                        100
                    },
                ),
            ),
        ),
    }
}

/// The configuration to send for a fan setting (see [`fan_payload`]).
pub fn miner_conf_with_fan_config(conf: &Json, config: FanConfig) -> (r: Json)
    ensures
        r@ == JsonV::Object(fan_payload(conf@, config)),
{
    let mut payload = browser_miner_conf_payload(conf);
    match config {
        FanConfig::Auto { .. } => {
            entry_set(&mut payload, "bitmain-fan-ctrl", json_bool(false));
        },
        FanConfig::Manual { fan_speed } => {
            entry_set(&mut payload, "bitmain-fan-ctrl", json_bool(true));
            let speed = if fan_speed < 100 { fan_speed } else { 100 };
            entry_set(&mut payload, "bitmain-fan-pwm", json_string(u64_to_text(speed)));
        },
    }
    json_object(payload)
}

/// The fan setting of a configuration: fan control on means a fixed speed,
/// off (or unreadable) means firmware-driven fans; the speed is the PWM
/// value, 100 when it cannot be read.
pub open spec fn fan_config_of(fan: JsonV) -> FanConfig {
    let manual = match fan.get("bitmain-fan-ctrl"@) {
        Some(v) => match flag_of_value(v) {
            Some(b) => b,
            None => false,
        },
        None => false,
    };
    let speed = match fan.get("bitmain-fan-pwm"@) {
        Some(v) => match count_of_value(v) {
            Some(n) => n,
            None => 100,
        },
        None => 100,
    };
    if manual {
        FanConfig::Manual { fan_speed: speed }
    } else {
        FanConfig::Auto { idle_speed: Some(speed) }
    }
}

/// The fan setting of the miner configuration (`parse_fan_config`); an error
/// when there is no configuration.
pub fn parse_fan_config(fan: Option<&Json>) -> (r: Result<FanConfig, ConfigError>)
    ensures
        match view_opt(fan) {
            None => r == Err::<FanConfig, ConfigError>(ConfigError::NoFanConfig),
            Some(f) => r == Ok::<FanConfig, ConfigError>(fan_config_of(f)),
        },
{
    let fan = match fan {
        Some(f) => f,
        None => return Err(ConfigError::NoFanConfig),
    };
    let manual = match fan.get("bitmain-fan-ctrl") {
        Some(v) => match bool_from_value(v) {
            Some(b) => b,
            None => false,
        },
        None => false,
    };
    let speed = match fan.get("bitmain-fan-pwm") {
        Some(v) => match u64_from_value(v) {
            Some(n) => n,
            None => 100,
        },
        None => 100,
    };
    if manual {
        Ok(FanConfig::manual(speed))
    } else {
        Ok(FanConfig::auto(Some(speed)))
    }
}

/// The mining mode of the tuning configuration (`parse_tuning_config`); an
/// error when none can be read.
pub fn parse_tuning_mode(tuning: Option<&Json>) -> (r: Result<MiningMode, ConfigError>)
    ensures
        match view_opt(tuning) {
            Some(t) => match conf_mining_mode(t) {
                Some(m) => r == Ok::<MiningMode, ConfigError>(m),
                None => r == Err::<MiningMode, ConfigError>(ConfigError::NoMiningMode),
            },
            None => r == Err::<MiningMode, ConfigError>(ConfigError::NoMiningMode),
        },
{
    match tuning {
        Some(t) => match miner_conf_mining_mode(t) {
            Some(m) => Ok(m),
            None => Err(ConfigError::NoMiningMode),
        },
        None => Err(ConfigError::NoMiningMode),
    }
}

/// The pool a `pools` RPC entry describes, at position `idx` of the list.
pub open spec fn rpc_pool(idx: int, p: JsonV) -> PoolDataV {
    PoolDataV {
        position: Some(idx as u16),
        url: opt_str(p.get("URL"@)),
        accepted_shares: opt_u64(p.get("Accepted"@)),
        rejected_shares: opt_u64(p.get("Rejected"@)),
        active: opt_bool(p.get("Stratum Active"@)),
        alive: match opt_str(p.get("Status"@)) {
            Some(s) => Some(s == "Alive"@),
            None => None,
        },
        user: opt_str(p.get("User"@)),
    }
}

/// The pools of a `pools` RPC answer, in order.
pub open spec fn rpc_pools(ps: Seq<JsonV>) -> Seq<PoolDataV> {
    Seq::new(ps.len(), |i: int| rpc_pool(i, ps[i]))
}

/// The reported pool groups: none without an answer, else one unnamed group
/// with quota 1 holding the pools of the answer (none when it is no array).
pub open spec fn reported_pool_groups(pools: Option<JsonV>) -> Seq<PoolGroupDataV> {
    match pools {
        None => Seq::empty(),
        Some(v) => seq![
            PoolGroupDataV {
                name: Seq::empty(),
                quota: 1,
                pools: match v.array_of() {
                    Some(ps) => rpc_pools(ps),
                    None => Seq::empty(),
                },
            },
        ],
    }
}

/// Every pool of a `pools` RPC answer is read from its own entry, at its
/// place: the address from `URL`, the user from `User`, the share counts
/// from `Accepted` and `Rejected`, whether it is active from
/// `Stratum Active`, and it is alive exactly when its `Status` is `Alive`.
pub proof fn lemma_rpc_pool_fields(ps: Seq<JsonV>, i: int)
    requires
        0 <= i < ps.len(),
    ensures
        reported_pool_groups(Some(JsonV::Array(ps))).len() == 1,
        reported_pool_groups(Some(JsonV::Array(ps)))[0].pools.len() == ps.len(),
        reported_pool_groups(Some(JsonV::Array(ps)))[0].pools[i].url == opt_str(ps[i].get("URL"@)),
        reported_pool_groups(Some(JsonV::Array(ps)))[0].pools[i].user == opt_str(ps[i].get("User"@)),
        reported_pool_groups(Some(JsonV::Array(ps)))[0].pools[i].accepted_shares == opt_u64(ps[i].get("Accepted"@)),
        reported_pool_groups(Some(JsonV::Array(ps)))[0].pools[i].rejected_shares == opt_u64(ps[i].get("Rejected"@)),
        reported_pool_groups(Some(JsonV::Array(ps)))[0].pools[i].active == opt_bool(ps[i].get("Stratum Active"@)),
        opt_str(ps[i].get("Status"@)) is Some ==> reported_pool_groups(Some(JsonV::Array(ps)))[0].pools[i].alive
            == Some(opt_str(ps[i].get("Status"@))->0 == "Alive"@),
        opt_str(ps[i].get("Status"@)) is None ==> reported_pool_groups(Some(JsonV::Array(ps)))[0].pools[i].alive is None,
{
}

/// The optional owned text of an optional string value.
fn owned_str(o: Option<&Json>) -> (r: Option<String>)
    ensures
        crate::pools::opt_text(r) == opt_str(view_opt(o)),
{
    match str_in(o) {
        Some(t) => Some(t.to_owned()),
        None => None,
    }
}

/// Read one entry of a `pools` RPC answer.
pub(crate) fn read_rpc_pool(idx: usize, p: &Json) -> (r: PoolData)
    ensures
        r@ == rpc_pool(idx as int, p@),
{
    let url = match str_in(p.get("URL")) {
        Some(u) => Some(PoolURL::new(u.to_owned())),
        None => None,
    };
    let alive = match str_in(p.get("Status")) {
        Some(s) => Some(text_eq(s, "Alive")),
        None => None,
    };
    PoolData {
        position: Some(idx as u16),
        url,
        accepted_shares: u64_in(p.get("Accepted")),
        rejected_shares: u64_in(p.get("Rejected")),
        active: bool_in(p.get("Stratum Active")),
        alive,
        user: owned_str(p.get("User")),
    }
}

/// The pool groups of a `pools` RPC answer (see [`reported_pool_groups`]).
pub fn parse_pools(pools: Option<&Json>) -> (r: Vec<PoolGroupData>)
    ensures
        pool_group_datas_view(r@) == reported_pool_groups(view_opt(pools)),
{
    let v = match pools {
        Some(v) => v,
        None => {
            let r: Vec<PoolGroupData> = Vec::new();
            assert(pool_group_datas_view(r@) =~= Seq::<PoolGroupDataV>::empty());
            return r;
        },
    };
    let mut out: Vec<PoolData> = Vec::new();
    match v.as_array() {
        Some(items) => {
            let ghost iv = items_view(items@);
            let mut i: usize = 0;
            while i < items.len()
                invariant
                    i <= items@.len(),
                    iv == items_view(items@),
                    iv.len() == items@.len(),
                    forall|j: int| 0 <= j < items@.len() ==> #[trigger] iv[j] == items@[j]@,
                    out@.len() == i,
                    forall|j: int| 0 <= j < i ==> #[trigger] out@[j]@ == rpc_pool(j, iv[j]),
                decreases items@.len() - i,
            {
                let p = read_rpc_pool(i, &items[i]);
                out.push(p);
                i = i + 1;
            }
            assert(pool_datas_view(out@) =~= rpc_pools(iv));
        },
        None => {
            assert(pool_datas_view(out@) =~= Seq::<PoolDataV>::empty());
        },
    }
    let group = PoolGroupData { name: String::new(), quota: 1, pools: out };
    let r = vec![group];
    assert(pool_group_datas_view(r@) =~= reported_pool_groups(view_opt(pools)));
    r
}

/// A pool entry of the miner configuration that has a non-empty `url`.
pub open spec fn conf_pool(p: JsonV) -> Option<PoolConfigV> {
    match opt_str(p.get("url"@)) {
        Some(url) => if url.len() > 0 {
            Some(
                PoolConfigV {
                    url,
                    username: str_or_empty(p.get("user"@)),
                    password: str_or_empty(p.get("pass"@)),
                },
            )
        } else {
            None
        },
        None => None,
    }
}

/// The pool entries of the miner configuration that have a non-empty `url`.
pub open spec fn conf_pools(ps: Seq<JsonV>) -> Seq<PoolConfigV>
    decreases ps.len(),
{
    if ps.len() == 0 {
        Seq::empty()
    } else {
        let rest = conf_pools(ps.drop_last());
        match conf_pool(ps.last()) {
            Some(p) => rest.push(p),
            None => rest,
        }
    }
}

/// The configured pool groups: none without a `pools` value, else one
/// unnamed group with quota 1 holding the first three configured pools.
pub open spec fn conf_pool_groups(pools: Option<JsonV>) -> Seq<PoolGroupConfigV> {
    match pools {
        None => Seq::empty(),
        Some(v) => seq![
            PoolGroupConfigV {
                name: Seq::empty(),
                quota: 1,
                pools: match v.array_of() {
                    Some(ps) => at_most(conf_pools(ps), 3),
                    None => Seq::empty(),
                },
            },
        ],
    }
}

/// Reading a pool entry written to the miner configuration gives back the
/// pool, when it has an address.
pub proof fn lemma_conf_pool_reads_back(p: PoolConfigV)
    requires
        p.url.len() > 0,
    ensures
        conf_pool(pool_entry(p.url, p.username, p.password)) == Some(p),
{
    reveal_strlit("url");
    reveal_strlit("user");
    reveal_strlit("pass");
    let es = seq![("url"@, JsonV::Str(p.url)), ("user"@, JsonV::Str(p.username)), ("pass"@, JsonV::Str(p.password))];
    assert("url"@ != "user"@) by {
        assert("url"@[1] != "user"@[1]);
    }
    assert("url"@ != "pass"@) by {
        assert("url"@[0] != "pass"@[0]);
    }
    assert("user"@ != "pass"@) by {
        assert("user"@[0] != "pass"@[0]);
    }
    crate::json::lemma_get_listed(es, 0);
    crate::json::lemma_get_listed(es, 1);
    crate::json::lemma_get_listed(es, 2);
}

/// Reading the pool entries written for a list of pools with addresses
/// gives back those pools, in order.
pub proof fn lemma_conf_pools_read_back(pools: Seq<PoolConfigV>)
    requires
        forall|j: int| 0 <= j < pools.len() ==> (#[trigger] pools[j]).url.len() > 0,
    ensures
        conf_pools(pools.map_values(|p: PoolConfigV| pool_entry(p.url, p.username, p.password))) == pools,
    decreases pools.len(),
{
    let es = pools.map_values(|p: PoolConfigV| pool_entry(p.url, p.username, p.password));
    if pools.len() > 0 {
        let rest = pools.drop_last();
        lemma_conf_pools_read_back(rest);
        assert(es.drop_last() =~= rest.map_values(|p: PoolConfigV| pool_entry(p.url, p.username, p.password)));
        lemma_conf_pool_reads_back(pools.last());
        assert(conf_pools(es) =~= pools);
    } else {
        assert(es =~= Seq::<JsonV>::empty());
        assert(conf_pools(es) =~= pools);
    }
}

/// Writing pool groups to the miner configuration and reading the pools
/// back gives one unnamed group with quota 1 holding the first three pools
/// of the groups, in order (each pool having an address).
pub proof fn lemma_pools_payload_reads_back(groups: Seq<PoolGroupConfigV>)
    requires
        forall|j: int| 0 <= j < flat_pools(groups).len() ==> (#[trigger] flat_pools(groups)[j]).url.len() > 0,
    ensures
        conf_pool_groups(Some(JsonV::Array(pools_payload_spec(groups)))) == seq![
            PoolGroupConfigV { name: Seq::empty(), quota: 1, pools: at_most(flat_pools(groups), 3) },
        ],
{
    let all = flat_pools(groups);
    let ps = at_most(all, 3);
    assert forall|j: int| 0 <= j < ps.len() implies (#[trigger] ps[j]).url.len() > 0 by {
        assert(ps[j] == all[j]);
    }
    lemma_conf_pools_read_back(ps);
    assert(at_most(conf_pools(pools_payload_spec(groups)), 3) =~= ps);
    assert(conf_pool_groups(Some(JsonV::Array(pools_payload_spec(groups)))) =~= seq![
        PoolGroupConfigV { name: Seq::empty(), quota: 1, pools: ps },
    ]);
}

/// Read one pool entry of the miner configuration.
fn read_conf_pool(p: &Json) -> (r: Option<PoolConfig>)
    ensures
        match r {
            Some(c) => conf_pool(p@) == Some(c@),
            None => conf_pool(p@) is None,
        },
{
    let url = match str_in(p.get("url")) {
        Some(u) => u,
        None => return None,
    };
    if url.unicode_len() == 0 {
        return None;
    }
    Some(
        PoolConfig {
            url: PoolURL::new(url.to_owned()),
            username: text_or_empty(p.get("user")),
            password: text_or_empty(p.get("pass")),
        },
    )
}

/// The pool groups of the `pools` value of the miner configuration (see
/// [`conf_pool_groups`]).
pub fn parse_pools_config(pools: Option<&Json>) -> (r: Vec<PoolGroupConfig>)
    ensures
        pool_groups_view(r@) == conf_pool_groups(view_opt(pools)),
{
    let v = match pools {
        Some(v) => v,
        None => {
            let r: Vec<PoolGroupConfig> = Vec::new();
            assert(pool_groups_view(r@) =~= Seq::<PoolGroupConfigV>::empty());
            return r;
        },
    };
    let mut out: Vec<PoolConfig> = Vec::new();
    match v.as_array() {
        Some(items) => {
            let ghost iv = items_view(items@);
            let mut i: usize = 0;
            assert(iv.take(0) =~= Seq::<JsonV>::empty());
            assert(pool_configs_view(out@) =~= Seq::<PoolConfigV>::empty());
            while i < items.len()
                invariant
                    i <= items@.len(),
                    iv == items_view(items@),
                    iv.len() == items@.len(),
                    forall|j: int| 0 <= j < items@.len() ==> #[trigger] iv[j] == items@[j]@,
                    pool_configs_view(out@) == conf_pools(iv.take(i as int)),
                decreases items@.len() - i,
            {
                let ghost before = out@;
                assert(iv.take(i + 1).drop_last() =~= iv.take(i as int));
                match read_conf_pool(&items[i]) {
                    Some(c) => {
                        out.push(c);
                        assert(pool_configs_view(out@) =~= pool_configs_view(before).push(c@));
                    },
                    None => {},
                }
                i = i + 1;
            }
            assert(iv.take(items@.len() as int) =~= iv);
            let ghost all = out@;
            out.truncate(3);
            assert(pool_configs_view(out@) =~= at_most(pool_configs_view(all), 3));
        },
        None => {
            assert(pool_configs_view(out@) =~= Seq::<PoolConfigV>::empty());
        },
    }
    let group = PoolGroupConfig { name: String::new(), quota: 1, pools: out };
    let r = vec![group];
    assert(pool_groups_view(r@) =~= conf_pool_groups(view_opt(pools)));
    r
}

/// The `pools` value written to the miner configuration: the first three
/// pools of the groups, each with its `url`, `user` and `pass`.
pub open spec fn pools_payload_spec(groups: Seq<PoolGroupConfigV>) -> Seq<JsonV> {
    at_most(flat_pools(groups), 3).map_values(|p: PoolConfigV| pool_entry(p.url, p.username, p.password))
}

/// Build the `pools` value written to the miner configuration (see
/// [`pools_payload_spec`]).
pub fn pools_payload(config: &Vec<PoolGroupConfig>) -> (r: Vec<Json>)
    ensures
        items_view(r@) == pools_payload_spec(pool_groups_view(config@)),
{
    let pools = first_pools(config, 3);
    let ghost pv = pool_configs_view(pools@);
    let mut out: Vec<Json> = Vec::new();
    let mut i: usize = 0;
    while i < pools.len()
        invariant
            i <= pools@.len(),
            pv == pool_configs_view(pools@),
            items_view(out@) == pv.take(i as int).map_values(
                |p: PoolConfigV| pool_entry(p.url, p.username, p.password),
            ),
        decreases pools@.len() - i,
    {
        let p = &pools[i];
        let e = pool_payload_entry(p.url.to_text(), p.username.clone(), p.password.clone());
        let ghost before = out@;
        item_push(&mut out, e);
        assert(pv.take(i + 1) =~= pv.take(i as int).push(p@));
        assert(items_view(out@) =~= pv.take(i + 1).map_values(
            |p: PoolConfigV| pool_entry(p.url, p.username, p.password),
        ));
        i = i + 1;
    }
    assert(pv.take(pools@.len() as int) =~= pv);
    out
}

/// How serious an Antminer status entry is: `e` is an error, `w` a warning
/// (after lower-casing), anything else information.
pub open spec fn status_severity(status: Seq<char>) -> MessageSeverity {
    let lower = unicode_lowercase(status);
    if lower == "e"@ {
        MessageSeverity::Error
    } else if lower == "w"@ {
        MessageSeverity::Warning
    } else {
        MessageSeverity::Info
    }
}

/// The message of the status entry at `idx`, when its `status` is a text other
/// than `s` (success): code `idx`, its `msg` (or `Unknown error`).
pub open spec fn status_message(idx: int, item: JsonV) -> Option<(u32, u64, Seq<char>, MessageSeverity)> {
    match opt_str(item.get("status"@)) {
        Some(s) => if s != "s"@ {
            Some(
                (
                    0u32,
                    idx as u64,
                    match opt_str(item.get("msg"@)) {
                        Some(m) => m,
                        None => "Unknown error"@,
                    },
                    status_severity(s),
                ),
            )
        } else {
            None
        },
        None => None,
    }
}

/// The messages of a list of status entries, in order.
pub open spec fn status_messages(items: Seq<JsonV>) -> Seq<(u32, u64, Seq<char>, MessageSeverity)>
    decreases items.len(),
{
    if items.len() == 0 {
        Seq::empty()
    } else {
        let rest = status_messages(items.drop_last());
        match status_message(items.len() - 1, items.last()) {
            Some(m) => rest.push(m),
            None => rest,
        }
    }
}

/// Read the message of one status entry.
fn read_status_message(idx: usize, item: &Json) -> (r: Option<MinerMessage>)
    ensures
        match r {
            Some(m) => status_message(idx as int, item@) == Some(message_view(m)),
            None => status_message(idx as int, item@) is None,
        },
{
    let status = match str_in(item.get("status")) {
        Some(s) => s,
        None => return None,
    };
    if text_eq(status, "s") {
        return None;
    }
    let text = match str_in(item.get("msg")) {
        Some(m) => m.to_owned(),
        None => "Unknown error".to_owned(),
    };
    let lower = to_lowercase(status);
    let severity = if text_eq(lower.as_str(), "e") {
        MessageSeverity::Error
    } else if text_eq(lower.as_str(), "w") {
        MessageSeverity::Warning
    } else {
        MessageSeverity::Info
    };
    Some(MinerMessage::new(0, idx as u64, text, severity))
}

/// The messages of a status list (see [`status_messages`]); none when the
/// value is missing or no array.
pub fn parse_messages(status: Option<&Json>) -> (r: Vec<MinerMessage>)
    ensures
        messages_view(r@) == match crate::json::opt_array(view_opt(status)) {
            Some(items) => status_messages(items),
            None => Seq::empty(),
        },
{
    let mut out: Vec<MinerMessage> = Vec::new();
    let items = match array_in(status) {
        Some(items) => items,
        None => {
            assert(messages_view(out@) =~= Seq::<(u32, u64, Seq<char>, MessageSeverity)>::empty());
            return out;
        },
    };
    let ghost iv = items_view(items@);
    let mut i: usize = 0;
    assert(iv.take(0) =~= Seq::<JsonV>::empty());
    assert(messages_view(out@) =~= Seq::<(u32, u64, Seq<char>, MessageSeverity)>::empty());
    while i < items.len()
        invariant
            i <= items@.len(),
            iv == items_view(items@),
            iv.len() == items@.len(),
            forall|j: int| 0 <= j < items@.len() ==> #[trigger] iv[j] == items@[j]@,
            messages_view(out@) == status_messages(iv.take(i as int)),
        decreases items@.len() - i,
    {
        let ghost before = out@;
        assert(iv.take(i + 1).drop_last() =~= iv.take(i as int));
        match read_status_message(i, &items[i]) {
            Some(m) => {
                out.push(m);
                assert(messages_view(out@) =~= messages_view(before).push(message_view(m)));
            },
            None => {},
        }
        i = i + 1;
    }
    assert(iv.take(items@.len() as int) =~= iv);
    out
}

/// Whether the light flashes: a boolean as it is, or a text that is `true`
/// (after lower-casing) or `1`.
pub open spec fn light_flashing_of(v: Option<JsonV>) -> Option<bool> {
    match opt_bool(v) {
        Some(b) => Some(b),
        None => match opt_str(v) {
            Some(s) => Some(unicode_lowercase(s) == "true"@ || s == "1"@),
            None => None,
        },
    }
}

/// Read whether the locate light flashes (see [`light_flashing_of`]).
pub fn parse_light_flashing(value: Option<&Json>) -> (r: Option<bool>)
    ensures
        r == light_flashing_of(view_opt(value)),
{
    match bool_in(value) {
        Some(b) => Some(b),
        None => match str_in(value) {
            Some(s) => {
                let lower = to_lowercase(s);
                Some(text_eq(lower.as_str(), "true") || text_eq(s, "1"))
            },
            None => None,
        },
    }
}

/// Whether a miner status text means mining: its lower-case form is none of
/// `stopped`, `idle`, `sleep` and `1`.
pub open spec fn status_is_mining(status: Seq<char>) -> bool {
    let l = unicode_lowercase(status);
    l != "stopped"@ && l != "idle"@ && l != "sleep"@ && l != "1"@
}

/// Whether the miner mines: by its status text where there is one, else by
/// a hash rate above zero, else not.
pub open spec fn antminer_is_mining(status: Option<JsonV>, hashrate: Option<JsonV>) -> bool {
    match opt_str(status) {
        Some(s) => status_is_mining(s),
        None => match hashrate {
            Some(h) => json_gt_zero(h) == Some(true),
            None => false,
        },
    }
}

/// Whether the miner mines (see [`antminer_is_mining`]).
pub fn parse_is_mining(status: Option<&Json>, hashrate: Option<&Json>) -> (r: bool)
    ensures
        r == antminer_is_mining(view_opt(status), view_opt(hashrate)),
{
    match str_in(status) {
        Some(s) => {
            let l = to_lowercase(s);
            let l = l.as_str();
            !text_eq(l, "stopped") && !text_eq(l, "idle") && !text_eq(l, "sleep") && !text_eq(l, "1")
        },
        None => match hashrate {
            Some(Json::Number(n)) => number_is_positive(n),
            _ => false,
        },
    }
}

/// The verified part of a stock-firmware Antminer backend: the device it
/// talks to and which controls and configurations it supports.  Its address
/// and API clients stay with the caller.
#[derive(Debug)]
pub struct AntMinerV2020 {
    pub device_info: DeviceInfo,
}

impl AntMinerV2020 {
    /// A backend for the given model, running stock firmware and mining
    /// SHA-256.
    pub fn new<M: MinerModel>(model: &M) -> (r: AntMinerV2020)
        ensures
            r.device_info.make@ == model.make_name_spec(),
            r.device_info.model@ == model.model_name_spec(),
            r.device_info.hardware@ == model.hardware_spec(),
            r.device_info.firmware@ == "AntMiner Stock"@,
            r.device_info.algo == HashAlgorithm::SHA256,
            r.device_info.cooling == model.cooling_spec(),
            !r.device_info.reports_chip_temperature,
    {
        let firmware = AntMinerStockFirmware {};
        AntMinerV2020 { device_info: DeviceInfo::new(model, &firmware, HashAlgorithm::SHA256) }
    }
}

impl GetDeviceInfo for AntMinerV2020 {
    open spec fn expected_hardware(&self) -> MinerHardwareV {
        self.device_info.hardware@
    }

    fn get_device_info(&self) -> (r: DeviceInfo) {
        self.device_info.duplicate()
    }
}

impl SetFaultLight for AntMinerV2020 {
    fn supports_set_fault_light(&self) -> (r: bool)
        ensures
            r,
    {
        true
    }
}

impl SetPowerLimit for AntMinerV2020 {
    fn supports_set_power_limit(&self) -> (r: bool)
        ensures
            !r,
    {
        false
    }
}

impl Restart for AntMinerV2020 {
    fn supports_restart(&self) -> (r: bool)
        ensures
            r,
    {
        true
    }
}

impl Pause for AntMinerV2020 {
    fn supports_pause(&self) -> (r: bool)
        ensures
            r,
    {
        true
    }
}

impl Resume for AntMinerV2020 {
    fn supports_resume(&self) -> (r: bool)
        ensures
            r,
    {
        true
    }
}

impl ChangePassword for AntMinerV2020 {
    fn supports_change_password(&self) -> (r: bool)
        ensures
            r,
    {
        true
    }
}

impl FactoryReset for AntMinerV2020 {
    fn supports_factory_reset(&self) -> (r: bool)
        ensures
            r,
    {
        true
    }
}

impl ReadLogs for AntMinerV2020 {
    fn supports_read_logs(&self) -> (r: bool)
        ensures
            r,
    {
        true
    }
}

impl UpgradeFirmware for AntMinerV2020 {
    fn supports_upgrade_firmware(&self) -> (r: bool)
        ensures
            r,
    {
        true
    }
}

impl SupportsPoolsConfig for AntMinerV2020 {
    fn supports_pools_config(&self) -> (r: bool)
        ensures
            r,
    {
        true
    }
}

impl SupportsScalingConfig for AntMinerV2020 {
    fn supports_scaling_config(&self) -> (r: bool)
        ensures
            !r,
    {
        false
    }
}

impl SupportsTuningConfig for AntMinerV2020 {
    fn supports_tuning_config(&self) -> (r: bool)
        ensures
            r,
    {
        true
    }
}

impl SupportsFanConfig for AntMinerV2020 {
    fn supports_fan_config(&self) -> (r: bool)
        ensures
            r,
    {
        true
    }
}

/// Where the stock Antminer firmware reports each field.
pub open spec fn antminer_locations(field: DataField) -> Seq<LocationV> {
    match field {
        DataField::Mac => seq![location_v(ApiKind::Web, "get_system_info"@, "/macaddr"@, None)],
        DataField::ApiVersion => seq![location_v(ApiKind::Rpc, "version"@, "/VERSION/0/API"@, None)],
        DataField::FirmwareVersion => seq![location_v(ApiKind::Web, "get_system_info"@, "/system_filesystem_version"@, None)],
        DataField::Hostname => seq![location_v(ApiKind::Web, "get_system_info"@, "/hostname"@, None)],
        DataField::ControlBoardVersion => seq![location_v(ApiKind::Web, "miner_type"@, "/subtype"@, None)],
        DataField::Hashrate => seq![location_v(ApiKind::Rpc, "summary"@, "/SUMMARY/0/GHS 5s"@, None)],
        DataField::ExpectedHashrate => seq![location_v(ApiKind::Rpc, "stats"@, "/STATS/1/total_rateideal"@, None)],
        DataField::Fans => seq![location_v(ApiKind::Rpc, "stats"@, "/STATS/1"@, None)],
        DataField::Hashboards => seq![location_v(ApiKind::Rpc, "stats"@, "/STATS/1"@, None)],
        DataField::LightFlashing => seq![location_v(ApiKind::Web, "get_blink_status"@, "/blink"@, None)],
        DataField::IsMining => seq![location_v(ApiKind::Web, "get_miner_conf"@, "/bitmain-work-mode"@, None)],
        DataField::Uptime => seq![location_v(ApiKind::Rpc, "stats"@, "/STATS/1/Elapsed"@, None)],
        DataField::Pools => seq![location_v(ApiKind::Rpc, "pools"@, "/POOLS"@, None)],
        DataField::Wattage => seq![location_v(ApiKind::Rpc, "stats"@, "/STATS/1"@, None)],
        DataField::SerialNumber => seq![location_v(ApiKind::Web, "get_system_info"@, "/serial_no"@, None), location_v(ApiKind::Web, "get_system_info"@, "/serinum"@, None)],
        DataField::Messages => seq![location_v(ApiKind::Web, "summary"@, "/SUMMARY/0/status"@, None)],
        DataField::TuningTarget => seq![location_v(ApiKind::Web, "get_miner_conf"@, ""@, None)],
        _ => Seq::empty(),
    }
}


impl GetDataLocations for AntMinerV2020 {
    fn get_locations(&self, field: DataField) -> (r: Vec<DataLocation>)
        ensures
            locations_view(r@) == antminer_locations(field),
    {
        match field {
            DataField::Mac => vec![at(web("get_system_info"), "/macaddr")],
            DataField::ApiVersion => vec![at(rpc("version"), "/VERSION/0/API")],
            DataField::FirmwareVersion => vec![at(web("get_system_info"), "/system_filesystem_version")],
            DataField::Hostname => vec![at(web("get_system_info"), "/hostname")],
            DataField::ControlBoardVersion => vec![at(web("miner_type"), "/subtype")],
            DataField::Hashrate => vec![at(rpc("summary"), "/SUMMARY/0/GHS 5s")],
            DataField::ExpectedHashrate => vec![at(rpc("stats"), "/STATS/1/total_rateideal")],
            DataField::Fans => vec![at(rpc("stats"), "/STATS/1")],
            DataField::Hashboards => vec![at(rpc("stats"), "/STATS/1")],
            DataField::LightFlashing => vec![at(web("get_blink_status"), "/blink")],
            DataField::IsMining => vec![at(web("get_miner_conf"), "/bitmain-work-mode")],
            DataField::Uptime => vec![at(rpc("stats"), "/STATS/1/Elapsed")],
            DataField::Pools => vec![at(rpc("pools"), "/POOLS")],
            DataField::Wattage => vec![at(rpc("stats"), "/STATS/1")],
            DataField::SerialNumber => vec![at(web("get_system_info"), "/serial_no"), at(web("get_system_info"), "/serinum")],
            DataField::Messages => vec![at(web("summary"), "/SUMMARY/0/status")],
            DataField::TuningTarget => vec![at(web("get_miner_conf"), "")],
            _ => vec![],
        }
    }
}

/// Where the stock Antminer firmware keeps its configuration: the pools at
/// `/pools` of `get_miner_conf`, the tuning and fan settings in the whole
/// answer.
pub open spec fn antminer_config_locations(field: ConfigField) -> Seq<LocationV> {
    match field {
        ConfigField::Pools => seq![location_v(ApiKind::Web, "get_miner_conf"@, "/pools"@, None)],
        ConfigField::Tuning => seq![location_v(ApiKind::Web, "get_miner_conf"@, ""@, None)],
        ConfigField::Fan => seq![location_v(ApiKind::Web, "get_miner_conf"@, ""@, None)],
        _ => Seq::empty(),
    }
}

/// Where the stock Antminer firmware keeps a configuration field (see
/// [`antminer_config_locations`]).
pub fn get_configs_locations(field: ConfigField) -> (r: Vec<DataLocation>)
    ensures
        locations_view(r@) == antminer_config_locations(field),
{
    match field {
        ConfigField::Pools => vec![at(web("get_miner_conf"), "/pools")],
        ConfigField::Tuning => vec![at(web("get_miner_conf"), "")],
        ConfigField::Fan => vec![at(web("get_miner_conf"), "")],
        _ => vec![],
    }
}

/// The work mode a tuning target asks for: only mining-mode targets are
/// supported; power and hash-rate targets are refused, each with its error.
pub fn tuning_target_mode(target: TuningTarget) -> (r: Result<MinerMode, ConfigError>)
    ensures
        match target {
            TuningTarget::MiningMode(m) => r == Ok::<MinerMode, ConfigError>(
                match m {
                    MiningMode::Low => MinerMode::Low,
                    MiningMode::Normal => MinerMode::Normal,
                    MiningMode::High => MinerMode::High,
                },
            ),
            TuningTarget::Power(_) => r == Err::<MinerMode, ConfigError>(ConfigError::PowerTargetUnsupported),
            TuningTarget::HashRate(_) => r == Err::<MinerMode, ConfigError>(ConfigError::HashrateTargetUnsupported),
        },
{
    match target {
        TuningTarget::MiningMode(m) => Ok(MinerMode::from_mining_mode(m)),
        TuningTarget::Power(_) => Err(ConfigError::PowerTargetUnsupported),
        TuningTarget::HashRate(_) => Err(ConfigError::HashrateTargetUnsupported),
    }
}

/// The configuration to send for a tuning target: an unsupported target is
/// refused, then a configuration without a work mode field; else the
/// configuration switched to the target's work mode.
pub fn tuning_conf(conf: &Json, target: TuningTarget) -> (r: Result<Json, ConfigError>)
    ensures
        match target {
            TuningTarget::MiningMode(m) => {
                let mode = match m {
                    MiningMode::Low => MinerMode::Low,
                    MiningMode::Normal => MinerMode::Normal,
                    MiningMode::High => MinerMode::High,
                };
                match mode_key(conf@) {
                    None => r == Err::<Json, ConfigError>(ConfigError::NoMiningModeField),
                    Some(k) => r matches Ok(v) && v@ == JsonV::Object(
                        entries_insert(
                            browser_payload(conf@),
                            k,
                            JsonV::Number(JsonNumber::PosInt(web_value(mode) as u64)),
                        ),
                    ),
                }
            },
            TuningTarget::Power(_) => r == Err::<Json, ConfigError>(ConfigError::PowerTargetUnsupported),
            TuningTarget::HashRate(_) => r == Err::<Json, ConfigError>(ConfigError::HashrateTargetUnsupported),
        },
{
    let mode = match tuning_target_mode(target) {
        Ok(m) => m,
        Err(e) => return Err(e),
    };
    match miner_conf_with_miner_mode(conf, mode) {
        Some(c) => Ok(c),
        None => Err(ConfigError::NoMiningModeField),
    }
}

/// How the firmware answered a password change.
#[derive(Debug, Clone, Copy, PartialEq, Eq, Structural)]
pub enum PasswordReply {
    /// The firmware said the password was not changed.
    Refused,
    /// The firmware said the password was changed.
    Accepted,
    /// The request failed; the password may or may not have changed.
    Failed,
}

/// What a password change comes to.
#[derive(Debug, Clone, Copy, PartialEq, Eq, Structural)]
pub enum PasswordOutcome {
    /// Keep the new credentials; the change succeeded.
    Changed,
    /// Keep the old credentials; the change did not happen.
    Unchanged,
    /// Keep the old credentials and report the request's failure.
    FailedUnchanged,
}

/// Whether the new credentials must be tried after the reply: unless the
/// firmware refused the change.
pub fn try_new_password(reply: PasswordReply) -> (r: bool)
    ensures
        r == (reply != PasswordReply::Refused),
{
    match reply {
        PasswordReply::Refused => false,
        _ => true,
    }
}

/// What a password change comes to, given the reply and whether a request
/// with the new credentials went through (not asked after a refusal): a
/// working new password is kept; otherwise the old one stays, and a failed
/// request is reported.
pub fn password_outcome(reply: PasswordReply, new_password_works: bool) -> (r: PasswordOutcome)
    ensures
        r == match reply {
            PasswordReply::Refused => PasswordOutcome::Unchanged,
            PasswordReply::Accepted => if new_password_works {
                PasswordOutcome::Changed
            } else {
                PasswordOutcome::Unchanged
            },
            PasswordReply::Failed => if new_password_works {
                PasswordOutcome::Changed
            } else {
                PasswordOutcome::FailedUnchanged
            },
        },
{
    match reply {
        PasswordReply::Refused => PasswordOutcome::Unchanged,
        PasswordReply::Accepted => if new_password_works {
            PasswordOutcome::Changed
        } else {
            PasswordOutcome::Unchanged
        },
        PasswordReply::Failed => if new_password_works {
            PasswordOutcome::Changed
        } else {
            PasswordOutcome::FailedUnchanged
        },
    }
}

} // verus!
