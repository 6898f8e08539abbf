//! The chips of Avalon hashboards, as the `estats` chip answers list them:
//! one list of numbers per measurement and board.  Which chips are listed
//! and which work is decided here; the measurements themselves are not part
//! of it.
use vstd::prelude::*;
use crate::chips::{ChipState, count_working, working_count};
use crate::json::{Json, JsonNumber, JsonV, items_view, opt_array, array_in, view_opt};
use crate::numbers::{f64_is_zero, number_gt_zero, number_is_positive};
use crate::text::{decimal_text, push_text, to_owned_text, u64_to_text};
use crate::auradine_boards::working_without_chips;
use crate::data::MinerHardware;
use crate::epic_boards::{hw_boards, hw_chips};
use crate::json::opt_get;
use crate::numbers::json_gt_zero;

verus! {

/// The numbers of a list, in order (`filter_map(Value::as_f64)`).
pub open spec fn numbers_of(items: Seq<JsonV>) -> Seq<JsonNumber>
    decreases items.len(),
{
    if items.len() == 0 {
        Seq::empty()
    } else {
        let r = numbers_of(items.drop_last());
        match items.last() {
            JsonV::Number(n) => r.push(n),
            _ => r,
        }
    }
}

/// The numbers of an optional list; none when it is not a list.
pub open spec fn list_numbers(v: Option<JsonV>) -> Seq<JsonNumber> {
    match opt_array(v) {
        Some(a) => numbers_of(a),
        None => Seq::empty(),
    }
}

/// Whether a number is zero (`as_f64() == 0.0`).
pub open spec fn number_is_zero(n: JsonNumber) -> bool {
    match n {
        JsonNumber::PosInt(v) => v == 0,
        JsonNumber::NegInt(v) => v == 0,
        JsonNumber::Float(bits) => f64_is_zero(bits),
    }
}

/// Whether a number is zero (see [`number_is_zero`]).
fn is_zero(n: &JsonNumber) -> (r: bool)
    ensures
        r == number_is_zero(*n),
{
    match n {
        JsonNumber::PosInt(v) => *v == 0,
        JsonNumber::NegInt(v) => *v == 0,
        JsonNumber::Float(bits) => {
            let exponent = (*bits / 0x10_0000_0000_0000) % 2048;
            let fraction = *bits % 0x10_0000_0000_0000;
            exponent == 0 && fraction == 0
        },
    }
}

/// For each number of a list, whether it is zero (`zero`) or whether it is
/// above zero.
fn number_flags(items: Option<&Vec<Json>>, zero: bool) -> (r: Vec<bool>)
    ensures
        r@ == list_numbers(
            match items {
                Some(v) => Some(JsonV::Array(items_view(v@))),
                None => None,
            },
        ).map_values(|n: JsonNumber| if zero { number_is_zero(n) } else { number_gt_zero(n) }),
{
    let mut flags: Vec<bool> = Vec::new();
    let items = match items {
        Some(v) => v,
        None => {
            assert(flags@ =~= Seq::<JsonNumber>::empty().map_values(
                |n: JsonNumber| if zero { number_is_zero(n) } else { number_gt_zero(n) },
            ));
            return flags;
        },
    };
    let ghost iv = items_view(items@);
    let ghost f = |n: JsonNumber| if zero { number_is_zero(n) } else { number_gt_zero(n) };
    proof {
        crate::json::lemma_items_view_len(items@);
    }
    let mut i: usize = 0;
    assert(iv.take(0) =~= Seq::<JsonV>::empty());
    assert(flags@ =~= numbers_of(iv.take(0)).map_values(f));
    while i < items.len()
        invariant
            i <= items@.len(),
            iv == items_view(items@),
            iv.len() == items@.len(),
            forall|j: int| 0 <= j < items@.len() ==> #[trigger] iv[j] == items@[j]@,
            f == (|n: JsonNumber| if zero { number_is_zero(n) } else { number_gt_zero(n) }),
            flags@ == numbers_of(iv.take(i as int)).map_values(f),
        decreases items@.len() - i,
    {
        assert(iv.take(i + 1).drop_last() =~= iv.take(i as int));
        assert(iv.take(i + 1).last() == iv[i as int]);
        match &items[i] {
            Json::Number(n) => {
                let b = if zero {
                    is_zero(n)
                } else {
                    number_is_positive(n)
                };
                flags.push(b);
                assert(flags@ =~= numbers_of(iv.take(i + 1)).map_values(f));
            },
            _ => {
                assert(flags@ =~= numbers_of(iv.take(i + 1)).map_values(f));
            },
        }
        i = i + 1;
    }
    assert(iv.take(items@.len() as int) =~= iv);
    flags
}

/// A key made of a name and a board number, such as `PVT_T0`.
fn board_key(name: &str, idx: u8) -> (r: String)
    ensures
        r@ == name@ + decimal_text(idx as nat),
{
    let mut key = to_owned_text(name);
    let number = u64_to_text(idx as u64);
    push_text(&mut key, number.as_str());
    key
}

/// The chips of an A-series board: one for each nonzero temperature, at its
/// place in the list of temperatures, working when the number at the same
/// place of the `MW` list is above zero.
pub open spec fn a_series_chips(temps: Seq<JsonNumber>, works: Seq<JsonNumber>) -> Seq<ChipState>
    decreases temps.len(),
{
    if temps.len() == 0 {
        Seq::empty()
    } else {
        let p = temps.len() - 1;
        let r = a_series_chips(temps.drop_last(), works);
        if number_is_zero(temps.last()) {
            r
        } else {
            r.push(ChipState { position: p as u16, working: Some(p < works.len() && number_gt_zero(works[p])) })
        }
    }
}

/// The numbers an object lists under a key.
pub open spec fn numbers_under(info: JsonV, key: Seq<char>) -> Seq<JsonNumber> {
    list_numbers(info.get(key))
}

/// The chips of the A-series board `idx` and how many work (counted in
/// `u16`), when the chip answers are an object: the temperatures of
/// `PVT_T<idx>` and the `MW<idx>` numbers (see [`a_series_chips`]).  The
/// voltages of `PVT_V<idx>` are measurements only: a chip past the last
/// temperature has no temperature and is left out.
pub fn a_series_board_chips(chip_info: Option<&Json>, idx: u8) -> (r: Option<(Vec<ChipState>, u16)>)
    ensures
        match view_opt(chip_info) {
            Some(JsonV::Object(_)) => r matches Some(c) && {
                let info = view_opt(chip_info)->0;
                let chips = a_series_chips(
                    numbers_under(info, "PVT_T"@ + decimal_text(idx as nat)),
                    numbers_under(info, "MW"@ + decimal_text(idx as nat)),
                );
                &&& c.0@ == chips
                &&& c.1 == working_count(chips) as u16
            },
            _ => r is None,
        },
{
    let info = match chip_info {
        Some(i) => i,
        None => return None,
    };
    match info {
        Json::Object(_) => {},
        _ => return None,
    }
    let tkey = board_key("PVT_T", idx);
    let wkey = board_key("MW", idx);
    let temps = array_in(info.get(tkey.as_str()));
    let works = array_in(info.get(wkey.as_str()));
    let temp_zero = number_flags(temps, true);
    let work_pos = number_flags(works, false);
    let ghost tn = numbers_under(info@, tkey@);
    let ghost wn = numbers_under(info@, wkey@);
    assert(temp_zero@.len() == tn.len());
    assert(work_pos@.len() == wn.len());
    let mut chips: Vec<ChipState> = Vec::new();
    let mut p: usize = 0;
    assert(tn.take(0) =~= Seq::<JsonNumber>::empty());
    while p < temp_zero.len()
        invariant
            p <= temp_zero@.len(),
            temp_zero@.len() == tn.len(),
            work_pos@.len() == wn.len(),
            forall|j: int| 0 <= j < tn.len() ==> #[trigger] temp_zero@[j] == number_is_zero(tn[j]),
            forall|j: int| 0 <= j < wn.len() ==> #[trigger] work_pos@[j] == number_gt_zero(wn[j]),
            chips@ == a_series_chips(tn.take(p as int), wn),
        decreases temp_zero@.len() - p,
    {
        assert(tn.take(p + 1).drop_last() =~= tn.take(p as int));
        assert(tn.take(p + 1).last() == tn[p as int]);
        if !temp_zero[p] {
            let working = p < work_pos.len() && work_pos[p];
            chips.push(ChipState { position: p as u16, working: Some(working) });
        }
        p = p + 1;
    }
    assert(tn.take(tn.len() as int) =~= tn);
    let working = count_working(&chips);
    Some((chips, working as u16))
}

/// The chips of a Q-series board: one for each place that all three lists
/// (temperatures, voltages, `MW` numbers) have, working when its `MW`
/// number is above zero.
pub open spec fn q_series_chips(temps: Seq<JsonNumber>, volts: Seq<JsonNumber>, works: Seq<JsonNumber>) -> Seq<ChipState> {
    let n = if temps.len() <= volts.len() && temps.len() <= works.len() {
        temps.len()
    } else if volts.len() <= works.len() {
        volts.len()
    } else {
        works.len()
    };
    Seq::new(n, |p: int| ChipState { position: p as u16, working: Some(number_gt_zero(works[p])) })
}

/// The chips of the Q-series board `idx` and how many work (counted in
/// `u16`), when the chip answers are an object: the `PVT_T0`, `PVT_V0` and
/// `MW0` lists of its `HB<idx>` entry (see [`q_series_chips`]).  The answers
/// must then have that entry.
pub fn q_series_board_chips(chip_info: Option<&Json>, idx: u8) -> (r: Option<(Vec<ChipState>, u16)>)
    requires
        view_opt(chip_info) matches Some(JsonV::Object(_)) ==> view_opt(chip_info)->0.get(
            "HB"@ + decimal_text(idx as nat),
        ) is Some,
    ensures
        match view_opt(chip_info) {
            Some(JsonV::Object(_)) => r matches Some(c) && {
                let hb = view_opt(chip_info)->0.get("HB"@ + decimal_text(idx as nat));
                let chips = q_series_chips(
                    list_numbers(crate::json::opt_get(hb, "PVT_T0"@)),
                    list_numbers(crate::json::opt_get(hb, "PVT_V0"@)),
                    list_numbers(crate::json::opt_get(hb, "MW0"@)),
                );
                &&& c.0@ == chips
                &&& c.1 == working_count(chips) as u16
            },
            _ => r is None,
        },
{
    let info = match chip_info {
        Some(i) => i,
        None => return None,
    };
    match info {
        Json::Object(_) => {},
        _ => return None,
    }
    let key = board_key("HB", idx);
    let hb = info.get(key.as_str());
    let temps = number_flags(array_in(crate::json::get_in(hb, "PVT_T0")), true);
    let volts = number_flags(array_in(crate::json::get_in(hb, "PVT_V0")), true);
    let works = number_flags(array_in(crate::json::get_in(hb, "MW0")), false);
    let ghost wn = list_numbers(crate::json::opt_get(view_opt(hb), "MW0"@));
    let n = if temps.len() <= volts.len() && temps.len() <= works.len() {
        temps.len()
    } else if volts.len() <= works.len() {
        volts.len()
    } else {
        works.len()
    };
    let ghost want = q_series_chips(
        list_numbers(crate::json::opt_get(view_opt(hb), "PVT_T0"@)),
        list_numbers(crate::json::opt_get(view_opt(hb), "PVT_V0"@)),
        wn,
    );
    let mut chips: Vec<ChipState> = Vec::new();
    let mut p: usize = 0;
    while p < n
        invariant
            p <= n,
            n <= works@.len(),
            works@.len() == wn.len(),
            want.len() == n,
            forall|j: int| 0 <= j < wn.len() ==> #[trigger] works@[j] == number_gt_zero(wn[j]),
            forall|j: int| 0 <= j < n ==> #[trigger] want[j] == (ChipState { position: j as u16, working: Some(number_gt_zero(wn[j])) }),
            chips@ == want.take(p as int),
        decreases n - p,
    {
        chips.push(ChipState { position: p as u16, working: Some(works[p]) });
        assert(chips@ =~= want.take(p + 1));
        p = p + 1;
    }
    assert(want.take(n as int) =~= want);
    let working = count_working(&chips);
    Some((chips, working as u16))
}

/// An Avalon hashboard, but for its measurements.
#[derive(Clone, Debug)]
pub struct AvalonBoard {
    pub position: u8,
    pub expected_chips: Option<u16>,
    pub active: Option<bool>,
    pub working_chips: Option<u16>,
    pub chips: Vec<ChipState>,
}

/// Whether an A-series board mines: its `MGHS` hash rate, the number at its
/// place, is above zero; unknown when there is no number there.
pub open spec fn a_series_active(hb: JsonV, idx: int) -> Option<bool> {
    match opt_array(hb.get("MGHS"@)) {
        Some(a) => if 0 <= idx < a.len() {
            json_gt_zero(a[idx])
        } else {
            None
        },
        None => None,
    }
}

/// Whether a value is a number above zero, when it is a number.
fn value_gt_zero(v: Option<&Json>) -> (r: Option<bool>)
    ensures
        r == match view_opt(v) {
            Some(x) => json_gt_zero(x),
            None => None,
        },
{
    match v {
        Some(Json::Number(n)) => Some(number_is_positive(n)),
        _ => None,
    }
}

/// Whether an A-series board mines (see [`a_series_active`]).
fn read_a_series_active(hb: &Json, idx: u8) -> (r: Option<bool>)
    ensures
        r == a_series_active(hb@, idx as int),
{
    match array_in(hb.get("MGHS")) {
        Some(a) => if (idx as usize) < a.len() {
            value_gt_zero(Some(&a[idx as usize]))
        } else {
            None
        },
        None => None,
    }
}

/// The state of the A-series board at `p` by the answers: blank without a
/// hashboard answer that is an object; else active as
/// [`a_series_active`] says, with the chips of [`a_series_chips`] when the
/// chip answer is an object, or else the working chips the activity gives
/// (all expected chips when it mines, none when it does not).
pub open spec fn a_series_board_holds(b: AvalonBoard, hb: Option<JsonV>, ci: Option<JsonV>, hw: crate::data::MinerHardwareV, p: int) -> bool {
    &&& b.position == p
    &&& b.expected_chips == hw_chips(hw, p)
    &&& match hb {
        Some(JsonV::Object(_)) => {
            &&& b.active == a_series_active(hb->0, p)
            &&& match ci {
                Some(JsonV::Object(_)) => {
                    let chips = a_series_chips(
                        numbers_under(ci->0, "PVT_T"@ + decimal_text(p as nat)),
                        numbers_under(ci->0, "MW"@ + decimal_text(p as nat)),
                    );
                    &&& b.chips@ == chips
                    &&& b.working_chips == Some(working_count(chips) as u16)
                },
                _ => b.chips@.len() == 0 && b.working_chips == working_without_chips(b.active, b.expected_chips),
            }
        },
        _ => b.active is None && b.working_chips is None && b.chips@.len() == 0,
    }
}

/// The hashboards of an A-series miner: one for each board the hardware
/// has, each as [`a_series_board_holds`] says.
pub fn a_series_boards(hb_info: Option<&Json>, chip_info: Option<&Json>, hardware: &MinerHardware) -> (r: Vec<AvalonBoard>)
    ensures
        r@.len() == hw_boards(hardware@),
        forall|p: int| 0 <= p < r@.len() ==> a_series_board_holds(#[trigger] r@[p], view_opt(hb_info), view_opt(chip_info), hardware@, p),
{
    let n: u8 = match hardware.board_count() {
        Some(c) => c,
        None => 0,
    };
    let mut boards: Vec<AvalonBoard> = Vec::new();
    let mut p: u8 = 0;
    while p < n
        invariant
            p <= n,
            n == hw_boards(hardware@),
            boards@.len() == p,
            forall|q: int| 0 <= q < p ==> a_series_board_holds(#[trigger] boards@[q], view_opt(hb_info), view_opt(chip_info), hardware@, q),
        decreases n - p,
    {
        let expected_chips = hardware.chips_for_board(p as usize);
        let b = match hb_info {
            Some(hb) => match hb {
                Json::Object(_) => {
                    let active = read_a_series_active(hb, p);
                    match a_series_board_chips(chip_info, p) {
                        Some((chips, working)) => AvalonBoard { position: p, expected_chips, active, working_chips: Some(working), chips },
                        None => {
                            let working_chips = match (active, expected_chips) {
                                (Some(true), Some(c)) => Some(c),
                                (Some(false), _) => Some(0),
                                _ => None,
                            };
                            AvalonBoard { position: p, expected_chips, active, working_chips, chips: Vec::new() }
                        },
                    }
                },
                _ => AvalonBoard { position: p, expected_chips, active: None, working_chips: None, chips: Vec::new() },
            },
            None => AvalonBoard { position: p, expected_chips, active: None, working_chips: None, chips: Vec::new() },
        };
        boards.push(b);
        p = p + 1;
    }
    boards
}

/// A Q-series summary value for board `idx`: the value under `key`, or its
/// element at `idx` when it is a list long enough.
pub open spec fn summary_value(summary: Option<JsonV>, key: Seq<char>, idx: int) -> Option<JsonV> {
    match opt_get(summary, key) {
        Some(JsonV::Array(a)) => if 0 <= idx < a.len() {
            Some(a[idx])
        } else {
            Some(JsonV::Array(a))
        },
        other => other,
    }
}

/// Whether a Q-series board mines: its `MGHS` summary value (see
/// [`summary_value`]) is a number above zero; unknown when it is no number.
pub open spec fn q_series_active(summary: Option<JsonV>, idx: int) -> Option<bool> {
    match summary_value(summary, "MGHS"@, idx) {
        Some(v) => json_gt_zero(v),
        None => None,
    }
}

/// Whether a Q-series board mines (see [`q_series_active`]).
fn read_q_series_active(summary: Option<&Json>, idx: u8) -> (r: Option<bool>)
    ensures
        r == q_series_active(view_opt(summary), idx as int),
{
    let v = crate::json::get_in(summary, "MGHS");
    match v {
        Some(Json::Array(a)) => {
            proof {
                crate::json::lemma_items_view_len(a@);
            }
            if (idx as usize) < a.len() {
                value_gt_zero(Some(&a[idx as usize]))
            } else {
                value_gt_zero(v)
            }
        },
        _ => value_gt_zero(v),
    }
}

/// The state of the Q-series board at `p`: active as [`q_series_active`]
/// says of the `summary` of the hashboard answer; with the chips of
/// [`q_series_chips`] (of its `HB<p>` entry) when the chip answer is an
/// object, or else the working chips the activity gives.
pub open spec fn q_series_board_holds(b: AvalonBoard, hashboards: Option<JsonV>, ci: Option<JsonV>, hw: crate::data::MinerHardwareV, p: int) -> bool {
    &&& b.position == p
    &&& b.expected_chips == hw_chips(hw, p)
    &&& b.active == q_series_active(opt_get(hashboards, "summary"@), p)
    &&& match ci {
        Some(JsonV::Object(_)) => {
            let hb = ci->0.get("HB"@ + decimal_text(p as nat));
            let chips = q_series_chips(
                list_numbers(opt_get(hb, "PVT_T0"@)),
                list_numbers(opt_get(hb, "PVT_V0"@)),
                list_numbers(opt_get(hb, "MW0"@)),
            );
            &&& b.chips@ == chips
            &&& b.working_chips == Some(working_count(chips) as u16)
        },
        _ => b.chips@.len() == 0 && b.working_chips == working_without_chips(b.active, b.expected_chips),
    }
}

/// The hashboards of a Q-series miner: one for each board the hardware has,
/// each as [`q_series_board_holds`] says.  A chip answer that is an object
/// must have an `HB<p>` entry for every board.
pub fn q_series_boards(hashboards: Option<&Json>, chip_info: Option<&Json>, hardware: &MinerHardware) -> (r: Vec<AvalonBoard>)
    requires
        view_opt(chip_info) matches Some(JsonV::Object(_)) ==> forall|p: int|
            0 <= p < hw_boards(hardware@) ==> (#[trigger] view_opt(chip_info)->0.get("HB"@ + decimal_text(p as nat))) is Some,
    ensures
        r@.len() == hw_boards(hardware@),
        forall|p: int| 0 <= p < r@.len() ==> q_series_board_holds(#[trigger] r@[p], view_opt(hashboards), view_opt(chip_info), hardware@, p),
{
    let n: u8 = match hardware.board_count() {
        Some(c) => c,
        None => 0,
    };
    let summary = crate::json::get_in(hashboards, "summary");
    let mut boards: Vec<AvalonBoard> = Vec::new();
    let mut p: u8 = 0;
    while p < n
        invariant
            p <= n,
            n == hw_boards(hardware@),
            view_opt(summary) == opt_get(view_opt(hashboards), "summary"@),
            view_opt(chip_info) matches Some(JsonV::Object(_)) ==> forall|q: int|
                0 <= q < hw_boards(hardware@) ==> (#[trigger] view_opt(chip_info)->0.get("HB"@ + decimal_text(q as nat))) is Some,
            boards@.len() == p,
            forall|q: int| 0 <= q < p ==> q_series_board_holds(#[trigger] boards@[q], view_opt(hashboards), view_opt(chip_info), hardware@, q),
        decreases n - p,
    {
        let expected_chips = hardware.chips_for_board(p as usize);
        let active = read_q_series_active(summary, p);
        proof {
            let q: int = p as int;
            if view_opt(chip_info) matches Some(JsonV::Object(_)) {
                assert(view_opt(chip_info)->0.get("HB"@ + decimal_text(q as nat)) is Some);
            }
        }
        let b = match q_series_board_chips(chip_info, p) {
            Some((chips, working)) => AvalonBoard { position: p, expected_chips, active, working_chips: Some(working), chips },
            None => {
                let working_chips = match (active, expected_chips) {
                    (Some(true), Some(c)) => Some(c),
                    (Some(false), _) => Some(0),
                    _ => None,
                };
                AvalonBoard { position: p, expected_chips, active, working_chips, chips: Vec::new() }
            },
        };
        boards.push(b);
        p = p + 1;
    }
    boards
}

} // verus!
