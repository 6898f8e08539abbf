//! The state of Auradine hashboards and their chips, as the RPC answers
//! describe them: which boards exist, their serials, whether they are
//! enabled, and which chips work.  Measurements (temperatures, voltages,
//! frequencies, hashrates) are not part of it.
use vstd::prelude::*;
use crate::auradine::{
    board_id_from_dev_entry, chip_id, chip_id_of, described_board_count, dev_board_id, devs_of, hashboard_layout,
    layout_chips,
};
use std::collections::BTreeMap;
use vstd::std_specs::iter::IteratorSpec;
use vstd::std_specs::cmp::OrdSpec;
use crate::chips::{ChipState, count_working, lemma_working_count_le, working_count};
use crate::data::MinerHardware;
use crate::pools::opt_text;
use crate::text::to_owned_text;
use crate::json::{Json, JsonNumber, JsonV, items_view, opt_array, opt_bool, u64_in, array_in, bool_in, view_opt};
use crate::numbers::{number_gt_zero, number_is_positive};

verus! {

/// Whether the chips are in strictly increasing order of their ids and are
/// exactly the entries of the map, with its values.
pub open spec fn chips_match(s: Seq<ChipState>, m: Map<u16, Option<bool>>) -> bool {
    &&& forall|i: int, j: int| 0 <= i < j < s.len() ==> s[i].position < s[j].position
    &&& forall|i: int| 0 <= i < s.len() ==> #[trigger] m.contains_key(s[i].position) && m[s[i].position] == s[i].working
    &&& forall|k: u16| #[trigger] m.contains_key(k) ==> exists|i: int| 0 <= i < s.len() && s[i].position == k
}

/// The chip map once chip `id` is known: with `Some(w)` its state becomes
/// `w`; with `None` it keeps its state, or has none when it is new.
pub open spec fn upserted(m: Map<u16, Option<bool>>, id: u16, value: Option<Option<bool>>) -> Map<u16, Option<bool>> {
    m.insert(
        id,
        match value {
            Some(w) => w,
            None => if m.contains_key(id) {
                m[id]
            } else {
                None
            },
        },
    )
}

/// Record chip `id` in a map of chips by id (see [`upserted`]).
fn upsert_chip(chips: &mut BTreeMap<u16, ChipState>, id: u16, value: Option<Option<bool>>, Ghost(m): Ghost<Map<u16, Option<bool>>>)
    requires
        map_holds(old(chips)@, m),
    ensures
        map_holds(final(chips)@, upserted(m, id, value)),
{
    broadcast use vstd::std_specs::btree::group_btree_axioms, vstd::laws_cmp::group_laws_cmp;
    assert(vstd::laws_cmp::obeys_cmp::<u16>());
    let w = match value {
        Some(w) => w,
        None => match chips.get(&id) {
            Some(c) => c.working,
            None => None,
        },
    };
    chips.insert(id, ChipState { position: id, working: w });
}

/// The chip map once a chip entry is read: an entry with an id and a number
/// under `value_key` records its chip.  A temperature entry (`sets`) makes
/// the chip work exactly when the number is above zero; any other entry
/// makes it work when the number is above zero and leaves it as it was
/// otherwise.
pub open spec fn chip_entry_step(m: Map<u16, Option<bool>>, chip: JsonV, value_key: Seq<char>, sets: bool) -> Map<u16, Option<bool>> {
    match chip_id_of(chip) {
        None => m,
        Some(id) => match chip.get(value_key) {
            Some(JsonV::Number(n)) => if sets {
                upserted(m, id, Some(Some(number_gt_zero(n))))
            } else if number_gt_zero(n) {
                upserted(m, id, Some(Some(true)))
            } else {
                upserted(m, id, None)
            },
            _ => m,
        },
    }
}

/// The chip map once a list of chip entries is read, in order.
pub open spec fn chips_step(m: Map<u16, Option<bool>>, chips: Seq<JsonV>, value_key: Seq<char>, sets: bool) -> Map<u16, Option<bool>>
    decreases chips.len(),
{
    if chips.len() == 0 {
        m
    } else {
        chip_entry_step(chips_step(m, chips.drop_last(), value_key, sets), chips.last(), value_key, sets)
    }
}

/// The chip map of the board at `position` once a list of board entries is
/// read, in order: each entry whose `ID` names that board adds the chip
/// entries of its `list_key` array.
pub open spec fn board_chips_step(
    m: Map<u16, Option<bool>>,
    boards: Seq<JsonV>,
    position: int,
    list_key: Seq<char>,
    value_key: Seq<char>,
    sets: bool,
) -> Map<u16, Option<bool>>
    decreases boards.len(),
{
    if boards.len() == 0 {
        m
    } else {
        let m0 = board_chips_step(m, boards.drop_last(), position, list_key, value_key, sets);
        let b = boards.last();
        if names_board(b, position) {
            match opt_array(b.get(list_key)) {
                Some(chips) => chips_step(m0, chips, value_key, sets),
                None => m0,
            }
        } else {
            m0
        }
    }
}

/// Whether a board entry's `ID` names the board at `position` (ids count
/// from 1).
pub open spec fn names_board(b: JsonV, position: int) -> bool {
    match b.get("ID"@) {
        Some(JsonV::Number(JsonNumber::PosInt(id))) => 1 <= id && id - 1 == position,
        _ => false,
    }
}

/// Whether the `ID` of a board entry names the board at `position`.
fn entry_names_board(b: &Json, position: u8) -> (r: bool)
    ensures
        r == names_board(b@, position as int),
{
    match u64_in(b.get("ID")) {
        Some(id) => id >= 1 && id - 1 == position as u64,
        None => false,
    }
}

/// Read one chip entry into a map of chips by id (see [`chip_entry_step`]).
fn add_chip_entry(chips: &mut BTreeMap<u16, ChipState>, chip: &Json, value_key: &str, sets: bool, Ghost(m): Ghost<Map<u16, Option<bool>>>)
    requires
        map_holds(old(chips)@, m),
    ensures
        map_holds(final(chips)@, chip_entry_step(m, chip@, value_key@, sets)),
{
    match chip_id(chip) {
        None => {},
        Some(id) => match chip.get(value_key) {
            Some(Json::Number(n)) => {
                let positive = number_is_positive(n);
                if sets {
                    upsert_chip(chips, id, Some(Some(positive)), Ghost(m));
                } else if positive {
                    upsert_chip(chips, id, Some(Some(true)), Ghost(m));
                } else {
                    upsert_chip(chips, id, None, Ghost(m));
                }
            },
            _ => {},
        },
    }
}

/// Read a list of chip entries into a map of chips by id (see [`chips_step`]).
fn add_chip_entries(chips: &mut BTreeMap<u16, ChipState>, entries: &Vec<Json>, value_key: &str, sets: bool, Ghost(m): Ghost<Map<u16, Option<bool>>>)
    requires
        map_holds(old(chips)@, m),
    ensures
        map_holds(final(chips)@, chips_step(m, items_view(entries@), value_key@, sets)),
{
    let ghost ev = items_view(entries@);
    proof {
        crate::json::lemma_items_view_len(entries@);
    }
    let mut i: usize = 0;
    assert(ev.take(0) =~= Seq::<JsonV>::empty());
    while i < entries.len()
        invariant
            i <= entries@.len(),
            ev == items_view(entries@),
            ev.len() == entries@.len(),
            forall|j: int| 0 <= j < entries@.len() ==> #[trigger] ev[j] == entries@[j]@,
            map_holds(chips@, chips_step(m, ev.take(i as int), value_key@, sets)),
        decreases entries@.len() - i,
    {
        assert(ev.take(i + 1).drop_last() =~= ev.take(i as int));
        add_chip_entry(chips, &entries[i], value_key, sets, Ghost(chips_step(m, ev.take(i as int), value_key@, sets)));
        i = i + 1;
    }
    assert(ev.take(entries@.len() as int) =~= ev);
}

/// Read a list of board entries into the chips of the board at `position`
/// (see [`board_chips_step`]).
fn add_board_chips(
    chips: &mut BTreeMap<u16, ChipState>,
    boards: &Vec<Json>,
    position: u8,
    list_key: &str,
    value_key: &str,
    sets: bool,
    Ghost(m): Ghost<Map<u16, Option<bool>>>,
)
    requires
        map_holds(old(chips)@, m),
    ensures
        map_holds(final(chips)@, board_chips_step(m, items_view(boards@), position as int, list_key@, value_key@, sets)),
{
    let ghost bv = items_view(boards@);
    proof {
        crate::json::lemma_items_view_len(boards@);
    }
    let mut i: usize = 0;
    assert(bv.take(0) =~= Seq::<JsonV>::empty());
    while i < boards.len()
        invariant
            i <= boards@.len(),
            bv == items_view(boards@),
            bv.len() == boards@.len(),
            forall|j: int| 0 <= j < boards@.len() ==> #[trigger] bv[j] == boards@[j]@,
            map_holds(chips@, board_chips_step(m, bv.take(i as int), position as int, list_key@, value_key@, sets)),
        decreases boards@.len() - i,
    {
        assert(bv.take(i + 1).drop_last() =~= bv.take(i as int));
        let b = &boards[i];
        if entry_names_board(b, position) {
            match array_in(b.get(list_key)) {
                Some(entries) => {
                    proof {
                        crate::json::lemma_items_view_eq(entries@, items_view(entries@));
                    }
                    add_chip_entries(chips, entries, value_key, sets, Ghost(board_chips_step(m, bv.take(i as int), position as int, list_key@, value_key@, sets)));
                },
                None => {},
            }
        }
        i = i + 1;
    }
    assert(bv.take(boards@.len() as int) =~= bv);
}

/// The entries of the array under `key`, or none.
pub open spec fn list_of(v: JsonV, key: Seq<char>) -> Seq<JsonV> {
    match opt_array(v.get(key)) {
        Some(s) => s,
        None => Seq::empty(),
    }
}

/// The chips of the board at `position` by the chip answers: their
/// `temperature`, then `voltage`, then `frequency` lists.
pub open spec fn chip_map_for(chip_data: JsonV, position: int) -> Map<u16, Option<bool>> {
    let t = board_chips_step(Map::empty(), list_of(chip_data, "temperature"@), position, "ChipTemp"@, "Temperature"@, true);
    let v = board_chips_step(t, list_of(chip_data, "voltage"@), position, "ChipVoltage"@, "Voltage"@, false);
    board_chips_step(v, list_of(chip_data, "frequency"@), position, "ChipFrequency"@, "Frequency"@, false)
}

/// Whether the `devs` entry at `i` names the board at `position` (see
/// [`dev_board_id`]).
pub open spec fn dev_names_board(devs: Seq<JsonV>, i: int, position: int) -> bool {
    let id = dev_board_id(devs[i], i);
    1 <= id && id - 1 == position
}

/// The `Enabled` flag of the last `devs` entry that names the board at
/// `position`, when one does.
pub open spec fn dev_enabled(devs: Seq<JsonV>, position: int) -> Option<Option<bool>>
    decreases devs.len(),
{
    if devs.len() == 0 {
        None
    } else if dev_names_board(devs, devs.len() - 1, position) {
        Some(opt_bool(devs.last().get("Enabled"@)))
    } else {
        dev_enabled(devs.drop_last(), position)
    }
}

/// Whether some board entry's `ID` names the board at `position`.
pub open spec fn any_names_board(boards: Seq<JsonV>, position: int) -> bool {
    exists|i: int| 0 <= i < boards.len() && names_board(#[trigger] boards[i], position)
}

/// The board's serial: the text at its place in `serials`.
pub open spec fn serial_at(api: JsonV, position: int) -> Option<Seq<char>> {
    match opt_array(api.get("serials"@)) {
        Some(s) => if 0 <= position < s.len() {
            s[position].str_of()
        } else {
            None
        },
        None => None,
    }
}

/// Whether the `devs` answer enables the board, when it says.
pub open spec fn dev_flag(api: JsonV, position: int) -> Option<bool> {
    match devs_of(api) {
        Some(d) => match dev_enabled(d, position) {
            Some(f) => f,
            None => None,
        },
        None => None,
    }
}

/// Whether the board is active: as the `devs` answer says, else active when
/// the `temperature` answer lists it.
pub open spec fn board_active(api: JsonV, position: int) -> Option<bool> {
    match dev_flag(api, position) {
        Some(b) => Some(b),
        None => if any_names_board(list_of(api, "temperature"@), position) {
            Some(true)
        } else {
            None
        },
    }
}

/// Working chips without chip answers: all expected chips on an enabled
/// board, none on a disabled one.
pub open spec fn working_without_chips(active: Option<bool>, expected: Option<u16>) -> Option<u16> {
    match (active, expected) {
        (Some(true), Some(c)) => Some(c),
        (Some(false), _) => Some(0),
        _ => None,
    }
}

/// The expected chips once the chips are known: the expected count, else
/// the number of chips when it fits in `u16`.
pub open spec fn expected_with_chips(expected: Option<u16>, chips: nat) -> Option<u16> {
    match expected {
        Some(x) => Some(x),
        None => if chips <= u16::MAX {
            Some(chips as u16)
        } else {
            None
        },
    }
}

/// Working chips by the chip answers: none on a disabled board; when fewer
/// chips are listed than expected, the expected count less the listed chips
/// that fail; else the working chips (counted in `u16`).
pub open spec fn counted_working(active: Option<bool>, expected: Option<u16>, chips: Seq<ChipState>) -> Option<u16> {
    if active == Some(false) {
        Some(0)
    } else {
        match expected {
            Some(x) if chips.len() < x => {
                let failed = chips.len() - working_count(chips);
                Some(
                    if failed <= x {
                        (x - failed) as u16
                    } else {
                        0
                    },
                )
            },
            _ => Some(working_count(chips) as u16),
        }
    }
}

/// Whether a chip map is empty.
pub open spec fn no_chips(m: Map<u16, Option<bool>>) -> bool {
    forall|k: u16| !m.contains_key(k)
}

/// A hashboard as the answers describe it, but for its measurements.
#[derive(Clone, Debug)]
pub struct BoardState {
    pub position: u8,
    pub expected_chips: Option<u16>,
    pub serial_number: Option<String>,
    pub active: Option<bool>,
    pub tuned: Option<bool>,
    pub working_chips: Option<u16>,
    pub chips: Vec<ChipState>,
}

/// A board at `position` of which nothing but its expected chips is known.
pub open spec fn blank_board(b: BoardState, position: int, expected: Option<u16>) -> bool {
    &&& b.position == position
    &&& b.expected_chips == expected
    &&& b.serial_number is None
    &&& b.active is None
    &&& b.tuned is None
    &&& b.working_chips is None
    &&& b.chips@.len() == 0
}

/// The state of the board at `position` by the hashboard answers `api` and
/// the chip answers, each board expecting `expected` chips.
pub open spec fn board_state_holds(b: BoardState, api: JsonV, chip_data: Option<JsonV>, position: int, expected: Option<u16>) -> bool {
    &&& b.position == position
    &&& opt_text(b.serial_number) == serial_at(api, position)
    &&& b.tuned == dev_flag(api, position)
    &&& b.active == board_active(api, position)
    &&& match chip_data {
        None => {
            &&& b.expected_chips == expected
            &&& b.working_chips == working_without_chips(dev_flag(api, position), expected)
            &&& b.chips@.len() == 0
        },
        Some(cd) => {
            let m = chip_map_for(cd, position);
            &&& chips_match(b.chips@, m)
            &&& if no_chips(m) {
                &&& b.expected_chips == expected
                &&& b.working_chips == if board_active(api, position) == Some(false) {
                    Some(0u16)
                } else {
                    None
                }
            } else {
                &&& b.expected_chips == expected_with_chips(expected, b.chips@.len())
                &&& b.working_chips == counted_working(board_active(api, position), b.expected_chips, b.chips@)
            }
        },
    }
}

/// The `Enabled` flag of the last `devs` entry that names the board (see
/// [`dev_enabled`]).
fn find_dev_enabled(devs: &Vec<Json>, position: u8) -> (r: Option<Option<bool>>)
    ensures
        r == dev_enabled(items_view(devs@), position as int),
{
    let ghost dv = items_view(devs@);
    proof {
        crate::json::lemma_items_view_len(devs@);
    }
    let mut found: Option<Option<bool>> = None;
    let mut i: usize = 0;
    assert(dv.take(0) =~= Seq::<JsonV>::empty());
    while i < devs.len()
        invariant
            i <= devs@.len(),
            dv == items_view(devs@),
            dv.len() == devs@.len(),
            forall|j: int| 0 <= j < devs@.len() ==> #[trigger] dv[j] == devs@[j]@,
            found == dev_enabled(dv.take(i as int), position as int),
        decreases devs@.len() - i,
    {
        let ghost t = dv.take(i + 1);
        assert(t.drop_last() =~= dv.take(i as int));
        assert(t[i as int] == dv[i as int]);
        let id = board_id_from_dev_entry(&devs[i], i);
        match id {
            Some(id) => if id >= 1 && id - 1 == position as u64 {
                found = Some(bool_in(devs[i].get("Enabled")));
            },
            None => {},
        }
        i = i + 1;
    }
    assert(dv.take(devs@.len() as int) =~= dv);
    found
}

/// Whether some board entry names the board (see [`any_names_board`]).
fn find_named_board(boards: &Vec<Json>, position: u8) -> (r: bool)
    ensures
        r == any_names_board(items_view(boards@), position as int),
{
    let ghost bv = items_view(boards@);
    proof {
        crate::json::lemma_items_view_len(boards@);
    }
    let mut i: usize = 0;
    while i < boards.len()
        invariant
            i <= boards@.len(),
            bv == items_view(boards@),
            bv.len() == boards@.len(),
            forall|j: int| 0 <= j < boards@.len() ==> #[trigger] bv[j] == boards@[j]@,
            forall|j: int| 0 <= j < i ==> !names_board(#[trigger] bv[j], position as int),
        decreases boards@.len() - i,
    {
        if entry_names_board(&boards[i], position) {
            assert(names_board(bv[i as int], position as int));
            return true;
        }
        i = i + 1;
    }
    false
}

/// The state of the board at `position` (see [`board_state_holds`]).
fn board_state(api: &Json, chip_data: Option<&Json>, position: u8, expected: Option<u16>) -> (b: BoardState)
    ensures
        board_state_holds(b, api@, view_opt(chip_data), position as int, expected),
{
    let serial_number = match array_in(api.get("serials")) {
        Some(s) => if (position as usize) < s.len() {
            match s[position as usize].as_str() {
                Some(t) => Some(to_owned_text(t)),
                None => None,
            }
        } else {
            None
        },
        None => None,
    };
    let devs = match array_in(api.get("devs")) {
        Some(d) => Some(d),
        None => api.as_array(),
    };
    let tuned = match devs {
        Some(d) => match find_dev_enabled(d, position) {
            Some(f) => f,
            None => None,
        },
        None => None,
    };
    let active = match tuned {
        Some(b) => Some(b),
        None => match array_in(api.get("temperature")) {
            Some(t) => if find_named_board(t, position) {
                Some(true)
            } else {
                None
            },
            None => {
                assert(list_of(api@, "temperature"@) =~= Seq::<JsonV>::empty());
                None
            },
        },
    };
    let cd = match chip_data {
        None => {
            let working_chips = match (tuned, expected) {
                (Some(true), Some(c)) => Some(c),
                (Some(false), _) => Some(0),
                _ => None,
            };
            return BoardState {
                position,
                expected_chips: expected,
                serial_number,
                active,
                tuned,
                working_chips,
                chips: Vec::new(),
            };
        },
        Some(cd) => cd,
    };
    let mut chip_map: BTreeMap<u16, ChipState> = BTreeMap::new();
    let ghost m0 = Map::<u16, Option<bool>>::empty();
    assert(map_holds(chip_map@, m0));
    let ghost mt = board_chips_step(m0, list_of(cd@, "temperature"@), position as int, "ChipTemp"@, "Temperature"@, true);
    let ghost mv = board_chips_step(mt, list_of(cd@, "voltage"@), position as int, "ChipVoltage"@, "Voltage"@, false);
    match array_in(cd.get("temperature")) {
        Some(l) => add_board_chips(&mut chip_map, l, position, "ChipTemp", "Temperature", true, Ghost(m0)),
        None => {},
    }
    match array_in(cd.get("voltage")) {
        Some(l) => add_board_chips(&mut chip_map, l, position, "ChipVoltage", "Voltage", false, Ghost(mt)),
        None => {},
    }
    match array_in(cd.get("frequency")) {
        Some(l) => add_board_chips(&mut chip_map, l, position, "ChipFrequency", "Frequency", false, Ghost(mv)),
        None => {},
    }
    let ghost m = chip_map_for(cd@, position as int);
    let chips = chips_in_order(&chip_map, Ghost(m));
    if chips.len() == 0 {
        assert(no_chips(m));
        let working_chips = if active == Some(false) {
            Some(0)
        } else {
            None
        };
        return BoardState { position, expected_chips: expected, serial_number, active, tuned, working_chips, chips };
    }
    assert(!no_chips(m)) by {
        assert(m.contains_key(chips@[0].position));
    }
    let expected_chips = match expected {
        Some(x) => Some(x),
        None => if chips.len() <= 65535 {
            Some(chips.len() as u16)
        } else {
            None
        },
    };
    let working = count_working(&chips);
    proof {
        lemma_working_count_le(chips@);
    }
    let working_chips = if active == Some(false) {
        Some(0)
    } else {
        match expected_chips {
            Some(x) if chips.len() < x as usize => {
                let failed = (chips.len() - working) as u16;
                Some(x.saturating_sub(failed))
            },
            _ => Some(working as u16),
        }
    };
    BoardState { position, expected_chips, serial_number, active, tuned, working_chips, chips }
}

/// The state of the hashboards the answers describe: as many boards as the
/// answers describe (see [`described_board_count`]), each expecting the
/// chips of [`layout_chips`].  Without hashboard answers every board is
/// blank; with them each board's state is as [`board_state_holds`] says.
pub fn board_states(api: Option<&Json>, chip_data: Option<&Json>, hardware: &MinerHardware) -> (r: Vec<BoardState>)
    ensures
        r@.len() == described_board_count(view_opt(api), hardware@),
        forall|p: int| 0 <= p < r@.len() ==> match api {
            None => blank_board(#[trigger] r@[p], p, layout_chips(view_opt(api), hardware@)),
            Some(a) => board_state_holds(#[trigger] r@[p], a@, view_opt(chip_data), p, layout_chips(view_opt(api), hardware@)),
        },
{
    let (count, expected) = hashboard_layout(api, hardware);
    let mut boards: Vec<BoardState> = Vec::new();
    let mut p: u8 = 0;
    while p < count
        invariant
            p <= count,
            boards@.len() == p,
            count == described_board_count(view_opt(api), hardware@),
            expected == layout_chips(view_opt(api), hardware@),
            forall|q: int| 0 <= q < p ==> match api {
                None => blank_board(#[trigger] boards@[q], q, expected),
                Some(a) => board_state_holds(#[trigger] boards@[q], a@, view_opt(chip_data), q, expected),
            },
        decreases count - p,
    {
        let b = match api {
            None => BoardState {
                position: p,
                expected_chips: expected,
                serial_number: None,
                active: None,
                tuned: None,
                working_chips: None,
                chips: Vec::new(),
            },
            Some(a) => board_state(a, chip_data, p, expected),
        };
        boards.push(b);
        p = p + 1;
    }
    boards
}

/// Whether a map of chips by id holds exactly the chips of `m`: each at its
/// id, with its state.
pub open spec fn map_holds(bm: Map<u16, ChipState>, m: Map<u16, Option<bool>>) -> bool {
    &&& forall|k: u16| #[trigger] bm.contains_key(k) <==> m.contains_key(k)
    &&& forall|k: u16| #[trigger] bm.contains_key(k) ==> bm[k] == (ChipState { position: k, working: m[k] })
}

/// The chips of a map of chips by id, in increasing order of id.
fn chips_in_order(map: &BTreeMap<u16, ChipState>, Ghost(m): Ghost<Map<u16, Option<bool>>>) -> (r: Vec<ChipState>)
    requires
        map_holds(map@, m),
    ensures
        chips_match(r@, m),
{
    broadcast use vstd::std_specs::btree::group_btree_axioms, vstd::laws_cmp::group_laws_cmp;
    assert(vstd::laws_cmp::obeys_cmp::<u16>());
    let mut out: Vec<ChipState> = Vec::new();
    let values = map.values();
    let ghost key_seq = choose|key_seq: Seq<u16>|
        {
            &&& vstd::std_specs::btree::increasing_seq(key_seq)
            &&& key_seq.to_set() == map@.dom()
            &&& key_seq.no_duplicates()
            &&& IteratorSpec::remaining(&values) == key_seq.map(|i: int, k: u16| &map@[k])
        };
    let ghost items = IteratorSpec::remaining(&values);
    for c in it: values
        invariant
            it.seq() == items,
            out@.len() == it.index(),
            forall|i: int| 0 <= i < out@.len() ==> out@[i] == *it.seq()[i],
    {
        out.push(*c);
    }
    assert(out@.len() == key_seq.len());
    assert forall|i: int| 0 <= i < out@.len() implies #[trigger] out@[i] == (ChipState {
        position: key_seq[i],
        working: m[key_seq[i]],
    }) by {
        assert(key_seq.to_set().contains(key_seq[i]));
        assert(map@.contains_key(key_seq[i]));
    }
    assert forall|i: int| 0 <= i < out@.len() implies #[trigger] m.contains_key(out@[i].position)
        && m[out@[i].position] == out@[i].working by {
        assert(out@[i] == (ChipState { position: key_seq[i], working: m[key_seq[i]] }));
        assert(map@.contains_key(key_seq[i]));
    }
    assert forall|i: int, j: int| 0 <= i < j < out@.len() implies out@[i].position < out@[j].position by {
        assert(key_seq[i].cmp_spec(&key_seq[j]) is Less);
    }
    assert forall|k: u16| #[trigger] m.contains_key(k) implies exists|i: int|
        0 <= i < out@.len() && out@[i].position == k by {
        assert(map@.dom().contains(k));
        assert(key_seq.to_set().contains(k));
        let i = choose|i: int| 0 <= i < key_seq.len() && key_seq[i] == k;
        assert(out@[i].position == k);
    }
    out
}

} // verus!
