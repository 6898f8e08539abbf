//! The state of ePIC PowerPlay hashboards and their chips, as the web
//! answers describe them: which boards are enabled, their serials, whether
//! tuning has finished, and which chips work.  Measurements (temperatures,
//! voltages, clocks, hashrates) are not part of it.
use vstd::prelude::*;
use crate::avalon_chips::numbers_of;
use crate::chips::{ChipState, count_working, working_count};
use crate::data::{MinerHardware, MinerHardwareV};
use crate::json::{Json, JsonV, entries_view, items_view, opt_bool, opt_u64, pointer_spec, u64_in, bool_in, view_opt};
use crate::pools::opt_text;
use crate::text::to_owned_text;

verus! {

/// The entries of the array at a JSON pointer, or none.
pub open spec fn list_at(v: JsonV, path: Seq<char>) -> Seq<JsonV> {
    match pointer_spec(v, path) {
        Some(JsonV::Array(a)) => a,
        _ => Seq::empty(),
    }
}

/// The entries of an array, with their values.
fn array_at<'a>(v: &'a Json, path: &str) -> (r: Option<&'a Vec<Json>>)
    ensures
        match r {
            Some(a) => list_at(v@, path@) == items_view(a@) && items_view(a@).len() == a@.len()
                && forall|i: int| 0 <= i < a@.len() ==> #[trigger] items_view(a@)[i] == a@[i]@,
            None => list_at(v@, path@) == Seq::<JsonV>::empty(),
        },
{
    match v.pointer(path) {
        Some(Json::Array(a)) => {
            proof {
                crate::json::lemma_items_view_len(a@);
            }
            Some(a)
        },
        _ => None,
    }
}

/// Whether a board entry's `Index` names board `position`.
pub open spec fn indexes(b: JsonV, position: int) -> bool {
    match opt_u64(b.get("Index"@)) {
        Some(i) => i as usize == position,
        None => false,
    }
}

/// Whether a board entry names board `position` (see [`indexes`]).
fn entry_indexes(b: &Json, position: u8) -> (r: bool)
    ensures
        r == indexes(b@, position as int),
{
    match u64_in(b.get("Index")) {
        Some(i) => i as usize == position as usize,
        None => false,
    }
}

/// The `Enabled` flag of the last status entry that names the board, when
/// one does.
pub open spec fn status_enabled(entries: Seq<JsonV>, position: int) -> Option<Option<bool>>
    decreases entries.len(),
{
    if entries.len() == 0 {
        None
    } else if indexes(entries.last(), position) {
        Some(opt_bool(entries.last().get("Enabled"@)))
    } else {
        status_enabled(entries.drop_last(), position)
    }
}

/// The last `Enabled` flag that is a boolean among the status entries that
/// name the board.
pub open spec fn last_flag(entries: Seq<JsonV>, position: int) -> Option<bool>
    decreases entries.len(),
{
    if entries.len() == 0 {
        None
    } else if indexes(entries.last(), position) && opt_bool(entries.last().get("Enabled"@)) is Some {
        opt_bool(entries.last().get("Enabled"@))
    } else {
        last_flag(entries.drop_last(), position)
    }
}

/// Read the status entries of the board (see [`status_enabled`] and
/// [`last_flag`]).
fn read_status(entries: &Vec<Json>, position: u8) -> (r: (Option<Option<bool>>, Option<bool>))
    ensures
        r.0 == status_enabled(items_view(entries@), position as int),
        r.1 == last_flag(items_view(entries@), position as int),
{
    let ghost ev = items_view(entries@);
    proof {
        crate::json::lemma_items_view_len(entries@);
    }
    let mut enabled: Option<Option<bool>> = None;
    let mut flag: Option<bool> = None;
    let mut i: usize = 0;
    assert(ev.take(0) =~= Seq::<JsonV>::empty());
    while i < entries.len()
        invariant
            i <= entries@.len(),
            ev == items_view(entries@),
            ev.len() == entries@.len(),
            forall|j: int| 0 <= j < entries@.len() ==> #[trigger] ev[j] == entries@[j]@,
            enabled == status_enabled(ev.take(i as int), position as int),
            flag == last_flag(ev.take(i as int), position as int),
        decreases entries@.len() - i,
    {
        assert(ev.take(i + 1).drop_last() =~= ev.take(i as int));
        assert(ev.take(i + 1).last() == ev[i as int]);
        if entry_indexes(&entries[i], position) {
            let e = bool_in(entries[i].get("Enabled"));
            enabled = Some(e);
            if e.is_some() {
                flag = e;
            }
        }
        i = i + 1;
    }
    assert(ev.take(entries@.len() as int) =~= ev);
    (enabled, flag)
}

/// How many numbers the `Data` list of an entry holds.
pub open spec fn data_numbers(b: JsonV) -> nat {
    match b.get("Data"@) {
        Some(JsonV::Array(d)) => numbers_of(d).len(),
        _ => 0,
    }
}

/// How many `Data` items of an entry are lists whose first item is a number.
pub open spec fn data_rates(b: JsonV) -> nat {
    match b.get("Data"@) {
        Some(JsonV::Array(d)) => rated_count(d),
        _ => 0,
    }
}

/// How many items are lists whose first item is a number.
pub open spec fn rated_count(items: Seq<JsonV>) -> nat
    decreases items.len(),
{
    if items.len() == 0 {
        0
    } else {
        rated_count(items.drop_last()) + if items.last() matches JsonV::Array(a) && a.len() > 0
            && a[0] is Number {
            1nat
        } else {
            0
        }
    }
}

/// The most chips an entry naming the board reaches in a chip list: the
/// largest count among them (`rates` counts hash-rate lists, otherwise
/// numbers).
pub open spec fn reach(entries: Seq<JsonV>, position: int, rates: bool) -> nat
    decreases entries.len(),
{
    if entries.len() == 0 {
        0
    } else {
        let m = reach(entries.drop_last(), position, rates);
        let b = entries.last();
        if indexes(b, position) && b.get("Data"@) matches Some(JsonV::Array(_)) {
            let c = if rates {
                data_rates(b)
            } else {
                data_numbers(b)
            };
            if c > m {
                c
            } else {
                m
            }
        } else {
            m
        }
    }
}

/// How many numbers a list holds (see [`numbers_of`]).
fn count_numbers(items: &Vec<Json>) -> (r: usize)
    ensures
        r == numbers_of(items_view(items@)).len(),
{
    let ghost iv = items_view(items@);
    proof {
        crate::json::lemma_items_view_len(items@);
    }
    let mut count: usize = 0;
    let mut i: usize = 0;
    assert(iv.take(0) =~= Seq::<JsonV>::empty());
    while i < items.len()
        invariant
            i <= items@.len(),
            iv == items_view(items@),
            iv.len() == items@.len(),
            forall|j: int| 0 <= j < items@.len() ==> #[trigger] iv[j] == items@[j]@,
            count == numbers_of(iv.take(i as int)).len(),
            count <= i,
        decreases items@.len() - i,
    {
        assert(iv.take(i + 1).drop_last() =~= iv.take(i as int));
        assert(iv.take(i + 1).last() == iv[i as int]);
        match &items[i] {
            Json::Number(_) => {
                count = count + 1;
            },
            _ => {},
        }
        i = i + 1;
    }
    assert(iv.take(items@.len() as int) =~= iv);
    count
}

/// How many items are lists whose first item is a number (see
/// [`rated_count`]).
fn count_rated(items: &Vec<Json>) -> (r: usize)
    ensures
        r == rated_count(items_view(items@)),
{
    let ghost iv = items_view(items@);
    proof {
        crate::json::lemma_items_view_len(items@);
    }
    let mut count: usize = 0;
    let mut i: usize = 0;
    assert(iv.take(0) =~= Seq::<JsonV>::empty());
    while i < items.len()
        invariant
            i <= items@.len(),
            iv == items_view(items@),
            iv.len() == items@.len(),
            forall|j: int| 0 <= j < items@.len() ==> #[trigger] iv[j] == items@[j]@,
            count == rated_count(iv.take(i as int)),
            count <= i,
        decreases items@.len() - i,
    {
        assert(iv.take(i + 1).drop_last() =~= iv.take(i as int));
        assert(iv.take(i + 1).last() == iv[i as int]);
        match &items[i] {
            Json::Array(a) => {
                proof {
                    crate::json::lemma_items_view_len(a@);
                }
                if a.len() > 0 {
                    match &a[0] {
                        Json::Number(_) => {
                            count = count + 1;
                        },
                        _ => {},
                    }
                }
            },
            _ => {},
        }
        i = i + 1;
    }
    assert(iv.take(items@.len() as int) =~= iv);
    count
}

/// The most chips the entries naming the board reach (see [`reach`]).
fn find_reach(entries: &Vec<Json>, position: u8, rates: bool) -> (r: usize)
    ensures
        r == reach(items_view(entries@), position as int, rates),
{
    let ghost ev = items_view(entries@);
    proof {
        crate::json::lemma_items_view_len(entries@);
    }
    let mut most: usize = 0;
    let mut i: usize = 0;
    assert(ev.take(0) =~= Seq::<JsonV>::empty());
    while i < entries.len()
        invariant
            i <= entries@.len(),
            ev == items_view(entries@),
            ev.len() == entries@.len(),
            forall|j: int| 0 <= j < entries@.len() ==> #[trigger] ev[j] == entries@[j]@,
            most == reach(ev.take(i as int), position as int, rates),
        decreases entries@.len() - i,
    {
        assert(ev.take(i + 1).drop_last() =~= ev.take(i as int));
        assert(ev.take(i + 1).last() == ev[i as int]);
        let b = &entries[i];
        if entry_indexes(b, position) {
            match b.get("Data") {
                Some(Json::Array(d)) => {
                    let c = if rates {
                        count_rated(d)
                    } else {
                        count_numbers(d)
                    };
                    if c > most {
                        most = c;
                    }
                },
                _ => {},
            }
        }
        i = i + 1;
    }
    assert(ev.take(entries@.len() as int) =~= ev);
    most
}

/// The texts of a list, in order.
pub open spec fn strings_of(items: Seq<JsonV>) -> Seq<Seq<char>>
    decreases items.len(),
{
    if items.len() == 0 {
        Seq::empty()
    } else {
        let r = strings_of(items.drop_last());
        match items.last() {
            JsonV::Str(t) => r.push(t),
            _ => r,
        }
    }
}

/// The `n`-th text of a list (see [`strings_of`]).
fn nth_string(items: &Vec<Json>, n: usize) -> (r: Option<String>)
    ensures
        opt_text(r) == if n < strings_of(items_view(items@)).len() {
            Some(strings_of(items_view(items@))[n as int])
        } else {
            None
        },
{
    let ghost iv = items_view(items@);
    proof {
        crate::json::lemma_items_view_len(items@);
    }
    let mut seen: usize = 0;
    let mut i: usize = 0;
    assert(iv.take(0) =~= Seq::<JsonV>::empty());
    while i < items.len()
        invariant
            i <= items@.len(),
            iv == items_view(items@),
            iv.len() == items@.len(),
            forall|j: int| 0 <= j < items@.len() ==> #[trigger] iv[j] == items@[j]@,
            seen == strings_of(iv.take(i as int)).len(),
            seen <= n,
            seen <= i,
        decreases items@.len() - i,
    {
        assert(iv.take(i + 1).drop_last() =~= iv.take(i as int));
        assert(iv.take(i + 1).last() == iv[i as int]);
        match items[i].as_str() {
            Some(t) => {
                proof {
                    lemma_strings_prefix(iv, i as int + 1, seen as int);
                }
                if seen == n {
                    return Some(to_owned_text(t));
                }
                seen = seen + 1;
            },
            None => {},
        }
        i = i + 1;
    }
    assert(iv.take(items@.len() as int) =~= iv);
    None
}

/// The texts of a prefix of a list are a prefix of its texts.
proof fn lemma_strings_prefix(items: Seq<JsonV>, k: int, at: int)
    requires
        0 <= k <= items.len(),
        0 <= at < strings_of(items.take(k)).len(),
    ensures
        strings_of(items)[at] == strings_of(items.take(k))[at],
        strings_of(items.take(k)).len() <= strings_of(items).len(),
    decreases items.len() - k,
{
    if k < items.len() {
        assert(items.take(k + 1).drop_last() =~= items.take(k));
        assert(strings_of(items.take(k + 1))[at] == strings_of(items.take(k))[at]);
        lemma_strings_prefix(items, k + 1, at);
    } else {
        assert(items.take(k) =~= items);
    }
}

/// The `Optimized` flag of the first tuning algorithm, in the order of the
/// object's entries, that has one.
pub open spec fn first_optimized(entries: Seq<(Seq<char>, JsonV)>) -> Option<bool>
    decreases entries.len(),
{
    if entries.len() == 0 {
        None
    } else {
        match opt_bool(entries[0].1.get("Optimized"@)) {
            Some(b) => Some(b),
            None => first_optimized(entries.drop_first()),
        }
    }
}

/// Whether tuning has finished, for all boards: the first `Optimized` flag
/// of `/Summary/PerpetualTune/Algorithm`.
pub open spec fn tuned_flag(api: JsonV) -> Option<bool> {
    match pointer_spec(api, "/Summary/PerpetualTune/Algorithm"@) {
        Some(JsonV::Object(es)) => first_optimized(es),
        _ => None,
    }
}

/// Whether tuning has finished (see [`tuned_flag`]).
fn read_tuned(api: &Json) -> (r: Option<bool>)
    ensures
        r == tuned_flag(api@),
{
    let alg = api.pointer("/Summary/PerpetualTune/Algorithm");
    let entries = match alg {
        Some(Json::Object(es)) => es,
        _ => return None,
    };
    let ghost ev = entries_view(entries@);
    assert(alg.unwrap()@ == JsonV::Object(ev));
    assert(tuned_flag(api@) == first_optimized(ev));
    proof {
        crate::json::lemma_entries_view_len(entries@);
    }
    let mut i: usize = 0;
    assert(ev.skip(0) =~= ev);
    while i < entries.len()
        invariant
            i <= entries@.len(),
            ev == entries_view(entries@),
            ev.len() == entries@.len(),
            forall|j: int| 0 <= j < entries@.len() ==> #[trigger] ev[j] == (entries@[j].0@, entries@[j].1@),
            first_optimized(ev) == first_optimized(ev.skip(i as int)),
            tuned_flag(api@) == first_optimized(ev),
        decreases entries@.len() - i,
    {
        assert(ev.skip(i as int).drop_first() =~= ev.skip(i + 1));
        assert(ev.skip(i as int)[0] == ev[i as int]);
        let ghost here = ev.skip(i as int);
        assert(here.len() > 0);
        assert(here[0].1 == entries@[i as int].1@);
        match bool_in(entries[i].1.get("Optimized")) {
            Some(b) => {
                assert(first_optimized(here) == Some(b));
                return Some(b);
            },
            None => {
                assert(first_optimized(here) == first_optimized(here.drop_first()));
            },
        }
        i = i + 1;
    }
    None
}

/// The chips the hardware expects on board `position`.
pub open spec fn hw_chips(hw: MinerHardwareV, position: int) -> Option<u16> {
    match hw.boards {
        Some(b) => if 0 <= position < b.len() {
            b[position]
        } else {
            None
        },
        None => None,
    }
}

/// The number of boards the hardware has (none when it does not say or has
/// more than 255).
pub open spec fn hw_boards(hw: MinerHardwareV) -> u8 {
    match hw.boards {
        Some(b) => if b.len() <= u8::MAX {
            b.len() as u8
        } else {
            0
        },
        None => 0,
    }
}

/// The chips per board of the performance estimator, when it gives a count
/// that fits in `u16`, else the hardware's count for the first board.
pub open spec fn estimator_chips(api: JsonV, hw: MinerHardwareV) -> Option<u16> {
    match opt_u64(pointer_spec(api, "/Capabilities/Performance Estimator/Chip Count"@)) {
        Some(c) if c <= u16::MAX => Some(c as u16),
        _ => hw_chips(hw, 0),
    }
}

/// Whether the board is enabled: the `Enabled` flag of its last
/// `/Summary/HBStatus` entry.
pub open spec fn board_enabled(api: JsonV, position: int) -> Option<bool> {
    match status_enabled(list_at(api, "/Summary/HBStatus"@), position) {
        Some(e) => e,
        None => None,
    }
}

/// How many boards before `position` are enabled.
pub open spec fn enabled_before(api: JsonV, position: nat) -> nat
    decreases position,
{
    if position == 0 {
        0
    } else {
        enabled_before(api, (position - 1) as nat) + if board_enabled(api, position - 1) == Some(true) {
            1nat
        } else {
            0
        }
    }
}

/// The board's serial: serial texts go, in order, to the enabled boards, in
/// order of position.
pub open spec fn serial_for(api: JsonV, position: int) -> Option<Seq<char>> {
    let texts = strings_of(list_at(api, "/Capabilities/Board Serial Numbers"@));
    let rank = enabled_before(api, position as nat);
    if board_enabled(api, position) == Some(true) && rank < texts.len() {
        Some(texts[rank as int])
    } else {
        None
    }
}

/// The chips of an enabled board with chip answers: as many as the
/// hardware expects; a chip that some chip list reaches is at its place,
/// others at place 0; a chip that the hash-rate list reaches works, the
/// others are not known to.
pub open spec fn epic_chips(chip_data: JsonV, position: int, count: nat) -> Seq<ChipState> {
    let t = reach(list_at(chip_data, "/Chip Temps"@), position, false);
    let v = reach(list_at(chip_data, "/Chip Voltages"@), position, false);
    let c = reach(list_at(chip_data, "/Chip Clocks"@), position, false);
    let h = reach(list_at(chip_data, "/Chip Hashrates"@), position, true);
    Seq::new(
        count,
        |i: int|
            ChipState {
                position: if i < t || i < v || i < c || i < h {
                    i as u16
                } else {
                    0
                },
                working: if i < h {
                    Some(true)
                } else {
                    None
                },
            },
    )
}

/// A hashboard as the answers describe it, but for its measurements.
#[derive(Clone, Debug)]
pub struct EpicBoard {
    pub position: u8,
    pub expected_chips: Option<u16>,
    pub serial_number: Option<String>,
    pub active: Option<bool>,
    pub tuned: Option<bool>,
    pub working_chips: Option<u16>,
    pub chips: Vec<ChipState>,
}

/// The state of board `position` by the answers (see [`board_enabled`],
/// [`tuned_flag`], [`serial_for`], [`epic_chips`]).  Without chip answers,
/// an enabled board's chips all work (the estimator's count) and a disabled
/// board's none, by its last status entry that says; with them, the working
/// chips are counted.
pub open spec fn epic_board_holds(b: EpicBoard, api: JsonV, chip_data: Option<JsonV>, hw: MinerHardwareV, position: int) -> bool {
    &&& b.position == position
    &&& b.expected_chips == hw_chips(hw, position)
    &&& b.active == board_enabled(api, position)
    &&& b.tuned == tuned_flag(api)
    &&& opt_text(b.serial_number) == serial_for(api, position)
    &&& match chip_data {
        None => {
            &&& b.chips@.len() == 0
            &&& b.working_chips == match last_flag(list_at(api, "/Summary/HBStatus"@), position) {
                Some(true) => Some(
                    match estimator_chips(api, hw) {
                        Some(c) => c,
                        None => 0u16,
                    },
                ),
                Some(false) => Some(0u16),
                None => None,
            }
        },
        Some(cd) => {
            &&& b.chips@ == if board_enabled(api, position) == Some(true) {
                epic_chips(
                    cd,
                    position,
                    match hw_chips(hw, position) {
                        Some(c) => c as nat,
                        None => 0,
                    },
                )
            } else {
                Seq::empty()
            }
            &&& b.working_chips == Some(working_count(b.chips@) as u16)
        },
    }
}

/// A board at `position` of which nothing but its expected chips is known.
pub open spec fn blank_epic_board(b: EpicBoard, hw: MinerHardwareV, position: int) -> bool {
    &&& b.position == position
    &&& b.expected_chips == hw_chips(hw, position)
    &&& b.serial_number is None
    &&& b.active is None
    &&& b.tuned is None
    &&& b.working_chips is None
    &&& b.chips@.len() == 0
}

/// The chips of an enabled board with chip answers (see [`epic_chips`]).
fn build_chips(chip_data: &Json, position: u8, count: usize) -> (r: Vec<ChipState>)
    ensures
        r@ == epic_chips(chip_data@, position as int, count as nat),
{
    let t = match array_at(chip_data, "/Chip Temps") {
        Some(l) => find_reach(l, position, false),
        None => 0,
    };
    let v = match array_at(chip_data, "/Chip Voltages") {
        Some(l) => find_reach(l, position, false),
        None => 0,
    };
    let c = match array_at(chip_data, "/Chip Clocks") {
        Some(l) => find_reach(l, position, false),
        None => 0,
    };
    let h = match array_at(chip_data, "/Chip Hashrates") {
        Some(l) => find_reach(l, position, true),
        None => 0,
    };
    let ghost want = epic_chips(chip_data@, position as int, count as nat);
    let mut chips: Vec<ChipState> = Vec::new();
    let mut i: usize = 0;
    while i < count
        invariant
            i <= count,
            want == epic_chips(chip_data@, position as int, count as nat),
            t == reach(list_at(chip_data@, "/Chip Temps"@), position as int, false),
            v == reach(list_at(chip_data@, "/Chip Voltages"@), position as int, false),
            c == reach(list_at(chip_data@, "/Chip Clocks"@), position as int, false),
            h == reach(list_at(chip_data@, "/Chip Hashrates"@), position as int, true),
            chips@ == want.take(i as int),
        decreases count - i,
    {
        let place: u16 = if i < t || i < v || i < c || i < h {
            i as u16
        } else {
            0
        };
        let working = if i < h {
            Some(true)
        } else {
            None
        };
        chips.push(ChipState { position: place, working });
        assert(chips@ =~= want.take(i + 1));
        i = i + 1;
    }
    assert(want.take(count as int) =~= want);
    chips
}

/// The state of board `position` (see [`epic_board_holds`]), given how many
/// boards before it are enabled, the tuning flag and the estimator's chips.
fn epic_board(
    api: &Json,
    chip_data: Option<&Json>,
    hardware: &MinerHardware,
    position: u8,
    rank: usize,
    tuned: Option<bool>,
    count: Option<u16>,
) -> (b: EpicBoard)
    requires
        rank == enabled_before(api@, position as nat),
        tuned == tuned_flag(api@),
        count == estimator_chips(api@, hardware@),
    ensures
        epic_board_holds(b, api@, view_opt(chip_data), hardware@, position as int),
{
    let expected = hardware.chips_for_board(position as usize);
    let (enabled, flag) = match array_at(api, "/Summary/HBStatus") {
        Some(l) => read_status(l, position),
        None => (None, None),
    };
    let active = match enabled {
        Some(e) => e,
        None => None,
    };
    let serial_number = if active == Some(true) {
        match array_at(api, "/Capabilities/Board Serial Numbers") {
            Some(l) => nth_string(l, rank),
            None => None,
        }
    } else {
        None
    };
    match chip_data {
        None => {
            let working_chips = match flag {
                Some(true) => Some(
                    match count {
                        Some(c) => c,
                        None => 0,
                    },
                ),
                Some(false) => Some(0),
                None => None,
            };
            EpicBoard { position, expected_chips: expected, serial_number, active, tuned, working_chips, chips: Vec::new() }
        },
        Some(cd) => {
            let chips = if active == Some(true) {
                let n: usize = match expected {
                    Some(c) => c as usize,
                    None => 0,
                };
                build_chips(cd, position, n)
            } else {
                Vec::new()
            };
            let working = count_working(&chips);
            EpicBoard {
                position,
                expected_chips: expected,
                serial_number,
                active,
                tuned,
                working_chips: Some(working as u16),
                chips,
            }
        },
    }
}

/// The state of the hashboards of an ePIC miner: one board for each board
/// the hardware has; without the hashboard answers every board is blank;
/// with them each board's state is as [`epic_board_holds`] says.
pub fn epic_boards(api: Option<&Json>, chip_data: Option<&Json>, hardware: &MinerHardware) -> (r: Vec<EpicBoard>)
    ensures
        r@.len() == hw_boards(hardware@),
        forall|p: int| 0 <= p < r@.len() ==> match api {
            None => blank_epic_board(#[trigger] r@[p], hardware@, p),
            Some(a) => epic_board_holds(#[trigger] r@[p], a@, view_opt(chip_data), hardware@, p),
        },
{
    let n: u8 = match hardware.board_count() {
        Some(c) => c,
        None => 0,
    };
    let mut boards: Vec<EpicBoard> = Vec::new();
    let a = match api {
        None => {
            let mut p: u8 = 0;
            while p < n
                invariant
                    p <= n,
                    n == hw_boards(hardware@),
                    api is None,
                    boards@.len() == p,
                    forall|q: int| 0 <= q < p ==> blank_epic_board(#[trigger] boards@[q], hardware@, q),
                decreases n - p,
            {
                boards.push(
                    EpicBoard {
                        position: p,
                        expected_chips: hardware.chips_for_board(p as usize),
                        serial_number: None,
                        active: None,
                        tuned: None,
                        working_chips: None,
                        chips: Vec::new(),
                    },
                );
                p = p + 1;
            }
            return boards;
        },
        Some(a) => a,
    };
    let tuned = read_tuned(a);
    let count: Option<u16> = match u64_in(a.pointer("/Capabilities/Performance Estimator/Chip Count")) {
        Some(c) if c <= 65535 => Some(c as u16),
        _ => hardware.chips_for_board(0),
    };
    let mut rank: usize = 0;
    let mut p: u8 = 0;
    while p < n
        invariant
            p <= n,
            n == hw_boards(hardware@),
            api == Some(a),
            tuned == tuned_flag(a@),
            count == estimator_chips(a@, hardware@),
            rank == enabled_before(a@, p as nat),
            rank <= p,
            boards@.len() == p,
            forall|q: int| 0 <= q < p ==> epic_board_holds(#[trigger] boards@[q], a@, view_opt(chip_data), hardware@, q),
        decreases n - p,
    {
        let b = epic_board(a, chip_data, hardware, p, rank, tuned, count);
        if b.active == Some(true) {
            rank = rank + 1;
        }
        boards.push(b);
        p = p + 1;
    }
    boards
}

} // verus!
