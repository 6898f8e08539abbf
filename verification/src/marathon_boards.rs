//! The state of MaraFW hashboards and their chips, as the `chip_data`
//! answers describe them: serials, chip counts and which chips work.
//! Measurements (hash rates, temperatures, voltages, frequencies) are not
//! part of it.
use vstd::prelude::*;
use crate::chips::ChipState;
use crate::data::{MinerHardware, MinerHardwareV};
use crate::json::{Json, JsonV, items_view, opt_str, opt_u64, pointer_spec, str_in, u64_in, view_opt};
use crate::numbers::{json_gt_zero, number_is_positive};
use crate::pools::opt_text;
use crate::text::to_owned_text;

verus! {

/// The entries of the `/chip_data` list of an answer, or none.
pub open spec fn chip_data_list(v: Option<JsonV>) -> Seq<JsonV> {
    match v {
        Some(a) => match pointer_spec(a, "/chip_data"@) {
            Some(JsonV::Array(l)) => l,
            _ => Seq::empty(),
        },
        None => Seq::empty(),
    }
}

/// The first entry whose `index` is `position`.
pub open spec fn first_indexed(entries: Seq<JsonV>, position: int) -> Option<JsonV>
    decreases entries.len(),
{
    if entries.len() == 0 {
        None
    } else if opt_u64(entries[0].get("index"@)) == Some(position as u64) {
        Some(entries[0])
    } else {
        first_indexed(entries.drop_first(), position)
    }
}

/// A chip of a `asic_infos` list: at its `index` (cut to `u16`), working
/// when its `hashrate_avg` is above zero, when it has one.
pub open spec fn mara_chip(chip: JsonV, index: u64) -> ChipState {
    ChipState {
        position: index as u16,
        working: match chip.get("hashrate_avg"@) {
            Some(h) => json_gt_zero(h),
            None => None,
        },
    }
}

/// The chips of an `asic_infos` list: one for each entry with an `index`.
pub open spec fn mara_chips(items: Seq<JsonV>) -> Seq<ChipState>
    decreases items.len(),
{
    if items.len() == 0 {
        Seq::empty()
    } else {
        let r = mara_chips(items.drop_last());
        match opt_u64(items.last().get("index"@)) {
            Some(i) => r.push(mara_chip(items.last(), i)),
            None => r,
        }
    }
}

/// The chips of board `position`: those of the `asic_infos` list of the
/// first chip answer entry for it.
pub open spec fn mara_board_chips(chip_answer: Option<JsonV>, position: int) -> Seq<ChipState> {
    match first_indexed(chip_data_list(chip_answer), position) {
        Some(e) => match e.get("asic_infos"@) {
            Some(JsonV::Array(items)) => mara_chips(items),
            _ => Seq::empty(),
        },
        None => Seq::empty(),
    }
}

/// A MaraFW hashboard, but for its measurements.
#[derive(Clone, Debug)]
pub struct MaraBoard {
    pub position: u8,
    pub expected_chips: Option<u16>,
    pub serial_number: Option<String>,
    pub working_chips: Option<u16>,
    pub chips: Vec<ChipState>,
    pub active: Option<bool>,
}

/// The first entry whose `index` is the board's (see [`first_indexed`]).
fn find_indexed<'a>(entries: &'a Vec<Json>, position: u8) -> (r: Option<&'a Json>)
    ensures
        view_opt(r) == first_indexed(items_view(entries@), position as int),
{
    let ghost ev = items_view(entries@);
    proof {
        crate::json::lemma_items_view_len(entries@);
    }
    let mut i: usize = 0;
    assert(ev.skip(0) =~= ev);
    while i < entries.len()
        invariant
            i <= entries@.len(),
            ev == items_view(entries@),
            ev.len() == entries@.len(),
            forall|j: int| 0 <= j < entries@.len() ==> #[trigger] ev[j] == entries@[j]@,
            first_indexed(ev, position as int) == first_indexed(ev.skip(i as int), position as int),
        decreases entries@.len() - i,
    {
        let ghost here = ev.skip(i as int);
        assert(here[0] == ev[i as int]);
        assert(here.drop_first() =~= ev.skip(i + 1));
        if u64_in(entries[i].get("index")) == Some(position as u64) {
            return Some(&entries[i]);
        }
        i = i + 1;
    }
    None
}

/// The chips of an `asic_infos` list (see [`mara_chips`]).
fn read_chips(items: &Vec<Json>) -> (r: Vec<ChipState>)
    ensures
        r@ == mara_chips(items_view(items@)),
{
    let ghost iv = items_view(items@);
    proof {
        crate::json::lemma_items_view_len(items@);
    }
    let mut chips: Vec<ChipState> = Vec::new();
    let mut i: usize = 0;
    assert(iv.take(0) =~= Seq::<JsonV>::empty());
    while i < items.len()
        invariant
            i <= items@.len(),
            iv == items_view(items@),
            iv.len() == items@.len(),
            forall|j: int| 0 <= j < items@.len() ==> #[trigger] iv[j] == items@[j]@,
            chips@ == mara_chips(iv.take(i as int)),
        decreases items@.len() - i,
    {
        assert(iv.take(i + 1).drop_last() =~= iv.take(i as int));
        assert(iv.take(i + 1).last() == iv[i as int]);
        let chip = &items[i];
        match u64_in(chip.get("index")) {
            Some(index) => {
                let working = match chip.get("hashrate_avg") {
                    Some(Json::Number(n)) => Some(number_is_positive(n)),
                    _ => None,
                };
                chips.push(ChipState { position: index as u16, working });
            },
            None => {},
        }
        i = i + 1;
    }
    assert(iv.take(items@.len() as int) =~= iv);
    chips
}

/// The entries of the `/chip_data` list of an answer.
fn chip_data_of(v: Option<&Json>) -> (r: Option<&Vec<Json>>)
    ensures
        match r {
            Some(l) => chip_data_list(view_opt(v)) == items_view(l@),
            None => chip_data_list(view_opt(v)) == Seq::<JsonV>::empty(),
        },
{
    match v {
        Some(a) => match a.pointer("/chip_data") {
            Some(Json::Array(l)) => Some(l),
            _ => None,
        },
        None => None,
    }
}

/// The hashboards of a MaraFW miner: one for each board the hardware has.
/// A board that the hashboard answer's `/chip_data` list has an entry for
/// (the first with its `index`) is active, with that entry's `asic_num`
/// (cut to `u16`) as its working chips, its `serial_number`, and the chips
/// of [`mara_board_chips`]; other boards are blank.
pub fn mara_boards(api: Option<&Json>, chip_answer: Option<&Json>, hardware: &MinerHardware) -> (r: Vec<MaraBoard>)
    ensures
        r@.len() == match hardware@.boards {
            Some(b) => if b.len() <= u8::MAX {
                b.len()
            } else {
                0
            },
            None => 0,
        },
        forall|p: int| 0 <= p < r@.len() ==> {
            let b = #[trigger] r@[p];
            &&& b.position == p
            &&& b.expected_chips == match hardware@.boards {
                Some(hb) => if p < hb.len() {
                    hb[p]
                } else {
                    None
                },
                None => None,
            }
            &&& match first_indexed(chip_data_list(view_opt(api)), p) {
                Some(hb) => {
                    &&& b.working_chips == match opt_u64(hb.get("asic_num"@)) {
                        Some(u) => Some(u as u16),
                        None => None,
                    }
                    &&& opt_text(b.serial_number) == opt_str(hb.get("serial_number"@))
                    &&& b.chips@ == mara_board_chips(view_opt(chip_answer), p)
                    &&& b.active == Some(true)
                },
                None => {
                    &&& b.working_chips is None
                    &&& b.serial_number is None
                    &&& b.chips@.len() == 0
                    &&& b.active is None
                },
            }
        },
{
    let n: u8 = match hardware.board_count() {
        Some(c) => c,
        None => 0,
    };
    let boards_list = match api {
        Some(_) => chip_data_of(api),
        None => None,
    };
    let chips_list = chip_data_of(chip_answer);
    let mut boards: Vec<MaraBoard> = Vec::new();
    let mut p: u8 = 0;
    while p < n
        invariant
            p <= n,
            n == match hardware@.boards {
                Some(b) => if b.len() <= u8::MAX {
                    b.len()
                } else {
                    0
                },
                None => 0,
            },
            match boards_list {
                Some(l) => chip_data_list(view_opt(api)) == items_view(l@),
                None => chip_data_list(view_opt(api)) == Seq::<JsonV>::empty(),
            },
            match chips_list {
                Some(l) => chip_data_list(view_opt(chip_answer)) == items_view(l@),
                None => chip_data_list(view_opt(chip_answer)) == Seq::<JsonV>::empty(),
            },
            boards@.len() == p,
            forall|q: int| 0 <= q < p ==> {
                let b = #[trigger] boards@[q];
                &&& b.position == q
                &&& b.expected_chips == match hardware@.boards {
                    Some(hb) => if q < hb.len() {
                        hb[q]
                    } else {
                        None
                    },
                    None => None,
                }
                &&& match first_indexed(chip_data_list(view_opt(api)), q) {
                    Some(hb) => {
                        &&& b.working_chips == match opt_u64(hb.get("asic_num"@)) {
                            Some(u) => Some(u as u16),
                            None => None,
                        }
                        &&& opt_text(b.serial_number) == opt_str(hb.get("serial_number"@))
                        &&& b.chips@ == mara_board_chips(view_opt(chip_answer), q)
                        &&& b.active == Some(true)
                    },
                    None => {
                        &&& b.working_chips is None
                        &&& b.serial_number is None
                        &&& b.chips@.len() == 0
                        &&& b.active is None
                    },
                }
            },
        decreases n - p,
    {
        let expected_chips = hardware.chips_for_board(p as usize);
        let hb = match boards_list {
            Some(l) => find_indexed(l, p),
            None => {
                assert(first_indexed(Seq::<JsonV>::empty(), p as int) is None);
                None
            },
        };
        let board = match hb {
            None => MaraBoard {
                position: p,
                expected_chips,
                serial_number: None,
                working_chips: None,
                chips: Vec::new(),
                active: None,
            },
            Some(hb) => {
                let working_chips: Option<u16> = match u64_in(hb.get("asic_num")) {
                    Some(u) => Some(u as u16),
                    None => None,
                };
                let serial_number = match str_in(hb.get("serial_number")) {
                    Some(s) => Some(to_owned_text(s)),
                    None => None,
                };
                let chip_entry = match chips_list {
                    Some(l) => find_indexed(l, p),
                    None => {
                        assert(first_indexed(Seq::<JsonV>::empty(), p as int) is None);
                        None
                    },
                };
                let chips = match chip_entry {
                    Some(e) => match e.get("asic_infos") {
                        Some(Json::Array(items)) => read_chips(items),
                        _ => Vec::new(),
                    },
                    None => Vec::new(),
                };
                MaraBoard { position: p, expected_chips, serial_number, working_chips, chips, active: Some(true) }
            },
        };
        boards.push(board);
        p = p + 1;
    }
    boards
}

} // verus!
