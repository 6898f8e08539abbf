//! The state of Braiins OS hashboards, as the `miner/hw/hashboards` answer
//! describes them: serials, chip counts and whether each board is enabled.
//! Measurements (hash rates, temperatures, voltages, frequencies) are not
//! part of it.
use vstd::prelude::*;
use crate::data::MinerHardware;
use crate::json::{Json, JsonV, items_view, opt_bool, opt_str, opt_u64, pointer_spec, bool_in, str_in, u64_in, view_opt};
use crate::pools::opt_text;
use crate::text::{parse_u64, parse_u64_spec, to_owned_text};

verus! {

/// Whether a chain's `id` text names board `position` (ids count from 1 and
/// are read as `u8`).
pub open spec fn chain_is_board(c: JsonV, position: int) -> bool {
    match opt_str(pointer_spec(c, "/id"@)) {
        Some(s) => match parse_u64_spec(s) {
            Some(id) => id <= u8::MAX && id == position + 1,
            None => false,
        },
        None => false,
    }
}

/// The first chain that names board `position`.
pub open spec fn chain_for(chains: Seq<JsonV>, position: int) -> Option<JsonV>
    decreases chains.len(),
{
    if chains.len() == 0 {
        None
    } else if chain_is_board(chains[0], position) {
        Some(chains[0])
    } else {
        chain_for(chains.drop_first(), position)
    }
}

/// A Braiins OS hashboard, but for its measurements.
#[derive(Clone, Debug)]
pub struct BosBoard {
    pub position: u8,
    pub expected_chips: Option<u16>,
    pub serial_number: Option<String>,
    pub working_chips: Option<u16>,
    pub active: Option<bool>,
}

/// Whether a chain names the board (see [`chain_is_board`]).
fn is_board(c: &Json, position: u8) -> (r: bool)
    requires
        position < 255,
    ensures
        r == chain_is_board(c@, position as int),
{
    match str_in(c.pointer("/id")) {
        Some(s) => match parse_u64(s) {
            Some(id) => id <= 255 && id == position as u64 + 1,
            None => false,
        },
        None => false,
    }
}

/// The first chain that names the board (see [`chain_for`]).
fn find_chain<'a>(chains: &'a Vec<Json>, position: u8) -> (r: Option<&'a Json>)
    requires
        position < 255,
    ensures
        view_opt(r) == chain_for(items_view(chains@), position as int),
{
    let ghost cv = items_view(chains@);
    proof {
        crate::json::lemma_items_view_len(chains@);
    }
    let mut i: usize = 0;
    assert(cv.skip(0) =~= cv);
    while i < chains.len()
        invariant
            i <= chains@.len(),
            position < 255,
            cv == items_view(chains@),
            cv.len() == chains@.len(),
            forall|j: int| 0 <= j < chains@.len() ==> #[trigger] cv[j] == chains@[j]@,
            chain_for(cv, position as int) == chain_for(cv.skip(i as int), position as int),
        decreases chains@.len() - i,
    {
        let ghost here = cv.skip(i as int);
        assert(here[0] == cv[i as int]);
        assert(here.drop_first() =~= cv.skip(i + 1));
        if is_board(&chains[i], position) {
            return Some(&chains[i]);
        }
        i = i + 1;
    }
    None
}

/// The hashboards of a Braiins OS miner: one for each board the hardware
/// has.  When the answer is a list, a board that a chain names
/// (the first whose `id` is its position plus one) takes the chain's
/// `chips_count` (cut to `u16`) as its working chips, its `serial_number`
/// and its `enabled` flag; other boards are blank.
pub fn bos_boards(chains: Option<&Json>, hardware: &MinerHardware) -> (r: Vec<BosBoard>)
    ensures
        r@.len() == match hardware@.boards {
            Some(b) => if b.len() <= u8::MAX {
                b.len()
            } else {
                0
            },
            None => 0,
        },
        forall|p: int| 0 <= p < r@.len() ==> {
            let b = #[trigger] r@[p];
            &&& b.position == p
            &&& b.expected_chips == match hardware@.boards {
                Some(hb) => if p < hb.len() {
                    hb[p]
                } else {
                    None
                },
                None => None,
            }
            &&& match view_opt(chains) {
                Some(JsonV::Array(cs)) => match chain_for(cs, p) {
                    Some(c) => {
                        &&& b.working_chips == match opt_u64(pointer_spec(c, "/chips_count"@)) {
                            Some(u) => Some(u as u16),
                            None => None,
                        }
                        &&& opt_text(b.serial_number) == opt_str(pointer_spec(c, "/serial_number"@))
                        &&& b.active == opt_bool(pointer_spec(c, "/enabled"@))
                    },
                    None => b.working_chips is None && b.serial_number is None && b.active is None,
                },
                _ => b.working_chips is None && b.serial_number is None && b.active is None,
            }
        },
{
    let n: u8 = match hardware.board_count() {
        Some(c) => c,
        None => 0,
    };
    let list = match chains {
        Some(Json::Array(cs)) => {
            proof {
                crate::json::lemma_items_view_len(cs@);
            }
            Some(cs)
        },
        _ => None,
    };
    let mut boards: Vec<BosBoard> = Vec::new();
    let mut p: u8 = 0;
    while p < n
        invariant
            p <= n,
            n == match hardware@.boards {
                Some(b) => if b.len() <= u8::MAX {
                    b.len()
                } else {
                    0
                },
                None => 0,
            },
            match list {
                Some(cs) => view_opt(chains) == Some(JsonV::Array(items_view(cs@))),
                None => !(view_opt(chains) matches Some(JsonV::Array(_))),
            },
            boards@.len() == p,
            forall|q: int| 0 <= q < p ==> {
                let b = #[trigger] boards@[q];
                &&& b.position == q
                &&& b.expected_chips == match hardware@.boards {
                    Some(hb) => if q < hb.len() {
                        hb[q]
                    } else {
                        None
                    },
                    None => None,
                }
                &&& match view_opt(chains) {
                    Some(JsonV::Array(cs)) => match chain_for(cs, q) {
                        Some(c) => {
                            &&& b.working_chips == match opt_u64(pointer_spec(c, "/chips_count"@)) {
                                Some(u) => Some(u as u16),
                                None => None,
                            }
                            &&& opt_text(b.serial_number) == opt_str(pointer_spec(c, "/serial_number"@))
                            &&& b.active == opt_bool(pointer_spec(c, "/enabled"@))
                        },
                        None => b.working_chips is None && b.serial_number is None && b.active is None,
                    },
                    _ => b.working_chips is None && b.serial_number is None && b.active is None,
                }
            },
        decreases n - p,
    {
        let expected_chips = hardware.chips_for_board(p as usize);
        let chain = match list {
            Some(cs) => find_chain(cs, p),
            None => None,
        };
        let board = match chain {
            Some(c) => {
                let working_chips: Option<u16> = match u64_in(c.pointer("/chips_count")) {
                    Some(u) => Some(u as u16),
                    None => None,
                };
                let serial_number = match str_in(c.pointer("/serial_number")) {
                    Some(s) => Some(to_owned_text(s)),
                    None => None,
                };
                BosBoard { position: p, expected_chips, serial_number, working_chips, active: bool_in(c.pointer("/enabled")) }
            },
            None => BosBoard { position: p, expected_chips, serial_number: None, working_chips: None, active: None },
        };
        boards.push(board);
        p = p + 1;
    }
    boards
}

} // verus!
