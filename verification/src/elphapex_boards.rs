//! The state of Elphapex hashboards, as the `stats` answer's chains describe
//! them: how many boards there are, their serials, their chip counts and
//! whether they mine.  Measurements (hash rates, temperatures, frequencies)
//! are not part of it; whether a chain's hash rate is above zero is read by
//! the caller.
use vstd::prelude::*;
use crate::data::{MinerHardware, MinerHardwareV};
use crate::elphapex::{count_of, parse_count};
use crate::json::{Json, JsonV, items_view, opt_str, pointer_spec, str_in, view_opt};
use crate::pools::opt_text;
use crate::text::to_owned_text;

verus! {

/// The statistics the chains are read from: `/STATS/0` of the answer, or
/// the answer itself.
pub open spec fn stats_body(stats: JsonV) -> JsonV {
    match pointer_spec(stats, "/STATS/0"@) {
        Some(s) => s,
        None => stats,
    }
}

/// The chains of the statistics.
pub open spec fn chains_of(body: JsonV) -> Seq<JsonV> {
    match body.get("chain"@) {
        Some(JsonV::Array(c)) => c,
        _ => Seq::empty(),
    }
}

/// The number of boards: the hardware's count, else the `chain_num` count,
/// else the number of chains; at least the number of chains; at most 256
/// (positions are `u8`).
pub open spec fn elphapex_board_count(body: JsonV, hw: MinerHardwareV) -> nat {
    let chains = chains_of(body).len();
    let expected: nat = match hw.boards {
        Some(b) if b.len() <= u8::MAX => b.len(),
        _ => match count_of(body.get("chain_num"@)) {
            Some(c) if c <= usize::MAX => c as nat,
            _ => chains,
        },
    };
    let n = if expected >= chains {
        expected
    } else {
        chains
    };
    if n <= 256 {
        n
    } else {
        256
    }
}

/// Whether a chain's `index` count names board `position`.
pub open spec fn chain_names(c: JsonV, position: int) -> bool {
    match count_of(c.get("index"@)) {
        Some(i) => i <= usize::MAX && i as int == position,
        None => false,
    }
}

/// The place of the last chain that names board `position`, when one does.
pub open spec fn last_chain(chains: Seq<JsonV>, position: int) -> Option<int>
    decreases chains.len(),
{
    if chains.len() == 0 {
        None
    } else if chain_names(chains.last(), position) {
        Some(chains.len() - 1)
    } else {
        last_chain(chains.drop_last(), position)
    }
}

/// A chain's working chips: its `asic_num` count, when it fits in `u16`.
pub open spec fn chain_working(c: JsonV) -> Option<u16> {
    match count_of(c.get("asic_num"@)) {
        Some(n) if n <= u16::MAX => Some(n as u16),
        _ => None,
    }
}

/// A chain's serial: its `sn` text, when not empty.
pub open spec fn chain_serial(c: JsonV) -> Option<Seq<char>> {
    match opt_str(c.get("sn"@)) {
        Some(s) if s.len() > 0 => Some(s),
        _ => None,
    }
}

/// Whether a chain mines: it has working chips, when it reports a count;
/// else its hash rate is above zero, when it reports one.
pub open spec fn chain_active(c: JsonV, rate_positive: Option<bool>) -> Option<bool> {
    match chain_working(c) {
        Some(w) => Some(w > 0),
        None => rate_positive,
    }
}

/// An Elphapex hashboard, but for its measurements.
#[derive(Clone, Debug)]
pub struct ElphapexBoard {
    pub position: u8,
    pub expected_chips: Option<u16>,
    pub serial_number: Option<String>,
    pub working_chips: Option<u16>,
    pub active: Option<bool>,
    pub tuned: Option<bool>,
}

/// The state of board `position` by the chains: set by the last chain that
/// names it (see [`chain_working`], [`chain_serial`], [`chain_active`]),
/// `rates[i]` saying whether chain `i` reports a hash rate above zero (none
/// past the end of the list); blank when no chain names it.
pub open spec fn board_from_chains(
    b: ElphapexBoard,
    hw: MinerHardwareV,
    chains: Seq<JsonV>,
    rates: Seq<Option<bool>>,
    position: int,
) -> bool {
    &&& b.position == position
    &&& b.expected_chips == match hw.boards {
        Some(hb) => if position < hb.len() {
            hb[position]
        } else {
            None
        },
        None => None,
    }
    &&& match last_chain(chains, position) {
        Some(i) => {
            let rate = if i < rates.len() {
                rates[i]
            } else {
                None
            };
            &&& b.working_chips == chain_working(chains[i])
            &&& opt_text(b.serial_number) == chain_serial(chains[i])
            &&& b.active == chain_active(chains[i], rate)
            &&& b.tuned == b.active
        },
        None => {
            &&& b.working_chips is None
            &&& b.serial_number is None
            &&& b.active is None
            &&& b.tuned is None
        },
    }
}

/// Whether a chain's `index` names the board (see [`chain_names`]).
fn names_board(c: &Json, position: usize) -> (r: bool)
    ensures
        r == chain_names(c@, position as int),
{
    match parse_count(c.get("index")) {
        Some(i) => i <= usize::MAX as u64 && i as usize == position,
        None => false,
    }
}

/// The place of the last chain naming the board (see [`last_chain`]).
fn find_last_chain(chains: &Vec<Json>, position: usize) -> (r: Option<usize>)
    ensures
        match last_chain(items_view(chains@), position as int) {
            Some(i) => 0 <= i < chains@.len() && r == Some(i as usize),
            None => r is None,
        },
{
    let ghost cv = items_view(chains@);
    proof {
        crate::json::lemma_items_view_len(chains@);
    }
    let mut found: Option<usize> = None;
    let mut i: usize = 0;
    assert(cv.take(0) =~= Seq::<JsonV>::empty());
    while i < chains.len()
        invariant
            i <= chains@.len(),
            cv == items_view(chains@),
            cv.len() == chains@.len(),
            forall|j: int| 0 <= j < chains@.len() ==> #[trigger] cv[j] == chains@[j]@,
            match last_chain(cv.take(i as int), position as int) {
                Some(k) => found == Some(k as usize) && 0 <= k < i,
                None => found is None,
            },
        decreases chains@.len() - i,
    {
        assert(cv.take(i + 1).drop_last() =~= cv.take(i as int));
        assert(cv.take(i + 1).last() == cv[i as int]);
        if names_board(&chains[i], position) {
            found = Some(i);
        }
        i = i + 1;
    }
    assert(cv.take(chains@.len() as int) =~= cv);
    found
}

/// The hashboards of an Elphapex miner: none without the `stats` answer;
/// else as many as [`elphapex_board_count`] says, each as
/// [`board_from_chains`] says.
pub fn elphapex_boards(stats: Option<&Json>, hardware: &MinerHardware, rate_positive: &Vec<Option<bool>>) -> (r: Vec<ElphapexBoard>)
    ensures
        match view_opt(stats) {
            None => r@.len() == 0,
            Some(s) => {
                let body = stats_body(s);
                let chains = chains_of(body);
                &&& r@.len() == elphapex_board_count(body, hardware@)
                &&& forall|p: int| 0 <= p < r@.len() ==> board_from_chains(#[trigger] r@[p], hardware@, chains, rate_positive@, p)
            },
        },
{
    let mut boards: Vec<ElphapexBoard> = Vec::new();
    let stats = match stats {
        Some(s) => s,
        None => return boards,
    };
    let body = match stats.pointer("/STATS/0") {
        Some(s) => s,
        None => stats,
    };
    let empty: Vec<Json> = Vec::new();
    let chains: &Vec<Json> = match body.get("chain") {
        Some(Json::Array(c)) => c,
        _ => &empty,
    };
    proof {
        crate::json::lemma_items_view_len(chains@);
        crate::json::lemma_items_view_len(empty@);
    }
    let expected: usize = match hardware.board_count() {
        Some(c) => c as usize,
        None => match parse_count(body.get("chain_num")) {
            Some(c) if c <= usize::MAX as u64 => c as usize,
            _ => chains.len(),
        },
    };
    let wanted = if expected >= chains.len() {
        expected
    } else {
        chains.len()
    };
    let n: usize = if wanted <= 256 {
        wanted
    } else {
        256
    };
    let ghost cv = items_view(chains@);
    assert(cv == chains_of(stats_body(stats@)));
    let mut p: usize = 0;
    while p < n
        invariant
            p <= n,
            n <= 256,
            n == elphapex_board_count(stats_body(stats@), hardware@),
            cv == chains_of(stats_body(stats@)),
            cv == items_view(chains@),
            cv.len() == chains@.len(),
            forall|j: int| 0 <= j < chains@.len() ==> #[trigger] cv[j] == chains@[j]@,
            boards@.len() == p,
            forall|q: int| 0 <= q < p ==> board_from_chains(#[trigger] boards@[q], hardware@, cv, rate_positive@, q),
        decreases n - p,
    {
        let expected_chips = hardware.chips_for_board(p);
        let found = find_last_chain(chains, p);
        let board = match found {
            None => {
                let b = ElphapexBoard {
                    position: p as u8,
                    expected_chips,
                    serial_number: None,
                    working_chips: None,
                    active: None,
                    tuned: None,
                };
                assert(last_chain(cv, p as int) is None);
                assert(board_from_chains(b, hardware@, cv, rate_positive@, p as int));
                b
            },
            Some(i) => {
                let chain = &chains[i];
                assert(chain@ == cv[i as int]);
                assert(last_chain(items_view(chains@), p as int) is Some);
                let ghost k = last_chain(items_view(chains@), p as int)->0;
                assert(0 <= k < chains@.len());
                assert(found == Some(k as usize));
                assert(k < chains.len());
                assert(k == i as int);
                assert(last_chain(cv, p as int) == Some(i as int));
                let working_chips: Option<u16> = match parse_count(chain.get("asic_num")) {
                    Some(c) if c <= 65535 => Some(c as u16),
                    _ => None,
                };
                let serial_number = match str_in(chain.get("sn")) {
                    Some(s) => if s.unicode_len() > 0 {
                        Some(to_owned_text(s))
                    } else {
                        None
                    },
                    None => None,
                };
                let rate = if i < rate_positive.len() {
                    rate_positive[i]
                } else {
                    None
                };
                let active = match working_chips {
                    Some(w) => Some(w > 0),
                    None => rate,
                };
                assert(working_chips == chain_working(cv[i as int]));
                assert(opt_text(serial_number) == chain_serial(cv[i as int]));
                assert(active == chain_active(cv[i as int], rate));
                let b = ElphapexBoard { position: p as u8, expected_chips, serial_number, working_chips, active, tuned: active };
                assert(board_from_chains(b, hardware@, cv, rate_positive@, p as int));
                b
            },
        };
        let ghost before = boards@;
        boards.push(board);
        assert(boards@[p as int] == board);
        assert(forall|q: int| 0 <= q < p ==> boards@[q] == before[q]);
        assert(board_from_chains(board, hardware@, cv, rate_positive@, p as int));
        p = p + 1;
    }
    boards
}

} // verus!
