//! The state of LuxOS hashboards and their chips, as the RPC answers
//! describe them: serials, chip counts, chip health and whether each board
//! mines.  Measurements (temperatures, voltages, frequencies, hashrates)
//! are not part of it; whether a board's hash rate is above zero is read by
//! the caller.
use vstd::prelude::*;
use crate::json::{Json, JsonV, items_view, opt_array, opt_str, opt_u64, u64_in, str_in, view_opt};
use crate::pools::opt_text;
use crate::text::{decimal_text, push_text, text_eq, to_owned_text, u64_to_text};

verus! {

/// A chip as LuxOS reports it: its place, whether it is tuned (healthy) and
/// whether it works (healthy or of unknown health).
#[derive(Clone, Copy, Debug, PartialEq, Eq, Structural)]
pub struct LuxChip {
    pub position: u16,
    pub tuned: Option<bool>,
    pub working: Option<bool>,
}

/// A chip entry's state: its `Chip` number (0 when there is none, cut to
/// `u16`) and its `Healthy` text: `Y` is tuned and working, `Unknown`
/// working only.
pub open spec fn lux_chip(o: JsonV) -> LuxChip {
    let healthy = opt_str(o.get("Healthy"@));
    LuxChip {
        position: match opt_u64(o.get("Chip"@)) {
            Some(c) => c as u16,
            None => 0,
        },
        tuned: match healthy {
            Some(h) => Some(h == "Y"@),
            None => None,
        },
        working: match healthy {
            Some(h) => Some(h == "Y"@ || h == "Unknown"@),
            None => None,
        },
    }
}

/// The chips of a chip list: one for each entry that is an object.
pub open spec fn lux_chips(items: Seq<JsonV>) -> Seq<LuxChip>
    decreases items.len(),
{
    if items.len() == 0 {
        Seq::empty()
    } else {
        let r = lux_chips(items.drop_last());
        match items.last() {
            JsonV::Object(_) => r.push(lux_chip(items.last())),
            _ => r,
        }
    }
}

/// A key made of a name and a number, such as `chain_acn1`.
fn numbered_key(name: &str, n: u64) -> (r: String)
    ensures
        r@ == name@ + decimal_text(n as nat),
{
    let mut key = to_owned_text(name);
    let number = u64_to_text(n);
    push_text(&mut key, number.as_str());
    key
}

/// A chip entry's state (see [`lux_chip`]).
fn read_chip(o: &Json) -> (r: LuxChip)
    ensures
        r == lux_chip(o@),
{
    proof {
        reveal_strlit("Y");
        reveal_strlit("Unknown");
    }
    let position: u16 = match u64_in(o.get("Chip")) {
        Some(c) => c as u16,
        None => 0,
    };
    match str_in(o.get("Healthy")) {
        Some(h) => {
            let y = text_eq(h, "Y");
            LuxChip { position, tuned: Some(y), working: Some(y || text_eq(h, "Unknown")) }
        },
        None => LuxChip { position, tuned: None, working: None },
    }
}

/// The chips of a chip list (see [`lux_chips`]).
fn read_chips(items: &Vec<Json>) -> (r: Vec<LuxChip>)
    ensures
        r@ == lux_chips(items_view(items@)),
{
    let ghost iv = items_view(items@);
    proof {
        crate::json::lemma_items_view_len(items@);
    }
    let mut chips: Vec<LuxChip> = Vec::new();
    let mut i: usize = 0;
    assert(iv.take(0) =~= Seq::<JsonV>::empty());
    while i < items.len()
        invariant
            i <= items@.len(),
            iv == items_view(items@),
            iv.len() == items@.len(),
            forall|j: int| 0 <= j < items@.len() ==> #[trigger] iv[j] == items@[j]@,
            chips@ == lux_chips(iv.take(i as int)),
        decreases items@.len() - i,
    {
        assert(iv.take(i + 1).drop_last() =~= iv.take(i as int));
        assert(iv.take(i + 1).last() == iv[i as int]);
        match &items[i] {
            Json::Object(_) => {
                let c = read_chip(&items[i]);
                chips.push(c);
            },
            _ => {},
        }
        i = i + 1;
    }
    assert(iv.take(items@.len() as int) =~= iv);
    chips
}

/// A LuxOS hashboard, but for its measurements.
#[derive(Clone, Debug)]
pub struct LuxBoard {
    pub position: u8,
    pub serial_number: Option<String>,
    pub working_chips: Option<u16>,
    pub chips: Vec<LuxChip>,
    pub active: bool,
    pub tuned: bool,
}

/// The board's serial: the `SerialNumber` text of its `DEVS` entry, when
/// that entry is an object.
pub open spec fn lux_serial(api: JsonV, position: int) -> Option<Seq<char>> {
    match opt_array(api.get("DEVS"@)) {
        Some(devs) => if 0 <= position < devs.len() && devs[position] is Object {
            opt_str(devs[position].get("SerialNumber"@))
        } else {
            None
        },
        None => None,
    }
}

/// The board's working chips: the `chain_acn<n>` count of the `STATS`
/// answer for its chain (numbered from 1), cut to `u16`.
pub open spec fn lux_working(api: JsonV, position: int) -> Option<u16> {
    match api.get("STATS"@) {
        Some(stats) => match opt_u64(stats.get("chain_acn"@ + decimal_text((position + 1) as nat))) {
            Some(u) => Some(u as u16),
            None => None,
        },
        None => None,
    }
}

/// The board's chips: those of its `CHIPS_<position>` list in the chip
/// answers (see [`lux_chips`]).
pub open spec fn lux_board_chips(chip_data: Option<JsonV>, position: int) -> Seq<LuxChip> {
    match chip_data {
        Some(cd) => match opt_array(cd.get("CHIPS_"@ + decimal_text(position as nat))) {
            Some(items) => lux_chips(items),
            None => Seq::empty(),
        },
        None => Seq::empty(),
    }
}

/// The state of LuxOS board `position` (see [`lux_serial`],
/// [`lux_working`], [`lux_board_chips`]): it is active, and tuned, when it
/// has working chips or its hash rate is above zero.
pub fn lux_board(api: &Json, chip_data: Option<&Json>, position: u8, hashrate_positive: bool) -> (r: LuxBoard)
    requires
        position < 255,
    ensures
        r.position == position,
        opt_text(r.serial_number) == lux_serial(api@, position as int),
        r.working_chips == lux_working(api@, position as int),
        r.chips@ == lux_board_chips(view_opt(chip_data), position as int),
        r.active == ((r.working_chips matches Some(c) && c > 0) || hashrate_positive),
        r.tuned == r.active,
{
    let serial_number = match api.get("DEVS") {
        Some(Json::Array(devs)) => {
            proof {
                crate::json::lemma_items_view_len(devs@);
            }
            if (position as usize) < devs.len() {
                match &devs[position as usize] {
                    Json::Object(_) => match str_in(devs[position as usize].get("SerialNumber")) {
                        Some(s) => Some(to_owned_text(s)),
                        None => None,
                    },
                    _ => None,
                }
            } else {
                None
            }
        },
        _ => None,
    };
    let working_chips: Option<u16> = match api.get("STATS") {
        Some(stats) => {
            let key = numbered_key("chain_acn", position as u64 + 1);
            match u64_in(stats.get(key.as_str())) {
                Some(u) => Some(u as u16),
                None => None,
            }
        },
        None => None,
    };
    let chips = match chip_data {
        Some(cd) => {
            let key = numbered_key("CHIPS_", position as u64);
            match cd.get(key.as_str()) {
                Some(Json::Array(items)) => read_chips(items),
                _ => Vec::new(),
            }
        },
        None => Vec::new(),
    };
    let has_chips = match working_chips {
        Some(c) => c > 0,
        None => false,
    };
    let active = has_chips || hashrate_positive;
    LuxBoard { position, serial_number, working_chips, chips, active, tuned: active }
}

} // verus!
