//! Stock Antminer firmware identity: the model name and the firmware
//! version its CGI answers report.
use vstd::prelude::*;
use chrono::Datelike;
use crate::version::{SemVersion, sem_view};
use crate::data::UnknownMinerModel;
use crate::json::{Json, JsonV, opt_get, opt_str, str_in, str_or_empty};
use crate::text::{
    join_spaces, push_text, split_whitespace, strings_view, text_eq, to_uppercase, unicode_uppercase,
    words,
};

verus! {

/// The model name a `miner_type` answer reports: its `miner_type` text
/// (empty when missing), upper-cased.
pub open spec fn miner_type_name(answer: JsonV) -> Seq<char> {
    unicode_uppercase(str_or_empty(answer.get("miner_type"@)))
}

/// The model name a `miner_type` answer reports (see [`miner_type_name`]).
pub fn model_name(answer: &Json) -> (r: String)
    ensures
        r@ == miner_type_name(answer@),
{
    let raw = match str_in(answer.get("miner_type")) {
        Some(s) => s,
        None => "",
    };
    proof {
        reveal_strlit("");
    }
    assert(raw@ =~= str_or_empty(answer@.get("miner_type"@)));
    to_uppercase(raw)
}

/// The name under which the firmware reports a board it does not list as a
/// model.
pub open spec fn unlisted_board_name() -> Seq<char> {
    "ANTMINER BHB42XXX"@
}

/// The model for a reported name that names no listed model: the unlisted
/// board name gives an unknown model of that name; other names are for the
/// model list to read.
pub fn unlisted_model(name: &str) -> (r: Option<UnknownMinerModel>)
    ensures
        match r {
            Some(m) => name@ == unlisted_board_name() && m.name@ == name@,
            None => name@ != unlisted_board_name(),
        },
{
    if text_eq(name, "ANTMINER BHB42XXX") {
        Some(UnknownMinerModel::from_name(name))
    } else {
        None
    }
}

/// The compile time a `summary` answer reports, with the time zone (its
/// fifth word) dropped: its `INFO/CompileTime` text (empty when missing),
/// its words joined by single spaces.
pub open spec fn compile_time_text(answer: JsonV) -> Seq<char> {
    let ws = words(str_or_empty(opt_get(answer.get("INFO"@), "CompileTime"@)));
    join_spaces(
        if ws.len() > 4 {
            ws.remove(4)
        } else {
            ws
        },
    )
}

/// The compile time a `summary` answer reports (see [`compile_time_text`]).
pub fn compile_time(answer: &Json) -> (r: String)
    ensures
        r@ == compile_time_text(answer@),
{
    let raw = match str_in(crate::json::get_in(answer.get("INFO"), "CompileTime")) {
        Some(s) => s,
        None => "",
    };
    proof {
        reveal_strlit("");
    }
    let ws = split_whitespace(raw);
    let ghost wv = strings_view(ws@);
    let ghost kept = if wv.len() > 4 {
        wv.remove(4)
    } else {
        wv
    };
    let mut out = String::new();
    let mut count: usize = 0;
    let mut i: usize = 0;
    while i < ws.len()
        invariant
            wv == strings_view(ws@),
            wv.len() == ws@.len(),
            i <= ws@.len(),
            kept == if wv.len() > 4 {
                wv.remove(4)
            } else {
                wv
            },
            count == if wv.len() > 4 && i > 4 {
                i - 1
            } else {
                i as int
            },
            count <= kept.len(),
            out@ == join_spaces(kept.take(count as int)),
        decreases ws@.len() - i,
    {
        if !(ws.len() > 4 && i == 4) {
            assert(kept[count as int] == wv[i as int]);
            assert(kept.take(count + 1).drop_last() =~= kept.take(count as int));
            if count > 0 {
                push_text(&mut out, " ");
            }
            push_text(&mut out, ws[i].as_str());
            proof {
                reveal_strlit(" ");
                if count == 0 {
                    assert(kept.take(1) =~= seq![wv[i as int]]);
                }
            }
            count = count + 1;
        }
        i = i + 1;
    }
    assert(kept.take(count as int) =~= kept);
    out
}

/// The date `NaiveDateTime::parse_from_str` reads from a text in the
/// format `%a %b %e %H:%M:%S %Y`: its year, month and day.
pub uninterp spec fn compile_date(s: Seq<char>) -> Option<(i32, u32, u32)>;

/// `chrono::NaiveDateTime::parse_from_str` with the format
/// `%a %b %e %H:%M:%S %Y`, giving the date's year, month and day.  The
/// contract names the result and states the ranges chrono documents for a
/// month (1 to 12) and a day (1 to 31); it claims nothing of the format.
#[verifier::external_body]
fn parse_compile_time(s: &str) -> (r: Option<(i32, u32, u32)>)
    ensures
        r == compile_date(s@),
        r matches Some((_, m, d)) ==> 1 <= m <= 12 && 1 <= d <= 31,
{
    match chrono::NaiveDateTime::parse_from_str(s, "%a %b %e %H:%M:%S %Y") {
        Ok(dt) => Some((dt.year(), dt.month(), dt.day())),
        Err(_) => None,
    }
}

/// The firmware version the stock firmware reports: year, month and day of
/// its compile time as major, minor and patch; none when the compile time
/// is no date.
pub open spec fn firmware_version_of(answer: JsonV) -> Option<(u64, u64, u64, Seq<char>, Seq<char>)> {
    match compile_date(compile_time_text(answer)) {
        Some((y, m, d)) => Some((y as u64, m as u64, d as u64, Seq::empty(), Seq::empty())),
        None => None,
    }
}

/// The firmware version a `summary` answer reports (see
/// [`firmware_version_of`]).
pub fn firmware_version(answer: &Json) -> (r: Option<SemVersion>)
    ensures
        match r {
            Some(v) => firmware_version_of(answer@) == Some(sem_view(v)),
            None => firmware_version_of(answer@) is None,
        },
{
    let text = compile_time(answer);
    match parse_compile_time(text.as_str()) {
        Some((y, m, d)) => Some(
            SemVersion { major: y as u64, minor: m as u64, patch: d as u64, pre: String::new(), build: String::new() },
        ),
        None => None,
    }
}

} // verus!
