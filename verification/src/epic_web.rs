//! ePIC PowerPlay web API: request bodies, the `result` flag of its
//! answers, the firmware checksum and the combined logs.
use vstd::prelude::*;
use sha2::{Digest, Sha256};
use crate::json::{Json, JsonV, entries_insert, entries_view, entry_push, entry_set, json_text, opt_bool};
use crate::text::{push_char, push_text};

verus! {

/// The body of a POST request: the parameters (an empty object when there
/// are none), with the password set under `password` when they are an
/// object.
pub open spec fn post_body(parameters: Option<JsonV>, password: Seq<char>) -> JsonV {
    match parameters {
        Some(JsonV::Object(es)) => JsonV::Object(entries_insert(es, "password"@, JsonV::Str(password))),
        Some(v) => v,
        None => JsonV::Object(seq![("password"@, JsonV::Str(password))]),
    }
}

/// The body of a POST request (see [`post_body`]).
pub fn build_post_body(parameters: Option<Json>, password: &str) -> (r: Json)
    ensures
        r@ == post_body(
            match parameters {
                Some(p) => Some(p@),
                None => None,
            },
            password@,
        ),
{
    match parameters {
        Some(Json::Object(mut es)) => {
            entry_set(&mut es, "password", json_text(password));
            Json::Object(es)
        },
        Some(v) => v,
        None => {
            let mut es: Vec<(String, Json)> = Vec::new();
            entry_push(&mut es, "password", json_text(password));
            assert(entries_view(es@) =~= seq![("password"@, JsonV::Str(password@))]);
            Json::Object(es)
        },
    }
}

/// A request body holding one value under `param`.
pub fn param_payload(value: Json) -> (r: Json)
    ensures
        r@ == JsonV::Object(seq![("param"@, value@)]),
{
    let mut es: Vec<(String, Json)> = Vec::new();
    entry_push(&mut es, "param", value);
    assert(entries_view(es@) =~= seq![("param"@, value@)]);
    Json::Object(es)
}

/// Whether an answer reports success: its `result` is `true` (a missing or
/// non-boolean `result` is a failure).
pub fn result_flag(answer: &Json) -> (r: bool)
    ensures
        r == (opt_bool(answer@.get("result"@)) == Some(true)),
{
    match answer.get("result") {
        Some(v) => match v.as_bool() {
            Some(b) => b,
            None => false,
        },
        None => false,
    }
}

/// The two logs in one text: a `== log ==` heading, the main log, a
/// `== log/error ==` heading and the error log, on their own lines.
pub open spec fn combined_logs(main: Seq<char>, error: Seq<char>) -> Seq<char> {
    "== log ==\n"@ + main + "\n== log/error ==\n"@ + error
}

/// The two logs in one text (see [`combined_logs`]).
pub fn combine_logs(main: &str, error: &str) -> (r: String)
    ensures
        r@ == combined_logs(main@, error@),
{
    let mut s = String::new();
    push_text(&mut s, "== log ==\n");
    push_text(&mut s, main);
    push_text(&mut s, "\n== log/error ==\n");
    push_text(&mut s, error);
    proof {
        assert(s@ =~= combined_logs(main@, error@));
    }
    s
}

/// The SHA-256 digest of some bytes.
pub uninterp spec fn sha256_of(bytes: Seq<u8>) -> Seq<u8>;

/// `sha2::Sha256::digest`.  The contract names the digest and states its
/// documented size of 32 bytes.
#[verifier::external_body]
fn sha256(bytes: &[u8]) -> (r: Vec<u8>)
    ensures
        r@ == sha256_of(bytes@),
        r@.len() == 32,
{
    Sha256::digest(bytes).to_vec()
}

/// The lower-case hexadecimal digit of a value below 16.
pub open spec fn hex_digit(d: u8) -> char {
    if d < 10 {
        (('0' as u8) + d) as char
    } else {
        (('a' as u8) + d - 10) as char
    }
}

/// Bytes written in lower-case hexadecimal, two digits each.
pub open spec fn lower_hex(bytes: Seq<u8>) -> Seq<char>
    decreases bytes.len(),
{
    if bytes.len() == 0 {
        Seq::empty()
    } else {
        lower_hex(bytes.drop_last()).push(hex_digit(bytes.last() / 16)).push(hex_digit(bytes.last() % 16))
    }
}

/// The hexadecimal digit of a value below 16.
fn hex_char(d: u8) -> (r: char)
    requires
        d < 16,
    ensures
        r == hex_digit(d),
{
    if d < 10 {
        ((48u8 + d) as char)
    } else {
        ((97u8 + d - 10) as char)
    }
}

/// The checksum sent with a firmware image: its SHA-256 digest in
/// lower-case hexadecimal.
pub fn sha256_hex(bytes: &[u8]) -> (r: String)
    ensures
        r@ == lower_hex(sha256_of(bytes@)),
{
    let digest = sha256(bytes);
    let mut out = String::new();
    let mut i: usize = 0;
    while i < digest.len()
        invariant
            i <= digest@.len(),
            out@ == lower_hex(digest@.subrange(0, i as int)),
        decreases digest@.len() - i,
    {
        let b = digest[i];
        push_char(&mut out, hex_char(b / 16));
        push_char(&mut out, hex_char(b % 16));
        assert(digest@.subrange(0, i + 1).drop_last() =~= digest@.subrange(0, i as int));
        i = i + 1;
    }
    assert(digest@.subrange(0, digest@.len() as int) =~= digest@);
    out
}

} // verus!
