//! Auradine web API: request paths and payloads, the token exchange, and
//! the decisions taken on each answer (re-authenticate once, fail, or read
//! the answer).
use vstd::prelude::*;
use crate::json::{
    Json, JsonV, entries_get, entries_lookup, entries_view, entry_push, json_text, opt_str, pointer_spec,
    str_in,
};
use crate::text::{contains_spec, contains_text, push_char, ascii_uppercase_spec, to_ascii_uppercase};

verus! {

/// A text without its leading `/` characters (`trim_start_matches('/')`).
pub open spec fn strip_slashes(s: Seq<char>) -> Seq<char>
    decreases s.len(),
{
    if s.len() > 0 && s[0] == '/' {
        strip_slashes(s.drop_first())
    } else {
        s
    }
}

proof fn lemma_strip_slashes_skip(s: Seq<char>, i: int)
    requires
        0 <= i <= s.len(),
        forall|j: int| 0 <= j < i ==> s[j] == '/',
    ensures
        strip_slashes(s) == strip_slashes(s.skip(i)),
    decreases i,
{
    if i > 0 {
        assert(s.drop_first().skip(i - 1) =~= s.skip(i));
        lemma_strip_slashes_skip(s.drop_first(), i - 1);
    } else {
        assert(s.skip(0) =~= s);
    }
}

/// The path of a command's endpoint: the command without its leading `/`
/// characters.
pub fn endpoint_path(command: &str) -> (r: String)
    ensures
        r@ == strip_slashes(command@),
{
    let n = command.unicode_len();
    let mut start: usize = 0;
    while start < n && command.get_char(start) == '/'
        invariant
            n == command@.len(),
            start <= n,
            forall|j: int| 0 <= j < start ==> command@[j] == '/',
        decreases n - start,
    {
        start = start + 1;
    }
    proof {
        lemma_strip_slashes_skip(command@, start as int);
    }
    let mut out = String::new();
    let mut i: usize = start;
    while i < n
        invariant
            n == command@.len(),
            start <= i <= n,
            out@ == command@.subrange(start as int, i as int),
        decreases n - i,
    {
        let c = command.get_char(i);
        push_char(&mut out, c);
        i = i + 1;
        assert(out@ =~= command@.subrange(start as int, i as int));
    }
    assert(out@ =~= command@.skip(start as int));
    out
}

/// The body of a POST request: an object of parameters gains a `command`
/// entry unless it has one; other parameters travel under `parameter` beside
/// the command; without parameters the body names the command alone.
pub open spec fn post_payload(command: Seq<char>, parameters: Option<JsonV>) -> JsonV {
    match parameters {
        Some(JsonV::Object(es)) => if entries_get(es, "command"@) is Some {
            JsonV::Object(es)
        } else {
            JsonV::Object(es.push(("command"@, JsonV::Str(command))))
        },
        Some(v) => JsonV::Object(seq![("command"@, JsonV::Str(command)), ("parameter"@, v)]),
        None => JsonV::Object(seq![("command"@, JsonV::Str(command))]),
    }
}

/// The body of a POST request (see [`post_payload`]).
pub fn build_post_payload(command: &str, parameters: Option<Json>) -> (r: Json)
    ensures
        r@ == post_payload(command@, match parameters {
            Some(p) => Some(p@),
            None => None,
        }),
{
    match parameters {
        Some(Json::Object(mut es)) => {
            if entries_lookup(&es, "command").is_none() {
                entry_push(&mut es, "command", json_text(command));
            }
            Json::Object(es)
        },
        Some(v) => {
            let mut es: Vec<(String, Json)> = Vec::new();
            entry_push(&mut es, "command", json_text(command));
            entry_push(&mut es, "parameter", v);
            assert(entries_view(es@) =~= seq![("command"@, JsonV::Str(command@)), ("parameter"@, v@)]);
            Json::Object(es)
        },
        None => {
            let mut es: Vec<(String, Json)> = Vec::new();
            entry_push(&mut es, "command", json_text(command));
            assert(entries_view(es@) =~= seq![("command"@, JsonV::Str(command@))]);
            Json::Object(es)
        },
    }
}

/// The body of the token request.
pub open spec fn token_request(user: Seq<char>, password: Seq<char>) -> JsonV {
    JsonV::Object(
        seq![
            ("command"@, JsonV::Str("token"@)),
            ("user"@, JsonV::Str(user)),
            ("password"@, JsonV::Str(password)),
        ],
    )
}

/// The body of the token request for a user name and password.
pub fn token_payload(user: &str, password: &str) -> (r: Json)
    ensures
        r@ == token_request(user@, password@),
{
    let mut es: Vec<(String, Json)> = Vec::new();
    entry_push(&mut es, "command", json_text("token"));
    entry_push(&mut es, "user", json_text(user));
    entry_push(&mut es, "password", json_text(password));
    assert(entries_view(es@) =~= seq![
        ("command"@, JsonV::Str("token"@)),
        ("user"@, JsonV::Str(user@)),
        ("password"@, JsonV::Str(password@)),
    ]);
    Json::Object(es)
}

/// The token of a token answer: the text at `/Token/0/Token`.
pub fn token_of(answer: &Json) -> (r: Option<String>)
    ensures
        match r {
            Some(t) => opt_str(pointer_spec(answer@, "/Token/0/Token"@)) == Some(t@),
            None => opt_str(pointer_spec(answer@, "/Token/0/Token"@)) is None,
        },
{
    match str_in(answer.pointer("/Token/0/Token")) {
        Some(t) => Some(t.to_owned()),
        None => None,
    }
}

/// What to do with an HTTP answer to a command.
#[derive(Debug, Clone, Copy, PartialEq, Eq, Structural)]
pub enum WebStep {
    /// Drop the token, authenticate again and send the command once more.
    Reauthenticate,
    /// Give up: the request failed.
    Fail,
    /// Read the answer's body.
    Read,
}

/// The step an HTTP status calls for on the given attempt (counted from 1):
/// a first `401` re-authenticates; any other status outside `200..=299`
/// fails; a success is read.
pub open spec fn status_step(attempt: u32, status: u16) -> WebStep {
    if status == 401 && attempt == 1 {
        WebStep::Reauthenticate
    } else if !(200 <= status && status <= 299) {
        WebStep::Fail
    } else {
        WebStep::Read
    }
}

/// The step an HTTP status calls for (see [`status_step`]).
pub fn on_http_status(attempt: u32, status: u16) -> (r: WebStep)
    ensures
        r == status_step(attempt, status),
{
    if status == 401 && attempt == 1 {
        WebStep::Reauthenticate
    } else if !(200 <= status && status <= 299) {
        WebStep::Fail
    } else {
        WebStep::Read
    }
}

/// Whether an error the firmware reports concerns the session: its text,
/// ASCII-upper-cased, holds `TOKEN`, `SESSION`, `EXPIRED` or `UNAUTHORIZED`.
pub open spec fn session_error(message: Seq<char>) -> bool {
    let m = ascii_uppercase_spec(message);
    contains_spec(m, "TOKEN"@) || contains_spec(m, "SESSION"@) || contains_spec(m, "EXPIRED"@)
        || contains_spec(m, "UNAUTHORIZED"@)
}

/// Whether a command error on the given attempt re-authenticates (a session
/// error on the first attempt) rather than failing.
pub fn retry_on_error(attempt: u32, message: &str) -> (r: bool)
    ensures
        r == (attempt == 1 && session_error(message@)),
{
    if attempt != 1 {
        return false;
    }
    let m = to_ascii_uppercase(message);
    contains_text(m.as_str(), "TOKEN") || contains_text(m.as_str(), "SESSION") || contains_text(
        m.as_str(),
        "EXPIRED",
    ) || contains_text(m.as_str(), "UNAUTHORIZED")
}

} // verus!
