//! Braiins OS web and GraphQL APIs: request bodies, tokens and session
//! cookies, and how their answers are read.
use vstd::prelude::*;
use crate::json::{
    Json, JsonV, entries_view, entry_push, items_view, json_object, json_text, opt_array, opt_str,
    pointer_spec, split_on, split_text, str_in,
};
use crate::text::{push_char, push_text, strings_view, text_eq, trim_text, unicode_trim};

verus! {

/// The body of the REST login request.
pub fn login_payload(username: &str, password: &str) -> (r: Json)
    ensures
        r@ == JsonV::Object(seq![("password"@, JsonV::Str(password@)), ("username"@, JsonV::Str(username@))]),
{
    let mut es: Vec<(String, Json)> = Vec::new();
    entry_push(&mut es, "password", json_text(password));
    entry_push(&mut es, "username", json_text(username));
    assert(entries_view(es@) =~= seq![("password"@, JsonV::Str(password@)), ("username"@, JsonV::Str(username@))]);
    json_object(es)
}

/// The token of a REST login answer: the text at `/token`.
pub fn login_token(answer: &Json) -> (r: Option<String>)
    ensures
        match r {
            Some(t) => opt_str(pointer_spec(answer@, "/token"@)) == Some(t@),
            None => opt_str(pointer_spec(answer@, "/token"@)) is None,
        },
{
    match str_in(answer.pointer("/token")) {
        Some(t) => Some(t.to_owned()),
        None => None,
    }
}

/// The body of the REST password request.
pub fn password_payload(password: &str) -> (r: Json)
    ensures
        r@ == JsonV::Object(seq![("password"@, JsonV::Str(password@))]),
{
    let mut es: Vec<(String, Json)> = Vec::new();
    entry_push(&mut es, "password", json_text(password));
    assert(entries_view(es@) =~= seq![("password"@, JsonV::Str(password@))]);
    json_object(es)
}

/// The GraphQL login mutation.
pub open spec fn graphql_login_query() -> Seq<char> {
    "mutation (\n                $username: String!,\n                $password: String!\n            ) {\n                auth {\n                    login(\n                        username: $username,\n                        password: $password\n                    ) {\n                        ... on VoidResult {\n                            void\n                        }\n                    }\n                }\n            }"@
}

/// The body of the GraphQL login request: the login mutation with the user
/// name and password as variables.
pub fn graphql_login_body(username: &str, password: &str) -> (r: Json)
    ensures
        r@ == JsonV::Object(
            seq![
                ("query"@, JsonV::Str(graphql_login_query())),
                (
                    "variables"@,
                    JsonV::Object(
                        seq![("username"@, JsonV::Str(username@)), ("password"@, JsonV::Str(password@))],
                    ),
                ),
            ],
        ),
{
    let mut vars: Vec<(String, Json)> = Vec::new();
    entry_push(&mut vars, "username", json_text(username));
    entry_push(&mut vars, "password", json_text(password));
    assert(entries_view(vars@) =~= seq![("username"@, JsonV::Str(username@)), ("password"@, JsonV::Str(password@))]);
    let mut es: Vec<(String, Json)> = Vec::new();
    entry_push(&mut es, "query", json_text("mutation (\n                $username: String!,\n                $password: String!\n            ) {\n                auth {\n                    login(\n                        username: $username,\n                        password: $password\n                    ) {\n                        ... on VoidResult {\n                            void\n                        }\n                    }\n                }\n            }"));
    entry_push(&mut es, "variables", json_object(vars));
    assert(entries_view(es@) =~= seq![
        ("query"@, JsonV::Str(graphql_login_query())),
        (
            "variables"@,
            JsonV::Object(seq![("username"@, JsonV::Str(username@)), ("password"@, JsonV::Str(password@))]),
        ),
    ]);
    json_object(es)
}

/// The session id a cookie part sets: the part, trimmed, after
/// `session_id=`, when something follows.
pub open spec fn session_of_part(part: Seq<char>) -> Option<Seq<char>> {
    let t = unicode_trim(part);
    let k = "session_id="@;
    if t.len() > k.len() && t.take(k.len() as int) == k {
        Some(t.skip(k.len() as int))
    } else {
        None
    }
}

/// The first session id among cookie parts.
pub open spec fn session_of_parts(parts: Seq<Seq<char>>) -> Option<Seq<char>>
    decreases parts.len(),
{
    if parts.len() == 0 {
        None
    } else {
        match session_of_part(parts[0]) {
            Some(s) => Some(s),
            None => session_of_parts(parts.drop_first()),
        }
    }
}

/// The first session id the `Set-Cookie` headers of an answer set, each
/// cut at `;`.
pub open spec fn session_of_cookies(cookies: Seq<Seq<char>>) -> Option<Seq<char>>
    decreases cookies.len(),
{
    if cookies.len() == 0 {
        None
    } else {
        match session_of_parts(split_on(cookies[0], ';')) {
            Some(s) => Some(s),
            None => session_of_cookies(cookies.drop_first()),
        }
    }
}

/// The session id a cookie part sets (see [`session_of_part`]).
fn part_session(part: &str) -> (r: Option<String>)
    ensures
        match r {
            Some(s) => session_of_part(part@) == Some(s@),
            None => session_of_part(part@) is None,
        },
{
    let trimmed = trim_text(part);
    let t = trimmed.as_str();
    let key = "session_id=";
    proof {
        reveal_strlit("session_id=");
    }
    let n = t.unicode_len();
    let k = key.unicode_len();
    assert(k == 11);
    assert(t@ == unicode_trim(part@));
    if n <= k {
        assert(session_of_part(part@) is None);
        return None;
    }
    let mut i: usize = 0;
    while i < k
        invariant
            n == t@.len(),
            k == key@.len(),
            k < n,
            i <= k,
            t@ == unicode_trim(part@),
            key@ == "session_id="@,
            forall|j: int| 0 <= j < i ==> t@[j] == key@[j],
        decreases k - i,
    {
        if t.get_char(i) != key.get_char(i) {
            assert(t@.take(k as int)[i as int] != key@[i as int]);
            assert(t@.take(k as int) != key@);
            assert(session_of_part(part@) is None);
            return None;
        }
        i = i + 1;
    }
    assert(t@.take(k as int) =~= key@);
    let mut out = String::new();
    let mut m: usize = k;
    while m < n
        invariant
            n == t@.len(),
            k <= m <= n,
            out@ == t@.subrange(k as int, m as int),
        decreases n - m,
    {
        push_char(&mut out, t.get_char(m));
        m = m + 1;
        assert(out@ =~= t@.subrange(k as int, m as int));
    }
    assert(t@.skip(k as int) =~= t@.subrange(k as int, n as int));
    Some(out)
}

/// The first session id the `Set-Cookie` headers set (see
/// [`session_of_cookies`]).
pub fn session_from_cookies(cookies: &Vec<String>) -> (r: Option<String>)
    ensures
        match r {
            Some(s) => session_of_cookies(strings_view(cookies@)) == Some(s@),
            None => session_of_cookies(strings_view(cookies@)) is None,
        },
{
    let ghost cv = strings_view(cookies@);
    let mut c: usize = 0;
    assert(cv.skip(0) =~= cv);
    while c < cookies.len()
        invariant
            cv == strings_view(cookies@),
            c <= cookies@.len(),
            session_of_cookies(cv) == session_of_cookies(cv.skip(c as int)),
        decreases cookies@.len() - c,
    {
        assert(cv.skip(c as int)[0] == cookies@[c as int]@);
        assert(cv.skip(c as int).drop_first() =~= cv.skip(c + 1));
        let parts = split_text(cookies[c].as_str(), ';');
        let ghost pv = strings_view(parts@);
        assert(pv == split_on(cookies@[c as int]@, ';'));
        let mut p: usize = 0;
        assert(pv.skip(0) =~= pv);
        while p < parts.len()
            invariant
                pv == strings_view(parts@),
                pv == split_on(cookies@[c as int]@, ';'),
                cv == strings_view(cookies@),
                c < cookies@.len(),
                cv.skip(c as int)[0] == cookies@[c as int]@,
                session_of_cookies(cv) == session_of_cookies(cv.skip(c as int)),
                p <= parts@.len(),
                session_of_parts(pv) == session_of_parts(pv.skip(p as int)),
            decreases parts@.len() - p,
        {
            assert(pv.skip(p as int)[0] == parts@[p as int]@);
            assert(pv.skip(p as int).drop_first() =~= pv.skip(p + 1));
            let found = part_session(parts[p].as_str());
            if found.is_some() {
                return found;
            }
            p = p + 1;
        }
        assert(pv.skip(p as int).len() == 0);
        c = c + 1;
    }
    assert(cv.skip(c as int).len() == 0);
    None
}

/// What a Braiins GraphQL answer holds.
#[derive(Debug)]
pub enum BosReply {
    /// The answer carries a non-empty list of `errors`.
    Errors(Json),
    /// The answer's `data`, which is not null.
    Data(Json),
    /// The answer's `data` is missing or null.
    NullData,
}

/// What a Braiins GraphQL answer holds: a non-empty `errors` list first,
/// then a `data` that is not null.
pub fn bos_reply(answer: &Json) -> (r: BosReply)
    ensures
        match r {
            BosReply::Errors(e) => answer@.get("errors"@) == Some(e@) && (e@ matches JsonV::Array(items)
                && items.len() > 0),
            BosReply::Data(d) => !(opt_array(answer@.get("errors"@)) matches Some(items) && items.len() > 0)
                && answer@.get("data"@) == Some(d@) && d@ != JsonV::Null,
            BosReply::NullData => !(opt_array(answer@.get("errors"@)) matches Some(items) && items.len() > 0)
                && (answer@.get("data"@) is None || answer@.get("data"@) == Some(JsonV::Null)),
        },
{
    if let Some(e) = answer.get("errors") {
        if let Json::Array(items) = e {
            proof {
                crate::json::lemma_items_view_len(items@);
            }
            if items.len() > 0 {
                return BosReply::Errors(e.duplicate());
            }
        }
    }
    match answer.get("data") {
        Some(Json::Null) => BosReply::NullData,
        Some(d) => BosReply::Data(d.duplicate()),
        None => BosReply::NullData,
    }
}

/// A Braiins OS mutation whose answer is a void result or an error.
#[derive(Debug, Clone, Copy, PartialEq, Eq, Structural)]
pub enum BosMutation {
    SetPassword,
    FactoryReset,
}

/// The mutation text of a Braiins OS mutation.
pub open spec fn mutation_text(m: BosMutation) -> Seq<char> {
    match m {
        BosMutation::SetPassword => "mutation ($password: String) {\n            bos {\n                setPassword(newPassword: $password) {\n                    ... on VoidResult {\n                        void\n                    }\n                    ... on BosError {\n                        message\n                    }\n                }\n            }\n        }"@,
        BosMutation::FactoryReset => "mutation {\n            bos {\n                factoryReset {\n                    ... on VoidResult {\n                        void\n                    }\n                    ... on BosError {\n                        message\n                    }\n                }\n            }\n        }"@,
    }
}

/// The name under which a mutation answers.
pub open spec fn mutation_key(m: BosMutation) -> Seq<char> {
    match m {
        BosMutation::SetPassword => "/bos/setPassword"@,
        BosMutation::FactoryReset => "/bos/factoryReset"@,
    }
}

/// The mutation text of a Braiins OS mutation (see [`mutation_text`]).
pub fn mutation_query(m: BosMutation) -> (r: &'static str)
    ensures
        r@ == mutation_text(m),
{
    match m {
        BosMutation::SetPassword => "mutation ($password: String) {\n            bos {\n                setPassword(newPassword: $password) {\n                    ... on VoidResult {\n                        void\n                    }\n                    ... on BosError {\n                        message\n                    }\n                }\n            }\n        }",
        BosMutation::FactoryReset => "mutation {\n            bos {\n                factoryReset {\n                    ... on VoidResult {\n                        void\n                    }\n                    ... on BosError {\n                        message\n                    }\n                }\n            }\n        }",
    }
}

/// Whether a mutation succeeded: its answer is there and carries no
/// `message`.
pub open spec fn mutation_ok_spec(data: JsonV, m: BosMutation) -> bool {
    pointer_spec(data, mutation_key(m) + "/message"@) is None && pointer_spec(data, mutation_key(m)) is Some
}

/// Whether a mutation succeeded (see [`mutation_ok_spec`]).
pub fn mutation_ok(data: &Json, m: BosMutation) -> (r: bool)
    ensures
        r == mutation_ok_spec(data@, m),
{
    proof {
        reveal_strlit("/bos/setPassword");
        reveal_strlit("/bos/factoryReset");
        reveal_strlit("/message");
        reveal_strlit("/bos/setPassword/message");
        reveal_strlit("/bos/factoryReset/message");
    }
    match m {
        BosMutation::SetPassword => {
            assert("/bos/setPassword"@ + "/message"@ =~= "/bos/setPassword/message"@);
            data.pointer("/bos/setPassword/message").is_none() && data.pointer("/bos/setPassword").is_some()
        },
        BosMutation::FactoryReset => {
            assert("/bos/factoryReset"@ + "/message"@ =~= "/bos/factoryReset/message"@);
            data.pointer("/bos/factoryReset/message").is_none() && data.pointer("/bos/factoryReset").is_some()
        },
    }
}

/// The log query.
pub open spec fn log_query() -> Seq<char> {
    "query ($target: LogTarget!) {\n            bos {\n                log(target: $target)\n            }\n        }"@
}

/// The variables of the log query: the `BOSMINER` log.
pub fn log_variables() -> (r: Json)
    ensures
        r@ == JsonV::Object(seq![("target"@, JsonV::Str("BOSMINER"@))]),
{
    let mut es: Vec<(String, Json)> = Vec::new();
    entry_push(&mut es, "target", json_text("BOSMINER"));
    assert(entries_view(es@) =~= seq![("target"@, JsonV::Str("BOSMINER"@))]);
    json_object(es)
}

/// The log query text (see [`log_query`]).
pub fn log_query_text() -> (r: &'static str)
    ensures
        r@ == log_query(),
{
    "query ($target: LogTarget!) {\n            bos {\n                log(target: $target)\n            }\n        }"
}

/// The log lines of a log answer, each followed by a line break: the texts
/// of the list at `/bos/log`, other entries skipped.
pub open spec fn log_lines(items: Seq<JsonV>) -> Seq<char>
    decreases items.len(),
{
    if items.len() == 0 {
        Seq::empty()
    } else {
        let rest = log_lines(items.drop_last());
        match items.last() {
            JsonV::Str(s) => rest + s + "\n"@,
            _ => rest,
        }
    }
}

/// The log text of a log answer (see [`log_lines`]); empty without a list.
pub fn log_text(data: &Json) -> (r: String)
    ensures
        r@ == match opt_array(pointer_spec(data@, "/bos/log"@)) {
            Some(items) => log_lines(items),
            None => Seq::empty(),
        },
{
    let mut out = String::new();
    let items = match crate::json::array_in(data.pointer("/bos/log")) {
        Some(items) => items,
        None => return out,
    };
    let ghost iv = items_view(items@);
    proof {
        crate::json::lemma_items_view_len(items@);
        reveal_strlit("\n");
    }
    let mut i: usize = 0;
    assert(iv.take(0) =~= Seq::<JsonV>::empty());
    while i < items.len()
        invariant
            i <= items@.len(),
            iv == items_view(items@),
            iv.len() == items@.len(),
            forall|j: int| 0 <= j < items@.len() ==> #[trigger] iv[j] == items@[j]@,
            out@ == log_lines(iv.take(i as int)),
        decreases items@.len() - i,
    {
        assert(iv.take(i + 1).drop_last() =~= iv.take(i as int));
        assert(iv.take(i + 1).last() == iv[i as int]);
        match &items[i] {
            Json::Str(s) => {
                let ghost before = out@;
                push_text(&mut out, s.as_str());
                push_char(&mut out, '\n');
                proof {
                    reveal_strlit("\n");
                }
                assert("\n"@ =~= seq!['\n']);
                assert(out@ =~= before + s@ + "\n"@);
            },
            _ => {},
        }
        i = i + 1;
    }
    assert(iv.take(items@.len() as int) =~= iv);
    out
}

} // verus!
