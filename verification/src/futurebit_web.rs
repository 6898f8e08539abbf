//! FutureBit Apollo GraphQL API: the login and query bodies and how their
//! answers are read.
use vstd::prelude::*;
use crate::json::{
    Json, JsonV, entries_insert, entries_view, entry_push, entry_set, json_object, json_text, opt_array,
    opt_str, pointer_spec, str_in,
};

verus! {

/// The login query.
pub open spec fn login_query() -> Seq<char> {
    "query Login($input: AuthLoginInput!) {\n                Auth {\n                    login(input: $input) {\n                        result {\n                            accessToken\n                        }\n                        error {\n                            message\n                        }\n                    }\n                }\n            }"@
}

/// The body of the login request: the login query, with the password as
/// the `input` variable.
pub open spec fn login_body_spec(password: Seq<char>) -> JsonV {
    JsonV::Object(
        seq![
            ("query"@, JsonV::Str(login_query())),
            (
                "variables"@,
                JsonV::Object(
                    seq![("input"@, JsonV::Object(seq![("password"@, JsonV::Str(password))]))],
                ),
            ),
        ],
    )
}

/// The body of the login request (see [`login_body_spec`]).
pub fn login_body(password: &str) -> (r: Json)
    ensures
        r@ == login_body_spec(password@),
{
    let mut pw: Vec<(String, Json)> = Vec::new();
    entry_push(&mut pw, "password", json_text(password));
    assert(entries_view(pw@) =~= seq![("password"@, JsonV::Str(password@))]);
    let mut input: Vec<(String, Json)> = Vec::new();
    entry_push(&mut input, "input", json_object(pw));
    assert(entries_view(input@) =~= seq![("input"@, JsonV::Object(seq![("password"@, JsonV::Str(password@))]))]);
    let mut body: Vec<(String, Json)> = Vec::new();
    entry_push(&mut body, "query", json_text("query Login($input: AuthLoginInput!) {\n                Auth {\n                    login(input: $input) {\n                        result {\n                            accessToken\n                        }\n                        error {\n                            message\n                        }\n                    }\n                }\n            }"));
    entry_push(&mut body, "variables", json_object(input));
    assert(entries_view(body@) =~= seq![
        ("query"@, JsonV::Str(login_query())),
        (
            "variables"@,
            JsonV::Object(seq![("input"@, JsonV::Object(seq![("password"@, JsonV::Str(password@))]))]),
        ),
    ]);
    json_object(body)
}

/// What a login answer says.
#[derive(Debug)]
pub enum LoginReply {
    /// The answer carries GraphQL `errors`.
    Errors(Json),
    /// The login failed with this message.
    Failed(String),
    /// The access token.
    Token(String),
    /// The answer holds no access token.
    NoToken,
}

/// What a login answer says: its `errors` first, then a login error
/// message, then the access token.
pub fn login_reply(data: &Json) -> (r: LoginReply)
    ensures
        match r {
            LoginReply::Errors(e) => data@.get("errors"@) == Some(e@),
            LoginReply::Failed(m) => data@.get("errors"@) is None && opt_str(
                pointer_spec(data@, "/data/Auth/login/error/message"@),
            ) == Some(m@),
            LoginReply::Token(t) => data@.get("errors"@) is None && opt_str(
                pointer_spec(data@, "/data/Auth/login/error/message"@),
            ) is None && opt_str(pointer_spec(data@, "/data/Auth/login/result/accessToken"@)) == Some(
                t@,
            ),
            LoginReply::NoToken => data@.get("errors"@) is None && opt_str(
                pointer_spec(data@, "/data/Auth/login/error/message"@),
            ) is None && opt_str(pointer_spec(data@, "/data/Auth/login/result/accessToken"@)) is None,
        },
{
    if let Some(e) = data.get("errors") {
        return LoginReply::Errors(e.duplicate());
    }
    if let Some(m) = str_in(data.pointer("/data/Auth/login/error/message")) {
        return LoginReply::Failed(m.to_owned());
    }
    match str_in(data.pointer("/data/Auth/login/result/accessToken")) {
        Some(t) => LoginReply::Token(t.to_owned()),
        None => LoginReply::NoToken,
    }
}

/// The body of a GraphQL request: the query, and its variables when there
/// are any.
pub open spec fn query_body_spec(query: Seq<char>, variables: Option<JsonV>) -> JsonV {
    match variables {
        Some(v) => JsonV::Object(seq![("query"@, JsonV::Str(query)), ("variables"@, v)]),
        None => JsonV::Object(seq![("query"@, JsonV::Str(query))]),
    }
}

/// The body of a GraphQL request (see [`query_body_spec`]).
pub fn query_body(query: &str, variables: Option<Json>) -> (r: Json)
    ensures
        r@ == query_body_spec(
            query@,
            match variables {
                Some(v) => Some(v@),
                None => None,
            },
        ),
{
    let mut body: Vec<(String, Json)> = Vec::new();
    entry_push(&mut body, "query", json_text(query));
    match variables {
        Some(v) => {
            entry_push(&mut body, "variables", v);
            assert(entries_view(body@) =~= seq![("query"@, JsonV::Str(query@)), ("variables"@, v@)]);
        },
        None => {
            assert(entries_view(body@) =~= seq![("query"@, JsonV::Str(query@))]);
        },
    }
    json_object(body)
}

/// What a GraphQL answer holds.
#[derive(Debug)]
pub enum QueryReply {
    /// The answer carries GraphQL `errors`.
    Errors(Json),
    /// The answer's `data`.
    Data(Json),
    /// The answer holds no `data`.
    NoData,
}

/// What a GraphQL answer holds: its `errors` first, else its `data`.
pub fn query_reply(answer: &Json) -> (r: QueryReply)
    ensures
        match r {
            QueryReply::Errors(e) => answer@.get("errors"@) == Some(e@),
            QueryReply::Data(d) => answer@.get("errors"@) is None && answer@.get("data"@) == Some(d@),
            QueryReply::NoData => answer@.get("errors"@) is None && answer@.get("data"@) is None,
        },
{
    if let Some(e) = answer.get("errors") {
        return QueryReply::Errors(e.duplicate());
    }
    match answer.get("data") {
        Some(d) => QueryReply::Data(d.duplicate()),
        None => QueryReply::NoData,
    }
}

/// The miner statistics of a stats answer: the first entry of the list at
/// `/Miner/stats/result/stats`.
pub fn first_miner_stats(data: &Json) -> (r: Option<Json>)
    ensures
        match r {
            Some(s) => (opt_array(pointer_spec(data@, "/Miner/stats/result/stats"@)) matches Some(items)
                && items.len() > 0 && items[0] == s@),
            None => !(opt_array(pointer_spec(data@, "/Miner/stats/result/stats"@)) matches Some(items)
                && items.len() > 0),
        },
{
    match crate::json::array_in(data.pointer("/Miner/stats/result/stats")) {
        Some(items) => {
            proof {
                crate::json::lemma_items_view_len(items@);
            }
            if items.len() > 0 {
                Some(items[0].duplicate())
            } else {
                None
            }
        },
        None => None,
    }
}

} // verus!
