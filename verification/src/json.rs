//! The library's model of a JSON document.
//!
//! Numbers keep the three shapes a JSON reader distinguishes: non-negative
//! integers, negative integers, and other numbers.  Other numbers are held by
//! their IEEE-754 bit pattern, which the library only carries through.
use vstd::prelude::*;
use crate::text::{text_eq, push_char, parse_u64, parse_u64_spec};

verus! {

/// A JSON number.
#[derive(Debug, PartialEq, Eq, Structural)]
pub enum JsonNumber {
    /// An integer `>= 0`.
    PosInt(u64),
    /// An integer `< 0`.
    NegInt(i64),
    /// Any other number, by the bits of its 64-bit floating-point value.
    Float(u64),
}

/// A JSON value.  Objects keep their entries in order; a key names the first
/// entry that carries it.
#[derive(Debug)]
pub enum Json {
    Null,
    Bool(bool),
    Number(JsonNumber),
    Str(String),
    Array(Vec<Json>),
    Object(Vec<(String, Json)>),
}

/// The mathematical value of a JSON document.
pub enum JsonV {
    Null,
    Bool(bool),
    Number(JsonNumber),
    Str(Seq<char>),
    Array(Seq<JsonV>),
    Object(Seq<(Seq<char>, JsonV)>),
}

/// The value of a JSON document.
pub open spec fn json_view(j: Json) -> JsonV
    decreases j, 1nat,
{
    match j {
        Json::Null => JsonV::Null,
        Json::Bool(b) => JsonV::Bool(b),
        Json::Number(n) => JsonV::Number(n),
        Json::Str(s) => JsonV::Str(s@),
        Json::Array(items) => {
            proof {
                broadcast use vstd::std_specs::vec::axiom_vec_decreases_to_view;
                assert(decreases_to!(j => items));
                assert(decreases_to!(items => items@));
            }
            JsonV::Array(items_view(items@))
        },
        Json::Object(entries) => {
            proof {
                broadcast use vstd::std_specs::vec::axiom_vec_decreases_to_view;
                assert(decreases_to!(j => entries));
                assert(decreases_to!(entries => entries@));
            }
            JsonV::Object(entries_view(entries@))
        },
    }
}

/// The values of a list of JSON documents.
pub open spec fn items_view(items: Seq<Json>) -> Seq<JsonV>
    decreases items, 0nat,
{
    if items.len() == 0 {
        Seq::empty()
    } else {
        items_view(items.drop_last()).push(json_view(items.last()))
    }
}

/// The values of a list of object entries.
pub open spec fn entries_view(entries: Seq<(String, Json)>) -> Seq<(Seq<char>, JsonV)>
    decreases entries, 0nat,
{
    if entries.len() == 0 {
        Seq::empty()
    } else {
        proof {
            assert(decreases_to!(entries => entries.last()));
        }
        entries_view(entries.drop_last()).push((entries.last().0@, json_view(entries.last().1)))
    }
}

impl View for Json {
    type V = JsonV;

    open spec fn view(&self) -> JsonV {
        json_view(*self)
    }
}

/// The value stored under `key` in a list of object entries: the first entry
/// with that key.
pub open spec fn entries_get(entries: Seq<(Seq<char>, JsonV)>, key: Seq<char>) -> Option<JsonV>
    decreases entries.len(),
{
    if entries.len() == 0 {
        None
    } else if entries[0].0 == key {
        Some(entries[0].1)
    } else {
        entries_get(entries.drop_first(), key)
    }
}

impl JsonV {
    /// `get(key)`: the value under `key` when this is an object.
    pub open spec fn get(self, key: Seq<char>) -> Option<JsonV> {
        match self {
            JsonV::Object(entries) => entries_get(entries, key),
            _ => None,
        }
    }

    /// The element at `idx` when this is an array long enough.
    pub open spec fn at(self, idx: int) -> Option<JsonV> {
        match self {
            JsonV::Array(items) => if 0 <= idx < items.len() {
                Some(items[idx])
            } else {
                None
            },
            _ => None,
        }
    }

    /// `as_str()`: the text when this is a string.
    pub open spec fn str_of(self) -> Option<Seq<char>> {
        match self {
            JsonV::Str(s) => Some(s),
            _ => None,
        }
    }

    /// `as_bool()`: the value when this is a boolean.
    pub open spec fn bool_of(self) -> Option<bool> {
        match self {
            JsonV::Bool(b) => Some(b),
            _ => None,
        }
    }

    /// `as_u64()`: the value when this is an integer `>= 0`.
    pub open spec fn u64_of(self) -> Option<u64> {
        match self {
            JsonV::Number(JsonNumber::PosInt(n)) => Some(n),
            _ => None,
        }
    }

    /// `as_i64()`: the value when this is an integer that fits in `i64`.
    pub open spec fn i64_of(self) -> Option<i64> {
        match self {
            JsonV::Number(JsonNumber::PosInt(n)) => if n <= i64::MAX {
                Some(n as i64)
            } else {
                None
            },
            JsonV::Number(JsonNumber::NegInt(n)) => Some(n),
            _ => None,
        }
    }

    /// `as_array()`: the elements when this is an array.
    pub open spec fn array_of(self) -> Option<Seq<JsonV>> {
        match self {
            JsonV::Array(items) => Some(items),
            _ => None,
        }
    }

    /// `as_object()`: the entries when this is an object.
    pub open spec fn object_of(self) -> Option<Seq<(Seq<char>, JsonV)>> {
        match self {
            JsonV::Object(entries) => Some(entries),
            _ => None,
        }
    }
}

/// `get` on an optional value: `opt.and_then(|v| v.get(key))`.
pub open spec fn opt_get(opt: Option<JsonV>, key: Seq<char>) -> Option<JsonV> {
    match opt {
        Some(v) => v.get(key),
        None => None,
    }
}

/// `as_str` on an optional value.
pub open spec fn opt_str(opt: Option<JsonV>) -> Option<Seq<char>> {
    match opt {
        Some(v) => v.str_of(),
        None => None,
    }
}

/// `as_u64` on an optional value.
pub open spec fn opt_u64(opt: Option<JsonV>) -> Option<u64> {
    match opt {
        Some(v) => v.u64_of(),
        None => None,
    }
}

/// `as_i64` on an optional value.
pub open spec fn opt_i64(opt: Option<JsonV>) -> Option<i64> {
    match opt {
        Some(v) => v.i64_of(),
        None => None,
    }
}

/// `as_bool` on an optional value.
pub open spec fn opt_bool(opt: Option<JsonV>) -> Option<bool> {
    match opt {
        Some(v) => v.bool_of(),
        None => None,
    }
}

/// `as_array` on an optional value.
pub open spec fn opt_array(opt: Option<JsonV>) -> Option<Seq<JsonV>> {
    match opt {
        Some(v) => v.array_of(),
        None => None,
    }
}

proof fn lemma_items_view(items: Seq<Json>)
    ensures
        items_view(items).len() == items.len(),
        forall|i: int| 0 <= i < items.len() ==> #[trigger] items_view(items)[i] == json_view(items[i]),
    decreases items.len(),
{
    if items.len() > 0 {
        lemma_items_view(items.drop_last());
    }
}

proof fn lemma_entries_view(entries: Seq<(String, Json)>)
    ensures
        entries_view(entries).len() == entries.len(),
        forall|i: int| 0 <= i < entries.len() ==> #[trigger] entries_view(entries)[i] == (entries[i].0@, json_view(entries[i].1)),
    decreases entries.len(),
{
    if entries.len() > 0 {
        lemma_entries_view(entries.drop_last());
    }
}

/// Building an array from values whose views are given.
pub proof fn lemma_items_view_eq(items: Seq<Json>, vs: Seq<JsonV>)
    requires
        items.len() == vs.len(),
        forall|i: int| 0 <= i < items.len() ==> json_view(#[trigger] items[i]) == vs[i],
    ensures
        items_view(items) == vs,
{
    lemma_items_view(items);
    assert(items_view(items) =~= vs);
}

impl Json {
    /// The value under `key` of an object.
    pub fn get(&self, key: &str) -> (r: Option<&Json>)
        ensures
            r matches Some(v) ==> self@.get(key@) == Some(v@),
            r is None ==> self@.get(key@) is None,
    {
        match self {
            Json::Object(entries) => {
                proof {
                    lemma_entries_view(entries@);
                }
                entries_lookup(entries, key)
            },
            _ => None,
        }
    }

    /// The element at `idx` of an array.
    pub fn at(&self, idx: usize) -> (r: Option<&Json>)
        ensures
            r matches Some(v) ==> self@.at(idx as int) == Some(v@),
            r is None ==> self@.at(idx as int) is None,
    {
        match self {
            Json::Array(items) => {
                proof {
                    lemma_items_view(items@);
                }
                if idx < items.len() {
                    Some(&items[idx])
                } else {
                    None
                }
            },
            _ => None,
        }
    }

    /// The text of a string.
    pub fn as_str(&self) -> (r: Option<&str>)
        ensures
            r matches Some(s) ==> self@.str_of() == Some(s@),
            r is None ==> self@.str_of() is None,
    {
        match self {
            Json::Str(s) => Some(s.as_str()),
            _ => None,
        }
    }

    /// The value of a boolean.
    pub fn as_bool(&self) -> (r: Option<bool>)
        ensures
            r == self@.bool_of(),
    {
        match self {
            Json::Bool(b) => Some(*b),
            _ => None,
        }
    }

    /// The value of an integer `>= 0`.
    pub fn as_u64(&self) -> (r: Option<u64>)
        ensures
            r == self@.u64_of(),
    {
        match self {
            Json::Number(JsonNumber::PosInt(n)) => Some(*n),
            _ => None,
        }
    }

    /// The value of an integer that fits in `i64`.
    pub fn as_i64(&self) -> (r: Option<i64>)
        ensures
            r == self@.i64_of(),
    {
        match self {
            Json::Number(JsonNumber::PosInt(n)) => if *n <= 0x7fff_ffff_ffff_ffffu64 {
                Some(*n as i64)
            } else {
                None
            },
            Json::Number(JsonNumber::NegInt(n)) => Some(*n),
            _ => None,
        }
    }

    /// The elements of an array.
    pub fn as_array(&self) -> (r: Option<&Vec<Json>>)
        ensures
            r matches Some(v) ==> self@.array_of() == Some(items_view(v@)) && items_view(v@).len() == v@.len()
                && forall|i: int| 0 <= i < v@.len() ==> #[trigger] items_view(v@)[i] == v@[i]@,
            r is None ==> self@.array_of() is None,
    {
        match self {
            Json::Array(items) => {
                proof {
                    lemma_items_view(items@);
                }
                Some(items)
            },
            _ => None,
        }
    }

    /// The entries of an object.
    pub fn as_object(&self) -> (r: Option<&Vec<(String, Json)>>)
        ensures
            r matches Some(v) ==> self@.object_of() == Some(entries_view(v@)) && entries_view(v@).len() == v@.len()
                && forall|i: int| 0 <= i < v@.len() ==> #[trigger] entries_view(v@)[i] == (v@[i].0@, v@[i].1@),
            r is None ==> self@.object_of() is None,
    {
        match self {
            Json::Object(entries) => {
                proof {
                    lemma_entries_view(entries@);
                }
                Some(entries)
            },
            _ => None,
        }
    }

    /// Whether this is an array.
    pub fn is_array(&self) -> (r: bool)
        ensures
            r == self@ is Array,
    {
        match self {
            Json::Array(_) => true,
            _ => false,
        }
    }

    /// A copy of this value.
    pub fn duplicate(&self) -> (r: Json)
        ensures
            r@ == self@,
        decreases self,
    {
        match self {
            Json::Null => Json::Null,
            Json::Bool(b) => Json::Bool(*b),
            Json::Number(JsonNumber::PosInt(n)) => Json::Number(JsonNumber::PosInt(*n)),
            Json::Number(JsonNumber::NegInt(n)) => Json::Number(JsonNumber::NegInt(*n)),
            Json::Number(JsonNumber::Float(n)) => Json::Number(JsonNumber::Float(*n)),
            Json::Str(s) => Json::Str(s.clone()),
            Json::Array(items) => {
                let mut out: Vec<Json> = Vec::new();
                let mut i: usize = 0;
                while i < items.len()
                    invariant
                        *self == Json::Array(*items),
                        i <= items@.len(),
                        out@.len() == i,
                        forall|j: int| 0 <= j < i ==> out@[j]@ == items@[j]@,
                    decreases items@.len() - i,
                {
                    proof {
                        broadcast use vstd::std_specs::vec::axiom_vec_decreases_to_view;
                        assert(decreases_to!(*self => self->Array_0));
                        assert(decreases_to!(*items => items@));
                        assert(decreases_to!(items@ => items@[i as int]));
                    }
                    let c = items[i].duplicate();
                    out.push(c);
                    i = i + 1;
                }
                proof {
                    lemma_items_view(items@);
                    lemma_items_view(out@);
                    assert(items_view(out@) =~= items_view(items@));
                }
                Json::Array(out)
            },
            Json::Object(entries) => {
                let mut out: Vec<(String, Json)> = Vec::new();
                let mut i: usize = 0;
                while i < entries.len()
                    invariant
                        *self == Json::Object(*entries),
                        i <= entries@.len(),
                        out@.len() == i,
                        forall|j: int| 0 <= j < i ==> out@[j].0@ == entries@[j].0@ && out@[j].1@ == entries@[j].1@,
                    decreases entries@.len() - i,
                {
                    proof {
                        broadcast use vstd::std_specs::vec::axiom_vec_decreases_to_view;
                        assert(decreases_to!(*self => self->Object_0));
                        assert(decreases_to!(*entries => entries@));
                        assert(decreases_to!(entries@ => entries@[i as int]));
                        assert(decreases_to!(entries@[i as int] => entries@[i as int].1));
                    }
                    let k = entries[i].0.clone();
                    let v = entries[i].1.duplicate();
                    out.push((k, v));
                    i = i + 1;
                }
                proof {
                    lemma_entries_view(entries@);
                    lemma_entries_view(out@);
                    assert(entries_view(out@) =~= entries_view(entries@));
                }
                Json::Object(out)
            },
        }
    }
}

proof fn lemma_entries_get_skip(entries: Seq<(Seq<char>, JsonV)>, key: Seq<char>, i: int)
    requires
        0 <= i < entries.len(),
    ensures
        entries_get(entries.skip(i), key) == if entries[i].0 == key {
            Some(entries[i].1)
        } else {
            entries_get(entries.skip(i + 1), key)
        },
{
    assert(entries.skip(i).drop_first() =~= entries.skip(i + 1));
}

/// Look a key up in a list of object entries.
pub fn entries_lookup<'a>(entries: &'a Vec<(String, Json)>, key: &str) -> (r: Option<&'a Json>)
    ensures
        r matches Some(v) ==> entries_get(entries_view(entries@), key@) == Some(v@),
        r is None ==> entries_get(entries_view(entries@), key@) is None,
{
    let ghost ev = entries_view(entries@);
    proof {
        lemma_entries_view(entries@);
    }
    let mut i: usize = 0;
    assert(ev.skip(0) =~= ev);
    while i < entries.len()
        invariant
            ev == entries_view(entries@),
            ev.len() == entries@.len(),
            forall|j: int| 0 <= j < entries@.len() ==> #[trigger] ev[j] == (entries@[j].0@, entries@[j].1@),
            i <= entries@.len(),
            entries_get(ev, key@) == entries_get(ev.skip(i as int), key@),
        decreases entries@.len() - i,
    {
        proof {
            lemma_entries_get_skip(ev, key@, i as int);
        }
        if text_eq(entries[i].0.as_str(), key) {
            return Some(&entries[i].1);
        }
        i = i + 1;
    }
    assert(ev.skip(i as int).len() == 0);
    None
}

/// A JSON string holding the given text.
pub fn json_text(t: &str) -> (r: Json)
    ensures
        r@ == JsonV::Str(t@),
{
    Json::Str(t.to_owned())
}

/// A JSON string holding the given string.
pub fn json_string(t: String) -> (r: Json)
    ensures
        r@ == JsonV::Str(t@),
{
    Json::Str(t)
}

/// A JSON integer `>= 0`.
pub fn json_u64(n: u64) -> (r: Json)
    ensures
        r@ == JsonV::Number(JsonNumber::PosInt(n)),
{
    Json::Number(JsonNumber::PosInt(n))
}

/// A JSON boolean.
pub fn json_bool(b: bool) -> (r: Json)
    ensures
        r@ == JsonV::Bool(b),
{
    Json::Bool(b)
}

/// A JSON array of the given elements.
pub fn json_array(items: Vec<Json>) -> (r: Json)
    ensures
        r@ == JsonV::Array(items_view(items@)),
{
    Json::Array(items)
}

/// A JSON object of the given entries.
pub fn json_object(entries: Vec<(String, Json)>) -> (r: Json)
    ensures
        r@ == JsonV::Object(entries_view(entries@)),
{
    Json::Object(entries)
}

/// Append an entry to a list of object entries.
pub fn entry_push(entries: &mut Vec<(String, Json)>, key: &str, value: Json)
    ensures
        entries_view(final(entries)@) == entries_view(old(entries)@).push((key@, value@)),
        final(entries)@.len() == old(entries)@.len() + 1,
{
    let ghost before = entries@;
    entries.push((key.to_owned(), value));
    assert(entries@.drop_last() =~= before);
}

/// Append an element to a list of JSON values.
pub fn item_push(items: &mut Vec<Json>, value: Json)
    ensures
        items_view(final(items)@) == items_view(old(items)@).push(value@),
        final(items)@.len() == old(items)@.len() + 1,
{
    let ghost before = items@;
    items.push(value);
    assert(items@.drop_last() =~= before);
}

/// `s` cut at every `c` (as `str::split` with a character pattern).
pub open spec fn split_on(s: Seq<char>, c: char) -> Seq<Seq<char>>
    decreases s.len(),
{
    if s.len() == 0 {
        seq![Seq::empty()]
    } else {
        let rest = split_on(s.drop_last(), c);
        if s.last() == c {
            rest.push(Seq::empty())
        } else {
            rest.update(rest.len() - 1, rest.last().push(s.last()))
        }
    }
}

/// Replace every non-overlapping `ab`, left to right, by `r` (as `str::replace`
/// with a two-character pattern and a one-character replacement).
pub open spec fn replace_pair(s: Seq<char>, a: char, b: char, r: char) -> Seq<char>
    decreases s.len(),
{
    if s.len() < 2 {
        s
    } else if s[0] == a && s[1] == b {
        seq![r] + replace_pair(s.skip(2), a, b, r)
    } else {
        seq![s[0]] + replace_pair(s.drop_first(), a, b, r)
    }
}

/// A JSON-pointer reference token with its escapes undone: `~1` is `/`,
/// then `~0` is `~`.
pub open spec fn unescape_token(t: Seq<char>) -> Seq<char> {
    replace_pair(replace_pair(t, '~', '1', '/'), '~', '0', '~')
}

/// The array index a reference token names: decimal digits, no sign, no
/// leading zero.
pub open spec fn token_index(t: Seq<char>) -> Option<u64> {
    if t.len() > 0 && (t[0] == '+' || (t[0] == '0' && t.len() != 1)) {
        None
    } else {
        match parse_u64_spec(t) {
            Some(n) => if n <= usize::MAX {
                Some(n)
            } else {
                None
            },
            None => None,
        }
    }
}

/// One step of a JSON pointer: an object's member or an array's element.
pub open spec fn pointer_step(v: JsonV, t: Seq<char>) -> Option<JsonV> {
    match v {
        JsonV::Object(_) => v.get(t),
        JsonV::Array(items) => match token_index(t) {
            Some(i) => if i < items.len() {
                Some(items[i as int])
            } else {
                None
            },
            None => None,
        },
        _ => None,
    }
}

/// Follow the reference tokens one after the other.
pub open spec fn pointer_walk(v: JsonV, tokens: Seq<Seq<char>>) -> Option<JsonV>
    decreases tokens.len(),
{
    if tokens.len() == 0 {
        Some(v)
    } else {
        match pointer_walk(v, tokens.drop_last()) {
            Some(w) => pointer_step(w, unescape_token(tokens.last())),
            None => None,
        }
    }
}

/// The value a JSON pointer (RFC 6901) names in `v`: the empty pointer names
/// `v`; any other pointer must start with `/`.
pub open spec fn pointer_spec(v: JsonV, p: Seq<char>) -> Option<JsonV> {
    if p.len() == 0 {
        Some(v)
    } else if p[0] != '/' {
        None
    } else {
        pointer_walk(v, split_on(p, '/').drop_first())
    }
}

/// An object answers a key with the value of its first entry under that
/// key.
pub proof fn lemma_get_listed(es: Seq<(Seq<char>, JsonV)>, i: int)
    requires
        0 <= i < es.len(),
        forall|j: int| 0 <= j < i ==> (#[trigger] es[j]).0 != es[i].0,
    ensures
        JsonV::Object(es).get(es[i].0) == Some(es[i].1),
    decreases i,
{
    if i > 0 {
        let rest = es.drop_first();
        assert forall|j: int| 0 <= j < i - 1 implies (#[trigger] rest[j]).0 != rest[i - 1].0 by {
            assert(rest[j] == es[j + 1]);
        }
        lemma_get_listed(rest, i - 1);
        assert(es[0].0 != es[i].0);
    }
}

/// `replace_pair` leaves a text without `a` as it is.
pub proof fn lemma_replace_pair_absent(s: Seq<char>, a: char, b: char, r: char)
    requires
        forall|i: int| 0 <= i < s.len() ==> s[i] != a,
    ensures
        replace_pair(s, a, b, r) == s,
    decreases s.len(),
{
    if s.len() >= 2 {
        lemma_replace_pair_absent(s.drop_first(), a, b, r);
        assert(seq![s[0]] + s.drop_first() =~= s);
    }
}

/// Cutting at `c` a text that ends in `c` and then a piece `k` without `c`
/// gives the pieces before, then `k`.
pub proof fn lemma_split_on_last_piece(pre: Seq<char>, c: char, k: Seq<char>)
    requires
        forall|i: int| 0 <= i < k.len() ==> k[i] != c,
    ensures
        split_on(pre + seq![c] + k, c) == split_on(pre, c).push(k),
    decreases k.len(),
{
    let s = pre + seq![c] + k;
    if k.len() == 0 {
        assert(s.drop_last() =~= pre);
        assert(s.last() == c);
        assert(k =~= Seq::<char>::empty());
        assert(split_on(s, c) =~= split_on(pre, c).push(k));
    } else {
        lemma_split_on_last_piece(pre, c, k.drop_last());
        assert(s.drop_last() =~= pre + seq![c] + k.drop_last());
        assert(s.last() == k.last());
        let rest = split_on(pre, c).push(k.drop_last());
        assert(rest.last() == k.drop_last());
        assert(k.drop_last().push(k.last()) =~= k);
        assert(split_on(s, c) =~= split_on(pre, c).push(k));
    }
}

/// Whether a text can stand in a JSON pointer as it is: no `/`, no `~`.
pub open spec fn plain_token(k: Seq<char>) -> bool {
    forall|i: int| 0 <= i < k.len() ==> k[i] != '/' && k[i] != '~'
}

/// The pointer `/k` names the member `k` of an object.
pub proof fn lemma_pointer_member(v: JsonV, k: Seq<char>)
    requires
        v is Object,
        plain_token(k),
    ensures
        pointer_spec(v, seq!['/'] + k) == v.get(k),
{
    lemma_split_on_last_piece(Seq::empty(), '/', k);
    assert(Seq::<char>::empty() + seq!['/'] + k =~= seq!['/'] + k);
    lemma_replace_pair_absent(k, '~', '1', '/');
    lemma_replace_pair_absent(k, '~', '0', '~');
    let p = seq!['/'] + k;
    assert(p[0] == '/');
    let toks = split_on(p, '/').drop_first();
    assert(toks =~= seq![k]);
    assert(toks.drop_last() =~= Seq::<Seq<char>>::empty());
    assert(pointer_walk(v, toks.drop_last()) == Some(v));
    assert(unescape_token(toks.last()) == k);
    assert(pointer_walk(v, toks) == pointer_step(v, k));
}

/// The pointer `/k1/k2` names the member `k2` of the object that is the
/// member `k1` of an object.
pub proof fn lemma_pointer_member2(v: JsonV, k1: Seq<char>, k2: Seq<char>)
    requires
        v is Object,
        v.get(k1) matches Some(w) && w is Object,
        plain_token(k1),
        plain_token(k2),
    ensures
        pointer_spec(v, seq!['/'] + k1 + seq!['/'] + k2) == v.get(k1)->0.get(k2),
{
    lemma_split_on_last_piece(Seq::empty(), '/', k1);
    assert(Seq::<char>::empty() + seq!['/'] + k1 =~= seq!['/'] + k1);
    lemma_split_on_last_piece(seq!['/'] + k1, '/', k2);
    lemma_replace_pair_absent(k1, '~', '1', '/');
    lemma_replace_pair_absent(k1, '~', '0', '~');
    lemma_replace_pair_absent(k2, '~', '1', '/');
    lemma_replace_pair_absent(k2, '~', '0', '~');
    let p = seq!['/'] + k1 + seq!['/'] + k2;
    assert(p[0] == '/');
    let toks = split_on(p, '/').drop_first();
    assert(toks =~= seq![k1, k2]);
    assert(toks.drop_last() =~= seq![k1]);
    assert(toks.drop_last().drop_last() =~= Seq::<Seq<char>>::empty());
    assert(pointer_walk(v, toks.drop_last().drop_last()) == Some(v));
    assert(unescape_token(k1) == k1);
    assert(unescape_token(k2) == k2);
    assert(pointer_walk(v, toks.drop_last()) == pointer_step(v, k1));
    assert(pointer_walk(v, toks) == pointer_step(v.get(k1)->0, k2));
}

proof fn lemma_split_on_nonempty(s: Seq<char>, c: char)
    ensures
        split_on(s, c).len() >= 1,
    decreases s.len(),
{
    if s.len() > 0 {
        lemma_split_on_nonempty(s.drop_last(), c);
    }
}

/// Cut a text at every `c`.
pub(crate) fn split_text(s: &str, c: char) -> (r: Vec<String>)
    ensures
        r@.len() >= 1,
        r@.map_values(|t: String| t@) == split_on(s@, c),
{
    let n = s.unicode_len();
    let mut parts: Vec<String> = Vec::new();
    let mut cur = String::new();
    let mut i: usize = 0;
    while i < n
        invariant
            n == s@.len(),
            i <= n,
            parts@.map_values(|t: String| t@).push(cur@) == split_on(s@.subrange(0, i as int), c),
        decreases n - i,
    {
        let ch = s.get_char(i);
        let ghost before = parts@.map_values(|t: String| t@).push(cur@);
        proof {
            lemma_split_on_nonempty(s@.subrange(0, i as int), c);
        }
        assert(s@.subrange(0, i + 1).drop_last() =~= s@.subrange(0, i as int));
        if ch == c {
            let done = cur;
            let ghost pv = parts@;
            parts.push(done);
            cur = String::new();
            assert(parts@.map_values(|t: String| t@) =~= pv.map_values(|t: String| t@).push(done@));
            assert(parts@.map_values(|t: String| t@).push(cur@) =~= before.push(Seq::empty()));
        } else {
            push_char(&mut cur, ch);
            assert(parts@.map_values(|t: String| t@).push(cur@) =~= before.update(
                before.len() - 1,
                before.last().push(ch),
            ));
        }
        i = i + 1;
    }
    assert(s@.subrange(0, n as int) =~= s@);
    let ghost pv = parts@;
    parts.push(cur);
    assert(parts@.map_values(|t: String| t@) =~= pv.map_values(|t: String| t@).push(cur@));
    parts
}

/// Replace every non-overlapping `ab` by `r`.
fn replace_pair_text(s: &str, a: char, b: char, r: char) -> (out: String)
    ensures
        out@ == replace_pair(s@, a, b, r),
{
    let n = s.unicode_len();
    let mut out = String::new();
    let mut i: usize = 0;
    assert(s@.skip(0) =~= s@);
    assert(out@ + replace_pair(s@.skip(0), a, b, r) =~= replace_pair(s@, a, b, r));
    while i < n
        invariant
            n == s@.len(),
            i <= n,
            out@ + replace_pair(s@.skip(i as int), a, b, r) == replace_pair(s@, a, b, r),
        decreases n - i,
    {
        let ghost rest = s@.skip(i as int);
        if i + 1 < n && s.get_char(i) == a && s.get_char(i + 1) == b {
            assert(rest.skip(2) =~= s@.skip(i + 2));
            push_char(&mut out, r);
            i = i + 2;
        } else {
            assert(rest.drop_first() =~= s@.skip(i + 1));
            let ch = s.get_char(i);
            push_char(&mut out, ch);
            i = i + 1;
        }
    }
    assert(s@.skip(i as int).len() == 0);
    out
}

/// Undo the escapes of a reference token.
fn unescape(t: &str) -> (r: String)
    ensures
        r@ == unescape_token(t@),
{
    let step = replace_pair_text(t, '~', '1', '/');
    replace_pair_text(step.as_str(), '~', '0', '~')
}

/// The array index a reference token names.
fn parse_token_index(t: &str) -> (r: Option<usize>)
    ensures
        r matches Some(i) ==> token_index(t@) == Some(i as u64),
        r is None ==> token_index(t@) is None,
{
    let n = t.unicode_len();
    if n > 0 && (t.get_char(0) == '+' || (t.get_char(0) == '0' && n != 1)) {
        return None;
    }
    match parse_u64(t) {
        Some(v) => if v <= usize::MAX as u64 {
            Some(v as usize)
        } else {
            None
        },
        None => None,
    }
}

impl Json {
    /// One step of a JSON pointer.
    fn step<'a>(&'a self, t: &str) -> (r: Option<&'a Json>)
        ensures
            r matches Some(v) ==> pointer_step(self@, t@) == Some(v@),
            r is None ==> pointer_step(self@, t@) is None,
    {
        match self {
            Json::Object(_) => self.get(t),
            Json::Array(items) => {
                proof {
                    lemma_items_view(items@);
                }
                match parse_token_index(t) {
                    Some(i) => if i < items.len() {
                        Some(&items[i])
                    } else {
                        None
                    },
                    None => None,
                }
            },
            _ => None,
        }
    }

    /// The value a JSON pointer names (`Value::pointer`).
    pub fn pointer<'a>(&'a self, p: &str) -> (r: Option<&'a Json>)
        ensures
            r matches Some(v) ==> pointer_spec(self@, p@) == Some(v@),
            r is None ==> pointer_spec(self@, p@) is None,
    {
        let n = p.unicode_len();
        if n == 0 {
            return Some(self);
        }
        if p.get_char(0) != '/' {
            return None;
        }
        let parts = split_text(p, '/');
        let ghost tokens = split_on(p@, '/').drop_first();
        let mut cur: &Json = self;
        let mut i: usize = 1;
        assert(tokens.take(0).len() == 0);
        while i < parts.len()
            invariant
                1 <= i <= parts@.len(),
                parts@.map_values(|t: String| t@) == split_on(p@, '/'),
                tokens == split_on(p@, '/').drop_first(),
                pointer_walk(self@, tokens.take(i - 1)) == Some(cur@),
            decreases parts@.len() - i,
        {
            let tok = unescape(parts[i].as_str());
            assert(tokens.take(i as int).drop_last() =~= tokens.take(i - 1));
            assert(tokens.take(i as int).last() == parts@[i as int]@);
            match cur.step(tok.as_str()) {
                Some(next) => {
                    cur = next;
                },
                None => {
                    assert(pointer_walk(self@, tokens.take(i as int)) is None);
                    proof {
                        lemma_walk_none_extends(self@, tokens, i as int);
                    }
                    assert(tokens.take(tokens.len() as int) =~= tokens);
                    return None;
                },
            }
            i = i + 1;
        }
        assert(tokens.take(i - 1) =~= tokens);
        Some(cur)
    }
}

proof fn lemma_walk_none_extends(v: JsonV, tokens: Seq<Seq<char>>, i: int)
    requires
        0 <= i <= tokens.len(),
        pointer_walk(v, tokens.take(i)) is None,
    ensures
        pointer_walk(v, tokens.take(tokens.len() as int)) is None,
    decreases tokens.len() - i,
{
    if i < tokens.len() {
        assert(tokens.take(i + 1).drop_last() =~= tokens.take(i));
        lemma_walk_none_extends(v, tokens, i + 1);
    }
}

/// The value of an optional borrowed document.
pub open spec fn view_opt(o: Option<&Json>) -> Option<JsonV> {
    match o {
        Some(v) => Some(v@),
        None => None,
    }
}

/// The text of an optional borrowed text.
pub open spec fn text_opt(o: Option<&str>) -> Option<Seq<char>> {
    match o {
        Some(t) => Some(t@),
        None => None,
    }
}

/// The text of a string value, or the empty text.
pub open spec fn str_or_empty(o: Option<JsonV>) -> Seq<char> {
    match opt_str(o) {
        Some(t) => t,
        None => Seq::empty(),
    }
}

/// The elements of an array value, or none.
pub open spec fn array_or_empty(o: Option<JsonV>) -> Seq<JsonV> {
    match opt_array(o) {
        Some(a) => a,
        None => Seq::empty(),
    }
}

/// `o.and_then(|v| v.get(key))`.
pub fn get_in<'a>(o: Option<&'a Json>, key: &str) -> (r: Option<&'a Json>)
    ensures
        view_opt(r) == opt_get(view_opt(o), key@),
{
    match o {
        Some(v) => v.get(key),
        None => None,
    }
}

/// `o.and_then(|v| v.pointer(p))`.
pub fn pointer_in<'a>(o: Option<&'a Json>, p: &str) -> (r: Option<&'a Json>)
    ensures
        view_opt(r) == match view_opt(o) {
            Some(v) => pointer_spec(v, p@),
            None => None,
        },
{
    match o {
        Some(v) => v.pointer(p),
        None => None,
    }
}

/// `o.and_then(Value::as_str)`.
pub fn str_in<'a>(o: Option<&'a Json>) -> (r: Option<&'a str>)
    ensures
        text_opt(r) == opt_str(view_opt(o)),
{
    match o {
        Some(v) => v.as_str(),
        None => None,
    }
}

/// `o.and_then(Value::as_u64)`.
pub fn u64_in(o: Option<&Json>) -> (r: Option<u64>)
    ensures
        r == opt_u64(view_opt(o)),
{
    match o {
        Some(v) => v.as_u64(),
        None => None,
    }
}

/// `o.and_then(Value::as_i64)`.
pub fn i64_in(o: Option<&Json>) -> (r: Option<i64>)
    ensures
        r == opt_i64(view_opt(o)),
{
    match o {
        Some(v) => v.as_i64(),
        None => None,
    }
}

/// `o.and_then(Value::as_bool)`.
pub fn bool_in(o: Option<&Json>) -> (r: Option<bool>)
    ensures
        r == opt_bool(view_opt(o)),
{
    match o {
        Some(v) => v.as_bool(),
        None => None,
    }
}

/// `o.and_then(Value::as_array)`: the elements, with their values.
pub fn array_in<'a>(o: Option<&'a Json>) -> (r: Option<&'a Vec<Json>>)
    ensures
        r matches Some(a) ==> opt_array(view_opt(o)) == Some(items_view(a@)) && items_view(a@).len() == a@.len()
            && forall|i: int| 0 <= i < a@.len() ==> #[trigger] items_view(a@)[i] == a@[i]@,
        r is None ==> opt_array(view_opt(o)) is None,
{
    match o {
        Some(v) => v.as_array(),
        None => None,
    }
}

/// The text of a string value, or an empty string.
pub fn text_or_empty(o: Option<&Json>) -> (r: String)
    ensures
        r@ == str_or_empty(view_opt(o)),
{
    match str_in(o) {
        Some(t) => t.to_owned(),
        None => String::new(),
    }
}

/// The values of a list of documents are as many as the documents.
pub proof fn lemma_items_view_len(items: Seq<Json>)
    ensures
        items_view(items).len() == items.len(),
        forall|i: int| 0 <= i < items.len() ==> #[trigger] items_view(items)[i] == json_view(items[i]),
{
    lemma_items_view(items);
}

/// The entries of an object are as many as its viewed entries.
pub proof fn lemma_entries_view_len(entries: Seq<(String, Json)>)
    ensures
        entries_view(entries).len() == entries.len(),
        forall|i: int| 0 <= i < entries.len() ==> #[trigger] entries_view(entries)[i] == (entries[i].0@, json_view(entries[i].1)),
{
    lemma_entries_view(entries);
}

/// The index of the first entry with key `k`, or -1.
pub open spec fn key_index(es: Seq<(Seq<char>, JsonV)>, k: Seq<char>) -> int
    decreases es.len(),
{
    if es.len() == 0 {
        -1
    } else if es[0].0 == k {
        0
    } else {
        let r = key_index(es.drop_first(), k);
        if r < 0 {
            -1
        } else {
            r + 1
        }
    }
}

/// The entries after `insert(k, v)` on a map: the value of the entry with key
/// `k` replaced, or a new entry at the end.
pub open spec fn entries_insert(es: Seq<(Seq<char>, JsonV)>, k: Seq<char>, v: JsonV) -> Seq<
    (Seq<char>, JsonV),
> {
    let i = key_index(es, k);
    if i >= 0 {
        es.update(i, (k, v))
    } else {
        es.push((k, v))
    }
}

pub proof fn lemma_key_index(es: Seq<(Seq<char>, JsonV)>, k: Seq<char>)
    ensures
        -1 <= key_index(es, k) < es.len(),
        key_index(es, k) >= 0 ==> es[key_index(es, k)].0 == k,
        forall|j: int| 0 <= j < es.len() && (key_index(es, k) < 0 || j < key_index(es, k)) ==> #[trigger] es[j].0 != k,
    decreases es.len(),
{
    if es.len() > 0 && es[0].0 != k {
        lemma_key_index(es.drop_first(), k);
        assert forall|j: int| 0 <= j < es.len() && (key_index(es, k) < 0 || j < key_index(es, k)) implies #[trigger] es[j].0 != k by {
            if j > 0 {
                assert(es[j] == es.drop_first()[j - 1]);
            }
        }
    }
}

/// Looking a key up finds the entry at its first index.
pub proof fn lemma_get_at_key_index(es: Seq<(Seq<char>, JsonV)>, k: Seq<char>)
    ensures
        entries_get(es, k) == if key_index(es, k) >= 0 {
            Some(es[key_index(es, k)].1)
        } else {
            None
        },
    decreases es.len(),
{
    if es.len() > 0 && es[0].0 != k {
        lemma_get_at_key_index(es.drop_first(), k);
        lemma_key_index(es.drop_first(), k);
    }
}

/// After `insert(k, v)`, `k` holds `v` and every other key what it held.
pub proof fn lemma_get_after_insert(es: Seq<(Seq<char>, JsonV)>, k: Seq<char>, v: JsonV, k2: Seq<char>)
    ensures
        entries_get(entries_insert(es, k, v), k2) == if k2 == k {
            Some(v)
        } else {
            entries_get(es, k2)
        },
{
    let r = entries_insert(es, k, v);
    lemma_key_index(es, k);
    lemma_key_index(es, k2);
    lemma_key_index(r, k2);
    lemma_get_at_key_index(es, k2);
    lemma_get_at_key_index(r, k2);
    let i = key_index(es, k);
    let j = key_index(es, k2);
    let jr = key_index(r, k2);
    assert(r.len() == if i >= 0 { es.len() as int } else { es.len() + 1int });
    assert(forall|m: int| 0 <= m < es.len() && m != i ==> #[trigger] r[m] == es[m]);
    let at = if i >= 0 { i } else { es.len() as int };
    assert(r[at] == (k, v));
    if k2 == k {
        assert(jr >= 0) by {
            if jr < 0 {
                assert(r[at].0 != k2);
            }
        }
        assert(jr == at) by {
            if jr < at {
                assert(r[jr] == es[jr]);
            }
            if jr > at {
                assert(r[at].0 != k2);
            }
        }
    } else {
        if j >= 0 {
            assert(j != i);
            assert(r[j] == es[j]);
            assert(jr == j) by {
                if jr < 0 {
                    assert(r[j].0 != k2);
                } else if jr < j {
                    if jr != at {
                        assert(r[jr] == es[jr]);
                    }
                } else if jr > j {
                    assert(r[j].0 != k2);
                }
            }
        } else {
            assert(jr < 0) by {
                if jr >= 0 {
                    if jr != at {
                        assert(r[jr] == es[jr]);
                    }
                }
            }
        }
    }
}

/// Set the value under `key` (`Map::insert`).
pub fn entry_set(entries: &mut Vec<(String, Json)>, key: &str, value: Json)
    ensures
        entries_view(final(entries)@) == entries_insert(entries_view(old(entries)@), key@, value@),
{
    let ghost ev = entries_view(entries@);
    proof {
        lemma_entries_view(entries@);
        lemma_key_index(ev, key@);
    }
    let mut i: usize = 0;
    while i < entries.len()
        invariant
            i <= entries@.len(),
            entries@ == old(entries)@,
            ev == entries_view(old(entries)@),
            ev == entries_view(entries@),
            ev.len() == entries@.len(),
            forall|j: int| 0 <= j < entries@.len() ==> #[trigger] ev[j] == (entries@[j].0@, entries@[j].1@),
            forall|j: int| 0 <= j < i ==> #[trigger] ev[j].0 != key@,
            -1 <= key_index(ev, key@) < ev.len(),
            key_index(ev, key@) >= 0 ==> ev[key_index(ev, key@)].0 == key@,
            forall|j: int| 0 <= j < ev.len() && (key_index(ev, key@) < 0 || j < key_index(ev, key@)) ==> #[trigger] ev[j].0 != key@,
        decreases entries@.len() - i,
    {
        if text_eq(entries[i].0.as_str(), key) {
            assert(ev[i as int].0 == key@);
            assert(key_index(ev, key@) == i);
            let ghost before = entries@;
            entries.set(i, (key.to_owned(), value));
            proof {
                lemma_entries_view(entries@);
            }
            assert(entries_view(entries@) =~= ev.update(i as int, (key@, value@)));
            return;
        }
        i = i + 1;
    }
    assert(key_index(ev, key@) == -1);
    entry_push(entries, key, value);
}

} // verus!
