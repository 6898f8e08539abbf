//! How the values extracted for one configuration or data field are combined:
//! each extracted value, put under its tag where it has one, is merged into
//! an empty object.
use vstd::prelude::*;
use crate::json::{
    Json, JsonV, entries_get, entries_insert, entries_lookup, entries_view, entry_set, items_view,
    lemma_entries_view_len, lemma_get_after_insert, lemma_items_view_len,
};

verus! {

/// The value that merging `b` into `a` gives: two objects merge key by key
/// (in the order of `b`'s entries, a missing key starting from `null`), two
/// arrays are concatenated, and anything else is replaced by `b`.
pub open spec fn merged(a: JsonV, b: JsonV) -> JsonV
    decreases b,
{
    match b {
        JsonV::Object(be) => match a {
            JsonV::Object(ae) => JsonV::Object(merged_entries(ae, be)),
            _ => b,
        },
        JsonV::Array(bi) => match a {
            JsonV::Array(ai) => JsonV::Array(ai + bi),
            _ => b,
        },
        _ => b,
    }
}

/// The entries of an object after merging the entries `be` into `ae`, one
/// after the other.
pub open spec fn merged_entries(ae: Seq<(Seq<char>, JsonV)>, be: Seq<(Seq<char>, JsonV)>) -> Seq<
    (Seq<char>, JsonV),
>
    decreases be,
{
    if be.len() == 0 {
        ae
    } else {
        let acc = merged_entries(ae, be.drop_last());
        let k = be.last().0;
        let cur = match entries_get(acc, k) {
            Some(x) => x,
            None => JsonV::Null,
        };
        proof {
            assert(decreases_to!(be => be[be.len() - 1]));
            assert(decreases_to!(be[be.len() - 1] => be[be.len() - 1].1));
        }
        entries_insert(acc, k, merged(cur, be.last().1))
    }
}

/// Merge `b` into `a` (see [`merged`]).
pub fn merge_values(a: &mut Json, b: Json)
    ensures
        final(a)@ == merged(old(a)@, b@),
{
    merge_from(a, &b);
}

/// Merge a borrowed `b` into `a`.
fn merge_from(a: &mut Json, b: &Json)
    ensures
        final(a)@ == merged(old(a)@, b@),
    decreases b,
{
    let mut old_a = Json::Null;
    std::mem::swap(a, &mut old_a);
    match b {
        Json::Object(be) => match old_a {
            Json::Object(mut ae) => {
                let ghost aev = entries_view(ae@);
                let ghost bev = entries_view(be@);
                proof {
                    lemma_entries_view_len(be@);
                }
                let mut i: usize = 0;
                assert(bev.take(0) =~= Seq::<(Seq<char>, JsonV)>::empty());
                while i < be.len()
                    invariant
                        *b == Json::Object(*be),
                        i <= be@.len(),
                        bev == entries_view(be@),
                        bev.len() == be@.len(),
                        forall|j: int| 0 <= j < be@.len() ==> #[trigger] bev[j] == (be@[j].0@, be@[j].1@),
                        entries_view(ae@) == merged_entries(aev, bev.take(i as int)),
                    decreases be@.len() - i,
                {
                    let k = be[i].0.as_str();
                    let mut cur = match entries_lookup(&ae, k) {
                        Some(x) => x.duplicate(),
                        None => Json::Null,
                    };
                    proof {
                        broadcast use vstd::std_specs::vec::axiom_vec_decreases_to_view;
                        assert(decreases_to!(*b => b->Object_0));
                        assert(decreases_to!(*be => be@));
                        assert(decreases_to!(be@ => be@[i as int]));
                        assert(decreases_to!(be@[i as int] => be@[i as int].1));
                    }
                    merge_from(&mut cur, &be[i].1);
                    entry_set(&mut ae, k, cur);
                    assert(bev.take(i + 1).drop_last() =~= bev.take(i as int));
                    assert(bev.take(i + 1).last() == bev[i as int]);
                    i = i + 1;
                }
                assert(bev.take(be@.len() as int) =~= bev);
                *a = Json::Object(ae);
            },
            _ => {
                *a = b.duplicate();
            },
        },
        Json::Array(bi) => match old_a {
            Json::Array(mut ai) => {
                let ghost x = ai@;
                let c = b.duplicate();
                match c {
                    Json::Array(mut more) => {
                        let ghost m = more@;
                        proof {
                            lemma_items_view_len(m);
                            lemma_items_view_len(bi@);
                            lemma_items_view_len(x);
                        }
                        ai.append(&mut more);
                        proof {
                            lemma_items_view_len(ai@);
                            assert(items_view(m) =~= items_view(bi@));
                            assert(items_view(ai@) =~= items_view(x) + items_view(bi@));
                        }
                        *a = Json::Array(ai);
                    },
                    other => {
                        *a = other;
                    },
                }
            },
            _ => {
                *a = b.duplicate();
            },
        },
        _ => {
            *a = b.duplicate();
        },
    }
}

/// What one location gave for a field: the value, and the tag to put it
/// under, where the location has one.
pub open spec fn tagged(tag: Option<Seq<char>>, v: JsonV) -> JsonV {
    match tag {
        Some(t) => JsonV::Object(seq![(t, v)]),
        None => v,
    }
}

/// The values merged one after the other into `start`.
pub open spec fn merged_all(start: JsonV, vs: Seq<(Option<Seq<char>>, JsonV)>) -> JsonV
    decreases vs.len(),
{
    if vs.len() == 0 {
        start
    } else {
        merged(merged_all(start, vs.drop_last()), tagged(vs.last().0, vs.last().1))
    }
}

/// The views of the values extracted for a field.
pub open spec fn extracted_view(found: Seq<(Option<String>, Json)>) -> Seq<(Option<Seq<char>>, JsonV)> {
    found.map_values(
        |e: (Option<String>, Json)|
            (
                match e.0 {
                    Some(t) => Some(t@),
                    None => None,
                },
                e.1@,
            ),
    )
}

/// Combine the values the locations of a field gave, in order: none when
/// there are none, else each (under its tag) merged into an empty object.
pub fn combine_extracted(found: Vec<(Option<String>, Json)>) -> (r: Option<Json>)
    ensures
        match r {
            None => found@.len() == 0,
            Some(v) => found@.len() > 0 && v@ == merged_all(
                JsonV::Object(Seq::empty()),
                extracted_view(found@),
            ),
        },
{
    if found.len() == 0 {
        return None;
    }
    let ghost fv = extracted_view(found@);
    let start: Vec<(String, Json)> = Vec::new();
    assert(entries_view(start@) =~= Seq::<(Seq<char>, JsonV)>::empty());
    let mut response = Json::Object(start);
    assert(fv.take(0) =~= Seq::<(Option<Seq<char>>, JsonV)>::empty());
    let mut i: usize = 0;
    while i < found.len()
        invariant
            i <= found@.len(),
            fv == extracted_view(found@),
            fv.len() == found@.len(),
            response@ == merged_all(JsonV::Object(Seq::empty()), fv.take(i as int)),
        decreases found@.len() - i,
    {
        let value = found[i].1.duplicate();
        let item = match &found[i].0 {
            Some(t) => {
                let mut entries: Vec<(String, Json)> = Vec::new();
                entries.push((t.clone(), value));
                proof {
                    lemma_entries_view_len(entries@);
                }
                assert(entries_view(entries@) =~= seq![(t@, found@[i as int].1@)]);
                Json::Object(entries)
            },
            None => value,
        };
        assert(item@ == tagged(fv[i as int].0, fv[i as int].1));
        merge_values(&mut response, item);
        assert(fv.take(i + 1).drop_last() =~= fv.take(i as int));
        i = i + 1;
    }
    assert(fv.take(found@.len() as int) =~= fv);
    Some(response)
}

/// Whether no key occurs twice among the entries.
pub open spec fn distinct_keys(es: Seq<(Seq<char>, JsonV)>) -> bool {
    forall|i: int, j: int| 0 <= i < j < es.len() ==> es[i].0 != es[j].0
}

/// Merging objects key by key: when `b`'s keys are distinct, each key of `b`
/// holds its value merged into what `a` held under it (or into `null`), and
/// every other key keeps what `a` held.
pub proof fn lemma_merge_objects_by_key(
    ae: Seq<(Seq<char>, JsonV)>,
    be: Seq<(Seq<char>, JsonV)>,
    k: Seq<char>,
)
    requires
        distinct_keys(be),
    ensures
        entries_get(merged_entries(ae, be), k) == match entries_get(be, k) {
            Some(bv) => Some(
                merged(
                    match entries_get(ae, k) {
                        Some(x) => x,
                        None => JsonV::Null,
                    },
                    bv,
                ),
            ),
            None => entries_get(ae, k),
        },
    decreases be.len(),
{
    if be.len() > 0 {
        let rest = be.drop_last();
        assert(distinct_keys(rest));
        lemma_merge_objects_by_key(ae, rest, k);
        let acc = merged_entries(ae, rest);
        let lk = be.last().0;
        let cur = match entries_get(acc, lk) {
            Some(x) => x,
            None => JsonV::Null,
        };
        lemma_get_after_insert(acc, lk, merged(cur, be.last().1), k);
        lemma_get_last(be, k);
        if lk == k {
            lemma_merge_objects_by_key(ae, rest, lk);
            lemma_get_absent(rest, k);
        }
    }
}

/// Looking a key up in a list finds its entry in all but the last entry, or
/// the last one when the key is only there.
proof fn lemma_get_last(es: Seq<(Seq<char>, JsonV)>, k: Seq<char>)
    requires
        es.len() > 0,
    ensures
        entries_get(es, k) == match entries_get(es.drop_last(), k) {
            Some(v) => Some(v),
            None => if es.last().0 == k {
                Some(es.last().1)
            } else {
                None
            },
        },
    decreases es.len(),
{
    if es.len() == 1 {
        assert(es.drop_last().len() == 0);
        assert(es.drop_first().len() == 0);
    } else {
        assert(es.drop_last()[0] == es[0]);
        if es[0].0 != k {
            lemma_get_last(es.drop_first(), k);
            assert(es.drop_first().drop_last() =~= es.drop_last().drop_first());
            assert(es.drop_first().last() == es.last());
        }
    }
}

/// A key that no entry carries is not found.
proof fn lemma_get_absent(es: Seq<(Seq<char>, JsonV)>, k: Seq<char>)
    requires
        forall|i: int| 0 <= i < es.len() ==> #[trigger] es[i].0 != k,
    ensures
        entries_get(es, k) is None,
    decreases es.len(),
{
    if es.len() > 0 {
        lemma_get_absent(es.drop_first(), k);
    }
}

/// Merging arrays appends, and merging anything that is neither an object
/// nor an array replaces.
pub proof fn lemma_merge_arrays_and_scalars(a: JsonV, b: JsonV)
    ensures
        (a is Array && b is Array) ==> merged(a, b) == JsonV::Array(a->Array_0 + b->Array_0),
        (b !is Array && b !is Object) ==> merged(a, b) == b,
        (b is Object && a !is Object) ==> merged(a, b) == b,
        (b is Array && a !is Array) ==> merged(a, b) == b,
{
}

} // verus!
