//! A JSON value tree and the pruning that JSONL records go through: members
//! whose value is `null` or an empty array are left out of every object.

use vstd::prelude::*;

verus! {

/// A JSON value. Numbers keep their textual form; object members keep their order.
#[derive(Debug)]
pub enum JsonValue {
    Null,
    Bool(bool),
    Number(String),
    Text(String),
    Array(Vec<JsonValue>),
    Object(Vec<(String, JsonValue)>),
}

/// Whether an object member holding `v` is left out: `null` or `[]`.
pub open spec fn is_dropped(v: JsonValue) -> bool {
    match v {
        JsonValue::Null => true,
        JsonValue::Array(vs) => vs@.len() == 0,
        _ => false,
    }
}

/// `new` is `old` pruned: scalars are unchanged, array elements are pruned
/// one for one, and objects keep, in order and pruned, the members whose
/// value is not `null` or `[]`.
pub open spec fn pruned_from(new: JsonValue, old: JsonValue) -> bool
    decreases old, 1nat,
{
    match old {
        JsonValue::Null => new is Null,
        JsonValue::Bool(b) => new == JsonValue::Bool(b),
        JsonValue::Number(s) => new matches JsonValue::Number(t) && t@ == s@,
        JsonValue::Text(s) => new matches JsonValue::Text(t) && t@ == s@,
        JsonValue::Array(vs) => new matches JsonValue::Array(ws) && elements_pruned_from(ws@, vs@),
        JsonValue::Object(es) => new matches JsonValue::Object(fs) && members_pruned_from(fs@, es@),
    }
}

/// The elements `ws` are the elements `vs` pruned one for one.
pub open spec fn elements_pruned_from(ws: Seq<JsonValue>, vs: Seq<JsonValue>) -> bool
    decreases vs, 0nat,
{
    if vs.len() == 0 {
        ws.len() == 0
    } else {
        ws.len() == vs.len() && elements_pruned_from(ws.drop_last(), vs.drop_last())
            && pruned_from(ws.last(), vs.last())
    }
}

/// The members `fs` are the members of `es` that are not `null` or `[]`,
/// in order, each under its own key with its value pruned.
pub open spec fn members_pruned_from(fs: Seq<(String, JsonValue)>, es: Seq<(String, JsonValue)>) -> bool
    decreases es, 0nat,
{
    if es.len() == 0 {
        fs.len() == 0
    } else if is_dropped(es.last().1) {
        members_pruned_from(fs, es.drop_last())
    } else {
        &&& fs.len() > 0
        &&& fs.last().0@ == es.last().0@
        &&& pruned_from(fs.last().1, es.last().1)
        &&& members_pruned_from(fs.drop_last(), es.drop_last())
    }
}

/// No object anywhere in `v` holds a member whose value is `null` or `[]`.
pub open spec fn no_dropped_members(v: JsonValue) -> bool
    decreases v, 1nat,
{
    match v {
        JsonValue::Array(ws) => elements_clean(ws@),
        JsonValue::Object(fs) => members_clean(fs@),
        _ => true,
    }
}

/// Every element is free of `null` and `[]` members.
pub open spec fn elements_clean(ws: Seq<JsonValue>) -> bool
    decreases ws, 0nat,
{
    ws.len() == 0 || (elements_clean(ws.drop_last()) && no_dropped_members(ws.last()))
}

/// No member is `null` or `[]`, and every member's value is clean.
pub open spec fn members_clean(fs: Seq<(String, JsonValue)>) -> bool
    decreases fs, 0nat,
{
    fs.len() == 0 || (members_clean(fs.drop_last()) && !is_dropped(fs.last().1)
        && no_dropped_members(fs.last().1))
}

/// Prunes a JSON value: every object, at any depth, loses its members whose
/// value is `null` or an empty array; everything else is kept in order.
pub fn prune_empty_values(value: &JsonValue) -> (r: JsonValue)
    ensures
        pruned_from(r, *value),
        no_dropped_members(r),
    decreases value,
{
    match value {
        JsonValue::Null => JsonValue::Null,
        JsonValue::Bool(b) => JsonValue::Bool(*b),
        JsonValue::Number(s) => JsonValue::Number(s.clone()),
        JsonValue::Text(s) => JsonValue::Text(s.clone()),
        JsonValue::Array(vs) => {
            let mut ws: Vec<JsonValue> = Vec::new();
            let n = vs.len();
            for i in 0..n
                invariant
                    n == vs@.len(),
                    *value == JsonValue::Array(*vs),
                    elements_pruned_from(ws@, vs@.take(i as int)),
                    elements_clean(ws@),
                    ws@.len() == i,
            {
                proof {
                    assert(decreases_to!(*value => value->Array_0));
                    assert(decreases_to!(*vs => vs@));
                    assert(decreases_to!(vs@ => vs@[i as int]));
                }
                let p = prune_empty_values(&vs[i]);
                let ghost before = ws@;
                ws.push(p);
                proof {
                    let tk = vs@.take(i + 1);
                    assert(tk.drop_last() == vs@.take(i as int));
                    assert(ws@.drop_last() == before);
                    assert(elements_pruned_from(ws@, tk));
                }
            }
            assert(vs@.take(n as int) == vs@);
            JsonValue::Array(ws)
        },
        JsonValue::Object(es) => {
            let mut fs: Vec<(String, JsonValue)> = Vec::new();
            let n = es.len();
            for i in 0..n
                invariant
                    n == es@.len(),
                    *value == JsonValue::Object(*es),
                    members_pruned_from(fs@, es@.take(i as int)),
                    members_clean(fs@),
            {
                proof {
                    assert(decreases_to!(*value => value->Object_0));
                    assert(decreases_to!(*es => es@));
                    assert(decreases_to!(es@ => es@[i as int]));
                    assert(decreases_to!(es@[i as int] => es@[i as int].1));
                }
                let p = prune_empty_values(&es[i].1);
                let ghost before = fs@;
                let dropped = match &p {
                    JsonValue::Null => true,
                    JsonValue::Array(ws) => ws.len() == 0,
                    _ => false,
                };
                proof {
                    let tk = es@.take(i + 1);
                    assert(tk.drop_last() == es@.take(i as int));
                    assert(tk.last() == es@[i as int]);
                    assert(dropped == is_dropped(es@[i as int].1)) by {
                        reveal_with_fuel(elements_pruned_from, 2);
                    }
                }
                if !dropped {
                    fs.push((es[i].0.clone(), p));
                    proof {
                        assert(fs@.drop_last() == before);
                    }
                }
                proof {
                    let tk = es@.take(i + 1);
                    assert(members_pruned_from(fs@, tk));
                }
            }
            assert(es@.take(n as int) == es@);
            JsonValue::Object(fs)
        },
    }
}

} // verus!
