//! JSON values carried in proposal payloads and runtime state.
use crate::canon::{join, json_bool, json_member, json_nat, json_null, json_object, json_text, push_bool, push_nat, push_null, push_text};
use crate::collections::TextMap;
use crate::order::text_lt;
use vstd::prelude::*;

verus! {

/// A JSON value with integral numbers. Object members are kept in byte order
/// of their keys, with no key twice (see `JsonValue::is_canonical`).
#[derive(Debug, PartialEq)]
pub enum JsonValue {
    Null,
    Bool(bool),
    /// A non-negative integer.
    PosInt(u64),
    /// A negative integer (any `i64` is encoded as signed decimal).
    NegInt(i64),
    Text(String),
    Array(Vec<JsonValue>),
    Object(Vec<(String, JsonValue)>),
}

/// The mathematical JSON value: integers are unbounded, sequences are values.
pub enum JsonModel {
    Null,
    Bool(bool),
    Int(int),
    Text(Seq<char>),
    Array(Seq<JsonModel>),
    Object(Seq<(Seq<char>, JsonModel)>),
}

impl View for JsonValue {
    type V = JsonModel;

    open spec fn view(&self) -> JsonModel {
        model(*self)
    }
}

pub open spec fn model(v: JsonValue) -> JsonModel
    decreases v, 0int,
{
    match v {
        JsonValue::Null => JsonModel::Null,
        JsonValue::Bool(b) => JsonModel::Bool(b),
        JsonValue::PosInt(n) => JsonModel::Int(n as int),
        JsonValue::NegInt(n) => JsonModel::Int(n as int),
        JsonValue::Text(s) => JsonModel::Text(s@),
        JsonValue::Array(items) => JsonModel::Array(item_models(items@, items@.len() as int)),
        JsonValue::Object(members) => JsonModel::Object(
            member_models(members@, members@.len() as int),
        ),
    }
}

/// Models of the first `n` items.
pub open spec fn item_models(items: Seq<JsonValue>, n: int) -> Seq<JsonModel>
    decreases items, n,
{
    if n <= 0 || n > items.len() {
        Seq::empty()
    } else {
        item_models(items, n - 1).push(model(items[n - 1]))
    }
}

/// Models of the first `n` members.
pub open spec fn member_models(members: Seq<(String, JsonValue)>, n: int) -> Seq<
    (Seq<char>, JsonModel),
>
    decreases members, n,
{
    if n <= 0 || n > members.len() {
        Seq::empty()
    } else {
        member_models(members, n - 1).push((members[n - 1].0@, model(members[n - 1].1)))
    }
}

/// The decimal form of an integer.
pub open spec fn json_int(n: int) -> Seq<u8> {
    if n < 0 {
        seq![0x2du8] + json_nat((-n) as nat)
    } else {
        json_nat(n as nat)
    }
}

/// The canonical compact JSON encoding of a value.
pub open spec fn value_bytes(v: JsonModel) -> Seq<u8>
    decreases v, 0int,
{
    match v {
        JsonModel::Null => json_null(),
        JsonModel::Bool(b) => json_bool(b),
        JsonModel::Int(n) => json_int(n),
        JsonModel::Text(s) => json_text(s),
        JsonModel::Array(items) => seq![0x5bu8] + items_bytes(items, items.len() as int) + seq![
            0x5du8,
        ],
        JsonModel::Object(members) => seq![0x7bu8] + members_bytes(members, members.len() as int)
            + seq![0x7du8],
    }
}

/// The first `n` items, comma separated.
pub open spec fn items_bytes(items: Seq<JsonModel>, n: int) -> Seq<u8>
    decreases items, n,
{
    if n <= 0 || n > items.len() {
        Seq::empty()
    } else if n == 1 {
        value_bytes(items[0])
    } else {
        items_bytes(items, n - 1) + seq![0x2cu8] + value_bytes(items[n - 1])
    }
}

/// The first `n` members, comma separated.
pub open spec fn members_bytes(members: Seq<(Seq<char>, JsonModel)>, n: int) -> Seq<u8>
    decreases members, n,
{
    if n <= 0 || n > members.len() {
        Seq::empty()
    } else if n == 1 {
        json_text(members[0].0) + seq![0x3au8] + value_bytes(members[0].1)
    } else {
        members_bytes(members, n - 1) + seq![0x2cu8] + json_text(members[n - 1].0) + seq![0x3au8]
            + value_bytes(members[n - 1].1)
    }
}

pub proof fn lemma_item_models(items: Seq<JsonValue>, n: int)
    requires
        0 <= n <= items.len(),
    ensures
        item_models(items, n).len() == n,
        forall|i: int| 0 <= i < n ==> item_models(items, n)[i] == model(#[trigger] items[i]),
    decreases n,
{
    if n > 0 {
        lemma_item_models(items, n - 1);
    }
}

pub proof fn lemma_member_models(members: Seq<(String, JsonValue)>, n: int)
    requires
        0 <= n <= members.len(),
    ensures
        member_models(members, n).len() == n,
        forall|i: int|
            0 <= i < n ==> member_models(members, n)[i] == (
                #[trigger] members[i].0@,
                model(members[i].1),
            ),
    decreases n,
{
    if n > 0 {
        lemma_member_models(members, n - 1);
    }
}

/// Appends the canonical encoding of a JSON value.
pub fn push_value(out: &mut Vec<u8>, v: &JsonValue)
    ensures
        final(out)@ == old(out)@ + value_bytes(v@),
    decreases v,
{
    let ghost start = out@;
    match v {
        JsonValue::Null => push_null(out),
        JsonValue::Bool(b) => push_bool(out, *b),
        JsonValue::PosInt(n) => push_nat(out, *n),
        JsonValue::NegInt(n) => {
            if *n < 0 {
                out.push(0x2d);
                let magnitude: u64 = if *n == i64::MIN {
                    9223372036854775808u64
                } else {
                    (-*n) as u64
                };
                assert(magnitude as int == -(*n as int));
                push_nat(out, magnitude);
            } else {
                push_nat(out, *n as u64);
            }
            proof {
                assert(out@ =~= start + value_bytes(v@));
            }
        },
        JsonValue::Text(s) => push_text(out, s.as_str()),
        JsonValue::Array(items) => {
            out.push(0x5b);
            push_items(out, items);
            out.push(0x5d);
            proof {
                lemma_item_models(items@, items@.len() as int);
                assert(out@ =~= start + value_bytes(v@));
            }
        },
        JsonValue::Object(members) => {
            out.push(0x7b);
            push_members(out, members);
            out.push(0x7d);
            proof {
                lemma_member_models(members@, members@.len() as int);
                assert(out@ =~= start + value_bytes(v@));
            }
        },
    }
}

fn push_items(out: &mut Vec<u8>, items: &Vec<JsonValue>)
    ensures
        final(out)@ == old(out)@ + items_bytes(
            item_models(items@, items@.len() as int),
            items@.len() as int,
        ),
    decreases items,
{
    let ghost start = out@;
    let ghost m = item_models(items@, items@.len() as int);
    proof {
        lemma_item_models(items@, items@.len() as int);
    }
    let n = items.len();
    for i in 0..n
        invariant
            n == items@.len(),
            m == item_models(items@, items@.len() as int),
            m.len() == n,
            forall|k: int| 0 <= k < n ==> m[k] == model(#[trigger] items@[k]),
            out@ == start + items_bytes(m, i as int),
    {
        if i > 0 {
            out.push(0x2c);
        }
        proof {
            assert(decreases_to!(*items => items@));
            assert(decreases_to!(items@ => items@[i as int]));
        }
        push_value(out, &items[i]);
        proof {
            assert(m[i as int] == model(items@[i as int]));
            assert(out@ =~= start + items_bytes(m, i + 1));
        }
    }
}

fn push_members(out: &mut Vec<u8>, members: &Vec<(String, JsonValue)>)
    ensures
        final(out)@ == old(out)@ + members_bytes(
            member_models(members@, members@.len() as int),
            members@.len() as int,
        ),
    decreases members,
{
    let ghost start = out@;
    let ghost m = member_models(members@, members@.len() as int);
    proof {
        lemma_member_models(members@, members@.len() as int);
    }
    let n = members.len();
    for i in 0..n
        invariant
            n == members@.len(),
            m == member_models(members@, members@.len() as int),
            m.len() == n,
            forall|k: int|
                0 <= k < n ==> m[k] == (#[trigger] members@[k].0@, model(members@[k].1)),
            out@ == start + members_bytes(m, i as int),
    {
        if i > 0 {
            out.push(0x2c);
        }
        push_text(out, members[i].0.as_str());
        out.push(0x3a);
        proof {
            assert(decreases_to!(*members => members@));
            assert(decreases_to!(members@ => members@[i as int]));
            assert(decreases_to!(members@[i as int] => members@[i as int].1));
        }
        push_value(out, &members[i].1);
        proof {
            assert(m[i as int] == (members@[i as int].0@, model(members@[i as int].1)));
            assert(out@ =~= start + members_bytes(m, i + 1));
        }
    }
}

/// An identical copy of a JSON value.
pub fn copy_value(v: &JsonValue) -> (r: JsonValue)
    ensures
        r@ == v@,
    decreases v,
{
    match v {
        JsonValue::Null => JsonValue::Null,
        JsonValue::Bool(b) => JsonValue::Bool(*b),
        JsonValue::PosInt(n) => JsonValue::PosInt(*n),
        JsonValue::NegInt(n) => JsonValue::NegInt(*n),
        JsonValue::Text(s) => JsonValue::Text(s.clone()),
        JsonValue::Array(items) => {
            let copied = copy_items(items);
            proof {
                lemma_item_models(items@, items@.len() as int);
                lemma_item_models(copied@, copied@.len() as int);
                assert forall|i: int| 0 <= i < items@.len() implies item_models(copied@, copied@.len() as int)[i]
                    == item_models(items@, items@.len() as int)[i] by {
                    assert(model(copied@[i]) == model(items@[i]));
                }
                assert(item_models(copied@, copied@.len() as int) =~= item_models(
                    items@,
                    items@.len() as int,
                ));
            }
            JsonValue::Array(copied)
        },
        JsonValue::Object(members) => {
            let copied = copy_members(members);
            proof {
                lemma_member_models(members@, members@.len() as int);
                lemma_member_models(copied@, copied@.len() as int);
                assert forall|i: int| 0 <= i < members@.len() implies member_models(copied@, copied@.len() as int)[i]
                    == member_models(members@, members@.len() as int)[i] by {
                    assert(copied@[i].0@ == members@[i].0@ && model(copied@[i].1) == model(members@[i].1));
                }
                assert(member_models(copied@, copied@.len() as int) =~= member_models(
                    members@,
                    members@.len() as int,
                ));
            }
            JsonValue::Object(copied)
        },
    }
}

fn copy_items(items: &Vec<JsonValue>) -> (r: Vec<JsonValue>)
    ensures
        r@.len() == items@.len(),
        forall|i: int| 0 <= i < items@.len() ==> model(#[trigger] r@[i]) == model(items@[i]),
    decreases items,
{
    let mut r: Vec<JsonValue> = Vec::new();
    let n = items.len();
    for i in 0..n
        invariant
            n == items@.len(),
            r@.len() == i,
            forall|k: int| 0 <= k < i ==> model(#[trigger] r@[k]) == model(items@[k]),
    {
        proof {
            assert(decreases_to!(*items => items@));
            assert(decreases_to!(items@ => items@[i as int]));
        }
        r.push(copy_value(&items[i]));
    }
    r
}

fn copy_members(members: &Vec<(String, JsonValue)>) -> (r: Vec<(String, JsonValue)>)
    ensures
        r@.len() == members@.len(),
        forall|i: int|
            0 <= i < members@.len() ==> (#[trigger] r@[i]).0@ == members@[i].0@ && model(r@[i].1)
                == model(members@[i].1),
    decreases members,
{
    let mut r: Vec<(String, JsonValue)> = Vec::new();
    let n = members.len();
    for i in 0..n
        invariant
            n == members@.len(),
            r@.len() == i,
            forall|k: int|
                0 <= k < i ==> (#[trigger] r@[k]).0@ == members@[k].0@ && model(r@[k].1) == model(
                    members@[k].1,
                ),
    {
        proof {
            assert(decreases_to!(*members => members@));
            assert(decreases_to!(members@ => members@[i as int]));
            assert(decreases_to!(members@[i as int] => members@[i as int].1));
        }
        let value = copy_value(&members[i].1);
        r.push((members[i].0.clone(), value));
    }
    r
}

/// A map from texts to JSON values as a JSON object in key order.
pub open spec fn json_value_map(e: Seq<(Seq<char>, JsonValue)>) -> Seq<u8> {
    json_object(e.map_values(|p: (Seq<char>, JsonValue)| json_member(p.0, value_bytes(p.1@))))
}

/// The entries of a map of JSON values, with the values as models.
pub open spec fn model_entries(e: Seq<(Seq<char>, JsonValue)>) -> Seq<(Seq<char>, JsonModel)> {
    e.map_values(|p: (Seq<char>, JsonValue)| (p.0, p.1@))
}

pub fn push_value_map(out: &mut Vec<u8>, map: &TextMap<JsonValue>)
    ensures
        final(out)@ == old(out)@ + json_value_map(map@),
{
    let ghost items = map@.map_values(
        |p: (Seq<char>, JsonValue)| json_member(p.0, value_bytes(p.1@)),
    );
    out.push(0x7b);
    let ghost start = out@;
    let n = map.len();
    for i in 0..n
        invariant
            n == map@.len(),
            items == map@.map_values(
                |p: (Seq<char>, JsonValue)| json_member(p.0, value_bytes(p.1@)),
            ),
            out@ == start + join(items.subrange(0, i as int)),
    {
        if i > 0 {
            out.push(0x2c);
        }
        let ghost before = out@;
        push_text(out, map.key_at(i).as_str());
        out.push(0x3a);
        push_value(out, map.value_at(i));
        proof {
            assert(out@ =~= before + items[i as int]);
            let pre = items.subrange(0, i as int);
            assert(items.subrange(0, i + 1) =~= pre.push(items[i as int]));
            assert(pre.push(items[i as int]).drop_last() =~= pre);
            assert(out@ =~= start + join(items.subrange(0, i + 1)));
        }
    }
    out.push(0x7d);
    proof {
        assert(items.subrange(0, n as int) =~= items);
        assert(out@ =~= old(out)@ + json_value_map(map@));
    }
}

impl Clone for JsonValue {
    fn clone(&self) -> (r: Self)
        ensures
            r@ == self@,
    {
        copy_value(self)
    }
}

impl JsonValue {
    /// The text of a `Text` value.
    pub fn as_str(&self) -> (r: Option<&str>)
        ensures
            match *self {
                JsonValue::Text(s) => r matches Some(t) && t@ == s@,
                _ => r is None,
            },
    {
        match self {
            JsonValue::Text(s) => Some(s.as_str()),
            _ => None,
        }
    }

    /// The canonical encoding of this value.
    pub fn canonical_bytes(&self) -> (r: Vec<u8>)
        ensures
            r@ == value_bytes(self@),
    {
        let mut out = Vec::new();
        push_value(&mut out, self);
        proof {
            assert(out@ =~= value_bytes(self@));
        }
        out
    }
}

/// Whether two JSON values are the same value.
pub fn json_equal(a: &JsonValue, b: &JsonValue) -> (r: bool)
    ensures
        r == (a@ == b@),
    decreases a,
{
    match (a, b) {
        (JsonValue::Null, JsonValue::Null) => true,
        (JsonValue::Bool(x), JsonValue::Bool(y)) => *x == *y,
        (JsonValue::PosInt(x), JsonValue::PosInt(y)) => *x == *y,
        (JsonValue::NegInt(x), JsonValue::NegInt(y)) => *x == *y,
        (JsonValue::PosInt(x), JsonValue::NegInt(y)) => *y >= 0 && *x == *y as u64,
        (JsonValue::NegInt(x), JsonValue::PosInt(y)) => *x >= 0 && *x as u64 == *y,
        (JsonValue::Text(x), JsonValue::Text(y)) => crate::order::text_eq(x.as_str(), y.as_str()),
        (JsonValue::Array(xs), JsonValue::Array(ys)) => items_equal(xs, ys),
        (JsonValue::Object(xs), JsonValue::Object(ys)) => members_equal(xs, ys),
        _ => false,
    }
}

fn items_equal(xs: &Vec<JsonValue>, ys: &Vec<JsonValue>) -> (r: bool)
    ensures
        r == (item_models(xs@, xs@.len() as int) == item_models(ys@, ys@.len() as int)),
    decreases xs,
{
    proof {
        lemma_item_models(xs@, xs@.len() as int);
        lemma_item_models(ys@, ys@.len() as int);
    }
    if xs.len() != ys.len() {
        proof {
            assert(item_models(xs@, xs@.len() as int).len() != item_models(ys@, ys@.len() as int).len());
        }
        return false;
    }
    let n = xs.len();
    let ghost mx = item_models(xs@, n as int);
    let ghost my = item_models(ys@, n as int);
    for i in 0..n
        invariant
            n == xs@.len(),
            n == ys@.len(),
            mx == item_models(xs@, n as int),
            my == item_models(ys@, n as int),
            mx.len() == n,
            my.len() == n,
            forall|k: int| 0 <= k < n ==> mx[k] == model(#[trigger] xs@[k]),
            forall|k: int| 0 <= k < n ==> my[k] == model(#[trigger] ys@[k]),
            forall|k: int| 0 <= k < i ==> mx[k] == my[k],
    {
        proof {
            assert(decreases_to!(*xs => xs@));
            assert(decreases_to!(xs@ => xs@[i as int]));
        }
        if !json_equal(&xs[i], &ys[i]) {
            proof {
                assert(mx[i as int] != my[i as int]);
            }
            return false;
        }
    }
    proof {
        assert(mx =~= my);
    }
    true
}

fn members_equal(xs: &Vec<(String, JsonValue)>, ys: &Vec<(String, JsonValue)>) -> (r: bool)
    ensures
        r == (member_models(xs@, xs@.len() as int) == member_models(ys@, ys@.len() as int)),
    decreases xs,
{
    proof {
        lemma_member_models(xs@, xs@.len() as int);
        lemma_member_models(ys@, ys@.len() as int);
    }
    if xs.len() != ys.len() {
        proof {
            assert(member_models(xs@, xs@.len() as int).len() != member_models(ys@, ys@.len() as int).len());
        }
        return false;
    }
    let n = xs.len();
    let ghost mx = member_models(xs@, n as int);
    let ghost my = member_models(ys@, n as int);
    for i in 0..n
        invariant
            n == xs@.len(),
            n == ys@.len(),
            mx == member_models(xs@, n as int),
            my == member_models(ys@, n as int),
            mx.len() == n,
            my.len() == n,
            forall|k: int| 0 <= k < n ==> mx[k] == (#[trigger] xs@[k].0@, model(xs@[k].1)),
            forall|k: int| 0 <= k < n ==> my[k] == (#[trigger] ys@[k].0@, model(ys@[k].1)),
            forall|k: int| 0 <= k < i ==> mx[k] == my[k],
    {
        proof {
            assert(decreases_to!(*xs => xs@));
            assert(decreases_to!(xs@ => xs@[i as int]));
            assert(decreases_to!(xs@[i as int] => xs@[i as int].1));
        }
        if !crate::order::text_eq(xs[i].0.as_str(), ys[i].0.as_str()) || !json_equal(
            &xs[i].1,
            &ys[i].1,
        ) {
            proof {
                assert(mx[i as int] != my[i as int]);
            }
            return false;
        }
    }
    proof {
        assert(mx =~= my);
    }
    true
}

} // verus!
