//! A tagged-variant JSON-like tree: null, bool, integer, string, array and
//! object (an ordered list of fields). The catalogue is such a tree, and the
//! merger walks it. `JsonV` is the mathematical model of a tree; `jv` maps an
//! executable tree to its model, and every contract speaks of models.

use vstd::prelude::*;
use crate::text::str_eq;

verus! {

/// An executable JSON-like document tree. Objects keep their fields in
/// order; nothing here reorders or deduplicates them. Numbers are integers:
/// the catalogue carries population counts, never fractions.
#[derive(Debug, PartialEq, Eq)]
pub enum Json {
    Null,
    Bool(bool),
    Int(i64),
    UInt(u64),
    Str(String),
    Arr(Vec<Json>),
    Obj(Vec<(String, Json)>),
}

/// The mathematical model of a tree: strings become character sequences and
/// both integer variants collapse into unbounded integers.
#[verifier::ext_equal]
pub ghost enum JsonV {
    Null,
    Bool(bool),
    Int(int),
    Str(Seq<char>),
    Arr(Seq<JsonV>),
    Obj(Seq<(Seq<char>, JsonV)>),
}

/// The model of an executable tree.
pub open spec fn jv(j: Json) -> JsonV
    decreases j,
{
    match j {
        Json::Null => JsonV::Null,
        Json::Bool(b) => JsonV::Bool(b),
        Json::Int(n) => JsonV::Int(n as int),
        Json::UInt(n) => JsonV::Int(n as int),
        Json::Str(s) => JsonV::Str(s@),
        Json::Arr(elems) => JsonV::Arr(jv_list(elems@)),
        Json::Obj(fields) => JsonV::Obj(jv_fields(fields@)),
    }
}

/// The models of the elements of an array.
pub open spec fn jv_list(s: Seq<Json>) -> Seq<JsonV>
    decreases s,
{
    if s.len() == 0 {
        Seq::empty()
    } else {
        seq![jv(s[0])].add(jv_list(s.drop_first()))
    }
}

/// The models of the fields of an object.
pub open spec fn jv_fields(s: Seq<(String, Json)>) -> Seq<(Seq<char>, JsonV)>
    decreases s,
{
    if s.len() == 0 {
        Seq::empty()
    } else {
        seq![(s[0].0@, jv(s[0].1))].add(jv_fields(s.drop_first()))
    }
}

/// `jv_list` maps element by element.
pub proof fn lemma_jv_list(s: Seq<Json>)
    ensures
        jv_list(s).len() == s.len(),
        forall|i: int| 0 <= i < s.len() ==> jv_list(s)[i] == jv(s[i]),
    decreases s.len(),
{
    if s.len() > 0 {
        lemma_jv_list(s.drop_first());
    }
}

/// `jv_fields` maps field by field.
pub proof fn lemma_jv_fields(s: Seq<(String, Json)>)
    ensures
        jv_fields(s).len() == s.len(),
        forall|i: int| 0 <= i < s.len() ==> jv_fields(s)[i] == (s[i].0@, jv(s[i].1)),
    decreases s.len(),
{
    if s.len() > 0 {
        lemma_jv_fields(s.drop_first());
    }
}

impl View for Json {
    type V = JsonV;

    open spec fn view(&self) -> JsonV {
        jv(*self)
    }
}

/// The value of the first field named `key`, if any.
pub open spec fn obj_get(fields: Seq<(Seq<char>, JsonV)>, key: Seq<char>) -> Option<JsonV>
    decreases fields.len(),
{
    if fields.len() == 0 {
        None
    } else if fields[0].0 == key {
        Some(fields[0].1)
    } else {
        obj_get(fields.drop_first(), key)
    }
}

pub open spec fn has_field(fields: Seq<(Seq<char>, JsonV)>, key: Seq<char>) -> bool {
    obj_get(fields, key) is Some
}

/// The field list with the first field named `key` replaced by `(key, v)`;
/// when no field is named `key`, `(key, v)` is appended at the end. No other
/// field moves.
pub open spec fn obj_put(
    fields: Seq<(Seq<char>, JsonV)>,
    key: Seq<char>,
    v: JsonV,
) -> Seq<(Seq<char>, JsonV)>
    decreases fields.len(),
{
    if fields.len() == 0 {
        seq![(key, v)]
    } else if fields[0].0 == key {
        seq![(fields[0].0, v)].add(fields.drop_first())
    } else {
        seq![fields[0]].add(obj_put(fields.drop_first(), key, v))
    }
}

/// When the first occurrence of `key` is at `i`, `obj_get` yields that value.
pub proof fn lemma_obj_get_found(fields: Seq<(Seq<char>, JsonV)>, key: Seq<char>, i: int)
    requires
        0 <= i < fields.len(),
        fields[i].0 == key,
        forall|j: int| 0 <= j < i ==> fields[j].0 != key,
    ensures
        obj_get(fields, key) == Some(fields[i].1),
    decreases i,
{
    if i > 0 {
        lemma_obj_get_found(fields.drop_first(), key, i - 1);
    }
}

/// When no field is named `key`, `obj_get` yields nothing.
pub proof fn lemma_obj_get_absent(fields: Seq<(Seq<char>, JsonV)>, key: Seq<char>)
    requires
        forall|j: int| 0 <= j < fields.len() ==> fields[j].0 != key,
    ensures
        obj_get(fields, key) is None,
    decreases fields.len(),
{
    if fields.len() > 0 {
        lemma_obj_get_absent(fields.drop_first(), key);
    }
}

/// When the first occurrence of `key` is at `i`, `obj_put` is an update at `i`.
pub proof fn lemma_obj_put_found(
    fields: Seq<(Seq<char>, JsonV)>,
    key: Seq<char>,
    v: JsonV,
    i: int,
)
    requires
        0 <= i < fields.len(),
        fields[i].0 == key,
        forall|j: int| 0 <= j < i ==> fields[j].0 != key,
    ensures
        obj_put(fields, key, v) =~= fields.update(i, (key, v)),
    decreases i,
{
    if i == 0 {
        assert(obj_put(fields, key, v) =~= fields.update(0, (fields[0].0, v)));
        assert(fields[0].0 == key);
    } else {
        lemma_obj_put_found(fields.drop_first(), key, v, i - 1);
        assert(obj_put(fields, key, v) =~= seq![fields[0]].add(
            fields.drop_first().update(i - 1, (key, v)),
        ));
        assert(seq![fields[0]].add(fields.drop_first().update(i - 1, (key, v))) =~= fields.update(
            i,
            (key, v),
        ));
    }
}

/// When no field is named `key`, `obj_put` appends.
pub proof fn lemma_obj_put_absent(fields: Seq<(Seq<char>, JsonV)>, key: Seq<char>, v: JsonV)
    requires
        forall|j: int| 0 <= j < fields.len() ==> fields[j].0 != key,
    ensures
        obj_put(fields, key, v) =~= fields.push((key, v)),
    decreases fields.len(),
{
    if fields.len() == 0 {
    } else {
        lemma_obj_put_absent(fields.drop_first(), key, v);
        assert(obj_put(fields, key, v) =~= seq![fields[0]].add(fields.drop_first().push((key, v))));
        assert(seq![fields[0]].add(fields.drop_first().push((key, v))) =~= fields.push((key, v)));
    }
}

/// A borrowed reference to the value of the first field named `key`.
pub fn obj_get_ref<'a>(fields: &'a Vec<(String, Json)>, key: &str) -> (r: Option<&'a Json>)
    ensures
        match r {
            Some(v) => obj_get(jv_fields(fields@), key@) == Some(jv(*v)),
            None => !has_field(jv_fields(fields@), key@),
        },
{
    let n: usize = fields.len();
    let mut i: usize = 0;
    while i < n
        invariant
            n == fields@.len(),
            i <= n,
            forall|j: int| 0 <= j < i ==> fields@[j].0@ != key@,
        decreases n - i,
    {
        if str_eq(fields[i].0.as_str(), key) {
            proof {
                lemma_jv_fields(fields@);
                lemma_obj_get_found(jv_fields(fields@), key@, i as int);
            }
            return Some(&fields[i].1);
        }
        i = i + 1;
    }
    proof {
        lemma_jv_fields(fields@);
        lemma_obj_get_absent(jv_fields(fields@), key@);
    }
    None
}

/// A deep copy of a tree, with the same model.
#[verifier::loop_isolation(false)]
pub fn clone_json(j: &Json) -> (r: Json)
    ensures
        r@ == j@,
    decreases j,
{
    match j {
        Json::Null => Json::Null,
        Json::Bool(b) => Json::Bool(*b),
        Json::Int(n) => Json::Int(*n),
        Json::UInt(n) => Json::UInt(*n),
        Json::Str(s) => Json::Str(s.clone()),
        Json::Arr(elems) => {
            let n: usize = elems.len();
            let mut out: Vec<Json> = Vec::new();
            let mut i: usize = 0;
            while i < n
                invariant
                    n == elems@.len(),
                    i <= n,
                    out@.len() == i,
                    forall|k: int| 0 <= k < i ==> jv(#[trigger] out@[k]) == jv(elems@[k]),
                decreases n - i,
            {
                proof {
                    assert(decreases_to!(*j => j->Arr_0));
                    assert(j->Arr_0 == *elems);
                    assert(decreases_to!(*elems => elems@));
                    assert(decreases_to!(elems@ => elems@[i as int]));
                    assert(decreases_to!(*j => elems@[i as int]));
                }
                let c: Json = clone_json(&elems[i]);
                out.push(c);
                i = i + 1;
            }
            proof {
                lemma_jv_list(out@);
                lemma_jv_list(elems@);
                assert(jv_list(out@) =~= jv_list(elems@));
            }
            Json::Arr(out)
        },
        Json::Obj(fields) => {
            let n: usize = fields.len();
            let mut out: Vec<(String, Json)> = Vec::new();
            let mut i: usize = 0;
            while i < n
                invariant
                    n == fields@.len(),
                    i <= n,
                    out@.len() == i,
                    forall|k: int|
                        0 <= k < i ==> (#[trigger] out@[k]).0@ == fields@[k].0@ && jv(out@[k].1)
                            == jv(fields@[k].1),
                decreases n - i,
            {
                proof {
                    assert(decreases_to!(*j => j->Obj_0));
                    assert(j->Obj_0 == *fields);
                    assert(decreases_to!(*fields => fields@));
                    assert(decreases_to!(fields@ => fields@[i as int]));
                    assert(decreases_to!(fields@[i as int] => fields@[i as int].1));
                    assert(decreases_to!(*j => fields@[i as int].1));
                }
                let k: String = fields[i].0.clone();
                let c: Json = clone_json(&fields[i].1);
                out.push((k, c));
                i = i + 1;
            }
            proof {
                lemma_jv_fields(out@);
                lemma_jv_fields(fields@);
                assert(jv_fields(out@) =~= jv_fields(fields@));
            }
            Json::Obj(out)
        },
    }
}

} // verus!
