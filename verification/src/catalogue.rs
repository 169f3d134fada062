//! The catalogue merger. A catalogue is a JSON-like tree; the statistics are
//! a three-level map `group -> stratifier -> stratum -> count`. `merge` walks
//! the tree depth-first and attaches a `count` field to every concrete
//! criterion it can look up; a stratifier with no criteria at all gets its
//! criteria synthesized from the statistics. Group and stratifier keys are
//! first reconciled through small alias tables.

use vstd::prelude::*;
use crate::json::{
    Json, JsonV, jv, jv_list, jv_fields, obj_get, has_field, obj_put, obj_get_ref, clone_json,
    lemma_jv_list, lemma_jv_fields, lemma_obj_put_found, lemma_obj_put_absent,
    lemma_obj_get_found, lemma_obj_get_absent,
};
use crate::text::str_eq;
use crate::assoc::{assoc_get, lemma_assoc_get_found, lemma_assoc_get_absent};

verus! {

/// Stratum key -> count, in the order the statistics source gave.
#[derive(Debug, PartialEq, Eq)]
pub struct Criteria {
    pub entries: Vec<(String, u64)>,
}

/// Stratifier key -> criteria.
#[derive(Debug, PartialEq, Eq)]
pub struct CriteriaGroup {
    pub entries: Vec<(String, Criteria)>,
}

/// Group key -> stratifiers: the whole statistics map.
#[derive(Debug, PartialEq, Eq)]
pub struct CriteriaGroups {
    pub entries: Vec<(String, CriteriaGroup)>,
}

impl View for Criteria {
    type V = Seq<(Seq<char>, u64)>;

    open spec fn view(&self) -> Seq<(Seq<char>, u64)> {
        Seq::new(self.entries@.len(), |i: int| (self.entries@[i].0@, self.entries@[i].1))
    }
}

impl View for CriteriaGroup {
    type V = Seq<(Seq<char>, Seq<(Seq<char>, u64)>)>;

    open spec fn view(&self) -> Seq<(Seq<char>, Seq<(Seq<char>, u64)>)> {
        Seq::new(self.entries@.len(), |i: int| (self.entries@[i].0@, self.entries@[i].1@))
    }
}

impl View for CriteriaGroups {
    type V = Seq<(Seq<char>, Seq<(Seq<char>, Seq<(Seq<char>, u64)>)>)>;

    open spec fn view(&self) -> Seq<(Seq<char>, Seq<(Seq<char>, Seq<(Seq<char>, u64)>)>)> {
        Seq::new(self.entries@.len(), |i: int| (self.entries@[i].0@, self.entries@[i].1@))
    }
}

/// The criteria of `group / stratifier` in the statistics, if present.
pub open spec fn stratifier_of(
    c: Seq<(Seq<char>, Seq<(Seq<char>, Seq<(Seq<char>, u64)>)>)>,
    key1: Seq<char>,
    key2: Seq<char>,
) -> Option<Seq<(Seq<char>, u64)>> {
    match assoc_get(c, key1) {
        Some(g) => assoc_get(g, key2),
        None => None,
    }
}

/// The count of `group / stratifier / stratum` in the statistics, if present.
pub open spec fn element_of(
    c: Seq<(Seq<char>, Seq<(Seq<char>, Seq<(Seq<char>, u64)>)>)>,
    key1: Seq<char>,
    key2: Seq<char>,
    key3: Seq<char>,
) -> Option<u64> {
    match stratifier_of(c, key1, key2) {
        Some(cr) => assoc_get(cr, key3),
        None => None,
    }
}

/// The group-key alias table: catalogue group names are reconciled with the
/// names the statistics use.
pub open spec fn group_alias_v(k: Seq<char>) -> Seq<char> {
    if k == "patient"@ || k == "donor"@ {
        "patients"@
    } else if k == "tumor_classification"@ {
        "diagnosis"@
    } else if k == "biosamples"@ || k == "sample"@ {
        "specimen"@
    } else {
        k
    }
}

/// The stratifier-key alias table.
pub open spec fn stratifier_alias_v(k: Seq<char>) -> Seq<char> {
    if k == "gender"@ {
        "Gender"@
    } else {
        k
    }
}

/// The aliased group key, as an owned string.
pub fn group_alias(k: &str) -> (r: String)
    ensures
        r@ == group_alias_v(k@),
{
    if str_eq(k, "patient") || str_eq(k, "donor") {
        "patients".to_owned()
    } else if str_eq(k, "tumor_classification") {
        "diagnosis".to_owned()
    } else if str_eq(k, "biosamples") || str_eq(k, "sample") {
        "specimen".to_owned()
    } else {
        k.to_owned()
    }
}

/// The aliased stratifier key, as an owned string.
pub fn stratifier_alias(k: &str) -> (r: String)
    ensures
        r@ == stratifier_alias_v(k@),
{
    if str_eq(k, "gender") {
        "Gender".to_owned()
    } else {
        k.to_owned()
    }
}

/// Count lookup: `counts[key1][key2][key3]`, three levels deep.
pub fn get_element(counts: &CriteriaGroups, key1: &str, key2: &str, key3: &str) -> (r: Option<
    u64,
>)
    ensures
        r == element_of(counts@, key1@, key2@, key3@),
{
    match get_stratifier(counts, key1, key2) {
        Some(cr) => find_count(cr, key3),
        None => None,
    }
}

/// Stratifier lookup: `counts[key1][key2]`, two levels deep.
pub fn get_stratifier<'a>(counts: &'a CriteriaGroups, key1: &str, key2: &str) -> (r: Option<
    &'a Criteria,
>)
    ensures
        match r {
            Some(cr) => stratifier_of(counts@, key1@, key2@) == Some(cr@),
            None => stratifier_of(counts@, key1@, key2@) is None,
        },
{
    match find_group(counts, key1) {
        Some(g) => find_criteria(g, key2),
        None => None,
    }
}

fn find_group<'a>(counts: &'a CriteriaGroups, key: &str) -> (r: Option<&'a CriteriaGroup>)
    ensures
        match r {
            Some(g) => assoc_get(counts@, key@) == Some(g@),
            None => assoc_get(counts@, key@) is None,
        },
{
    let n: usize = counts.entries.len();
    let mut i: usize = 0;
    while i < n
        invariant
            n == counts.entries@.len(),
            i <= n,
            forall|j: int| 0 <= j < i ==> counts.entries@[j].0@ != key@,
        decreases n - i,
    {
        if str_eq(counts.entries[i].0.as_str(), key) {
            proof {
                lemma_assoc_get_found(counts@, key@, i as int);
            }
            return Some(&counts.entries[i].1);
        }
        i = i + 1;
    }
    proof {
        lemma_assoc_get_absent(counts@, key@);
    }
    None
}

fn find_criteria<'a>(group: &'a CriteriaGroup, key: &str) -> (r: Option<&'a Criteria>)
    ensures
        match r {
            Some(cr) => assoc_get(group@, key@) == Some(cr@),
            None => assoc_get(group@, key@) is None,
        },
{
    let n: usize = group.entries.len();
    let mut i: usize = 0;
    while i < n
        invariant
            n == group.entries@.len(),
            i <= n,
            forall|j: int| 0 <= j < i ==> group.entries@[j].0@ != key@,
        decreases n - i,
    {
        if str_eq(group.entries[i].0.as_str(), key) {
            proof {
                lemma_assoc_get_found(group@, key@, i as int);
            }
            return Some(&group.entries[i].1);
        }
        i = i + 1;
    }
    proof {
        lemma_assoc_get_absent(group@, key@);
    }
    None
}

fn find_count(criteria: &Criteria, key: &str) -> (r: Option<u64>)
    ensures
        r == assoc_get(criteria@, key@),
{
    let n: usize = criteria.entries.len();
    let mut i: usize = 0;
    while i < n
        invariant
            n == criteria.entries@.len(),
            i <= n,
            forall|j: int| 0 <= j < i ==> criteria.entries@[j].0@ != key@,
        decreases n - i,
    {
        if str_eq(criteria.entries[i].0.as_str(), key) {
            proof {
                lemma_assoc_get_found(criteria@, key@, i as int);
            }
            return Some(criteria.entries[i].1);
        }
        i = i + 1;
    }
    proof {
        lemma_assoc_get_absent(criteria@, key@);
    }
    None
}

/// The model of the statistics map.
pub type CriteriaV = Seq<(Seq<char>, u64)>;

pub type CriteriaGroupV = Seq<(Seq<char>, CriteriaV)>;

pub type CriteriaGroupsV = Seq<(Seq<char>, CriteriaGroupV)>;

pub type FieldsV = Seq<(Seq<char>, JsonV)>;

/// The character sequence of a string value; empty when the value is not a
/// string (the merge only applies it to values known to be strings).
pub open spec fn str_of(v: Option<JsonV>) -> Seq<char> {
    match v {
        Some(JsonV::Str(s)) => s,
        _ => Seq::empty(),
    }
}

/// The elements of an array value; empty when the value is not an array.
pub open spec fn arr_of(v: Option<JsonV>) -> Seq<JsonV> {
    match v {
        Some(JsonV::Arr(s)) => s,
        _ => Seq::empty(),
    }
}

/// A child category is processed as a stratifier node exactly when its
/// declared comparison type is the string "EQUALS".
pub open spec fn is_equals_cat_v(cat: JsonV) -> bool {
    cat is Obj && obj_get(cat->Obj_0, "type"@) == Some(JsonV::Str("EQUALS"@))
}

/// A criterion synthesized from a statistics entry: key and name equal the
/// stratum key, the description is empty, and the count is attached.
pub open spec fn synth_crit_v(key: Seq<char>, n: u64) -> JsonV {
    JsonV::Obj(
        seq![
            ("key"@, JsonV::Str(key)),
            ("name"@, JsonV::Str(key)),
            ("description"@, JsonV::Str(Seq::empty())),
            ("count"@, JsonV::Int(n as int)),
        ],
    )
}

pub open spec fn synth_crits_v(cc: CriteriaV) -> Seq<JsonV> {
    Seq::new(cc.len(), |i: int| synth_crit_v(cc[i].0, cc[i].1))
}

/// A concrete criterion with a count found in the statistics gets a `count`
/// field; one with no matching entry is left exactly as it was.
pub open spec fn annotate_crit_v(
    crit: JsonV,
    gk: Seq<char>,
    sk: Seq<char>,
    c: CriteriaGroupsV,
) -> JsonV {
    let cf = crit->Obj_0;
    let ck = str_of(obj_get(cf, "key"@));
    match element_of(c, gk, sk, ck) {
        Some(n) => JsonV::Obj(obj_put(cf, "count"@, JsonV::Int(n as int))),
        None => crit,
    }
}

pub open spec fn annotate_crits_v(
    crits: Seq<JsonV>,
    gk: Seq<char>,
    sk: Seq<char>,
    c: CriteriaGroupsV,
) -> Seq<JsonV> {
    Seq::new(crits.len(), |i: int| annotate_crit_v(crits[i], gk, sk, c))
}

/// One child category under a group whose aliased key is `gk`. A non-EQUALS
/// category is untouched. An EQUALS category either has concrete criteria,
/// which are annotated one by one, or an empty criteria list, which is filled
/// with criteria synthesized from the statistics (under group key "diagnosis"
/// when the stratifier itself is keyed "diagnosis").
pub open spec fn merge_cat_v(cat: JsonV, gk: Seq<char>, c: CriteriaGroupsV) -> JsonV {
    if !is_equals_cat_v(cat) {
        cat
    } else {
        let cf = cat->Obj_0;
        let sk = stratifier_alias_v(str_of(obj_get(cf, "key"@)));
        let crits = arr_of(obj_get(cf, "criteria"@));
        if crits.len() > 0 {
            JsonV::Obj(obj_put(cf, "criteria"@, JsonV::Arr(annotate_crits_v(crits, gk, sk, c))))
        } else {
            let gk2 = if sk == "diagnosis"@ {
                "diagnosis"@
            } else {
                gk
            };
            match stratifier_of(c, gk2, sk) {
                Some(cc) => JsonV::Obj(obj_put(cf, "criteria"@, JsonV::Arr(synth_crits_v(cc)))),
                None => cat,
            }
        }
    }
}

pub open spec fn merge_cats_v(cats: Seq<JsonV>, gk: Seq<char>, c: CriteriaGroupsV) -> Seq<
    JsonV,
> {
    Seq::new(cats.len(), |i: int| merge_cat_v(cats[i], gk, c))
}

/// A group node: its own key is aliased and becomes the first-level lookup
/// key; only the "childCategories" array is rewritten, every other field
/// stays in place.
pub open spec fn merge_group_v(fields: FieldsV, c: CriteriaGroupsV) -> JsonV {
    let gk = group_alias_v(str_of(obj_get(fields, "key"@)));
    let cats = arr_of(obj_get(fields, "childCategories"@));
    JsonV::Obj(obj_put(fields, "childCategories"@, JsonV::Arr(merge_cats_v(cats, gk, c))))
}

/// The merge itself: arrays are merged element by element; an object without
/// a "childCategories" field is recursed into structurally; one with it is a
/// group node; leaves are untouched.
pub open spec fn merge_v(j: JsonV, c: CriteriaGroupsV) -> JsonV
    decreases j,
{
    match j {
        JsonV::Arr(elems) => JsonV::Arr(merge_list_v(elems, c)),
        JsonV::Obj(fields) => if has_field(fields, "childCategories"@) {
            merge_group_v(fields, c)
        } else {
            JsonV::Obj(merge_fields_v(fields, c))
        },
        _ => j,
    }
}

pub open spec fn merge_list_v(s: Seq<JsonV>, c: CriteriaGroupsV) -> Seq<JsonV>
    decreases s,
{
    if s.len() == 0 {
        Seq::empty()
    } else {
        seq![merge_v(s[0], c)].add(merge_list_v(s.drop_first(), c))
    }
}

pub open spec fn merge_fields_v(s: FieldsV, c: CriteriaGroupsV) -> FieldsV
    decreases s,
{
    if s.len() == 0 {
        Seq::empty()
    } else {
        seq![(s[0].0, merge_v(s[0].1, c))].add(merge_fields_v(s.drop_first(), c))
    }
}

/// A criterion the merge can read: an object with a string "key".
pub open spec fn crit_ok(crit: JsonV) -> bool {
    crit is Obj && (obj_get(crit->Obj_0, "key"@) matches Some(JsonV::Str(_)))
}

pub open spec fn crits_ok(crits: Seq<JsonV>) -> bool
    decreases crits,
{
    crits.len() == 0 || (crit_ok(crits[0]) && crits_ok(crits.drop_first()))
}

/// A child category the merge can read: when it is an EQUALS category it
/// must carry a string "key" and a "criteria" array of readable criteria.
pub open spec fn cat_ok(cat: JsonV) -> bool {
    is_equals_cat_v(cat) ==> {
        let cf = cat->Obj_0;
        &&& obj_get(cf, "key"@) matches Some(JsonV::Str(_))
        &&& obj_get(cf, "criteria"@) matches Some(JsonV::Arr(crits)) && crits_ok(crits)
    }
}

pub open spec fn cats_ok(cats: Seq<JsonV>) -> bool
    decreases cats,
{
    cats.len() == 0 || (cat_ok(cats[0]) && cats_ok(cats.drop_first()))
}

/// A group node the merge can read: a string "key" and an array of readable
/// child categories.
pub open spec fn group_ok(fields: FieldsV) -> bool {
    &&& obj_get(fields, "key"@) matches Some(JsonV::Str(_))
    &&& obj_get(fields, "childCategories"@) matches Some(JsonV::Arr(cats)) && cats_ok(cats)
}

/// A tree the merge can process without meeting a malformed group node.
pub open spec fn mergeable(j: JsonV) -> bool
    decreases j,
{
    match j {
        JsonV::Arr(elems) => mergeable_list(elems),
        JsonV::Obj(fields) => if has_field(fields, "childCategories"@) {
            group_ok(fields)
        } else {
            mergeable_fields(fields)
        },
        _ => true,
    }
}

pub open spec fn mergeable_list(s: Seq<JsonV>, ) -> bool
    decreases s,
{
    s.len() == 0 || (mergeable(s[0]) && mergeable_list(s.drop_first()))
}

pub open spec fn mergeable_fields(s: FieldsV) -> bool
    decreases s,
{
    s.len() == 0 || (mergeable(s[0].1) && mergeable_fields(s.drop_first()))
}

/// `merge_list_v` maps `merge_v` element by element.
pub proof fn lemma_merge_list_v(s: Seq<JsonV>, c: CriteriaGroupsV)
    ensures
        merge_list_v(s, c).len() == s.len(),
        forall|i: int| 0 <= i < s.len() ==> merge_list_v(s, c)[i] == merge_v(s[i], c),
    decreases s.len(),
{
    if s.len() > 0 {
        lemma_merge_list_v(s.drop_first(), c);
    }
}

/// `merge_fields_v` keeps every key and maps every value through `merge_v`.
pub proof fn lemma_merge_fields_v(s: FieldsV, c: CriteriaGroupsV)
    ensures
        merge_fields_v(s, c).len() == s.len(),
        forall|i: int| 0 <= i < s.len() ==> merge_fields_v(s, c)[i] == (s[i].0, merge_v(s[i].1, c)),
    decreases s.len(),
{
    if s.len() > 0 {
        lemma_merge_fields_v(s.drop_first(), c);
    }
}

/// A list is mergeable exactly when each of its elements is.
pub proof fn lemma_mergeable_list(s: Seq<JsonV>)
    ensures
        mergeable_list(s) <==> (forall|i: int| 0 <= i < s.len() ==> mergeable(s[i])),
    decreases s.len(),
{
    if s.len() > 0 {
        lemma_mergeable_list(s.drop_first());
        if mergeable_list(s) {
            assert forall|i: int| 0 <= i < s.len() implies mergeable(s[i]) by {
                if i > 0 {
                    assert(s[i] == s.drop_first()[i - 1]);
                }
            }
        }
        if forall|i: int| 0 <= i < s.len() ==> mergeable(s[i]) {
            assert forall|i: int| 0 <= i < s.drop_first().len() implies mergeable(
                s.drop_first()[i],
            ) by {
                assert(s.drop_first()[i] == s[i + 1]);
            }
        }
    }
}

/// A field list is mergeable exactly when each of its values is.
pub proof fn lemma_mergeable_fields(s: FieldsV)
    ensures
        mergeable_fields(s) <==> (forall|i: int| 0 <= i < s.len() ==> mergeable(s[i].1)),
    decreases s.len(),
{
    if s.len() > 0 {
        lemma_mergeable_fields(s.drop_first());
        if mergeable_fields(s) {
            assert forall|i: int| 0 <= i < s.len() implies mergeable(s[i].1) by {
                if i > 0 {
                    assert(s[i] == s.drop_first()[i - 1]);
                }
            }
        }
        if forall|i: int| 0 <= i < s.len() ==> mergeable(s[i].1) {
            assert forall|i: int| 0 <= i < s.drop_first().len() implies mergeable(
                s.drop_first()[i].1,
            ) by {
                assert(s.drop_first()[i] == s[i + 1]);
            }
        }
    }
}

/// A category list is readable exactly when each category is.
pub proof fn lemma_cats_ok(s: Seq<JsonV>)
    ensures
        cats_ok(s) <==> (forall|i: int| 0 <= i < s.len() ==> cat_ok(s[i])),
    decreases s.len(),
{
    if s.len() > 0 {
        lemma_cats_ok(s.drop_first());
        if cats_ok(s) {
            assert forall|i: int| 0 <= i < s.len() implies cat_ok(s[i]) by {
                if i > 0 {
                    assert(s[i] == s.drop_first()[i - 1]);
                }
            }
        }
        if forall|i: int| 0 <= i < s.len() ==> cat_ok(s[i]) {
            assert forall|i: int| 0 <= i < s.drop_first().len() implies cat_ok(
                s.drop_first()[i],
            ) by {
                assert(s.drop_first()[i] == s[i + 1]);
            }
        }
    }
}

/// A criteria list is readable exactly when each criterion is.
pub proof fn lemma_crits_ok(s: Seq<JsonV>)
    ensures
        crits_ok(s) <==> (forall|i: int| 0 <= i < s.len() ==> crit_ok(s[i])),
    decreases s.len(),
{
    if s.len() > 0 {
        lemma_crits_ok(s.drop_first());
        if crits_ok(s) {
            assert forall|i: int| 0 <= i < s.len() implies crit_ok(s[i]) by {
                if i > 0 {
                    assert(s[i] == s.drop_first()[i - 1]);
                }
            }
        }
        if forall|i: int| 0 <= i < s.len() ==> crit_ok(s[i]) {
            assert forall|i: int| 0 <= i < s.drop_first().len() implies crit_ok(
                s.drop_first()[i],
            ) by {
                assert(s.drop_first()[i] == s[i + 1]);
            }
        }
    }
}

/// The one failure of the merge: a group node (or one of its EQUALS child
/// categories) that does not carry the fields the walk must read.
#[derive(Debug, PartialEq, Eq)]
pub struct MergeError;

/// The field list with the first field named `key` replaced by `(key, val)`,
/// or with `(key, val)` appended when no field is named `key`. Every other
/// field is kept in place.
fn first_field_index(fields: &Vec<(String, Json)>, key: &str) -> (r: Option<usize>)
    ensures
        match r {
            Some(i) => i < fields@.len() && fields@[i as int].0@ == key@ && (forall|j: int|
                0 <= j < i ==> fields@[j].0@ != key@),
            None => forall|j: int| 0 <= j < fields@.len() ==> fields@[j].0@ != key@,
        },
{
    let n: usize = fields.len();
    let mut i: usize = 0;
    while i < n
        invariant
            n == fields@.len(),
            i <= n,
            forall|j: int| 0 <= j < i ==> fields@[j].0@ != key@,
        decreases n - i,
    {
        if str_eq(fields[i].0.as_str(), key) {
            return Some(i);
        }
        i = i + 1;
    }
    None
}

fn rebuild_with(fields: &Vec<(String, Json)>, key: &str, val: Json) -> (r: Vec<(String, Json)>)
    ensures
        jv_fields(r@) == obj_put(jv_fields(fields@), key@, jv(val)),
{
    let ghost gval = jv(val);
    let n: usize = fields.len();
    let found: Option<usize> = first_field_index(fields, key);
    proof {
        lemma_jv_fields(fields@);
    }
    if let Some(idx) = found {
        let mut out: Vec<(String, Json)> = Vec::new();
        let mut i: usize = 0;
        while i < idx
            invariant
                n == fields@.len(),
                idx < n,
                i <= idx,
                out@.len() == i,
                fields@[idx as int].0@ == key@,
                forall|j: int| 0 <= j < idx ==> fields@[j].0@ != key@,
                forall|k: int|
                    0 <= k < i ==> (#[trigger] out@[k]).0 == fields@[k].0 && jv(out@[k].1) == jv(
                        fields@[k].1,
                    ),
            decreases idx - i,
        {
            let ks: String = fields[i].0.clone();
            let cv: Json = clone_json(&fields[i].1);
            out.push((ks, cv));
            i = i + 1;
        }
        let kown: String = fields[idx].0.clone();
        out.push((kown, val));
        let mut i: usize = idx + 1;
        while i < n
            invariant
                n == fields@.len(),
                idx < n,
                idx + 1 <= i <= n,
                out@.len() == i,
                fields@[idx as int].0@ == key@,
                forall|j: int| 0 <= j < idx ==> fields@[j].0@ != key@,
                forall|k: int|
                    0 <= k < i && k != idx ==> (#[trigger] out@[k]).0 == fields@[k].0 && jv(
                        out@[k].1,
                    ) == jv(fields@[k].1),
                out@[idx as int].0 == fields@[idx as int].0,
                jv(out@[idx as int].1) == gval,
            decreases n - i,
        {
            let ks: String = fields[i].0.clone();
            let cv: Json = clone_json(&fields[i].1);
            out.push((ks, cv));
            i = i + 1;
        }
        proof {
            lemma_jv_fields(out@);
            lemma_obj_put_found(jv_fields(fields@), key@, gval, idx as int);
            assert(jv_fields(out@) =~= jv_fields(fields@).update(idx as int, (key@, gval)));
        }
        out
    } else {
        let mut out: Vec<(String, Json)> = Vec::new();
        let mut i: usize = 0;
        while i < n
            invariant
                n == fields@.len(),
                i <= n,
                out@.len() == i,
                forall|j: int| 0 <= j < n ==> fields@[j].0@ != key@,
                forall|k: int|
                    0 <= k < i ==> (#[trigger] out@[k]).0 == fields@[k].0 && jv(out@[k].1) == jv(
                        fields@[k].1,
                    ),
            decreases n - i,
        {
            let ks: String = fields[i].0.clone();
            let cv: Json = clone_json(&fields[i].1);
            out.push((ks, cv));
            i = i + 1;
        }
        out.push((key.to_owned(), val));
        proof {
            lemma_jv_fields(out@);
            lemma_obj_put_absent(jv_fields(fields@), key@, gval);
            assert(jv_fields(out@) =~= jv_fields(fields@).push((key@, gval)));
        }
        out
    }
}

/// Whether a child category is declared with comparison type "EQUALS".
fn is_equals_cat(cat: &Json) -> (r: bool)
    ensures
        r == is_equals_cat_v(cat@),
{
    match cat {
        Json::Obj(f) => {
            match obj_get_ref(f, "type") {
                Some(v) => match v {
                    Json::Str(s) => str_eq(s.as_str(), "EQUALS"),
                    _ => false,
                },
                None => false,
            }
        },
        _ => false,
    }
}

/// The criteria synthesized from one stratifier's statistics entries, in the
/// order the statistics gave them.
fn synth_criteria(cc: &Criteria) -> (r: Vec<Json>)
    ensures
        jv_list(r@) == synth_crits_v(cc@),
{
    let n: usize = cc.entries.len();
    let mut out: Vec<Json> = Vec::new();
    let mut i: usize = 0;
    while i < n
        invariant
            n == cc.entries@.len(),
            i <= n,
            out@.len() == i,
            forall|k: int|
                0 <= k < i ==> jv(#[trigger] out@[k]) == synth_crit_v(
                    cc.entries@[k].0@,
                    cc.entries@[k].1,
                ),
        decreases n - i,
    {
        let key: String = cc.entries[i].0.clone();
        let cnt: u64 = cc.entries[i].1;
        let mut f: Vec<(String, Json)> = Vec::new();
        f.push(("key".to_owned(), Json::Str(key.clone())));
        f.push(("name".to_owned(), Json::Str(key)));
        f.push(("description".to_owned(), Json::Str(String::new())));
        f.push(("count".to_owned(), Json::UInt(cnt)));
        proof {
            lemma_jv_fields(f@);
            assert(jv_fields(f@) =~= synth_crit_v(cc.entries@[i as int].0@, cnt)->Obj_0);
        }
        out.push(Json::Obj(f));
        i = i + 1;
    }
    proof {
        lemma_jv_list(out@);
        assert(jv_list(out@) =~= synth_crits_v(cc@));
    }
    out
}

/// One concrete criterion: attach the looked-up count, or leave the
/// criterion untouched when the statistics hold no entry for it.
fn annotate_crit(crit: &Json, gk: &str, sk: &str, counts: &CriteriaGroups) -> (r: Result<
    Json,
    MergeError,
>)
    ensures
        match r {
            Ok(out) => crit_ok(crit@) && out@ == annotate_crit_v(crit@, gk@, sk@, counts@),
            Err(_) => !crit_ok(crit@),
        },
{
    let f: &Vec<(String, Json)> = match crit {
        Json::Obj(f) => f,
        _ => {
            return Err(MergeError);
        },
    };
    let kref: &Json = match obj_get_ref(f, "key") {
        Some(v) => v,
        None => {
            return Err(MergeError);
        },
    };
    let kstr: &String = match kref {
        Json::Str(s) => s,
        _ => {
            return Err(MergeError);
        },
    };
    match get_element(counts, gk, sk, kstr.as_str()) {
        Some(n) => Ok(Json::Obj(rebuild_with(f, "count", Json::UInt(n)))),
        None => Ok(clone_json(crit)),
    }
}

/// One child category under a group whose aliased key is `gk`.
#[verifier::loop_isolation(false)]
fn merge_cat(cat: &Json, gk: &str, counts: &CriteriaGroups) -> (r: Result<Json, MergeError>)
    ensures
        match r {
            Ok(out) => cat_ok(cat@) && out@ == merge_cat_v(cat@, gk@, counts@),
            Err(_) => !cat_ok(cat@),
        },
{
    if !is_equals_cat(cat) {
        return Ok(clone_json(cat));
    }
    let f: &Vec<(String, Json)> = match cat {
        Json::Obj(f) => f,
        _ => {
            proof {
                assert(false);
            }
            return Err(MergeError);
        },
    };
    let skref: &Json = match obj_get_ref(f, "key") {
        Some(v) => v,
        None => {
            return Err(MergeError);
        },
    };
    let sk0: &String = match skref {
        Json::Str(s) => s,
        _ => {
            return Err(MergeError);
        },
    };
    let sk: String = stratifier_alias(sk0.as_str());
    let critsref: &Json = match obj_get_ref(f, "criteria") {
        Some(v) => v,
        None => {
            return Err(MergeError);
        },
    };
    let crits: &Vec<Json> = match critsref {
        Json::Arr(a) => a,
        _ => {
            return Err(MergeError);
        },
    };
    if crits.len() > 0 {
        let n: usize = crits.len();
        let mut newcrits: Vec<Json> = Vec::new();
        let mut i: usize = 0;
        while i < n
            invariant
                n == crits@.len(),
                i <= n,
                newcrits@.len() == i,
                forall|k: int| 0 <= k < i ==> crit_ok(jv(#[trigger] crits@[k])),
                forall|k: int|
                    0 <= k < i ==> jv(#[trigger] newcrits@[k]) == annotate_crit_v(
                        jv(crits@[k]),
                        gk@,
                        sk@,
                        counts@,
                    ),
            decreases n - i,
        {
            match annotate_crit(&crits[i], gk, sk.as_str(), counts) {
                Ok(c) => {
                    newcrits.push(c);
                },
                Err(e) => {
                    proof {
                        lemma_jv_list(crits@);
                        lemma_crits_ok(jv_list(crits@));
                        assert(jv_list(crits@)[i as int] == jv(crits@[i as int]));
                        assert(!crits_ok(jv_list(crits@)));
                    }
                    return Err(e);
                },
            }
            i = i + 1;
        }
        proof {
            lemma_jv_list(crits@);
            lemma_jv_list(newcrits@);
            lemma_crits_ok(jv_list(crits@));
            lemma_jv_fields(f@);
            assert(jv_list(newcrits@) =~= annotate_crits_v(jv_list(crits@), gk@, sk@, counts@));
        }
        Ok(Json::Obj(rebuild_with(f, "criteria", Json::Arr(newcrits))))
    } else {
        proof {
            lemma_jv_list(crits@);
            assert(jv_list(crits@) =~= Seq::<JsonV>::empty());
        }
        let gk2: String = if str_eq(sk.as_str(), "diagnosis") {
            "diagnosis".to_owned()
        } else {
            gk.to_owned()
        };
        match get_stratifier(counts, gk2.as_str(), sk.as_str()) {
            Some(cc) => {
                let newcrits: Vec<Json> = synth_criteria(cc);
                Ok(Json::Obj(rebuild_with(f, "criteria", Json::Arr(newcrits))))
            },
            None => Ok(clone_json(cat)),
        }
    }
}

/// The merge: walk the catalogue depth-first and attach counts looked up in
/// the statistics. The tree comes back with every existing node kept in
/// place and in order; the only additions are `count` fields and criteria
/// synthesized into empty criteria lists. `Err` is returned exactly when the
/// tree holds a malformed group node.
#[verifier::loop_isolation(false)]
pub fn merge(tree: &Json, counts: &CriteriaGroups) -> (r: Result<Json, MergeError>)
    ensures
        match r {
            Ok(out) => mergeable(tree@) && out@ == merge_v(tree@, counts@),
            Err(_) => !mergeable(tree@),
        },
    decreases tree,
{
    match tree {
        Json::Null => Ok(Json::Null),
        Json::Bool(b) => Ok(Json::Bool(*b)),
        Json::Int(n) => Ok(Json::Int(*n)),
        Json::UInt(n) => Ok(Json::UInt(*n)),
        Json::Str(s) => Ok(Json::Str(s.clone())),
        Json::Arr(elems) => {
            let n: usize = elems.len();
            let mut out: Vec<Json> = Vec::new();
            let mut i: usize = 0;
            while i < n
                invariant
                    i <= n,
                    out@.len() == i,
                    forall|k: int| 0 <= k < i ==> mergeable(jv(#[trigger] elems@[k])),
                    forall|k: int|
                        0 <= k < i ==> jv(#[trigger] out@[k]) == merge_v(jv(elems@[k]), counts@),
                decreases n - i,
            {
                proof {
                    assert(decreases_to!(*tree => tree->Arr_0));
                    assert(decreases_to!(*elems => elems@));
                    assert(decreases_to!(elems@ => elems@[i as int]));
                }
                match merge(&elems[i], counts) {
                    Ok(m) => {
                        out.push(m);
                    },
                    Err(e) => {
                        proof {
                            lemma_jv_list(elems@);
                            lemma_mergeable_list(jv_list(elems@));
                            assert(jv_list(elems@)[i as int] == jv(elems@[i as int]));
                            assert(!mergeable_list(jv_list(elems@)));
                        }
                        return Err(e);
                    },
                }
                i = i + 1;
            }
            proof {
                lemma_jv_list(elems@);
                lemma_jv_list(out@);
                lemma_mergeable_list(jv_list(elems@));
                lemma_merge_list_v(jv_list(elems@), counts@);
                assert(jv_list(out@) =~= merge_list_v(jv_list(elems@), counts@));
            }
            Ok(Json::Arr(out))
        },
        Json::Obj(fields) => {
            let has_cc: bool = match obj_get_ref(fields, "childCategories") {
                Some(_) => true,
                None => false,
            };
            if !has_cc {
                let n: usize = fields.len();
                let mut out: Vec<(String, Json)> = Vec::new();
                let mut i: usize = 0;
                while i < n
                    invariant
                        i <= n,
                        out@.len() == i,
                        forall|k: int| 0 <= k < i ==> mergeable(jv(#[trigger] fields@[k].1)),
                        forall|k: int|
                            0 <= k < i ==> (#[trigger] out@[k]).0 == fields@[k].0 && jv(out@[k].1)
                                == merge_v(jv(fields@[k].1), counts@),
                    decreases n - i,
                {
                    proof {
                        assert(decreases_to!(*tree => tree->Obj_0));
                        assert(decreases_to!(*fields => fields@));
                        assert(decreases_to!(fields@ => fields@[i as int]));
                        assert(decreases_to!(fields@[i as int] => fields@[i as int].1));
                    }
                    let ks: String = fields[i].0.clone();
                    match merge(&fields[i].1, counts) {
                        Ok(m) => {
                            out.push((ks, m));
                        },
                        Err(e) => {
                            proof {
                                lemma_jv_fields(fields@);
                                lemma_mergeable_fields(jv_fields(fields@));
                                assert(jv_fields(fields@)[i as int].1 == jv(fields@[i as int].1));
                                assert(!mergeable_fields(jv_fields(fields@)));
                            }
                            return Err(e);
                        },
                    }
                    i = i + 1;
                }
                proof {
                    lemma_jv_fields(fields@);
                    lemma_jv_fields(out@);
                    lemma_mergeable_fields(jv_fields(fields@));
                    lemma_merge_fields_v(jv_fields(fields@), counts@);
                    assert(jv_fields(out@) =~= merge_fields_v(jv_fields(fields@), counts@));
                }
                Ok(Json::Obj(out))
            } else {
                let gkref: &Json = match obj_get_ref(fields, "key") {
                    Some(v) => v,
                    None => {
                        return Err(MergeError);
                    },
                };
                let gk0: &String = match gkref {
                    Json::Str(s) => s,
                    _ => {
                        return Err(MergeError);
                    },
                };
                let gk: String = group_alias(gk0.as_str());
                let catsref: &Json = match obj_get_ref(fields, "childCategories") {
                    Some(v) => v,
                    None => {
                        proof {
                            assert(false);
                        }
                        return Err(MergeError);
                    },
                };
                let cats: &Vec<Json> = match catsref {
                    Json::Arr(a) => a,
                    _ => {
                        return Err(MergeError);
                    },
                };
                let n: usize = cats.len();
                let mut newcats: Vec<Json> = Vec::new();
                let mut i: usize = 0;
                while i < n
                    invariant
                        i <= n,
                        newcats@.len() == i,
                        forall|k: int| 0 <= k < i ==> cat_ok(jv(#[trigger] cats@[k])),
                        forall|k: int|
                            0 <= k < i ==> jv(#[trigger] newcats@[k]) == merge_cat_v(
                                jv(cats@[k]),
                                gk@,
                                counts@,
                            ),
                    decreases n - i,
                {
                    match merge_cat(&cats[i], gk.as_str(), counts) {
                        Ok(m) => {
                            newcats.push(m);
                        },
                        Err(e) => {
                            proof {
                                lemma_jv_list(cats@);
                                lemma_cats_ok(jv_list(cats@));
                                assert(jv_list(cats@)[i as int] == jv(cats@[i as int]));
                                assert(!cats_ok(jv_list(cats@)));
                            }
                            return Err(e);
                        },
                    }
                    i = i + 1;
                }
                proof {
                    lemma_jv_list(cats@);
                    lemma_jv_list(newcats@);
                    lemma_cats_ok(jv_list(cats@));
                    lemma_jv_fields(fields@);
                    assert(jv_list(newcats@) =~= merge_cats_v(jv_list(cats@), gk@, counts@));
                }
                Ok(Json::Obj(rebuild_with(fields, "childCategories", Json::Arr(newcats))))
            }
        },
    }
}

/// The merge is deterministic: any two results of merging the same tree
/// with the same statistics are the same tree.
pub proof fn lemma_merge_deterministic(t: JsonV, c: CriteriaGroupsV, r1: JsonV, r2: JsonV)
    requires
        r1 == merge_v(t, c),
        r2 == merge_v(t, c),
    ensures
        r1 == r2,
{
}

/// The alias tables, entry by entry: group nodes keyed "patient" and
/// "donor" are looked up under "patients", "tumor_classification" under
/// "diagnosis", "biosamples" and "sample" under "specimen", and a
/// stratifier keyed "gender" under "Gender".
pub proof fn lemma_alias_tables()
    ensures
        group_alias_v("patient"@) == "patients"@,
        group_alias_v("donor"@) == "patients"@,
        group_alias_v("tumor_classification"@) == "diagnosis"@,
        group_alias_v("biosamples"@) == "specimen"@,
        group_alias_v("sample"@) == "specimen"@,
        stratifier_alias_v("gender"@) == "Gender"@,
{
    reveal_strlit("patient");
    reveal_strlit("donor");
    reveal_strlit("patients");
    reveal_strlit("tumor_classification");
    reveal_strlit("diagnosis");
    reveal_strlit("biosamples");
    reveal_strlit("sample");
    reveal_strlit("specimen");
    reveal_strlit("gender");
    reveal_strlit("Gender");
    assert("patient"@.len() == 7);
    assert("donor"@.len() == 5);
    assert("tumor_classification"@.len() == 20);
    assert("biosamples"@.len() == 10);
    assert("sample"@.len() == 6);
}

/// A concrete criterion whose stratum key has no matching statistics entry
/// is left exactly as it was; the merge completes without touching it.
pub proof fn lemma_missing_count_leaves_criterion(
    crit: JsonV,
    gk: Seq<char>,
    sk: Seq<char>,
    c: CriteriaGroupsV,
)
    requires
        element_of(c, gk, sk, str_of(obj_get(crit->Obj_0, "key"@))) is None,
    ensures
        annotate_crit_v(crit, gk, sk, c) == crit,
{
}

/// A found key has a first occurrence.
proof fn lemma_obj_get_some_first_index(fields: FieldsV, key: Seq<char>)
    requires
        obj_get(fields, key) is Some,
    ensures
        exists|i: int|
            #![trigger fields[i]]
            0 <= i < fields.len() && fields[i].0 == key && (forall|j: int|
                0 <= j < i ==> fields[j].0 != key),
    decreases fields.len(),
{
    if fields.len() > 0 {
        if fields[0].0 == key {
            assert(fields[0].0 == key && (forall|j: int| 0 <= j < 0 ==> fields[j].0 != key));
        } else {
            lemma_obj_get_some_first_index(fields.drop_first(), key);
            let i = choose|i: int|
                #![trigger fields.drop_first()[i]]
                0 <= i < fields.drop_first().len() && fields.drop_first()[i].0 == key && (
                forall|j: int| 0 <= j < i ==> fields.drop_first()[j].0 != key);
            assert(fields[i + 1] == fields.drop_first()[i]);
            assert(forall|j: int| 0 <= j < i + 1 ==> fields[j].0 != key) by {
                assert(forall|j: int|
                    1 <= j < i + 1 ==> fields[j] == fields.drop_first()[j - 1]);
            }
        }
    }
}

/// The merge removes and reorders nothing in an object: the merged object
/// has exactly the original keys, each in its place. (The one growth is
/// inside a criteria array, where synthesized criteria are appended.)
pub proof fn lemma_merge_keeps_fields(fields: FieldsV, c: CriteriaGroupsV)
    ensures
        merge_v(JsonV::Obj(fields), c) is Obj,
        merge_v(JsonV::Obj(fields), c)->Obj_0.len() == fields.len(),
        forall|i: int|
            0 <= i < fields.len() ==> (#[trigger] merge_v(JsonV::Obj(fields), c)->Obj_0[i]).0
                == fields[i].0,
{
    if has_field(fields, "childCategories"@) {
        lemma_obj_get_some_first_index(fields, "childCategories"@);
        let i = choose|i: int|
            #![trigger fields[i]]
            0 <= i < fields.len() && fields[i].0 == "childCategories"@ && (forall|j: int|
                0 <= j < i ==> fields[j].0 != "childCategories"@);
        let gk = group_alias_v(str_of(obj_get(fields, "key"@)));
        let cats = arr_of(obj_get(fields, "childCategories"@));
        lemma_obj_put_found(fields, "childCategories"@, JsonV::Arr(merge_cats_v(cats, gk, c)), i);
    } else {
        lemma_merge_fields_v(fields, c);
    }
}

/// The merge removes and reorders nothing in an array: element for element,
/// each merged value stands where its original stood.
pub proof fn lemma_merge_keeps_elements(elems: Seq<JsonV>, c: CriteriaGroupsV)
    ensures
        merge_v(JsonV::Arr(elems), c) is Arr,
        merge_v(JsonV::Arr(elems), c)->Arr_0.len() == elems.len(),
        forall|i: int|
            0 <= i < elems.len() ==> #[trigger] merge_v(JsonV::Arr(elems), c)->Arr_0[i]
                == merge_v(elems[i], c),
{
    lemma_merge_list_v(elems, c);
}

} // verus!
