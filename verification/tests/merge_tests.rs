use spot::catalogue::{
    get_element, get_stratifier, group_alias, merge, stratifier_alias, Criteria, CriteriaGroup,
    CriteriaGroups,
};
use spot::json::Json;

fn s(v: &str) -> String {
    v.to_string()
}

fn obj(fields: Vec<(&str, Json)>) -> Json {
    Json::Obj(fields.into_iter().map(|(k, v)| (k.to_string(), v)).collect())
}

fn criteria(crits: Vec<(&str, u64)>) -> Criteria {
    let mut entries: Vec<(String, u64)> = Vec::new();
    for (k, n) in crits {
        entries.push((s(k), n));
    }
    Criteria { entries }
}

fn one_stratifier_stats(group: &str, stratifier: &str, crits: Vec<(&str, u64)>) -> CriteriaGroups {
    let mut group_entries: Vec<(String, Criteria)> = Vec::new();
    group_entries.push((s(stratifier), criteria(crits)));
    let mut entries: Vec<(String, CriteriaGroup)> = Vec::new();
    entries.push((s(group), CriteriaGroup { entries: group_entries }));
    CriteriaGroups { entries }
}

fn diagnosis_stats() -> CriteriaGroups {
    let mut crits: Vec<(&str, u64)> = Vec::new();
    crits.push(("C50", 3));
    crits.push(("C34", 1));
    one_stratifier_stats("diagnosis", "icd10", crits)
}

fn synthesis_group() -> Json {
    obj(vec![
        ("key", Json::Str(s("diagnosis"))),
        (
            "childCategories",
            Json::Arr(vec![obj(vec![
                ("key", Json::Str(s("icd10"))),
                ("type", Json::Str(s("EQUALS"))),
                ("criteria", Json::Arr(vec![])),
            ])]),
        ),
    ])
}

fn synthesized_criterion(key: &str, count: u64) -> Json {
    obj(vec![
        ("key", Json::Str(s(key))),
        ("name", Json::Str(s(key))),
        ("description", Json::Str(String::new())),
        ("count", Json::UInt(count)),
    ])
}

#[test]
fn merge_synthesizes_criteria_from_stats() {
    let merged = merge(&synthesis_group(), &diagnosis_stats()).expect("mergeable");
    let expected = obj(vec![
        ("key", Json::Str(s("diagnosis"))),
        (
            "childCategories",
            Json::Arr(vec![obj(vec![
                ("key", Json::Str(s("icd10"))),
                ("type", Json::Str(s("EQUALS"))),
                (
                    "criteria",
                    Json::Arr(vec![
                        synthesized_criterion("C50", 3),
                        synthesized_criterion("C34", 1),
                    ]),
                ),
            ])]),
        ),
    ]);
    assert_eq!(merged, expected);
}

#[test]
fn merge_is_deterministic() {
    let r1 = merge(&synthesis_group(), &diagnosis_stats()).expect("mergeable");
    let r2 = merge(&synthesis_group(), &diagnosis_stats()).expect("mergeable");
    assert_eq!(r1, r2);
}

#[test]
fn merge_attaches_counts_to_concrete_criteria() {
    let tree = obj(vec![
        ("key", Json::Str(s("diagnosis"))),
        (
            "childCategories",
            Json::Arr(vec![obj(vec![
                ("key", Json::Str(s("icd10"))),
                ("type", Json::Str(s("EQUALS"))),
                (
                    "criteria",
                    Json::Arr(vec![obj(vec![
                        ("key", Json::Str(s("C50"))),
                        ("name", Json::Str(s("Breast"))),
                    ])]),
                ),
            ])]),
        ),
    ]);
    let merged = merge(&tree, &diagnosis_stats()).expect("mergeable");
    let expected = obj(vec![
        ("key", Json::Str(s("diagnosis"))),
        (
            "childCategories",
            Json::Arr(vec![obj(vec![
                ("key", Json::Str(s("icd10"))),
                ("type", Json::Str(s("EQUALS"))),
                (
                    "criteria",
                    Json::Arr(vec![obj(vec![
                        ("key", Json::Str(s("C50"))),
                        ("name", Json::Str(s("Breast"))),
                        ("count", Json::UInt(3)),
                    ])]),
                ),
            ])]),
        ),
    ]);
    assert_eq!(merged, expected);
}

#[test]
fn merge_leaves_criterion_without_matching_count_untouched() {
    let criterion = obj(vec![("key", Json::Str(s("D99")))]);
    let tree = obj(vec![
        ("key", Json::Str(s("diagnosis"))),
        (
            "childCategories",
            Json::Arr(vec![obj(vec![
                ("key", Json::Str(s("icd10"))),
                ("type", Json::Str(s("EQUALS"))),
                ("criteria", Json::Arr(vec![criterion])),
            ])]),
        ),
    ]);
    let merged = merge(&tree, &diagnosis_stats()).expect("merge completes despite the miss");
    let expected = obj(vec![
        ("key", Json::Str(s("diagnosis"))),
        (
            "childCategories",
            Json::Arr(vec![obj(vec![
                ("key", Json::Str(s("icd10"))),
                ("type", Json::Str(s("EQUALS"))),
                (
                    "criteria",
                    Json::Arr(vec![obj(vec![("key", Json::Str(s("D99")))])]),
                ),
            ])]),
        ),
    ]);
    assert_eq!(merged, expected);
}

#[test]
fn merge_looks_up_aliased_group_keys() {
    // a group keyed "patient" is looked up under "patients"
    let tree = obj(vec![
        ("key", Json::Str(s("patient"))),
        (
            "childCategories",
            Json::Arr(vec![obj(vec![
                ("key", Json::Str(s("gender"))),
                ("type", Json::Str(s("EQUALS"))),
                ("criteria", Json::Arr(vec![])),
            ])]),
        ),
    ]);
    // ... and a stratifier keyed "gender" under "Gender"
    let counts = one_stratifier_stats("patients", "Gender", vec![("male", 7)]);
    let merged = merge(&tree, &counts).expect("mergeable");
    let expected = obj(vec![
        ("key", Json::Str(s("patient"))),
        (
            "childCategories",
            Json::Arr(vec![obj(vec![
                ("key", Json::Str(s("gender"))),
                ("type", Json::Str(s("EQUALS"))),
                ("criteria", Json::Arr(vec![synthesized_criterion("male", 7)])),
            ])]),
        ),
    ]);
    assert_eq!(merged, expected);
}

#[test]
fn alias_tables_cover_all_known_keys() {
    assert_eq!(group_alias("patient"), "patients");
    assert_eq!(group_alias("donor"), "patients");
    assert_eq!(group_alias("tumor_classification"), "diagnosis");
    assert_eq!(group_alias("biosamples"), "specimen");
    assert_eq!(group_alias("sample"), "specimen");
    assert_eq!(group_alias("anything_else"), "anything_else");
    assert_eq!(stratifier_alias("gender"), "Gender");
    assert_eq!(stratifier_alias("icd10"), "icd10");
}

#[test]
fn merge_skips_non_equals_categories() {
    let tree = obj(vec![
        ("key", Json::Str(s("diagnosis"))),
        (
            "childCategories",
            Json::Arr(vec![obj(vec![
                ("key", Json::Str(s("icd10"))),
                ("type", Json::Str(s("RANGE"))),
                ("criteria", Json::Arr(vec![])),
            ])]),
        ),
    ]);
    let merged = merge(&tree, &diagnosis_stats()).expect("mergeable");
    // the non-EQUALS category is carried over untouched
    assert_eq!(merged, tree);
}

#[test]
fn merge_recurses_into_plain_objects_and_arrays() {
    let tree = obj(vec![(
        "wrapper",
        Json::Arr(vec![synthesis_group(), Json::Str(s("leaf"))]),
    )]);
    let merged = merge(&tree, &diagnosis_stats()).expect("mergeable");
    match &merged {
        Json::Obj(fields) => {
            assert_eq!(fields.len(), 1);
            match &fields[0].1 {
                Json::Arr(elems) => {
                    assert_eq!(elems.len(), 2);
                    assert_eq!(elems[1], Json::Str(s("leaf")));
                    let expected =
                        merge(&synthesis_group(), &diagnosis_stats()).expect("mergeable");
                    assert_eq!(elems[0], expected);
                }
                other => panic!("expected array, got {:?}", other),
            }
        }
        other => panic!("expected object, got {:?}", other),
    }
}

#[test]
fn merge_rejects_group_node_without_key() {
    let tree = obj(vec![("childCategories", Json::Arr(vec![]))]);
    assert!(merge(&tree, &diagnosis_stats()).is_err());
}

#[test]
fn merge_rejects_equals_category_without_criteria_array() {
    let tree = obj(vec![
        ("key", Json::Str(s("diagnosis"))),
        (
            "childCategories",
            Json::Arr(vec![obj(vec![
                ("key", Json::Str(s("icd10"))),
                ("type", Json::Str(s("EQUALS"))),
            ])]),
        ),
    ]);
    assert!(merge(&tree, &diagnosis_stats()).is_err());
}

#[test]
fn merge_replaces_existing_count_in_place() {
    let tree = obj(vec![
        ("key", Json::Str(s("diagnosis"))),
        (
            "childCategories",
            Json::Arr(vec![obj(vec![
                ("key", Json::Str(s("icd10"))),
                ("type", Json::Str(s("EQUALS"))),
                (
                    "criteria",
                    Json::Arr(vec![obj(vec![
                        ("key", Json::Str(s("C50"))),
                        ("count", Json::UInt(999)),
                        ("name", Json::Str(s("Breast"))),
                    ])]),
                ),
            ])]),
        ),
    ]);
    let merged = merge(&tree, &diagnosis_stats()).expect("mergeable");
    let expected_criterion = obj(vec![
        ("key", Json::Str(s("C50"))),
        ("count", Json::UInt(3)),
        ("name", Json::Str(s("Breast"))),
    ]);
    match &merged {
        Json::Obj(fields) => match &fields[1].1 {
            Json::Arr(cats) => match &cats[0] {
                Json::Obj(cf) => match &cf[2].1 {
                    Json::Arr(crits) => assert_eq!(crits[0], expected_criterion),
                    other => panic!("expected criteria array, got {:?}", other),
                },
                other => panic!("expected category object, got {:?}", other),
            },
            other => panic!("expected categories array, got {:?}", other),
        },
        other => panic!("expected object, got {:?}", other),
    }
}

#[test]
fn diagnosis_stratifier_forces_diagnosis_group() {
    // an empty-criteria stratifier keyed "diagnosis" under a "patient" group
    // is looked up under the "diagnosis" group, not under "patients"
    let tree = obj(vec![
        ("key", Json::Str(s("patient"))),
        (
            "childCategories",
            Json::Arr(vec![obj(vec![
                ("key", Json::Str(s("diagnosis"))),
                ("type", Json::Str(s("EQUALS"))),
                ("criteria", Json::Arr(vec![])),
            ])]),
        ),
    ]);
    let counts = one_stratifier_stats("diagnosis", "diagnosis", vec![("C50", 4)]);
    let merged = merge(&tree, &counts).expect("mergeable");
    let expected = obj(vec![
        ("key", Json::Str(s("patient"))),
        (
            "childCategories",
            Json::Arr(vec![obj(vec![
                ("key", Json::Str(s("diagnosis"))),
                ("type", Json::Str(s("EQUALS"))),
                ("criteria", Json::Arr(vec![synthesized_criterion("C50", 4)])),
            ])]),
        ),
    ]);
    assert_eq!(merged, expected);
}

#[test]
fn lookups_find_entries_three_levels_deep() {
    let counts = diagnosis_stats();
    assert_eq!(get_element(&counts, "diagnosis", "icd10", "C50"), Some(3));
    assert_eq!(get_element(&counts, "diagnosis", "icd10", "C34"), Some(1));
    assert_eq!(get_element(&counts, "diagnosis", "icd10", "C99"), None);
    assert_eq!(get_element(&counts, "diagnosis", "other", "C50"), None);
    assert_eq!(get_element(&counts, "nope", "icd10", "C50"), None);
    let strat = get_stratifier(&counts, "diagnosis", "icd10").expect("present");
    assert_eq!(strat.entries.len(), 2);
    assert!(get_stratifier(&counts, "diagnosis", "gone").is_none());
}

#[test]
fn merge_leaves_scalars_alone() {
    let counts = diagnosis_stats();
    assert_eq!(merge(&Json::Null, &counts).unwrap(), Json::Null);
    assert_eq!(merge(&Json::Bool(true), &counts).unwrap(), Json::Bool(true));
    assert_eq!(merge(&Json::Int(-4), &counts).unwrap(), Json::Int(-4));
    assert_eq!(
        merge(&Json::Str(s("hello")), &counts).unwrap(),
        Json::Str(s("hello"))
    );
}
