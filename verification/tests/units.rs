use const_typed_builder_derive::diagnostic::{DiagnosticKind, Level};
use const_typed_builder_derive::generator::solver::valid_groupident_combinations;
use const_typed_builder_derive::info::container::{Container, SolverKind};
use const_typed_builder_derive::info::group::{insert_sorted, Group, GroupCollection, GroupType};
use const_typed_builder_derive::info::field::{Field, FieldKind, SetterKind};
use const_typed_builder_derive::model::{GenericArgument, Generics, PathArguments, PathSegment, Type, TypeShape};
use const_typed_builder_derive::symbol::Symbol;
use const_typed_builder_derive::text::decimal_string;
use std::collections::BTreeSet;

fn group(name: &str, t: GroupType, members: &[usize]) -> Group {
    let mut g = Group::new(name.to_string(), 5, t);
    for m in members {
        g.associate(*m);
    }
    g
}

fn collection(groups: Vec<Group>) -> GroupCollection {
    let mut c = GroupCollection::new();
    for g in groups {
        assert!(c.insert(g).is_none());
    }
    c
}

fn combos_as_sets(c: &GroupCollection) -> Vec<BTreeSet<usize>> {
    valid_groupident_combinations(c).into_iter().map(|v| v.into_iter().collect()).collect()
}

#[test]
fn exact_one_of_three_gives_the_singletons() {
    let c = collection(vec![group("g", GroupType::Exact(1), &[2, 0, 4])]);
    let sets = combos_as_sets(&c);
    assert_eq!(sets.len(), 3);
    for s in [[0usize], [2], [4]] {
        assert!(sets.contains(&s.iter().copied().collect()));
    }
}

#[test]
fn at_most_one_of_two_includes_the_empty_choice() {
    let c = collection(vec![group("g", GroupType::AtMost(1), &[0, 1])]);
    let sets = combos_as_sets(&c);
    assert_eq!(sets.len(), 3);
    assert!(sets.contains(&BTreeSet::new()));
}

#[test]
fn overlapping_groups_are_all_respected() {
    let c = collection(vec![
        group("a", GroupType::AtLeast(1), &[0, 1]),
        group("b", GroupType::Exact(1), &[1, 2]),
    ]);
    let sets = combos_as_sets(&c);
    let expected: Vec<BTreeSet<usize>> =
        vec![[1].into_iter().collect(), [0, 2].into_iter().collect(), [0, 1].into_iter().collect()];
    assert_eq!(sets.len(), expected.len());
    for e in expected {
        assert!(sets.contains(&e));
    }
}

#[test]
fn choices_come_by_size_then_by_position() {
    let c = collection(vec![group("g", GroupType::AtLeast(1), &[4, 2, 0])]);
    assert_eq!(
        valid_groupident_combinations(&c),
        vec![vec![0], vec![2], vec![4], vec![0, 2], vec![0, 4], vec![2, 4], vec![0, 2, 4]]
    );
    let c = collection(vec![group("g", GroupType::AtMost(1), &[0, 1])]);
    assert_eq!(valid_groupident_combinations(&c), vec![vec![], vec![0], vec![1]]);
}

#[test]
fn each_choice_is_ascending() {
    let c = collection(vec![group("g", GroupType::AtLeast(2), &[7, 3, 5, 1])]);
    let combos = valid_groupident_combinations(&c);
    assert_eq!(combos.len(), 11);
    for v in combos {
        assert!(v.windows(2).all(|w| w[0] < w[1]), "{:?}", v);
    }
}

#[test]
fn no_groups_gives_one_empty_choice() {
    let c = GroupCollection::new();
    assert_eq!(valid_groupident_combinations(&c), vec![Vec::<usize>::new()]);
}

#[test]
fn unsatisfiable_groups_give_no_choice() {
    let c = collection(vec![group("g", GroupType::AtLeast(3), &[0, 1])]);
    assert!(valid_groupident_combinations(&c).is_empty());
}

#[test]
fn insert_sorted_keeps_order_and_reports_duplicates() {
    let mut v = vec![1, 4, 9];
    assert!(insert_sorted(&mut v, 5));
    assert_eq!(v, vec![1, 4, 5, 9]);
    assert!(!insert_sorted(&mut v, 4));
    assert_eq!(v, vec![1, 4, 5, 9]);
    assert!(insert_sorted(&mut v, 0));
    assert_eq!(v, vec![0, 1, 4, 5, 9]);
}

#[test]
fn group_is_valid_with_counts_members_only() {
    let g = group("g", GroupType::Exact(2), &[1, 3, 5]);
    assert!(g.is_valid_with(&[1, 3, 7, 8]));
    assert!(!g.is_valid_with(&[1, 7]));
    let g = group("g", GroupType::AtMost(1), &[1, 3]);
    assert!(g.is_valid_with(&[]));
    assert!(!g.is_valid_with(&[1, 3]));
    let g = group("g", GroupType::AtLeast(2), &[1, 3]);
    assert!(g.is_valid_with(&[3, 1]));
    assert!(!g.is_valid_with(&[3]));
}

fn check_kinds(g: &Group) -> Vec<(Level, DiagnosticKind)> {
    g.check().into_iter().map(|d| (d.level, d.kind)).collect()
}

#[test]
fn group_checks_report_useless_and_impossible_groups() {
    assert_eq!(check_kinds(&group("g", GroupType::Exact(1), &[0, 1])), vec![]);
    assert_eq!(
        check_kinds(&group("g", GroupType::Exact(0), &[0, 1])),
        vec![
            (Level::Warning, DiagnosticKind::ExpectedCountOutOfRange),
            (Level::Error, DiagnosticKind::GroupPreventsAll)
        ]
    );
    assert_eq!(
        check_kinds(&group("g", GroupType::AtLeast(3), &[0, 1])),
        vec![
            (Level::Warning, DiagnosticKind::ExpectedCountOutOfRange),
            (Level::Error, DiagnosticKind::GroupNeverSatisfied)
        ]
    );
    assert_eq!(
        check_kinds(&group("g", GroupType::AtMost(2), &[0, 1])),
        vec![
            (Level::Warning, DiagnosticKind::ExpectedCountOutOfRange),
            (Level::Warning, DiagnosticKind::GroupHasNoEffect)
        ]
    );
    assert_eq!(
        check_kinds(&group("g", GroupType::AtLeast(1), &[0])),
        vec![
            (Level::Warning, DiagnosticKind::NoValidExpectedCount),
            (Level::Warning, DiagnosticKind::GroupNeedsAllFields)
        ]
    );
    assert_eq!(
        check_kinds(&group("g", GroupType::Exact(2), &[0, 1])),
        vec![
            (Level::Warning, DiagnosticKind::ExpectedCountOutOfRange),
            (Level::Warning, DiagnosticKind::GroupNeedsAllFields)
        ]
    );
}

#[test]
fn group_collection_replaces_a_group_of_the_same_name() {
    let mut c = GroupCollection::new();
    assert!(c.insert(group("a", GroupType::Exact(1), &[])).is_none());
    assert!(c.insert(group("b", GroupType::Exact(1), &[])).is_none());
    let old = c.insert(group("a", GroupType::AtMost(2), &[])).unwrap();
    assert_eq!(old.group_type, GroupType::Exact(1));
    assert_eq!(c.len(), 2);
    assert_eq!(c.position(&"a".to_string()), Some(0));
    assert_eq!(c.associate(&"b".to_string(), 3), Some(true));
    assert_eq!(c.associate(&"b".to_string(), 3), Some(false));
    assert_eq!(c.associate(&"c".to_string(), 3), None);
    assert_eq!(c.groups[1].associated_indices, vec![3]);
}

#[test]
fn symbols_read_back_their_spelling() {
    for s in [Symbol::Builder, Symbol::AssumeMandatory, Symbol::AtLeast, Symbol::BruteForce, Symbol::AsRef, Symbol::AsMut] {
        assert_eq!(Symbol::from_text(&s.text().to_string()), Some(s));
    }
    assert_eq!(Symbol::from_text(&"asref".to_string()), Some(Symbol::AsRef));
    assert_eq!(Symbol::from_text(&"asmut".to_string()), Some(Symbol::AsMut));
    assert_eq!(Symbol::from_text(&"AtLeast".to_string()), None);
    assert_eq!(Symbol::AtMost.text(), "at_most");
}

#[test]
fn decimal_strings() {
    assert_eq!(decimal_string(0), "0");
    assert_eq!(decimal_string(7), "7");
    assert_eq!(decimal_string(105), "105");
    assert_eq!(decimal_string(usize::MAX), usize::MAX.to_string());
}

fn container(name: &str) -> Container {
    Container::new(
        "pub".to_string(),
        Generics { params: vec![], where_clause: String::new() },
        name.to_string(),
        GroupCollection::new(),
        vec![],
        SolverKind::BruteForce,
    )
}

#[test]
fn container_names_derive_from_the_ident() {
    let c = container("LaunchdPlist");
    assert_eq!(c.builder_ident(), "LaunchdPlistBuilder");
    assert_eq!(c.data_ident(), "LaunchdPlistData");
    assert_eq!(c.data_field_ident(), "__launchd_plist_data");
    assert_eq!(c.mod_ident(), "launchd_plist_builder");
    assert!(!c.generate_module());
}

#[test]
fn field_const_ident_uses_the_index() {
    let f = Field::new(
        "x".to_string(),
        Type { text: "u8".to_string(), shape: TypeShape::Other },
        12,
        FieldKind::Mandatory,
        SetterKind::Standard,
        0,
    );
    assert_eq!(f.const_ident(), "__BUILDER_CONST12");
    assert!(!f.is_option_type());
    assert_eq!(f.setter_input_type().unwrap().text, "u8");
}

#[test]
fn inner_type_only_for_option_fields() {
    let vec_u8 = Type {
        text: "Vec<u8>".to_string(),
        shape: TypeShape::Path {
            qself: false,
            segments: vec![PathSegment {
                ident: "Vec".to_string(),
                arguments: PathArguments::AngleBracketed(vec![GenericArgument::Type(Type {
                    text: "u8".to_string(),
                    shape: TypeShape::Other,
                })]),
            }],
        },
    };
    let f = Field::new("v".to_string(), vec_u8, 0, FieldKind::Mandatory, SetterKind::Standard, 0);
    assert!(f.inner_type().is_none());
    let opt_u8 = Type {
        text: "Option<u8>".to_string(),
        shape: TypeShape::Path {
            qself: false,
            segments: vec![PathSegment {
                ident: "Option".to_string(),
                arguments: PathArguments::AngleBracketed(vec![GenericArgument::Type(Type {
                    text: "u8".to_string(),
                    shape: TypeShape::Other,
                })]),
            }],
        },
    };
    let g = Field::new("o".to_string(), opt_u8, 1, FieldKind::Optional, SetterKind::Standard, 0);
    assert_eq!(g.inner_type().unwrap().text, "u8");
}
