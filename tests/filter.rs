use plexo_core::errors::SdkError;
use plexo_core::filter::{GetLabelsWhere, MAX_PARAMS};

fn node() -> GetLabelsWhere {
    GetLabelsWhere { name: None, description: None, color: None, _and: None, _or: None }
}

fn named(n: &str) -> GetLabelsWhere {
    GetLabelsWhere { name: Some(n.to_string()), ..node() }
}

fn colored(c: &str) -> GetLabelsWhere {
    GetLabelsWhere { color: Some(c.to_string()), ..node() }
}

#[test]
fn blank_tree_compiles_to_nothing() {
    let f = node().compile_sql().unwrap();
    assert_eq!(f.text, "");
    assert!(f.params.is_empty());
    let empty_groups = GetLabelsWhere { _and: Some(vec![]), _or: Some(vec![node()]), ..node() };
    let f = empty_groups.compile_sql().unwrap();
    assert_eq!(f.text, "");
    assert!(f.params.is_empty());
}

#[test]
fn own_fields_are_joined_by_and() {
    let n = GetLabelsWhere {
        name: Some("bug".to_string()),
        description: Some("d".to_string()),
        color: Some("red".to_string()),
        ..node()
    };
    let f = n.compile_sql().unwrap();
    assert_eq!(f.text, "(name = $1 AND description = $2 AND color = $3)");
    assert_eq!(f.params, vec!["bug".to_string(), "d".to_string(), "red".to_string()]);
}

#[test]
fn and_pair_is_a_conjunction() {
    let n = GetLabelsWhere { _and: Some(vec![named("a"), colored("b")]), ..node() };
    let f = n.compile_sql().unwrap();
    assert_eq!(f.text, "((name = $1) AND (color = $2))");
    assert_eq!(f.params, vec!["a".to_string(), "b".to_string()]);
}

#[test]
fn empty_and_child_is_skipped() {
    let n = GetLabelsWhere { _and: Some(vec![node(), colored("b")]), ..node() };
    let f = n.compile_sql().unwrap();
    assert_eq!(f.text, "((color = $1))");
}

#[test]
fn and_group_or_group_are_joined_by_or() {
    let n = GetLabelsWhere {
        name: Some("x".to_string()),
        _and: Some(vec![colored("red")]),
        _or: Some(vec![named("y"), named("z")]),
        ..node()
    };
    let f = n.compile_sql().unwrap();
    assert_eq!(f.text, "(name = $1 AND (color = $2)) OR ((name = $3) OR (name = $4))");
    assert_eq!(
        f.params,
        vec!["x".to_string(), "red".to_string(), "y".to_string(), "z".to_string()]
    );
}

#[test]
fn literals_never_enter_the_text() {
    let evil = named("x'; DROP TABLE labels; --");
    let plain = named("x");
    let fe = evil.compile_sql().unwrap();
    let fp = plain.compile_sql().unwrap();
    assert_eq!(fe.text, fp.text);
    assert_eq!(fe.text, "(name = $1)");
    assert_eq!(fe.params, vec!["x'; DROP TABLE labels; --".to_string()]);
}

#[test]
fn placeholders_past_nine_use_two_digits() {
    let children: Vec<GetLabelsWhere> = (0..11).map(|i| named(&format!("n{}", i))).collect();
    let n = GetLabelsWhere { _or: Some(children), ..node() };
    let f = n.compile_sql().unwrap();
    assert!(f.text.ends_with("(name = $10) OR (name = $11))"));
    assert_eq!(f.params.len(), 11);
}

#[test]
fn too_many_parameters_is_a_validation_error() {
    let children: Vec<GetLabelsWhere> = (0..MAX_PARAMS + 1).map(|_| named("a")).collect();
    let n = GetLabelsWhere { _and: Some(children), ..node() };
    assert!(matches!(n.compile_sql(), Err(SdkError::Validation(_))));
    assert_eq!(n.count_params(MAX_PARAMS), None);
    assert_eq!(n.count_params(MAX_PARAMS + 1), Some(MAX_PARAMS + 1));
}

#[test]
fn compile_at_numbers_from_base() {
    let f = named("a").compile_at(7);
    assert_eq!(f.text, "(name = $7)");
}

fn row(id: u128, name: &str, color: Option<&str>) -> plexo_core::labels::Label {
    plexo_core::labels::Label {
        id,
        created_at: 0,
        updated_at: 0,
        name: name.to_string(),
        description: None,
        color: color.map(|c| c.to_string()),
    }
}

fn seeded() -> Vec<plexo_core::labels::Label> {
    vec![
        row(1, "a", Some("red")),
        row(2, "a", Some("blue")),
        row(3, "b", Some("red")),
        row(4, "c", None),
    ]
}

fn selected(n: &GetLabelsWhere) -> Vec<u128> {
    seeded().iter().filter(|l| n.matches(l)).map(|l| l.id).collect()
}

#[test]
fn and_pair_selects_rows_satisfying_both() {
    let n = GetLabelsWhere { _and: Some(vec![named("a"), colored("red")]), ..node() };
    assert_eq!(selected(&n), vec![1]);
}

#[test]
fn and_or_groups_select_their_union() {
    let n = GetLabelsWhere { name: Some("a".to_string()), _or: Some(vec![colored("red")]), ..node() };
    assert_eq!(selected(&n), vec![1, 2, 3]);
}

#[test]
fn blank_filter_selects_every_row() {
    assert_eq!(selected(&node()), vec![1, 2, 3, 4]);
    assert!(!node().imposes());
    let nested = GetLabelsWhere { _and: Some(vec![node()]), _or: Some(vec![colored("x")]), ..node() };
    assert!(nested.imposes());
}

#[test]
fn null_column_matches_no_literal() {
    let n = colored("red");
    assert!(!n.matches(&row(9, "z", None)));
}
