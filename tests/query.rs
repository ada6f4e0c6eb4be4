use plexo_core::errors::SdkError;
use plexo_core::filter::GetLabelsWhere;
use plexo_core::query::{build_list_query, is_label_sort_column, GetLabelsInput, SortOrder, SqlValue};

fn no_options() -> GetLabelsInput {
    GetLabelsInput { filter: None, sort_by: None, sort_order: None, limit: None, offset: None }
}

#[test]
fn default_listing_is_bounded() {
    let s = build_list_query(&no_options()).unwrap();
    assert_eq!(s.sql, "SELECT * FROM labels LIMIT $1 OFFSET $2");
    assert_eq!(s.params, vec![SqlValue::Int(100), SqlValue::Int(0)]);
}

#[test]
fn blank_filter_adds_no_where() {
    let input = GetLabelsInput {
        filter: Some(GetLabelsWhere { name: None, description: None, color: None, _and: None, _or: None }),
        ..no_options()
    };
    let s = build_list_query(&input).unwrap();
    assert_eq!(s.sql, "SELECT * FROM labels LIMIT $1 OFFSET $2");
}

#[test]
fn filtered_sorted_listing() {
    let input = GetLabelsInput {
        filter: Some(GetLabelsWhere {
            name: Some("bug".to_string()),
            description: None,
            color: Some("red".to_string()),
            _and: None,
            _or: None,
        }),
        sort_by: Some("created_at".to_string()),
        sort_order: Some(SortOrder::Desc),
        limit: Some(5),
        offset: Some(10),
    };
    let s = build_list_query(&input).unwrap();
    assert_eq!(
        s.sql,
        "SELECT * FROM labels WHERE (name = $1 AND color = $2) ORDER BY created_at DESC LIMIT $3 OFFSET $4"
    );
    assert_eq!(
        s.params,
        vec![
            SqlValue::Text("bug".to_string()),
            SqlValue::Text("red".to_string()),
            SqlValue::Int(5),
            SqlValue::Int(10)
        ]
    );
}

#[test]
fn sort_without_direction() {
    let input = GetLabelsInput { sort_by: Some("name".to_string()), ..no_options() };
    let s = build_list_query(&input).unwrap();
    assert_eq!(s.sql, "SELECT * FROM labels ORDER BY name LIMIT $1 OFFSET $2");
    let input = GetLabelsInput { sort_order: Some(SortOrder::Asc), ..no_options() };
    let s = build_list_query(&input).unwrap();
    assert_eq!(s.sql, "SELECT * FROM labels LIMIT $1 OFFSET $2");
}

#[test]
fn unknown_sort_column_is_rejected() {
    let input = GetLabelsInput { sort_by: Some("name; DROP TABLE labels".to_string()), ..no_options() };
    assert!(matches!(build_list_query(&input), Err(SdkError::Validation(_))));
    assert!(is_label_sort_column(&"updated_at".to_string()));
    assert!(!is_label_sort_column(&"Name".to_string()));
}

#[test]
fn negative_limit_or_offset_is_rejected() {
    let input = GetLabelsInput { limit: Some(-1), ..no_options() };
    assert!(matches!(build_list_query(&input), Err(SdkError::Validation(_))));
    let input = GetLabelsInput { offset: Some(-5), ..no_options() };
    assert!(matches!(build_list_query(&input), Err(SdkError::Validation(_))));
}
