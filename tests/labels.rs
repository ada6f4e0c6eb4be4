use plexo_core::errors::SdkError;
use plexo_core::labels::{
    classify_store_failure, create_label_statement, delete_label_statement, get_label_statement,
    update_label_statement, CreateLabelInput, Label, StoreFailure, UpdateLabelInput,
};
use plexo_core::query::SqlValue;

fn label() -> Label {
    Label {
        id: 42,
        created_at: 1_000,
        updated_at: 2_000,
        name: "bug".to_string(),
        description: Some("broken".to_string()),
        color: None,
    }
}

fn no_change() -> UpdateLabelInput {
    UpdateLabelInput { name: None, description: None, color: None }
}

#[test]
fn create_binds_every_column() {
    let input = CreateLabelInput { name: "bug".to_string(), description: None, color: Some("red".to_string()) };
    let s = create_label_statement(&input).unwrap();
    assert_eq!(s.sql, "INSERT INTO labels (name, description, color) VALUES ($1, $2, $3) RETURNING *");
    assert_eq!(
        s.params,
        vec![SqlValue::Text("bug".to_string()), SqlValue::Null, SqlValue::Text("red".to_string())]
    );
}

#[test]
fn create_without_name_is_rejected() {
    let input = CreateLabelInput { name: String::new(), description: None, color: None };
    assert!(matches!(create_label_statement(&input), Err(SdkError::Validation(_))));
}

#[test]
fn get_and_delete_bind_the_identity() {
    let g = get_label_statement(7);
    assert_eq!(g.sql, "SELECT * FROM labels WHERE id = $1");
    assert_eq!(g.params, vec![SqlValue::Id(7)]);
    let d = delete_label_statement(7);
    assert_eq!(d.sql, "DELETE FROM labels WHERE id = $1 RETURNING *");
    assert_eq!(d.params, vec![SqlValue::Id(7)]);
}

#[test]
fn update_coalesces_absent_fields() {
    let s = update_label_statement(9, &UpdateLabelInput { name: Some("n".to_string()), ..no_change() });
    assert!(s.sql.contains("name = COALESCE($1, name)"));
    assert!(s.sql.contains("WHERE id = $4"));
    assert_eq!(
        s.params,
        vec![SqlValue::Text("n".to_string()), SqlValue::Null, SqlValue::Null, SqlValue::Id(9)]
    );
}

#[test]
fn empty_update_only_moves_updated_at() {
    let before = label();
    let after = before.apply_update(&no_change(), 1_500);
    assert_eq!(after.id, before.id);
    assert_eq!(after.name, before.name);
    assert_eq!(after.description, before.description);
    assert_eq!(after.color, before.color);
    assert_eq!(after.created_at, before.created_at);
    assert_eq!(after.updated_at, 2_001);
    let later = before.apply_update(&no_change(), 9_000);
    assert_eq!(later.updated_at, 9_000);
}

#[test]
fn update_overwrites_present_fields() {
    let input = UpdateLabelInput { name: None, description: Some("fixed".to_string()), color: Some("green".to_string()) };
    let after = label().apply_update(&input, 3_000);
    assert_eq!(after.name, "bug");
    assert_eq!(after.description.as_deref(), Some("fixed"));
    assert_eq!(after.color.as_deref(), Some("green"));
}

#[test]
fn store_failures_are_classified() {
    assert_eq!(classify_store_failure(StoreFailure::RowNotFound), SdkError::NotFound);
    assert_eq!(
        classify_store_failure(StoreFailure::ConstraintViolation("dup".to_string())),
        SdkError::Conflict("dup".to_string())
    );
    assert_eq!(
        classify_store_failure(StoreFailure::Other("timeout".to_string())),
        SdkError::Storage("timeout".to_string())
    );
}

#[test]
fn delete_then_get_is_not_found() {
    let mut table = plexo_core::labels::LabelTable::new();
    table.insert(label()).unwrap();
    let mut other = label();
    other.id = 43;
    table.insert(other).unwrap();
    let gone = table.delete(42).unwrap();
    assert_eq!(gone.name, "bug");
    assert_eq!(table.get(42).map(|l| l.id), Err(SdkError::NotFound));
    assert_eq!(table.get(43).map(|l| l.id), Ok(43));
    assert_eq!(table.delete(42).map(|l| l.id), Err(SdkError::NotFound));
}

#[test]
fn table_rejects_duplicate_ids_and_updates_in_place() {
    let mut table = plexo_core::labels::LabelTable::new();
    table.insert(label()).unwrap();
    assert!(matches!(table.insert(label()), Err(SdkError::Conflict(_))));
    let after = table.update(42, &no_change(), 0).unwrap();
    assert_eq!(after.updated_at, 2_001);
    assert_eq!(table.get(42).unwrap().updated_at, 2_001);
    assert_eq!(table.update(7, &no_change(), 0).map(|l| l.id), Err(SdkError::NotFound));
    let copy = label().copy();
    assert_eq!(copy.description.as_deref(), Some("broken"));
}
