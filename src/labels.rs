use vstd::prelude::*;
use vstd::string::*;

use crate::errors::SdkError;
use crate::query::{SqlValue, Statement};

verus! {

/// A stored label. Timestamps are microseconds since the Unix epoch; the id is
/// the 128-bit value of the label's UUID.
pub struct Label {
    pub id: u128,
    pub created_at: i64,
    pub updated_at: i64,
    pub name: String,
    pub description: Option<String>,
    pub color: Option<String>,
}

pub struct CreateLabelInput {
    pub name: String,
    pub description: Option<String>,
    pub color: Option<String>,
}

/// A partial update: an absent field keeps the stored value.
pub struct UpdateLabelInput {
    pub name: Option<String>,
    pub description: Option<String>,
    pub color: Option<String>,
}

/// How the store reported a failed statement.
pub enum StoreFailure {
    /// The statement matched no row.
    RowNotFound,
    /// A unique or other integrity constraint rejected the statement.
    ConstraintViolation(String),
    /// Any other failure, a timeout included.
    Other(String),
}

pub open spec fn insert_sql() -> Seq<char> {
    "INSERT INTO labels (name, description, color) VALUES ($1, $2, $3) RETURNING *"@
}

pub open spec fn select_by_id_sql() -> Seq<char> {
    "SELECT * FROM labels WHERE id = $1"@
}

/// Absent fields keep their column through COALESCE; `updated_at` moves to the
/// statement's clock, and at least one microsecond past its stored value.
pub open spec fn update_sql() -> Seq<char> {
    "UPDATE labels SET name = COALESCE($1, name), description = COALESCE($2, description), color = COALESCE($3, color), updated_at = GREATEST(clock_timestamp(), updated_at + INTERVAL '1 microsecond') WHERE id = $4 RETURNING *"@
}

pub open spec fn delete_sql() -> Seq<char> {
    "DELETE FROM labels WHERE id = $1 RETURNING *"@
}

/// The bound value of an optional text column: NULL when absent.
pub open spec fn opt_value(o: Option<String>) -> SqlValue {
    match o {
        Some(s) => SqlValue::Text(s),
        None => SqlValue::Null,
    }
}

fn opt_text(o: &Option<String>) -> (r: SqlValue)
    ensures
        r == opt_value(*o),
{
    match o {
        Some(s) => SqlValue::Text(s.clone()),
        None => SqlValue::Null,
    }
}

/// The statement that inserts a label; a label needs a non-empty name.
pub fn create_label_statement(input: &CreateLabelInput) -> (r: Result<Statement, SdkError>)
    ensures
        input.name@.len() == 0 <==> r is Err,
        r is Err ==> r->Err_0 is Validation,
        r is Ok ==> r->Ok_0.sql@ == insert_sql() && r->Ok_0.params@ == seq![
            SqlValue::Text(input.name),
            opt_value(input.description),
            opt_value(input.color),
        ],
{
    if input.name.as_str().is_empty() {
        return Err(SdkError::Validation(String::from_str("a label needs a name")));
    }
    let sql = String::from_str(
        "INSERT INTO labels (name, description, color) VALUES ($1, $2, $3) RETURNING *",
    );
    let params = vec![
        SqlValue::Text(input.name.clone()),
        opt_text(&input.description),
        opt_text(&input.color),
    ];
    proof {
        reveal_strlit("INSERT INTO labels (name, description, color) VALUES ($1, $2, $3) RETURNING *");
        assert(params@ =~= seq![
            SqlValue::Text(input.name),
            opt_value(input.description),
            opt_value(input.color),
        ]);
    }
    Ok(Statement { sql, params })
}

/// The statement that reads the label with identity `id`.
pub fn get_label_statement(id: u128) -> (r: Statement)
    ensures
        r.sql@ == select_by_id_sql(),
        r.params@ == seq![SqlValue::Id(id)],
{
    let sql = String::from_str("SELECT * FROM labels WHERE id = $1");
    let params = vec![SqlValue::Id(id)];
    proof {
        reveal_strlit("SELECT * FROM labels WHERE id = $1");
        assert(params@ =~= seq![SqlValue::Id(id)]);
    }
    Statement { sql, params }
}

/// The statement that applies a partial update to the label `id`.
pub fn update_label_statement(id: u128, input: &UpdateLabelInput) -> (r: Statement)
    ensures
        r.sql@ == update_sql(),
        r.params@ == seq![
            opt_value(input.name),
            opt_value(input.description),
            opt_value(input.color),
            SqlValue::Id(id),
        ],
{
    let sql = String::from_str(
        "UPDATE labels SET name = COALESCE($1, name), description = COALESCE($2, description), color = COALESCE($3, color), updated_at = GREATEST(clock_timestamp(), updated_at + INTERVAL '1 microsecond') WHERE id = $4 RETURNING *",
    );
    let params = vec![
        opt_text(&input.name),
        opt_text(&input.description),
        opt_text(&input.color),
        SqlValue::Id(id),
    ];
    proof {
        reveal_strlit(
            "UPDATE labels SET name = COALESCE($1, name), description = COALESCE($2, description), color = COALESCE($3, color), updated_at = GREATEST(clock_timestamp(), updated_at + INTERVAL '1 microsecond') WHERE id = $4 RETURNING *",
        );
        assert(params@ =~= seq![
            opt_value(input.name),
            opt_value(input.description),
            opt_value(input.color),
            SqlValue::Id(id),
        ]);
    }
    Statement { sql, params }
}

/// The statement that deletes the label `id` and returns its last state.
pub fn delete_label_statement(id: u128) -> (r: Statement)
    ensures
        r.sql@ == delete_sql(),
        r.params@ == seq![SqlValue::Id(id)],
{
    let sql = String::from_str("DELETE FROM labels WHERE id = $1 RETURNING *");
    let params = vec![SqlValue::Id(id)];
    proof {
        reveal_strlit("DELETE FROM labels WHERE id = $1 RETURNING *");
        assert(params@ =~= seq![SqlValue::Id(id)]);
    }
    Statement { sql, params }
}

/// Maps a store failure onto the error taxonomy: a missing row is `NotFound`,
/// a constraint violation is `Conflict`, anything else (a timeout too) is
/// `Storage`.
pub fn classify_store_failure(f: StoreFailure) -> (r: SdkError)
    ensures
        (f is RowNotFound) <==> (r is NotFound),
        f is ConstraintViolation ==> r == SdkError::Conflict(f->ConstraintViolation_0),
        f is Other ==> r == SdkError::Storage(f->Other_0),
{
    match f {
        StoreFailure::RowNotFound => SdkError::NotFound,
        StoreFailure::ConstraintViolation(m) => SdkError::Conflict(m),
        StoreFailure::Other(m) => SdkError::Storage(m),
    }
}

pub open spec fn coalesce(new: Option<String>, old: Option<String>) -> Option<String> {
    match new {
        Some(v) => Some(v),
        None => old,
    }
}

/// The time a row stamps on update: the clock, but strictly past `prev`.
pub open spec fn next_stamp(prev: i64, clock: i64) -> int {
    if clock > prev {
        clock as int
    } else {
        prev + 1
    }
}

/// The label as the update statement leaves it, given the statement's clock
/// reading `clock`.
pub open spec fn updated_label(l: Label, input: UpdateLabelInput, clock: i64) -> Label {
    Label {
        id: l.id,
        created_at: l.created_at,
        updated_at: next_stamp(l.updated_at, clock) as i64,
        name: match input.name {
            Some(v) => v,
            None => l.name,
        },
        description: coalesce(input.description, l.description),
        color: coalesce(input.color, l.color),
    }
}

impl Label {
    /// The label as the update statement leaves it, given the statement's
    /// clock reading `clock`: absent fields keep their value, the identity
    /// and creation time never change, and `updated_at` strictly increases.
    pub fn apply_update(&self, input: &UpdateLabelInput, clock: i64) -> (r: Label)
        requires
            self.updated_at < i64::MAX,
        ensures
            r == updated_label(*self, *input, clock),
    {
        let name = match &input.name {
            Some(v) => v.clone(),
            None => self.name.clone(),
        };
        let description = match &input.description {
            Some(v) => Some(v.clone()),
            None => self.description.clone(),
        };
        let color = match &input.color {
            Some(v) => Some(v.clone()),
            None => self.color.clone(),
        };
        let updated_at = if clock > self.updated_at {
            clock
        } else {
            self.updated_at + 1
        };
        Label { id: self.id, created_at: self.created_at, updated_at, name, description, color }
    }
}

/// An update with every field absent leaves the label as it was, except that
/// `updated_at` strictly increases.
pub proof fn law_empty_update(prev: Label, input: UpdateLabelInput, clock: i64)
    requires
        input.name is None,
        input.description is None,
        input.color is None,
        prev.updated_at < i64::MAX,
    ensures
        ({
            let next = updated_label(prev, input, clock);
            &&& next.id == prev.id
            &&& next.name == prev.name
            &&& next.description == prev.description
            &&& next.color == prev.color
            &&& next.created_at == prev.created_at
            &&& next.updated_at > prev.updated_at
        }),
{
}

fn copy_text(o: &Option<String>) -> (r: Option<String>)
    ensures
        r == *o,
{
    match o {
        Some(s) => Some(s.clone()),
        None => None,
    }
}

impl Label {
    /// A field-for-field copy.
    pub fn copy(&self) -> (r: Label)
        ensures
            r == *self,
    {
        Label {
            id: self.id,
            created_at: self.created_at,
            updated_at: self.updated_at,
            name: self.name.clone(),
            description: copy_text(&self.description),
            color: copy_text(&self.color),
        }
    }
}

/// Labels held in memory under the store's rules: identities are unique.
pub struct LabelTable {
    pub rows: Vec<Label>,
}

pub open spec fn ids_unique(rows: Seq<Label>) -> bool {
    forall|i: int, j: int|
        0 <= i < rows.len() && 0 <= j < rows.len() && i != j ==> rows[i].id != rows[j].id
}

/// Whether some row of `rows` has identity `id`.
pub open spec fn has_id(rows: Seq<Label>, id: u128) -> bool {
    exists|i: int| 0 <= i < rows.len() && rows[i].id == id
}

impl LabelTable {
    pub open spec fn wf(&self) -> bool {
        ids_unique(self.rows@)
    }

    pub fn new() -> (r: LabelTable)
        ensures
            r.wf(),
            r.rows@.len() == 0,
    {
        LabelTable { rows: Vec::new() }
    }

    /// Position of the row with identity `id`, if any.
    fn position(&self, id: u128) -> (r: Option<usize>)
        ensures
            match r {
                Some(i) => i < self.rows@.len() && self.rows@[i as int].id == id,
                None => !has_id(self.rows@, id),
            },
    {
        let mut i: usize = 0;
        while i < self.rows.len()
            invariant
                0 <= i <= self.rows@.len(),
                forall|k: int| 0 <= k < i ==> self.rows@[k].id != id,
            decreases self.rows@.len() - i,
        {
            if self.rows[i].id == id {
                return Some(i);
            }
            i = i + 1;
        }
        None
    }

    /// Adds `label`; an identity already present is a `Conflict`.
    pub fn insert(&mut self, label: Label) -> (r: Result<(), SdkError>)
        requires
            old(self).wf(),
        ensures
            final(self).wf(),
            has_id(old(self).rows@, label.id) <==> r is Err,
            r is Err ==> r->Err_0 is Conflict && final(self).rows@ == old(self).rows@,
            r is Ok ==> final(self).rows@ == old(self).rows@.push(label),
    {
        match self.position(label.id) {
            Some(_) => Err(SdkError::Conflict(String::from_str("a label with this id exists"))),
            None => {
                self.rows.push(label);
                Ok(())
            },
        }
    }

    /// The label with identity `id`, or `NotFound`.
    pub fn get(&self, id: u128) -> (r: Result<Label, SdkError>)
        requires
            self.wf(),
        ensures
            has_id(self.rows@, id) <==> r is Ok,
            r is Err ==> r->Err_0 is NotFound,
            r is Ok ==> r->Ok_0.id == id && self.rows@.contains(r->Ok_0),
    {
        match self.position(id) {
            Some(i) => Ok(self.rows[i].copy()),
            None => Err(SdkError::NotFound),
        }
    }

    /// Applies a partial update to the label `id` at clock reading `clock`
    /// and returns the new row, or `NotFound`.
    pub fn update(&mut self, id: u128, input: &UpdateLabelInput, clock: i64) -> (r: Result<
        Label,
        SdkError,
    >)
        requires
            old(self).wf(),
            forall|i: int| 0 <= i < old(self).rows@.len() ==> old(self).rows@[i].updated_at < i64::MAX,
        ensures
            final(self).wf(),
            has_id(old(self).rows@, id) <==> r is Ok,
            r is Err ==> r->Err_0 is NotFound && final(self).rows@ == old(self).rows@,
            r is Ok ==> exists|i: int|
                0 <= i < old(self).rows@.len() && (#[trigger] old(self).rows@[i]).id == id && r->Ok_0
                    == updated_label(old(self).rows@[i], *input, clock) && final(self).rows@
                    == old(self).rows@.update(i, r->Ok_0),
    {
        match self.position(id) {
            Some(i) => {
                let ghost before = self.rows@;
                let next = self.rows[i].apply_update(input, clock);
                let result = next.copy();
                self.rows.set(i, next);
                assert(self.rows@ =~= before.update(i as int, result));
                assert(before[i as int].id == id && result == updated_label(
                    before[i as int],
                    *input,
                    clock,
                ));
                Ok(result)
            },
            None => Err(SdkError::NotFound),
        }
    }

    /// Removes the label `id` and returns its last state, or `NotFound`.
    pub fn delete(&mut self, id: u128) -> (r: Result<Label, SdkError>)
        requires
            old(self).wf(),
        ensures
            final(self).wf(),
            has_id(old(self).rows@, id) <==> r is Ok,
            r is Err ==> r->Err_0 is NotFound && final(self).rows@ == old(self).rows@,
            r is Ok ==> exists|i: int|
                0 <= i < old(self).rows@.len() && (#[trigger] old(self).rows@[i]) == r->Ok_0
                    && r->Ok_0.id == id && final(self).rows@ == old(self).rows@.remove(i),
            !has_id(final(self).rows@, id),
    {
        match self.position(id) {
            Some(i) => {
                let ghost before = self.rows@;
                let removed = self.rows.remove(i);
                proof {
                    assert forall|k: int| 0 <= k < self.rows@.len() implies self.rows@[k].id != id by {
                        if k < i {
                            assert(self.rows@[k] == before[k]);
                        } else {
                            assert(self.rows@[k] == before[k + 1]);
                        }
                    }
                    assert(before[i as int] == removed);
                    assert(self.rows@ == before.remove(i as int));
                }
                Ok(removed)
            },
            None => Err(SdkError::NotFound),
        }
    }
}

/// Deleting a label and then reading it by the same identity yields
/// `NotFound`.
pub proof fn law_delete_then_get(before: Seq<Label>, after: Seq<Label>, id: u128)
    requires
        ids_unique(before),
        after.len() + 1 == before.len(),
        exists|i: int|
            0 <= i < before.len() && before[i].id == id && after == before.remove(i),
    ensures
        !has_id(after, id),
{
    let i = choose|i: int| 0 <= i < before.len() && before[i].id == id && after == before.remove(i);
    assert forall|k: int| 0 <= k < after.len() implies after[k].id != id by {
        if k < i {
            assert(after[k] == before[k]);
        } else {
            assert(after[k] == before[k + 1]);
        }
    }
}

} // verus!
