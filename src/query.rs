use vstd::prelude::*;
use vstd::string::*;

use crate::errors::SdkError;
use crate::filter::{
    compile_spec, decimal, empty_frag, push_decimal, FragModel, Fragment, GetLabelsWhere,
    MAX_PARAMS, param_count,
};

verus! {

/// Direction of a sort.
#[derive(Debug, Clone, Copy, PartialEq, Eq)]
pub enum SortOrder {
    Asc,
    Desc,
}

/// A value bound to a statement placeholder.
#[derive(Debug, PartialEq, Eq)]
pub enum SqlValue {
    Text(String),
    Int(i64),
    Id(u128),
    Null,
}

/// One executable statement: SQL text and its bound values in placeholder order.
pub struct Statement {
    pub sql: String,
    pub params: Vec<SqlValue>,
}

/// Options of a label listing.
pub struct GetLabelsInput {
    pub filter: Option<GetLabelsWhere>,
    pub sort_by: Option<String>,
    pub sort_order: Option<SortOrder>,
    pub limit: Option<i32>,
    pub offset: Option<i32>,
}

/// Rows returned when a listing names no limit.
pub const DEFAULT_LIMIT: i32 = 100;

/// Rows skipped when a listing names no offset.
pub const DEFAULT_OFFSET: i32 = 0;

/// Columns of the labels table that a listing may sort by.
pub open spec fn label_sort_column(c: Seq<char>) -> bool {
    c == "id"@ || c == "name"@ || c == "description"@ || c == "color"@ || c == "created_at"@
        || c == "updated_at"@
}

pub open spec fn effective_limit(input: GetLabelsInput) -> i32 {
    match input.limit {
        Some(l) => l,
        None => DEFAULT_LIMIT,
    }
}

pub open spec fn effective_offset(input: GetLabelsInput) -> i32 {
    match input.offset {
        Some(o) => o,
        None => DEFAULT_OFFSET,
    }
}

/// The compiled filter of a listing; an absent filter imposes nothing.
pub open spec fn filter_frag(input: GetLabelsInput) -> FragModel {
    match input.filter {
        Some(n) => compile_spec(n, 1),
        None => empty_frag(),
    }
}

pub open spec fn filter_params(input: GetLabelsInput) -> nat {
    match input.filter {
        Some(n) => param_count(n),
        None => 0,
    }
}

pub open spec fn where_clause(w: Seq<char>) -> Seq<char> {
    if w.len() == 0 {
        Seq::empty()
    } else {
        " WHERE "@ + w
    }
}

pub open spec fn order_clause(input: GetLabelsInput) -> Seq<char> {
    match input.sort_by {
        Some(c) => " ORDER BY "@ + c@ + match input.sort_order {
            Some(SortOrder::Asc) => " ASC"@,
            Some(SortOrder::Desc) => " DESC"@,
            None => Seq::empty(),
        },
        None => Seq::empty(),
    }
}

/// The listing statement's text.
pub open spec fn list_sql(input: GetLabelsInput) -> Seq<char> {
    let w = filter_frag(input);
    "SELECT * FROM labels"@ + where_clause(w.0) + order_clause(input) + " LIMIT $"@ + decimal(
        w.1.len() + 1,
    ) + " OFFSET $"@ + decimal(w.1.len() + 2)
}

/// A listing is rejected exactly when it sorts by an unknown column, has a
/// negative limit or offset, or its filter needs too many parameters.
pub open spec fn list_input_valid(input: GetLabelsInput) -> bool {
    &&& (input.sort_by is Some ==> label_sort_column(input.sort_by->Some_0@))
    &&& effective_limit(input) >= 0
    &&& effective_offset(input) >= 0
    &&& filter_params(input) + 2 <= MAX_PARAMS
}

/// The listing statement's bound values: the filter's literals, then the limit
/// and the offset.
pub open spec fn list_params_ok(input: GetLabelsInput, params: Seq<SqlValue>) -> bool {
    let w = filter_frag(input);
    &&& params.len() == w.1.len() + 2
    &&& forall|i: int|
        0 <= i < w.1.len() ==> (#[trigger] params[i] is Text && params[i]->Text_0@ == w.1[i])
    &&& params[w.1.len() as int] == SqlValue::Int(effective_limit(input) as i64)
    &&& params[w.1.len() + 1int] == SqlValue::Int(effective_offset(input) as i64)
}

/// Whether `c` names a sortable column of the labels table.
pub fn is_label_sort_column(c: &String) -> (r: bool)
    ensures
        r == label_sort_column(c@),
{
    let cols = ["id", "name", "description", "color", "created_at", "updated_at"];
    proof {
        reveal_strlit("id");
        reveal_strlit("name");
        reveal_strlit("description");
        reveal_strlit("color");
        reveal_strlit("created_at");
        reveal_strlit("updated_at");
    }
    let mut i: usize = 0;
    while i < 6
        invariant
            0 <= i <= 6,
            cols@ == seq!["id", "name", "description", "color", "created_at", "updated_at"],
            forall|j: int| 0 <= j < i ==> cols@[j]@ != c@,
        decreases 6 - i,
    {
        let candidate = String::from_str(cols[i]);
        if candidate == *c {
            return true;
        }
        i = i + 1;
    }
    assert(!label_sort_column(c@)) by {
        assert(cols@[0]@ != c@);
        assert(cols@[1]@ != c@);
        assert(cols@[2]@ != c@);
        assert(cols@[3]@ != c@);
        assert(cols@[4]@ != c@);
        assert(cols@[5]@ != c@);
    }
    false
}

fn validation(msg: &str) -> (r: SdkError)
    ensures
        r is Validation,
{
    SdkError::Validation(String::from_str(msg))
}

/// Moves the filter's literals into statement values.
fn text_params(params: Vec<String>) -> (r: Vec<SqlValue>)
    ensures
        r@.len() == params@.len(),
        forall|i: int| 0 <= i < r@.len() ==> (#[trigger] r@[i] is Text && r@[i]->Text_0@ == params@[i]@),
{
    let mut r: Vec<SqlValue> = Vec::new();
    let mut i: usize = 0;
    while i < params.len()
        invariant
            0 <= i <= params@.len(),
            r@.len() == i,
            forall|j: int| 0 <= j < i ==> (#[trigger] r@[j] is Text && r@[j]->Text_0@ == params@[j]@),
        decreases params@.len() - i,
    {
        r.push(SqlValue::Text(params[i].clone()));
        i = i + 1;
    }
    r
}

/// Assembles the statement that lists labels: the compiled filter, the sort
/// column (only a known column) and direction, and the limit and offset as
/// bound values, defaulting to `DEFAULT_LIMIT` and `DEFAULT_OFFSET`.
pub fn build_list_query(input: &GetLabelsInput) -> (r: Result<Statement, SdkError>)
    ensures
        list_input_valid(*input) ==> r is Ok && r->Ok_0.sql@ == list_sql(*input)
            && list_params_ok(*input, r->Ok_0.params@),
        !list_input_valid(*input) ==> r is Err && r->Err_0 is Validation,
{
    if let Some(c) = &input.sort_by {
        if !is_label_sort_column(c) {
            return Err(validation("unknown sort column"));
        }
    }
    let limit: i32 = match input.limit {
        Some(l) => l,
        None => DEFAULT_LIMIT,
    };
    let offset: i32 = match input.offset {
        Some(o) => o,
        None => DEFAULT_OFFSET,
    };
    if limit < 0 || offset < 0 {
        return Err(validation("limit and offset must not be negative"));
    }
    let frag = match &input.filter {
        Some(n) => match n.count_params(MAX_PARAMS - 2) {
            Some(_) => n.compile_at(1),
            None => {
                return Err(validation("filter needs too many parameters"));
            },
        },
        None => {
            let f = Fragment { text: String::new(), params: Vec::new() };
            proof {
                assert(f.model().0 =~= empty_frag().0);
                assert(f.model().1 =~= empty_frag().1);
            }
            f
        },
    };
    let ghost w = filter_frag(*input);
    assert(frag.model() == w);
    let n = frag.params.len();
    let mut sql = String::from_str("SELECT * FROM labels");
    proof {
        reveal_strlit("SELECT * FROM labels");
    }
    if !frag.text.as_str().is_empty() {
        sql.append(" WHERE ");
        sql.append(frag.text.as_str());
    }
    assert(sql@ =~= "SELECT * FROM labels"@ + where_clause(w.0));
    let ghost before_order = sql@;
    if let Some(c) = &input.sort_by {
        sql.append(" ORDER BY ");
        sql.append(c.as_str());
        match input.sort_order {
            Some(SortOrder::Asc) => sql.append(" ASC"),
            Some(SortOrder::Desc) => sql.append(" DESC"),
            None => {},
        }
    }
    assert(sql@ =~= before_order + order_clause(*input));
    sql.append(" LIMIT $");
    push_decimal(&mut sql, n + 1);
    sql.append(" OFFSET $");
    push_decimal(&mut sql, n + 2);
    assert(sql@ =~= list_sql(*input));
    let mut params = text_params(frag.params);
    params.push(SqlValue::Int(limit as i64));
    params.push(SqlValue::Int(offset as i64));
    Ok(Statement { sql, params })
}

/// A listing with no options has no filter and no sort, and binds the default
/// limit and offset, so it never returns more than `DEFAULT_LIMIT` rows.
pub proof fn law_default_listing(input: GetLabelsInput)
    requires
        input.filter is None,
        input.sort_by is None,
        input.sort_order is None,
        input.limit is None,
        input.offset is None,
    ensures
        list_input_valid(input),
        list_sql(input) == "SELECT * FROM labels LIMIT $1 OFFSET $2"@,
        forall|params: Seq<SqlValue>|
            list_params_ok(input, params) ==> params == seq![
                SqlValue::Int(DEFAULT_LIMIT as i64),
                SqlValue::Int(DEFAULT_OFFSET as i64),
            ],
{
    reveal_strlit("SELECT * FROM labels");
    reveal_strlit("SELECT * FROM labels LIMIT $1 OFFSET $2");
    reveal_strlit(" LIMIT $");
    reveal_strlit(" OFFSET $");
    assert(decimal(1) =~= seq!['1']);
    assert(decimal(2) =~= seq!['2']);
    assert(list_sql(input) =~= "SELECT * FROM labels LIMIT $1 OFFSET $2"@);
    assert forall|params: Seq<SqlValue>| list_params_ok(input, params) implies params == seq![
        SqlValue::Int(DEFAULT_LIMIT as i64),
        SqlValue::Int(DEFAULT_OFFSET as i64),
    ] by {
        assert(params =~= seq![
            SqlValue::Int(DEFAULT_LIMIT as i64),
            SqlValue::Int(DEFAULT_OFFSET as i64),
        ]);
    }
}

} // verus!
