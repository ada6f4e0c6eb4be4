use vstd::prelude::*;
use vstd::string::*;

use crate::errors::SdkError;
use crate::filter::{decimal, push_decimal};

verus! {

#[derive(Debug, Clone, Copy, PartialEq, Eq)]
pub enum TaskStatus {
    /// Spelled `None` in the generation schema.
    Unset,
    Backlog,
    ToDo,
    InProgress,
    Done,
    Canceled,
}

#[derive(Debug, Clone, Copy, PartialEq, Eq)]
pub enum TaskPriority {
    /// Spelled `None` in the generation schema.
    Unset,
    Low,
    Medium,
    High,
    Urgent,
}

/// A generated candidate task. It carries no identity: it becomes a record
/// only through an explicit create call. `due_date` is in seconds since the
/// Unix epoch.
pub struct TaskSuggestion {
    pub title: String,
    pub description: String,
    pub status: TaskStatus,
    pub priority: TaskPriority,
    pub due_date: i64,
}

/// The caller's partial seed for one suggestion; absent fields are left for
/// the completion service to fill. `due_date` is in seconds since the Unix
/// epoch.
pub struct TaskSuggestionInput {
    pub project_id: Option<u128>,
    pub title: Option<String>,
    pub description: Option<String>,
    pub status: Option<TaskStatus>,
    pub priority: Option<TaskPriority>,
    pub due_date: Option<i64>,
}

/// A request to split the task `task_id` into `subtasks` candidates.
pub struct SubdivideTaskInput {
    pub task_id: u128,
    pub subtasks: u8,
}

/// Rows of existing tasks gathered as context for one suggestion.
pub const CONTEXT_TASKS: usize = 10;

/// The RFC 3339 text of the instant `secs` seconds after the Unix epoch, if
/// chrono can represent it.
pub uninterp spec fn utc_text_of(secs: i64) -> Option<Seq<char>>;

/// What `str::trim` leaves of `s`.
pub uninterp spec fn trim_of(s: Seq<char>) -> Seq<char>;

/// The string member `key` of the JSON object that `text` holds, if `text` is
/// one and that member is a string.
pub uninterp spec fn json_text_member_of(text: Seq<char>, key: Seq<char>) -> Option<Seq<char>>;

/// The elements of the JSON array that `text` holds, each written back as
/// JSON text, if `text` is an array.
pub uninterp spec fn json_array_items_of(text: Seq<char>) -> Option<Seq<Seq<char>>>;

/// The instant that `text` denotes as a relaxed RFC 3339 date-time, in
/// seconds since the Unix epoch, if it denotes one.
pub uninterp spec fn utc_seconds_of(text: Seq<char>) -> Option<i64>;

pub open spec fn opt_view(o: Option<String>) -> Option<Seq<char>> {
    match o {
        Some(s) => Some(s@),
        None => None,
    }
}

pub open spec fn text_views(v: Seq<String>) -> Seq<Seq<char>> {
    v.map_values(|s: String| s@)
}

pub open spec fn opt_views(o: Option<Vec<String>>) -> Option<Seq<Seq<char>>> {
    match o {
        Some(v) => Some(text_views(v@)),
        None => None,
    }
}

/// Relies on `str::trim`: the slice without leading and trailing whitespace.
#[verifier::external_body]
fn trim_text(s: &str) -> (r: &str)
    ensures
        r@ == trim_of(s@),
{
    s.trim()
}

/// Relies on `serde_json::from_str` into `serde_json::Value`: reads the
/// string member `key` of a top-level object.
#[verifier::external_body]
fn json_text_member(text: &str, key: &str) -> (r: Option<String>)
    ensures
        opt_view(r) == json_text_member_of(text@, key@),
{
    match serde_json::from_str::<serde_json::Value>(text) {
        Ok(serde_json::Value::Object(members)) => match members.get(key) {
            Some(serde_json::Value::String(s)) => Some(s.clone()),
            _ => None,
        },
        _ => None,
    }
}

/// Relies on `serde_json::from_str` into `serde_json::Value` and on its
/// `to_string`: the elements of a top-level array as JSON texts.
#[verifier::external_body]
fn json_array_items(text: &str) -> (r: Option<Vec<String>>)
    ensures
        opt_views(r) == json_array_items_of(text@),
{
    match serde_json::from_str::<serde_json::Value>(text) {
        Ok(serde_json::Value::Array(items)) => Some(items.iter().map(|i| i.to_string()).collect()),
        _ => None,
    }
}

/// Relies on chrono's `DateTime::<Utc>::from_timestamp` and `to_rfc3339`.
#[verifier::external_body]
fn utc_text(secs: i64) -> (r: Option<String>)
    ensures
        opt_view(r) == utc_text_of(secs),
{
    match chrono::DateTime::<chrono::Utc>::from_timestamp(secs, 0) {
        Some(d) => Some(d.to_rfc3339()),
        None => None,
    }
}

/// Relies on chrono's `FromStr` for `DateTime<Utc>` and on `timestamp`.
#[verifier::external_body]
fn utc_seconds(text: &str) -> (r: Option<i64>)
    ensures
        r == utc_seconds_of(text@),
{
    match text.parse::<chrono::DateTime<chrono::Utc>>() {
        Ok(d) => Some(d.timestamp()),
        Err(_) => None,
    }
}

pub open spec fn status_named(s: Seq<char>) -> Option<TaskStatus> {
    if s == "None"@ {
        Some(TaskStatus::Unset)
    } else if s == "Backlog"@ {
        Some(TaskStatus::Backlog)
    } else if s == "ToDo"@ {
        Some(TaskStatus::ToDo)
    } else if s == "InProgress"@ {
        Some(TaskStatus::InProgress)
    } else if s == "Done"@ {
        Some(TaskStatus::Done)
    } else if s == "Canceled"@ {
        Some(TaskStatus::Canceled)
    } else {
        None
    }
}

pub open spec fn priority_named(s: Seq<char>) -> Option<TaskPriority> {
    if s == "None"@ {
        Some(TaskPriority::Unset)
    } else if s == "Low"@ {
        Some(TaskPriority::Low)
    } else if s == "Medium"@ {
        Some(TaskPriority::Medium)
    } else if s == "High"@ {
        Some(TaskPriority::High)
    } else if s == "Urgent"@ {
        Some(TaskPriority::Urgent)
    } else {
        None
    }
}

fn same_text(a: &String, b: &str) -> (r: bool)
    ensures
        r == (a@ == b@),
{
    *a == String::from_str(b)
}

impl TaskStatus {
    /// The status whose name is `s`, as the generation schema spells it.
    pub fn from_name(s: &String) -> (r: Option<TaskStatus>)
        ensures
            r == status_named(s@),
    {
        if same_text(s, "None") {
            Some(TaskStatus::Unset)
        } else if same_text(s, "Backlog") {
            Some(TaskStatus::Backlog)
        } else if same_text(s, "ToDo") {
            Some(TaskStatus::ToDo)
        } else if same_text(s, "InProgress") {
            Some(TaskStatus::InProgress)
        } else if same_text(s, "Done") {
            Some(TaskStatus::Done)
        } else if same_text(s, "Canceled") {
            Some(TaskStatus::Canceled)
        } else {
            None
        }
    }
}

impl TaskPriority {
    /// The priority whose name is `s`, as the generation schema spells it.
    pub fn from_name(s: &String) -> (r: Option<TaskPriority>)
        ensures
            r == priority_named(s@),
    {
        if same_text(s, "None") {
            Some(TaskPriority::Unset)
        } else if same_text(s, "Low") {
            Some(TaskPriority::Low)
        } else if same_text(s, "Medium") {
            Some(TaskPriority::Medium)
        } else if same_text(s, "High") {
            Some(TaskPriority::High)
        } else if same_text(s, "Urgent") {
            Some(TaskPriority::Urgent)
        } else {
            None
        }
    }
}

pub open spec fn drop_lead_ticks(s: Seq<char>) -> Seq<char>
    decreases s.len(),
{
    if s.len() > 0 && s[0] == '`' {
        drop_lead_ticks(s.subrange(1, s.len() as int))
    } else {
        s
    }
}

pub open spec fn drop_trail_ticks(s: Seq<char>) -> Seq<char>
    decreases s.len(),
{
    if s.len() > 0 && s[s.len() - 1] == '`' {
        drop_trail_ticks(s.subrange(0, s.len() - 1))
    } else {
        s
    }
}

/// `s` without the backticks of a surrounding code fence.
pub open spec fn trim_ticks(s: Seq<char>) -> Seq<char> {
    drop_trail_ticks(drop_lead_ticks(s))
}

/// A raw completion with surrounding whitespace and fence removed.
pub open spec fn cleaned(raw: Seq<char>) -> Seq<char> {
    trim_ticks(trim_of(raw))
}

/// Removes leading and trailing backticks.
pub fn strip_ticks(s: &str) -> (r: &str)
    ensures
        r@ == trim_ticks(s@),
{
    let n = s.unicode_len();
    let mut i: usize = 0;
    assert(s@.subrange(0, n as int) =~= s@);
    while i < n && s.get_char(i) == '`'
        invariant
            0 <= i <= n,
            n == s@.len(),
            drop_lead_ticks(s@) == drop_lead_ticks(s@.subrange(i as int, n as int)),
        decreases n - i,
    {
        assert(s@.subrange(i as int, n as int).subrange(1, n - i) =~= s@.subrange(
            i + 1,
            n as int,
        ));
        i = i + 1;
    }
    let ghost rest = s@.subrange(i as int, n as int);
    assert(drop_lead_ticks(rest) == rest);
    let mut j: usize = n;
    while j > i && s.get_char(j - 1) == '`'
        invariant
            i <= j <= n,
            n == s@.len(),
            rest == s@.subrange(i as int, n as int),
            drop_trail_ticks(rest) == drop_trail_ticks(s@.subrange(i as int, j as int)),
        decreases j,
    {
        assert(s@.subrange(i as int, j as int).subrange(0, j - i - 1) =~= s@.subrange(
            i as int,
            j - 1,
        ));
        j = j - 1;
    }
    let ghost kept = s@.subrange(i as int, j as int);
    assert(drop_trail_ticks(kept) == kept);
    s.substring_char(i, j)
}

/// Trims whitespace around a raw completion, then the fence's backticks.
pub fn clean_response(raw: &str) -> (r: &str)
    ensures
        r@ == cleaned(raw@),
{
    strip_ticks(trim_text(raw))
}

/// Fields of a suggestion as mathematical values.
pub type SuggestionModel = (Seq<char>, Seq<char>, TaskStatus, TaskPriority, i64);

/// The suggestion that parsed members make up: every member present, the
/// status and priority among the schema's names, the due date a valid instant.
pub open spec fn suggestion_parts(
    title: Option<Seq<char>>,
    description: Option<Seq<char>>,
    status: Option<Seq<char>>,
    priority: Option<Seq<char>>,
    due_date: Option<i64>,
) -> Option<SuggestionModel> {
    if title is Some && description is Some && status is Some && status_named(
        status->Some_0,
    ) is Some && priority is Some && priority_named(priority->Some_0) is Some
        && due_date is Some {
        Some(
            (
                title->Some_0,
                description->Some_0,
                status_named(status->Some_0)->Some_0,
                priority_named(priority->Some_0)->Some_0,
                due_date->Some_0,
            ),
        )
    } else {
        None
    }
}

/// The suggestion that the JSON object in `text` describes, if any.
pub open spec fn json_suggestion(text: Seq<char>) -> Option<SuggestionModel> {
    suggestion_parts(
        json_text_member_of(text, "title"@),
        json_text_member_of(text, "description"@),
        json_text_member_of(text, "status"@),
        json_text_member_of(text, "priority"@),
        match json_text_member_of(text, "due_date"@) {
            Some(d) => utc_seconds_of(d),
            None => None,
        },
    )
}

impl TaskSuggestion {
    pub open spec fn model(&self) -> SuggestionModel {
        (self.title@, self.description@, self.status, self.priority, self.due_date)
    }
}

fn generation(msg: &str) -> (r: SdkError)
    ensures
        r is Generation,
{
    SdkError::Generation(String::from_str(msg))
}

/// Builds a suggestion from members read out of a response; anything missing
/// or outside the schema is a `Generation` error.
pub fn suggestion_from_parts(
    title: Option<String>,
    description: Option<String>,
    status: Option<String>,
    priority: Option<String>,
    due_date: Option<i64>,
) -> (r: Result<TaskSuggestion, SdkError>)
    ensures
        match suggestion_parts(
            opt_view(title),
            opt_view(description),
            opt_view(status),
            opt_view(priority),
            due_date,
        ) {
            Some(m) => r is Ok && r->Ok_0.model() == m,
            None => r is Err && r->Err_0 is Generation,
        },
{
    let title = match title {
        Some(t) => t,
        None => {
            return Err(generation("missing field `title`"));
        },
    };
    let description = match description {
        Some(d) => d,
        None => {
            return Err(generation("missing field `description`"));
        },
    };
    let status = match status {
        Some(s) => match TaskStatus::from_name(&s) {
            Some(v) => v,
            None => {
                return Err(generation("unknown value of `status`"));
            },
        },
        None => {
            return Err(generation("missing field `status`"));
        },
    };
    let priority = match priority {
        Some(p) => match TaskPriority::from_name(&p) {
            Some(v) => v,
            None => {
                return Err(generation("unknown value of `priority`"));
            },
        },
        None => {
            return Err(generation("missing field `priority`"));
        },
    };
    let due_date = match due_date {
        Some(d) => d,
        None => {
            return Err(generation("missing or invalid `due_date`"));
        },
    };
    Ok(TaskSuggestion { title, description, status, priority, due_date })
}

/// Reads one suggestion from the JSON object in `text`.
pub fn suggestion_from_json(text: &str) -> (r: Result<TaskSuggestion, SdkError>)
    ensures
        match json_suggestion(text@) {
            Some(m) => r is Ok && r->Ok_0.model() == m,
            None => r is Err && r->Err_0 is Generation,
        },
{
    proof {
        reveal_strlit("title");
        reveal_strlit("description");
        reveal_strlit("status");
        reveal_strlit("priority");
        reveal_strlit("due_date");
    }
    let title = json_text_member(text, "title");
    let description = json_text_member(text, "description");
    let status = json_text_member(text, "status");
    let priority = json_text_member(text, "priority");
    let due_text = json_text_member(text, "due_date");
    let due_date = match &due_text {
        Some(d) => utc_seconds(d.as_str()),
        None => None,
    };
    suggestion_from_parts(title, description, status, priority, due_date)
}

/// Parses a completion that should hold one suggestion.
pub fn parse_suggestion(raw: &str) -> (r: Result<TaskSuggestion, SdkError>)
    ensures
        match json_suggestion(cleaned(raw@)) {
            Some(m) => r is Ok && r->Ok_0.model() == m,
            None => r is Err && r->Err_0 is Generation,
        },
{
    suggestion_from_json(clean_response(raw))
}

/// Whether every element of `items` describes a suggestion.
pub open spec fn all_suggestions(items: Seq<Seq<char>>) -> bool {
    forall|i: int| 0 <= i < items.len() ==> (#[trigger] json_suggestion(items[i])) is Some
}

/// Parses a completion that should hold an array of suggestions: one
/// candidate per element, in order, or a `Generation` error if the text is no
/// array or any element is no suggestion.
pub fn parse_subtasks(raw: &str) -> (r: Result<Vec<TaskSuggestion>, SdkError>)
    ensures
        match json_array_items_of(cleaned(raw@)) {
            Some(items) => if all_suggestions(items) {
                &&& r is Ok
                &&& r->Ok_0@.len() == items.len()
                &&& forall|i: int|
                    0 <= i < items.len() ==> Some(#[trigger] r->Ok_0@[i].model()) == json_suggestion(
                        items[i],
                    )
            } else {
                r is Err && r->Err_0 is Generation
            },
            None => r is Err && r->Err_0 is Generation,
        },
{
    let text = clean_response(raw);
    let found = json_array_items(text);
    let items = match found {
        Some(v) => v,
        None => {
            return Err(generation("the response is not a JSON array"));
        },
    };
    let ghost views = text_views(items@);
    let mut out: Vec<TaskSuggestion> = Vec::new();
    let mut i: usize = 0;
    while i < items.len()
        invariant
            0 <= i <= items@.len(),
            views == text_views(items@),
            json_array_items_of(cleaned(raw@)) == Some(views),
            out@.len() == i,
            forall|k: int|
                0 <= k < i ==> Some(#[trigger] out@[k].model()) == json_suggestion(views[k]),
        decreases items@.len() - i,
    {
        match suggestion_from_json(items[i].as_str()) {
            Ok(s) => {
                out.push(s);
            },
            Err(e) => {
                assert(json_suggestion(views[i as int]) is None);
                assert(!all_suggestions(views));
                return Err(e);
            },
        }
        i = i + 1;
    }
    assert forall|k: int| 0 <= k < views.len() implies (#[trigger] json_suggestion(
        views[k],
    )) is Some by {
        assert(Some(out@[k].model()) == json_suggestion(views[k]));
    }
    assert(all_suggestions(views));
    Ok(out)
}

pub open spec fn status_text(s: TaskStatus) -> Seq<char> {
    match s {
        TaskStatus::Unset => "None"@,
        TaskStatus::Backlog => "Backlog"@,
        TaskStatus::ToDo => "ToDo"@,
        TaskStatus::InProgress => "InProgress"@,
        TaskStatus::Done => "Done"@,
        TaskStatus::Canceled => "Canceled"@,
    }
}

pub open spec fn priority_text(p: TaskPriority) -> Seq<char> {
    match p {
        TaskPriority::Unset => "None"@,
        TaskPriority::Low => "Low"@,
        TaskPriority::Medium => "Medium"@,
        TaskPriority::High => "High"@,
        TaskPriority::Urgent => "Urgent"@,
    }
}

/// Every status reads back from its own name.
pub proof fn lemma_status_round_trip(s: TaskStatus)
    ensures
        status_named(status_text(s)) == Some(s),
{
    reveal_strlit("None");
    reveal_strlit("Backlog");
    reveal_strlit("ToDo");
    reveal_strlit("InProgress");
    reveal_strlit("Done");
    reveal_strlit("Canceled");
    assert("None"@.len() == 4);
    assert("Backlog"@.len() == 7);
    assert("ToDo"@.len() == 4);
    assert("InProgress"@.len() == 10);
    assert("Done"@.len() == 4);
    assert("Canceled"@.len() == 8);
    assert("None"@[0] != "ToDo"@[0]);
    assert("None"@[0] != "Done"@[0]);
    assert("ToDo"@[0] != "Done"@[0]);
}

/// Every priority reads back from its own name.
pub proof fn lemma_priority_round_trip(p: TaskPriority)
    ensures
        priority_named(priority_text(p)) == Some(p),
{
    reveal_strlit("None");
    reveal_strlit("Low");
    reveal_strlit("Medium");
    reveal_strlit("High");
    reveal_strlit("Urgent");
    assert("None"@.len() == 4);
    assert("Low"@.len() == 3);
    assert("Medium"@.len() == 6);
    assert("High"@.len() == 4);
    assert("Urgent"@.len() == 6);
    assert("None"@[0] != "High"@[0]);
    assert("Medium"@[0] != "Urgent"@[0]);
}

impl TaskStatus {
    /// The schema's name of this status.
    pub fn name(&self) -> (r: &'static str)
        ensures
            r@ == status_text(*self),
            status_named(r@) == Some(*self),
    {
        proof {
            lemma_status_round_trip(*self);
        }
        proof {
            reveal_strlit("None");
            reveal_strlit("Backlog");
            reveal_strlit("ToDo");
            reveal_strlit("InProgress");
            reveal_strlit("Done");
            reveal_strlit("Canceled");
        }
        match self {
            TaskStatus::Unset => "None",
            TaskStatus::Backlog => "Backlog",
            TaskStatus::ToDo => "ToDo",
            TaskStatus::InProgress => "InProgress",
            TaskStatus::Done => "Done",
            TaskStatus::Canceled => "Canceled",
        }
    }
}

impl TaskPriority {
    /// The schema's name of this priority.
    pub fn name(&self) -> (r: &'static str)
        ensures
            r@ == priority_text(*self),
            priority_named(r@) == Some(*self),
    {
        proof {
            lemma_priority_round_trip(*self);
        }
        proof {
            reveal_strlit("None");
            reveal_strlit("Low");
            reveal_strlit("Medium");
            reveal_strlit("High");
            reveal_strlit("Urgent");
        }
        match self {
            TaskPriority::Unset => "None",
            TaskPriority::Low => "Low",
            TaskPriority::Medium => "Medium",
            TaskPriority::High => "High",
            TaskPriority::Urgent => "Urgent",
        }
    }
}

/// The shape of one suggestion, restated on every call.
pub open spec fn suggestion_schema() -> Seq<char> {
    "{\"title\": string, \"description\": string, \"status\": TaskStatus, \"priority\": TaskPriority, \"due_date\": RFC 3339 date-time}\nTaskStatus is one of: None, Backlog, ToDo, InProgress, Done, Canceled\nTaskPriority is one of: None, Low, Medium, High, Urgent"@
}

pub open spec fn suggestion_system_text() -> Seq<char> {
    "You receive a list of tasks and predict one new task from the user's input.\nReturn only valid JSON of this shape:\n"@
        + suggestion_schema()
}

pub open spec fn subdivide_system_text() -> Seq<char> {
    "You receive one task and predict a list of its subtasks.\nReturn only a valid JSON array whose elements have this shape:\n"@
        + suggestion_schema()
}

/// The system message that declares the single-suggestion schema.
pub fn suggestion_system_message() -> (r: String)
    ensures
        r@ == suggestion_system_text(),
{
    let mut r = String::from_str(
        "You receive a list of tasks and predict one new task from the user's input.\nReturn only valid JSON of this shape:\n",
    );
    r.append(
        "{\"title\": string, \"description\": string, \"status\": TaskStatus, \"priority\": TaskPriority, \"due_date\": RFC 3339 date-time}\nTaskStatus is one of: None, Backlog, ToDo, InProgress, Done, Canceled\nTaskPriority is one of: None, Low, Medium, High, Urgent",
    );
    proof {
        reveal_strlit(
            "You receive a list of tasks and predict one new task from the user's input.\nReturn only valid JSON of this shape:\n",
        );
        reveal_strlit(
            "{\"title\": string, \"description\": string, \"status\": TaskStatus, \"priority\": TaskPriority, \"due_date\": RFC 3339 date-time}\nTaskStatus is one of: None, Backlog, ToDo, InProgress, Done, Canceled\nTaskPriority is one of: None, Low, Medium, High, Urgent",
        );
    }
    r
}

/// The system message that declares the subtask-array schema.
pub fn subdivide_system_message() -> (r: String)
    ensures
        r@ == subdivide_system_text(),
{
    let mut r = String::from_str(
        "You receive one task and predict a list of its subtasks.\nReturn only a valid JSON array whose elements have this shape:\n",
    );
    r.append(
        "{\"title\": string, \"description\": string, \"status\": TaskStatus, \"priority\": TaskPriority, \"due_date\": RFC 3339 date-time}\nTaskStatus is one of: None, Backlog, ToDo, InProgress, Done, Canceled\nTaskPriority is one of: None, Low, Medium, High, Urgent",
    );
    proof {
        reveal_strlit(
            "You receive one task and predict a list of its subtasks.\nReturn only a valid JSON array whose elements have this shape:\n",
        );
        reveal_strlit(
            "{\"title\": string, \"description\": string, \"status\": TaskStatus, \"priority\": TaskPriority, \"due_date\": RFC 3339 date-time}\nTaskStatus is one of: None, Backlog, ToDo, InProgress, Done, Canceled\nTaskPriority is one of: None, Low, Medium, High, Urgent",
        );
    }
    r
}


/// `texts` joined with `sep` between neighbours.
pub open spec fn join_texts(texts: Seq<Seq<char>>, sep: Seq<char>) -> Seq<char>
    decreases texts.len(),
{
    if texts.len() == 0 {
        Seq::empty()
    } else if texts.len() == 1 {
        texts[0]
    } else {
        join_texts(texts.subrange(0, texts.len() - 1), sep) + sep + texts[texts.len() - 1]
    }
}

/// Appends `texts` joined with `sep` to `out`.
fn append_joined(out: &mut String, texts: &Vec<String>, sep: &str)
    ensures
        final(out)@ == old(out)@ + join_texts(text_views(texts@), sep@),
{
    let ghost start = out@;
    let ghost views = text_views(texts@);
    let mut i: usize = 0;
    while i < texts.len()
        invariant
            0 <= i <= texts@.len(),
            views == text_views(texts@),
            out@ == start + join_texts(views.subrange(0, i as int), sep@),
        decreases texts@.len() - i,
    {
        proof {
            assert(views.subrange(0, i + 1).subrange(0, i as int) =~= views.subrange(0, i as int));
            if i == 0 {
                assert(views.subrange(0, 1) =~= seq![views[0]]);
            }
        }
        if i > 0 {
            out.append(sep);
        }
        out.append(texts[i].as_str());
        i = i + 1;
    }
    assert(views.subrange(0, texts@.len() as int) =~= views);
}

/// The seed's value of one field, or the marker asking the model to fill it.
pub open spec fn or_suggest(v: Option<Seq<char>>) -> Seq<char> {
    match v {
        Some(t) => t,
        None => "<suggest>"@,
    }
}

/// The seed's due date as text; a date chrono cannot represent is left for
/// the model too.
pub open spec fn due_text(d: Option<i64>) -> Option<Seq<char>> {
    match d {
        Some(secs) => utc_text_of(secs),
        None => None,
    }
}

/// The seed written out field by field, each field on a line of its own.
pub open spec fn seed_fingerprint_text(input: TaskSuggestionInput) -> Seq<char> {
    "title: "@ + or_suggest(opt_view(input.title)) + "\ndescription: "@ + or_suggest(
        opt_view(input.description),
    ) + "\nstatus: "@ + or_suggest(
        match input.status {
            Some(s) => Some(status_text(s)),
            None => None,
        },
    ) + "\npriority: "@ + or_suggest(
        match input.priority {
            Some(p) => Some(priority_text(p)),
            None => None,
        },
    ) + "\ndue_date: "@ + or_suggest(due_text(input.due_date))
}

fn append_or_suggest(out: &mut String, v: Option<&str>)
    ensures
        final(out)@ == old(out)@ + or_suggest(
            match v {
                Some(t) => Some(t@),
                None => None,
            },
        ),
{
    proof {
        reveal_strlit("<suggest>");
    }
    match v {
        Some(t) => out.append(t),
        None => out.append("<suggest>"),
    }
}

/// Writes out the caller's seed, marking each absent field for the model.
pub fn seed_fingerprint(input: &TaskSuggestionInput) -> (r: String)
    ensures
        r@ == seed_fingerprint_text(*input),
{
    proof {
        reveal_strlit("title: ");
        reveal_strlit("\ndescription: ");
        reveal_strlit("\nstatus: ");
        reveal_strlit("\npriority: ");
        reveal_strlit("\ndue_date: ");
    }
    let mut r = String::from_str("title: ");
    append_or_suggest(
        &mut r,
        match &input.title {
            Some(t) => Some(t.as_str()),
            None => None,
        },
    );
    r.append("\ndescription: ");
    append_or_suggest(
        &mut r,
        match &input.description {
            Some(t) => Some(t.as_str()),
            None => None,
        },
    );
    r.append("\nstatus: ");
    append_or_suggest(
        &mut r,
        match &input.status {
            Some(s) => Some(s.name()),
            None => None,
        },
    );
    r.append("\npriority: ");
    append_or_suggest(
        &mut r,
        match &input.priority {
            Some(p) => Some(p.name()),
            None => None,
        },
    );
    r.append("\ndue_date: ");
    let due = match input.due_date {
        Some(secs) => utc_text(secs),
        None => None,
    };
    append_or_suggest(
        &mut r,
        match &due {
            Some(t) => Some(t.as_str()),
            None => None,
        },
    );
    r
}

/// The user message of a single suggestion: the time, the context tasks
/// separated by blank lines, and the seed.
pub open spec fn suggestion_user_text(
    now: Seq<char>,
    context: Seq<Seq<char>>,
    seed: Seq<char>,
) -> Seq<char> {
    "Current time:\n"@ + now + "\n\nCurrent tasks context:\n"@ + join_texts(context, "\n\n"@)
        + "\n\nWith the above context, complete the following task, only fill the <suggest> fields:\n"@
        + seed
}

/// Builds the user message of a single suggestion.
pub fn suggestion_user_message(now: &str, context: &Vec<String>, input: &TaskSuggestionInput) -> (r:
    String)
    ensures
        r@ == suggestion_user_text(now@, text_views(context@), seed_fingerprint_text(*input)),
{
    proof {
        reveal_strlit("Current time:\n");
        reveal_strlit("\n\nCurrent tasks context:\n");
        reveal_strlit("\n\n");
        reveal_strlit(
            "\n\nWith the above context, complete the following task, only fill the <suggest> fields:\n",
        );
    }
    let mut r = String::from_str("Current time:\n");
    r.append(now);
    r.append("\n\nCurrent tasks context:\n");
    append_joined(&mut r, context, "\n\n");
    r.append(
        "\n\nWith the above context, complete the following task, only fill the <suggest> fields:\n",
    );
    let seed = seed_fingerprint(input);
    r.append(seed.as_str());
    r
}

/// The user message of a subdivision: the time, the parent task and the
/// number of subtasks wanted.
pub open spec fn subdivide_user_text(now: Seq<char>, parent: Seq<char>, subtasks: u8) -> Seq<
    char,
> {
    "Current time:\n"@ + now + "\n\nParent task:\n"@ + parent
        + "\n\nWith the above context, generate "@ + decimal(subtasks as nat) + " subtasks."@
}

/// Builds the user message of a subdivision.
pub fn subdivide_user_message(now: &str, parent: &str, subtasks: u8) -> (r: String)
    ensures
        r@ == subdivide_user_text(now@, parent@, subtasks),
{
    proof {
        reveal_strlit("Current time:\n");
        reveal_strlit("\n\nParent task:\n");
        reveal_strlit("\n\nWith the above context, generate ");
        reveal_strlit(" subtasks.");
    }
    let mut r = String::from_str("Current time:\n");
    r.append(now);
    r.append("\n\nParent task:\n");
    r.append(parent);
    r.append("\n\nWith the above context, generate ");
    push_decimal(&mut r, subtasks as usize);
    r.append(" subtasks.");
    r
}

} // verus!
