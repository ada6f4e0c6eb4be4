use plexo_core::cognition::{
    clean_response, parse_subtasks, parse_suggestion, seed_fingerprint, strip_ticks,
    subdivide_system_message, subdivide_user_message, suggestion_from_json,
    suggestion_from_parts, suggestion_system_message, suggestion_user_message, TaskPriority,
    TaskStatus, TaskSuggestionInput,
};
use plexo_core::errors::SdkError;

const ONE: &str = "{\"title\":\"x\",\"description\":\"y\",\"status\":\"Done\",\"priority\":\"High\",\"due_date\":\"2024-01-01T00:00:00Z\"}";

fn seed() -> TaskSuggestionInput {
    TaskSuggestionInput { project_id: None, title: None, description: None, status: None, priority: None, due_date: None }
}

#[test]
fn fenced_suggestion_is_parsed() {
    let raw = format!("```{}```", ONE);
    let s = parse_suggestion(&raw).unwrap();
    assert_eq!(s.title, "x");
    assert_eq!(s.description, "y");
    assert_eq!(s.status, TaskStatus::Done);
    assert_eq!(s.priority, TaskPriority::High);
    assert_eq!(s.due_date, 1_704_067_200);
}

#[test]
fn malformed_response_is_a_generation_error() {
    assert!(matches!(parse_suggestion("not json"), Err(SdkError::Generation(_))));
    assert!(matches!(parse_subtasks("not json"), Err(SdkError::Generation(_))));
}

#[test]
fn unknown_enum_value_is_a_generation_error() {
    let raw = ONE.replace("Done", "Finished");
    assert!(matches!(parse_suggestion(&raw), Err(SdkError::Generation(_))));
    let raw = ONE.replace("High", "Critical");
    assert!(matches!(suggestion_from_json(&raw), Err(SdkError::Generation(_))));
}

#[test]
fn missing_field_is_a_generation_error() {
    let raw = "{\"title\":\"x\",\"status\":\"Done\",\"priority\":\"High\",\"due_date\":\"2024-01-01T00:00:00Z\"}";
    assert!(matches!(parse_suggestion(raw), Err(SdkError::Generation(_))));
    let raw = ONE.replace("2024-01-01T00:00:00Z", "tomorrow");
    assert!(matches!(parse_suggestion(&raw), Err(SdkError::Generation(_))));
}

#[test]
fn subdivision_yields_one_candidate_per_element() {
    let raw = format!("\n```[{}, {}, {}]```\n", ONE, ONE.replace("\"x\"", "\"x2\""), ONE);
    let subtasks = parse_subtasks(&raw).unwrap();
    assert_eq!(subtasks.len(), 3);
    assert_eq!(subtasks[1].title, "x2");
}

#[test]
fn subdivision_fails_on_a_bad_element() {
    let raw = format!("[{}, {{\"title\": 1}}]", ONE);
    assert!(matches!(parse_subtasks(&raw), Err(SdkError::Generation(_))));
}

#[test]
fn fence_and_whitespace_are_removed() {
    assert_eq!(clean_response("  \n```{}```\t "), "{}");
    assert_eq!(strip_ticks("``a`b``"), "a`b");
    assert_eq!(strip_ticks("````"), "");
}

#[test]
fn parts_build_a_suggestion() {
    let s = suggestion_from_parts(
        Some("t".to_string()),
        Some("d".to_string()),
        Some("InProgress".to_string()),
        Some("None".to_string()),
        Some(5),
    )
    .unwrap();
    assert_eq!(s.status, TaskStatus::InProgress);
    assert_eq!(s.priority, TaskPriority::Unset);
    assert!(matches!(
        suggestion_from_parts(None, Some("d".to_string()), None, None, Some(5)),
        Err(SdkError::Generation(_))
    ));
}

#[test]
fn names_round_trip() {
    for s in [TaskStatus::Unset, TaskStatus::Backlog, TaskStatus::ToDo, TaskStatus::InProgress, TaskStatus::Done, TaskStatus::Canceled] {
        assert_eq!(TaskStatus::from_name(&s.name().to_string()), Some(s));
    }
    for p in [TaskPriority::Unset, TaskPriority::Low, TaskPriority::Medium, TaskPriority::High, TaskPriority::Urgent] {
        assert_eq!(TaskPriority::from_name(&p.name().to_string()), Some(p));
    }
}

#[test]
fn seed_marks_absent_fields() {
    let input = TaskSuggestionInput { title: Some("Write docs".to_string()), due_date: Some(0), status: Some(TaskStatus::ToDo), ..seed() };
    assert_eq!(
        seed_fingerprint(&input),
        "title: Write docs\ndescription: <suggest>\nstatus: ToDo\npriority: <suggest>\ndue_date: 1970-01-01T00:00:00+00:00"
    );
}

#[test]
fn user_messages_embed_context() {
    let m = suggestion_user_message("NOW", &vec!["a".to_string(), "b".to_string()], &seed());
    assert_eq!(
        m,
        "Current time:\nNOW\n\nCurrent tasks context:\na\n\nb\n\nWith the above context, complete the following task, only fill the <suggest> fields:\ntitle: <suggest>\ndescription: <suggest>\nstatus: <suggest>\npriority: <suggest>\ndue_date: <suggest>"
    );
    let m = subdivide_user_message("NOW", "parent", 12);
    assert_eq!(m, "Current time:\nNOW\n\nParent task:\nparent\n\nWith the above context, generate 12 subtasks.");
}

#[test]
fn system_messages_declare_the_schema() {
    let s = suggestion_system_message();
    let d = subdivide_system_message();
    for m in [&s, &d] {
        assert!(m.contains("TaskStatus is one of: None, Backlog, ToDo, InProgress, Done, Canceled"));
        assert!(m.contains("TaskPriority is one of: None, Low, Medium, High, Urgent"));
    }
    assert!(d.contains("JSON array"));
}
