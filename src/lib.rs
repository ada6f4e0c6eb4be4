//! Resource-access core for a task tracker: filter compilation into
//! parameterised SQL, list-query assembly, label mutation statements and the
//! task-suggestion pipeline's prompt and response handling.

pub mod cognition;
pub mod errors;
pub mod filter;
pub mod labels;
pub mod query;
