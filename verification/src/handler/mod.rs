//! Stage handlers.
pub mod basic;
pub mod branch;
pub mod branch_item;
pub mod branch_result;
pub mod fan_in;
pub mod human;
pub mod json_objects;
pub mod llm;
pub mod parallel;
pub mod parallel_event;
pub mod parallel_join;
pub mod registry;
pub mod schema_issue;
pub mod structured_output;
