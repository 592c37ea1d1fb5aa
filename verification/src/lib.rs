//! Verified core of a workflow engine: the decisions that handlers, model
//! backends and lifecycle callbacks make, stated as contracts over plain
//! values and proved.
pub mod context;
pub mod error;
pub mod graph;
pub mod handler;
pub mod hook_context;
pub mod interview;
pub mod interview_acts;
pub mod interview_block;
pub mod json;
pub mod keys;
pub mod lifecycle;
pub mod order;
pub mod outcome;
pub mod stage_id;
pub mod table;
pub mod text;
