//! Stages that call a language model.
pub mod acp;
pub mod activation_lease;
pub mod agent_error;
pub mod agent_run;
pub mod backend;
pub mod changed_files;
pub mod controls;
pub mod fallback;
pub mod file_tracking;
pub mod one_shot;
pub mod preamble;
pub mod preamble_stage;
pub mod refresh;
pub mod router;
pub mod run_tools;
