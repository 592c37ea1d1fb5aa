//! What happens around the stages of a run.
pub mod artifact;
pub mod auto_status;
pub mod callbacks;
pub mod event;
pub mod events;
pub mod fidelity;
pub mod hook;
pub mod state;
pub mod workflow;
