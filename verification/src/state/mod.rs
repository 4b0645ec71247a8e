//! What the window shows, kept apart from how it is drawn.

pub mod chips;
pub mod filter_laws;
pub mod filters;
pub mod health;
pub mod health_laws;
pub mod overlap;
pub mod overlap_laws;
pub mod preview;
pub mod preview_laws;
pub mod routing;
pub mod routing_laws;
pub mod run_gate;
pub mod run_gate_laws;
pub mod selection_laws;
pub mod trigger_laws;
pub mod triggers;
pub mod wording_laws;
pub mod workspace;
pub mod workspace_laws;
