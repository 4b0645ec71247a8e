//! What the app keeps going in the background.

pub mod logging;
pub mod logging_laws;
