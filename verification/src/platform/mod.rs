//! What the window asks of the system, and what the system's answers mean.

pub mod autostart;
pub mod launch_laws;
pub mod shell_open;
pub mod single_instance;
pub mod tray;
pub mod window_visibility;
