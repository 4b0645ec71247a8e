//! The rules behind SyncMaid's window.

pub mod arguments;
pub mod asset_laws;
pub mod assets;
pub mod components;
pub mod i18n;
pub mod i18n_laws;
pub mod ids;
pub mod model;
pub mod model_laws;
pub mod platform;
pub mod rules;
pub mod search;
pub mod services;
pub mod state;
pub mod strings;
pub mod text;
pub mod text_laws;
pub mod views;
