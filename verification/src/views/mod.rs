//! What each part of the window says and does, short of drawing it.

pub mod card_laws;
pub mod choices;
pub mod confirm;
pub mod destination_editor;
pub mod editor_laws;
pub mod filter_section;
pub mod form_laws;
pub mod log_laws;
pub mod log_viewer;
pub mod main_actions;
pub mod main_view;
pub mod mirror_delete;
pub mod preview_words_laws;
pub mod routing_preview;
pub mod rule_laws;
pub mod rule_list;
pub mod rule_order;
pub mod save_laws;
pub mod settings;
pub mod task_card;
pub mod task_editor;
pub mod task_workspace;
pub mod time;
pub mod time_laws;
pub mod window_laws;
pub mod workspace_save;
