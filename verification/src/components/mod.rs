//! The pieces the window is made of.

pub mod badge;
pub mod button;
pub mod checkbox;
pub mod choice_card;
pub mod hint_box;
pub mod icon;
pub mod icon_button;
pub mod icon_laws;
pub mod palette;
pub mod segment;
