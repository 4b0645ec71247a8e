//! One of a few choices, each with a sentence about what it means.

use crate::components::icon::Glyph;
use crate::text::owned;
use vstd::prelude::*;

verus! {

/// What a choice shows.
#[derive(Debug, PartialEq, Eq)]
pub struct ChoiceCard {
    pub id: String,
    pub glyph: Glyph,
    pub title: String,
    pub description: String,
    pub selected: bool,
    pub disabled: bool,
}

impl ChoiceCard {
    /// A choice that is not taken and can be.
    pub fn new(id: &str, glyph: Glyph, title: &str, description: &str) -> (r: Self)
        ensures
            r.id@ == id@,
            r.glyph == glyph,
            r.title@ == title@,
            r.description@ == description@,
            !r.selected,
            !r.disabled,
    {
        ChoiceCard {
            id: owned(id),
            glyph,
            title: owned(title),
            description: owned(description),
            selected: false,
            disabled: false,
        }
    }

    pub fn selected(self, selected: bool) -> (r: Self)
        ensures
            r == (ChoiceCard { selected, ..self }),
    {
        ChoiceCard { selected, ..self }
    }

    pub fn disabled(self, disabled: bool) -> (r: Self)
        ensures
            r == (ChoiceCard { disabled, ..self }),
    {
        ChoiceCard { disabled, ..self }
    }
}

} // verus!
