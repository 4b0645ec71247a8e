//! A box that is ticked or not.

use crate::components::palette::Swatch;
use crate::text::owned;
use vstd::prelude::*;

verus! {

/// What a checkbox shows.
#[derive(Debug, PartialEq, Eq)]
pub struct Checkbox {
    pub id: String,
    pub label: String,
    pub description: Option<String>,
    pub checked: bool,
    pub disabled: bool,
}

impl Checkbox {
    /// A box that can be ticked.
    pub fn new(id: &str, label: &str, checked: bool) -> (r: Self)
        ensures
            r.id@ == id@,
            r.label@ == label@,
            r.description is None,
            r.checked == checked,
            !r.disabled,
    {
        Checkbox {
            id: owned(id),
            label: owned(label),
            description: None,
            checked,
            disabled: false,
        }
    }

    pub fn description(self, description: &str) -> (r: Self)
        ensures
            r == (Checkbox { description: r.description, ..self }),
            r.description matches Some(said) && said@ == description@,
    {
        Checkbox { description: Some(owned(description)), ..self }
    }

    pub fn disabled(self, disabled: bool) -> (r: Self)
        ensures
            r == (Checkbox { disabled, ..self }),
    {
        Checkbox { disabled, ..self }
    }

    /// The colours of the box and of its border.
    pub fn colors(&self) -> (r: (Swatch, Swatch))
        ensures
            r == if self.checked {
                (Swatch::Teal, Swatch::Teal)
            } else {
                (Swatch::Surface, Swatch::HairlineStrong)
            },
    {
        if self.checked {
            (Swatch::Teal, Swatch::Teal)
        } else {
            (Swatch::Surface, Swatch::HairlineStrong)
        }
    }
}

} // verus!
