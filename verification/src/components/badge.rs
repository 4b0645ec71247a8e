//! A small pill beside a name.

use crate::components::icon::Glyph;
use crate::components::palette::Swatch;
use crate::text::owned;
use vstd::prelude::*;

verus! {

/// How loud a badge is.
#[derive(Debug, Clone, Copy, PartialEq, Eq, Structural)]
pub enum BadgeTone {
    Quiet,
    Live,
    Warn,
}

impl Default for BadgeTone {
    fn default() -> (r: Self)
        ensures
            r == BadgeTone::Quiet,
    {
        BadgeTone::Quiet
    }
}

/// What a pill shows.
#[derive(Debug, PartialEq, Eq)]
pub struct Badge {
    pub label: String,
    pub glyph: Option<Glyph>,
    pub tone: BadgeTone,
    /// The element the tooltip hangs on, and what it says.
    pub tooltip: Option<(String, String)>,
}

impl Badge {
    /// A quiet pill.
    pub fn new(label: &str) -> (r: Self)
        ensures
            r.label@ == label@,
            r.glyph is None,
            r.tone == BadgeTone::Quiet,
            r.tooltip is None,
    {
        Badge { label: owned(label), glyph: None, tone: BadgeTone::Quiet, tooltip: None }
    }

    pub fn tooltip(self, id: &str, text: &str) -> (r: Self)
        ensures
            r == (Badge { tooltip: r.tooltip, ..self }),
            r.tooltip matches Some(tip) && tip.0@ == id@ && tip.1@ == text@,
    {
        Badge { tooltip: Some((owned(id), owned(text))), ..self }
    }

    pub fn glyph(self, glyph: Glyph) -> (r: Self)
        ensures
            r == (Badge { glyph: Some(glyph), ..self }),
    {
        Badge { glyph: Some(glyph), ..self }
    }

    pub fn tone(self, tone: BadgeTone) -> (r: Self)
        ensures
            r == (Badge { tone, ..self }),
    {
        Badge { tone, ..self }
    }

    pub fn label(&self) -> (r: &str)
        ensures
            r@ == self.label@,
    {
        self.label.as_str()
    }

    /// The colours behind the text and of it.
    pub fn colors(&self) -> (r: (Swatch, Swatch))
        ensures
            r == match self.tone {
                BadgeTone::Quiet => (Swatch::Subtle, Swatch::TextSecondary),
                BadgeTone::Live => (Swatch::TealSubtle, Swatch::Teal),
                BadgeTone::Warn => (Swatch::WarningSubtle, Swatch::Warning),
            },
    {
        match self.tone {
            BadgeTone::Quiet => (Swatch::Subtle, Swatch::TextSecondary),
            BadgeTone::Live => (Swatch::TealSubtle, Swatch::Teal),
            BadgeTone::Warn => (Swatch::WarningSubtle, Swatch::Warning),
        }
    }
}

} // verus!
