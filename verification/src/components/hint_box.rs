//! A sentence of advice in a box of its own.

use crate::components::icon::Glyph;
use crate::components::palette::Swatch;
use crate::text::owned;
use vstd::prelude::*;

verus! {

/// How loud a hint is.
#[derive(Debug, Clone, Copy, PartialEq, Eq, Structural)]
pub enum HintTone {
    Neutral,
    Warning,
    Danger,
}

impl Default for HintTone {
    fn default() -> (r: Self)
        ensures
            r == HintTone::Neutral,
    {
        HintTone::Neutral
    }
}

/// What a hint shows.
#[derive(Debug, PartialEq, Eq)]
pub struct HintBox {
    pub text: String,
    pub glyph: Glyph,
    pub tone: HintTone,
}

impl HintBox {
    /// A neutral hint.
    pub fn new(text: &str) -> (r: Self)
        ensures
            r.text@ == text@,
            r.glyph == Glyph::Warning,
            r.tone == HintTone::Neutral,
    {
        HintBox { text: owned(text), glyph: Glyph::Warning, tone: HintTone::Neutral }
    }

    pub fn glyph(self, glyph: Glyph) -> (r: Self)
        ensures
            r == (HintBox { glyph, ..self }),
    {
        HintBox { glyph, ..self }
    }

    pub fn tone(self, tone: HintTone) -> (r: Self)
        ensures
            r == (HintBox { tone, ..self }),
    {
        HintBox { tone, ..self }
    }

    /// The colour of the glyph.
    pub fn glyph_color(&self) -> (r: Swatch)
        ensures
            r == match self.tone {
                HintTone::Neutral => Swatch::TextMuted,
                HintTone::Warning => Swatch::Warning,
                HintTone::Danger => Swatch::Danger,
            },
    {
        match self.tone {
            HintTone::Neutral => Swatch::TextMuted,
            HintTone::Warning => Swatch::Warning,
            HintTone::Danger => Swatch::Danger,
        }
    }
}

} // verus!
