//! A button with a label.

use crate::components::icon::Glyph;
use crate::components::palette::Swatch;
use crate::text::owned;
use vstd::prelude::*;

verus! {

/// What a button is for.
#[derive(Debug, Clone, Copy, PartialEq, Eq, Structural)]
pub enum ButtonTone {
    Primary,
    Secondary,
    Danger,
}

impl Default for ButtonTone {
    fn default() -> (r: Self)
        ensures
            r == ButtonTone::Primary,
    {
        ButtonTone::Primary
    }
}

/// How a button is painted.
#[derive(Debug, Clone, Copy, PartialEq, Eq, Structural)]
pub struct ButtonPaint {
    /// Filled, or an outline.
    pub filled: bool,
    pub background: Swatch,
    pub foreground: Swatch,
    pub hover: Swatch,
    /// It reacts to the pointer and to clicks; otherwise it is dimmed.
    pub live: bool,
}

/// What a button shows.
#[derive(Debug, PartialEq, Eq)]
pub struct Button {
    pub id: String,
    pub label: String,
    pub glyph: Option<Glyph>,
    pub tone: ButtonTone,
    pub disabled: bool,
    pub tooltip: Option<String>,
}

impl Button {
    /// A primary button that can be pressed.
    pub fn new(id: &str, label: &str) -> (r: Self)
        ensures
            r.id@ == id@,
            r.label@ == label@,
            r.glyph is None,
            r.tone == ButtonTone::Primary,
            !r.disabled,
            r.tooltip is None,
    {
        Button {
            id: owned(id),
            label: owned(label),
            glyph: None,
            tone: ButtonTone::Primary,
            disabled: false,
            tooltip: None,
        }
    }

    pub fn glyph(self, glyph: Glyph) -> (r: Self)
        ensures
            r == (Button { glyph: Some(glyph), ..self }),
    {
        Button { glyph: Some(glyph), ..self }
    }

    pub fn tone(self, tone: ButtonTone) -> (r: Self)
        ensures
            r == (Button { tone, ..self }),
    {
        Button { tone, ..self }
    }

    pub fn disabled(self, disabled: bool) -> (r: Self)
        ensures
            r == (Button { disabled, ..self }),
    {
        Button { disabled, ..self }
    }

    pub fn tooltip(self, tooltip: &str) -> (r: Self)
        ensures
            r == (Button { tooltip: r.tooltip, ..self }),
            r.tooltip matches Some(tip) && tip@ == tooltip@,
    {
        Button { tooltip: Some(owned(tooltip)), ..self }
    }

    /// How the button is painted.
    pub fn paint(&self) -> (r: ButtonPaint)
        ensures
            r.filled == !(self.tone is Secondary),
            r.live == !self.disabled,
            (r.background, r.foreground, r.hover) == match self.tone {
                ButtonTone::Primary => (Swatch::Teal, Swatch::Surface, Swatch::TealHover),
                ButtonTone::Secondary => (Swatch::Page, Swatch::TextPrimary, Swatch::Subtle),
                ButtonTone::Danger => (Swatch::Danger, Swatch::Surface, Swatch::DangerHover),
            },
    {
        let (background, foreground, hover) = match self.tone {
            ButtonTone::Primary => (Swatch::Teal, Swatch::Surface, Swatch::TealHover),
            ButtonTone::Secondary => (Swatch::Page, Swatch::TextPrimary, Swatch::Subtle),
            ButtonTone::Danger => (Swatch::Danger, Swatch::Surface, Swatch::DangerHover),
        };
        ButtonPaint {
            filled: self.tone != ButtonTone::Secondary,
            background,
            foreground,
            hover,
            live: !self.disabled,
        }
    }
}

} // verus!
