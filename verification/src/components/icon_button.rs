//! A button that is only a glyph.

use crate::components::icon::Glyph;
use crate::components::palette::Swatch;
use crate::text::owned;
use vstd::prelude::*;

verus! {

/// What an icon button is for.
#[derive(Debug, Clone, Copy, PartialEq, Eq, Structural)]
pub enum IconButtonTone {
    Neutral,
    Run,
    Danger,
    /// In the title bar.
    Caption,
    /// The title bar's close button.
    CaptionClose,
}

impl Default for IconButtonTone {
    fn default() -> (r: Self)
        ensures
            r == IconButtonTone::Neutral,
    {
        IconButtonTone::Neutral
    }
}

/// How an icon button is painted.
#[derive(Debug, Clone, Copy, PartialEq, Eq, Structural)]
pub struct IconPaint {
    /// In the title bar: no border, and the bar's own size.
    pub caption: bool,
    pub border: Swatch,
    pub glyph: Swatch,
    pub hover: Swatch,
    /// The glyph's colour under the pointer.
    pub hover_glyph: Swatch,
    pub live: bool,
}

/// What an icon button shows.
#[derive(Debug, PartialEq, Eq)]
pub struct IconButton {
    pub id: String,
    pub glyph: Glyph,
    pub tone: IconButtonTone,
    pub small: bool,
    /// In pixels.
    pub glyph_size: u32,
    pub disabled: bool,
    pub tooltip: Option<String>,
}

impl IconButton {
    /// A neutral button that can be pressed.
    pub fn new(id: &str, glyph: Glyph) -> (r: Self)
        ensures
            r.id@ == id@,
            r.glyph == glyph,
            r.tone == IconButtonTone::Neutral,
            !r.small,
            r.glyph_size == 16,
            !r.disabled,
            r.tooltip is None,
    {
        IconButton {
            id: owned(id),
            glyph,
            tone: IconButtonTone::Neutral,
            small: false,
            glyph_size: 16,
            disabled: false,
            tooltip: None,
        }
    }

    pub fn tone(self, tone: IconButtonTone) -> (r: Self)
        ensures
            r == (IconButton { tone, ..self }),
    {
        IconButton { tone, ..self }
    }

    /// The size used inside rows. The glyph shrinks with the button.
    pub fn small(self) -> (r: Self)
        ensures
            r == (IconButton { small: true, glyph_size: 14, ..self }),
    {
        IconButton { small: true, glyph_size: 14, ..self }
    }

    pub fn glyph_size(self, size: u32) -> (r: Self)
        ensures
            r == (IconButton { glyph_size: size, ..self }),
    {
        IconButton { glyph_size: size, ..self }
    }

    pub fn disabled(self, disabled: bool) -> (r: Self)
        ensures
            r == (IconButton { disabled, ..self }),
    {
        IconButton { disabled, ..self }
    }

    pub fn tooltip(self, tooltip: &str) -> (r: Self)
        ensures
            r == (IconButton { tooltip: r.tooltip, ..self }),
            r.tooltip matches Some(tip) && tip@ == tooltip@,
    {
        IconButton { tooltip: Some(owned(tooltip)), ..self }
    }

    /// How the button is painted.
    pub fn paint(&self) -> (r: IconPaint)
        ensures
            r.caption == (self.tone is Caption || self.tone is CaptionClose),
            (r.border, r.glyph, r.hover) == match self.tone {
                IconButtonTone::Neutral => (
                    Swatch::Hairline,
                    Swatch::TextSecondary,
                    Swatch::Subtle,
                ),
                IconButtonTone::Run => (Swatch::Teal, Swatch::Teal, Swatch::TealSubtle),
                IconButtonTone::Danger => (Swatch::Danger, Swatch::Danger, Swatch::DangerSubtle),
                IconButtonTone::Caption => (Swatch::Page, Swatch::TextSecondary, Swatch::Subtle),
                IconButtonTone::CaptionClose => (
                    Swatch::Page,
                    Swatch::TextSecondary,
                    Swatch::Danger,
                ),
            },
            r.hover_glyph == if self.tone is CaptionClose {
                Swatch::Surface
            } else {
                r.glyph
            },
            r.live == !self.disabled,
    {
        let (border, glyph, hover) = match self.tone {
            IconButtonTone::Neutral => (Swatch::Hairline, Swatch::TextSecondary, Swatch::Subtle),
            IconButtonTone::Run => (Swatch::Teal, Swatch::Teal, Swatch::TealSubtle),
            IconButtonTone::Danger => (Swatch::Danger, Swatch::Danger, Swatch::DangerSubtle),
            IconButtonTone::Caption => (Swatch::Page, Swatch::TextSecondary, Swatch::Subtle),
            IconButtonTone::CaptionClose => (Swatch::Page, Swatch::TextSecondary, Swatch::Danger),
        };
        let close = self.tone == IconButtonTone::CaptionClose;
        IconPaint {
            caption: close || self.tone == IconButtonTone::Caption,
            border,
            glyph,
            hover,
            hover_glyph: if close {
                Swatch::Surface
            } else {
                glyph
            },
            live: !self.disabled,
        }
    }
}

} // verus!
