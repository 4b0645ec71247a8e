//! A row of choices of which one is taken.

use crate::components::icon::Glyph;
use crate::components::palette::Swatch;
use crate::text::owned;
use vstd::prelude::*;

verus! {

/// One of the choices.
#[derive(Debug, PartialEq, Eq)]
pub struct SegmentOption {
    pub label: String,
    pub glyph: Option<Glyph>,
}

impl SegmentOption {
    /// A choice without a glyph.
    pub fn new(label: &str) -> (r: Self)
        ensures
            r.label@ == label@,
            r.glyph is None,
    {
        SegmentOption { label: owned(label), glyph: None }
    }

    pub fn glyph(self, glyph: Glyph) -> (r: Self)
        ensures
            r == (SegmentOption { glyph: Some(glyph), ..self }),
    {
        SegmentOption { glyph: Some(glyph), ..self }
    }
}

/// How one choice is painted.
#[derive(Debug, Clone, Copy, PartialEq, Eq, Structural)]
pub struct SegmentPaint {
    pub background: Swatch,
    pub border: Swatch,
    pub foreground: Swatch,
}

/// What the row shows.
#[derive(Debug, PartialEq, Eq)]
pub struct Segment {
    pub id: String,
    pub options: Vec<SegmentOption>,
    pub selected: usize,
    pub small: bool,
    pub wrap: bool,
}

impl Segment {
    /// A row of full size that does not wrap.
    pub fn new(id: &str, options: Vec<SegmentOption>, selected: usize) -> (r: Self)
        ensures
            r.id@ == id@,
            r.options == options,
            r.selected == selected,
            !r.small,
            !r.wrap,
    {
        Segment { id: owned(id), options, selected, small: false, wrap: false }
    }

    pub fn small(self) -> (r: Self)
        ensures
            r == (Segment { small: true, ..self }),
    {
        Segment { small: true, ..self }
    }

    /// Lets the choices wrap onto more lines. A wrapping row is a small one.
    pub fn wrapping(self) -> (r: Self)
        ensures
            r == (Segment { wrap: true, small: true, ..self }),
    {
        Segment { wrap: true, small: true, ..self }
    }

    /// How one choice is painted.
    pub fn paint(&self, index: usize) -> (r: SegmentPaint)
        ensures
            r == if index == self.selected {
                SegmentPaint {
                    background: Swatch::TealSubtle,
                    border: Swatch::Teal,
                    foreground: Swatch::Teal,
                }
            } else {
                SegmentPaint {
                    background: Swatch::Page,
                    border: Swatch::HairlineStrong,
                    foreground: Swatch::TextSecondary,
                }
            },
    {
        if index == self.selected {
            SegmentPaint {
                background: Swatch::TealSubtle,
                border: Swatch::Teal,
                foreground: Swatch::Teal,
            }
        } else {
            SegmentPaint {
                background: Swatch::Page,
                border: Swatch::HairlineStrong,
                foreground: Swatch::TextSecondary,
            }
        }
    }
}

} // verus!
