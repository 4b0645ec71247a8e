//! The colours of the window, by what they are for.

use vstd::prelude::*;

verus! {

/// A colour, by what it is for.
#[derive(Debug, Clone, Copy, PartialEq, Eq, Structural)]
pub enum Swatch {
    Page,
    Surface,
    Subtle,
    Hairline,
    HairlineStrong,
    TextPrimary,
    TextSecondary,
    TextMuted,
    Teal,
    TealHover,
    TealSubtle,
    Warning,
    WarningSubtle,
    Danger,
    DangerHover,
    DangerSubtle,
}

} // verus!
