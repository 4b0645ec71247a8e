//! No two glyphs look alike.

use crate::components::icon;
use crate::components::icon::{DrawingView, Glyph};
use vstd::prelude::*;

verus! {

/// A drawing of the app's own lies among its icons, under the name it goes by.
pub proof fn law_an_own_drawing_lies_among_the_icons(name: Seq<char>)
    ensures
        icon::own_path(name) == "icons/"@ + name + ".svg"@,
{
}

/// What tells the drawings of the app's own apart: how long the path is, and two letters of it.
proof fn lemma_telling_letters(glyph: Glyph)
    ensures
        icon::drawing(glyph) matches DrawingView::Own(path) ==> {
            match glyph {
                Glyph::Inbox => path.len() == 16 && path[6] == 'i' && path[13] == 's',
                Glyph::Tree => path.len() == 21 && path[6] == 'f' && path[13] == 't',
                Glyph::Route => path.len() == 15 && path[6] == 's' && path[13] == 'v',
                Glyph::Filter => path.len() == 16 && path[6] == 'f' && path[13] == 's',
                Glyph::Run => path.len() == 14 && path[6] == 'p' && path[13] == 'g',
                Glyph::Stop => path.len() == 21 && path[6] == 'c' && path[13] == 's',
                Glyph::Sync => path.len() == 20 && path[6] == 'r' && path[13] == '-',
                Glyph::Edit => path.len() == 16 && path[6] == 'p' && path[13] == 's',
                Glyph::Trash => path.len() == 17 && path[6] == 't' && path[13] == '.',
                Glyph::Manual => path.len() == 29 && path[6] == 'm' && path[13] == 'o',
                Glyph::Clock => path.len() == 15 && path[6] == 'c' && path[13] == 'v',
                Glyph::Recycle => path.len() == 17 && path[6] == 'r' && path[13] == '.',
                Glyph::Failure => path.len() == 22 && path[6] == 'c' && path[13] == 'a',
                Glyph::Idle => path.len() == 22 && path[6] == 'c' && path[13] == 'm',
                _ => false,
            }
        },
{
    reveal_strlit("icons/");
    reveal_strlit(".svg");
    match glyph {
        Glyph::Inbox => {
            reveal_strlit("import");
        },
        Glyph::Tree => {
            reveal_strlit("folder-tree");
        },
        Glyph::Route => {
            reveal_strlit("split");
        },
        Glyph::Filter => {
            reveal_strlit("funnel");
        },
        Glyph::Run => {
            reveal_strlit("play");
        },
        Glyph::Stop => {
            reveal_strlit("circle-stop");
        },
        Glyph::Sync => {
            reveal_strlit("refresh-cw");
        },
        Glyph::Edit => {
            reveal_strlit("pencil");
        },
        Glyph::Trash => {
            reveal_strlit("trash-2");
        },
        Glyph::Manual => {
            reveal_strlit("mouse-pointer-click");
        },
        Glyph::Clock => {
            reveal_strlit("clock");
        },
        Glyph::Recycle => {
            reveal_strlit("recycle");
        },
        Glyph::Failure => {
            reveal_strlit("circle-alert");
        },
        Glyph::Idle => {
            reveal_strlit("circle-minus");
        },
        _ => {},
    }
}

/// Two glyphs that are drawn alike are the same.
pub proof fn law_no_two_glyphs_are_drawn_alike(one: Glyph, other: Glyph)
    requires
        icon::drawing(one) == icon::drawing(other),
    ensures
        one == other,
{
    lemma_telling_letters(one);
    lemma_telling_letters(other);
}

} // verus!
