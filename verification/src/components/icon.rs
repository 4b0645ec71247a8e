//! Every glyph SyncMaid draws, named for what it means rather than what it looks like.
//!
//! Most names resolve to an icon of the component library. The rest resolve to a drawing of our
//! own, because the library has no Play, Stop, Refresh, Trash, Pencil, Clock or Funnel.

use crate::text::concat3;
use vstd::prelude::*;

verus! {

/// See the module docs.
#[derive(Debug, Clone, Copy, PartialEq, Eq, Structural)]
pub enum Glyph {
    Back,
    ChevronDown,
    ChevronLeft,
    ChevronRight,
    ArrowRight,
    MoveUp,
    MoveDown,
    Close,
    /// Remove one row from a list.
    Remove,
    Folder,
    /// A Move destination: where files land.
    Inbox,
    /// "Keep the folder structure".
    Tree,
    /// A Move task's ordered routing table.
    Route,
    Filter,
    /// The catch-all "everything else" rule.
    Asterisk,
    Run,
    Stop,
    Sync,
    Add,
    Edit,
    Trash,
    Copy,
    Settings,
    /// Show what a filter or a plan would do.
    Eye,
    Check,
    /// Run only when asked.
    Manual,
    /// A schedule.
    Clock,
    /// Move to the recycle bin.
    Recycle,
    Success,
    Warning,
    Failure,
    /// Never run, or finished with work left over.
    Idle,
}

/// An icon of the component library.
#[derive(Debug, Clone, Copy, PartialEq, Eq, Structural)]
pub enum LibraryIcon {
    ArrowLeft,
    ChevronDown,
    ChevronLeft,
    ChevronRight,
    ArrowRight,
    ArrowUp,
    ArrowDown,
    Close,
    CircleX,
    Folder,
    Asterisk,
    Plus,
    Copy,
    Settings,
    Eye,
    Check,
    CircleCheck,
    TriangleAlert,
}

/// Where a glyph's drawing comes from.
#[derive(Debug, PartialEq, Eq)]
pub enum Drawing {
    /// The component library's.
    Library(LibraryIcon),
    /// Our own, at this path among the embedded assets.
    Own(String),
}

/// What a [`Drawing`] says.
pub enum DrawingView {
    Library(LibraryIcon),
    Own(Seq<char>),
}

impl View for Drawing {
    type V = DrawingView;

    open spec fn view(&self) -> DrawingView {
        match self {
            Drawing::Library(icon) => DrawingView::Library(*icon),
            Drawing::Own(path) => DrawingView::Own(path@),
        }
    }
}

/// Where one of our own drawings lies.
pub open spec fn own_path(name: Seq<char>) -> Seq<char> {
    "icons/"@ + name + ".svg"@
}

/// The drawing for a glyph.
pub open spec fn drawing(glyph: Glyph) -> DrawingView {
    match glyph {
        Glyph::Back => DrawingView::Library(LibraryIcon::ArrowLeft),
        Glyph::ChevronDown => DrawingView::Library(LibraryIcon::ChevronDown),
        Glyph::ChevronLeft => DrawingView::Library(LibraryIcon::ChevronLeft),
        Glyph::ChevronRight => DrawingView::Library(LibraryIcon::ChevronRight),
        Glyph::ArrowRight => DrawingView::Library(LibraryIcon::ArrowRight),
        Glyph::MoveUp => DrawingView::Library(LibraryIcon::ArrowUp),
        Glyph::MoveDown => DrawingView::Library(LibraryIcon::ArrowDown),
        Glyph::Close => DrawingView::Library(LibraryIcon::Close),
        Glyph::Remove => DrawingView::Library(LibraryIcon::CircleX),
        Glyph::Folder => DrawingView::Library(LibraryIcon::Folder),
        Glyph::Asterisk => DrawingView::Library(LibraryIcon::Asterisk),
        Glyph::Add => DrawingView::Library(LibraryIcon::Plus),
        Glyph::Copy => DrawingView::Library(LibraryIcon::Copy),
        Glyph::Settings => DrawingView::Library(LibraryIcon::Settings),
        Glyph::Eye => DrawingView::Library(LibraryIcon::Eye),
        Glyph::Check => DrawingView::Library(LibraryIcon::Check),
        Glyph::Success => DrawingView::Library(LibraryIcon::CircleCheck),
        Glyph::Warning => DrawingView::Library(LibraryIcon::TriangleAlert),
        Glyph::Inbox => DrawingView::Own(own_path("import"@)),
        Glyph::Tree => DrawingView::Own(own_path("folder-tree"@)),
        Glyph::Route => DrawingView::Own(own_path("split"@)),
        Glyph::Filter => DrawingView::Own(own_path("funnel"@)),
        Glyph::Run => DrawingView::Own(own_path("play"@)),
        Glyph::Stop => DrawingView::Own(own_path("circle-stop"@)),
        Glyph::Sync => DrawingView::Own(own_path("refresh-cw"@)),
        Glyph::Edit => DrawingView::Own(own_path("pencil"@)),
        Glyph::Trash => DrawingView::Own(own_path("trash-2"@)),
        Glyph::Manual => DrawingView::Own(own_path("mouse-pointer-click"@)),
        Glyph::Clock => DrawingView::Own(own_path("clock"@)),
        Glyph::Recycle => DrawingView::Own(own_path("recycle"@)),
        Glyph::Failure => DrawingView::Own(own_path("circle-alert"@)),
        Glyph::Idle => DrawingView::Own(own_path("circle-minus"@)),
    }
}

/// One of ours. Same namespace as the library's, which is why the names must not collide.
fn supplement(name: &str) -> (r: Drawing)
    ensures
        r@ == DrawingView::Own(own_path(name@)),
{
    Drawing::Own(concat3("icons/", name, ".svg"))
}

impl Glyph {
    /// Where this glyph's drawing comes from.
    pub fn path(self) -> (r: Drawing)
        ensures
            r@ == drawing(self),
    {
        match self {
            Glyph::Back => Drawing::Library(LibraryIcon::ArrowLeft),
            Glyph::ChevronDown => Drawing::Library(LibraryIcon::ChevronDown),
            Glyph::ChevronLeft => Drawing::Library(LibraryIcon::ChevronLeft),
            Glyph::ChevronRight => Drawing::Library(LibraryIcon::ChevronRight),
            Glyph::ArrowRight => Drawing::Library(LibraryIcon::ArrowRight),
            Glyph::MoveUp => Drawing::Library(LibraryIcon::ArrowUp),
            Glyph::MoveDown => Drawing::Library(LibraryIcon::ArrowDown),
            Glyph::Close => Drawing::Library(LibraryIcon::Close),
            Glyph::Remove => Drawing::Library(LibraryIcon::CircleX),
            Glyph::Folder => Drawing::Library(LibraryIcon::Folder),
            Glyph::Asterisk => Drawing::Library(LibraryIcon::Asterisk),
            Glyph::Add => Drawing::Library(LibraryIcon::Plus),
            Glyph::Copy => Drawing::Library(LibraryIcon::Copy),
            Glyph::Settings => Drawing::Library(LibraryIcon::Settings),
            Glyph::Eye => Drawing::Library(LibraryIcon::Eye),
            Glyph::Check => Drawing::Library(LibraryIcon::Check),
            Glyph::Success => Drawing::Library(LibraryIcon::CircleCheck),
            Glyph::Warning => Drawing::Library(LibraryIcon::TriangleAlert),
            Glyph::Inbox => supplement("import"),
            Glyph::Tree => supplement("folder-tree"),
            Glyph::Route => supplement("split"),
            Glyph::Filter => supplement("funnel"),
            Glyph::Run => supplement("play"),
            Glyph::Stop => supplement("circle-stop"),
            Glyph::Sync => supplement("refresh-cw"),
            Glyph::Edit => supplement("pencil"),
            Glyph::Trash => supplement("trash-2"),
            Glyph::Manual => supplement("mouse-pointer-click"),
            Glyph::Clock => supplement("clock"),
            Glyph::Recycle => supplement("recycle"),
            Glyph::Failure => supplement("circle-alert"),
            Glyph::Idle => supplement("circle-minus"),
        }
    }
}

/// The four status glyphs are four drawings, so a column of them reads as one scale.
pub proof fn law_the_status_family_is_four_distinct_drawings()
    ensures
        drawing(Glyph::Success) != drawing(Glyph::Warning),
        drawing(Glyph::Success) != drawing(Glyph::Failure),
        drawing(Glyph::Success) != drawing(Glyph::Idle),
        drawing(Glyph::Warning) != drawing(Glyph::Failure),
        drawing(Glyph::Warning) != drawing(Glyph::Idle),
        drawing(Glyph::Failure) != drawing(Glyph::Idle),
{
    reveal_strlit("icons/");
    reveal_strlit(".svg");
    reveal_strlit("circle-alert");
    reveal_strlit("circle-minus");
    let failure = own_path("circle-alert"@);
    let idle = own_path("circle-minus"@);
    assert(failure[13] == 'a');
    assert(idle[13] == 'm');
}

} // verus!
