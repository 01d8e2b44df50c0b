//! Annotations and destinations: navigable targets and the link and text
//! decorations that reference them.

use vstd::prelude::*;

use crate::geom::{Point, Rectangle};

verus! {

/// Visual feedback when a link annotation is activated.
#[derive(Clone, Copy, Debug, PartialEq, Eq, Structural)]
pub enum HighlightMode {
    /// No visual feedback.
    NoHighlight,
    /// Invert the annotation rectangle.
    InvertBox,
    /// Invert the annotation border.
    InvertBorder,
    /// Show a pressed-down appearance.
    DownAppearance,
}

/// The border drawn around a link annotation.
#[derive(Clone, Copy, Debug, PartialEq, Eq, Structural)]
pub struct BorderStyle {
    /// Stroke width of the border; zero for no visible border.
    pub width: i32,
    /// Length of the drawn part of a dash.
    pub dash_on: u16,
    /// Length of the gap of a dash.
    pub dash_off: u16,
}

impl Default for BorderStyle {
    /// A solid border of width zero.
    fn default() -> (b: BorderStyle)
        ensures
            b == (BorderStyle { width: 0, dash_on: 0, dash_off: 0 }),
    {
        BorderStyle { width: 0, dash_on: 0, dash_off: 0 }
    }
}

/// Common border choices for link annotations.
#[derive(Clone, Copy, Debug, PartialEq, Eq, Structural)]
pub enum LinkBorder {
    /// A thin dashed border.
    Dashed,
    /// No visible border.
    NoBorder,
    /// A caller-chosen border style.
    Custom(BorderStyle),
}

/// The border style each common choice stands for.
pub open spec fn link_border_style(b: LinkBorder) -> BorderStyle {
    match b {
        LinkBorder::Dashed => BorderStyle { width: 1, dash_on: 3, dash_off: 2 },
        LinkBorder::NoBorder => BorderStyle { width: 0, dash_on: 0, dash_off: 0 },
        LinkBorder::Custom(s) => s,
    }
}

impl From<LinkBorder> for BorderStyle {
    /// Resolve a common border choice to its style.
    fn from(value: LinkBorder) -> (b: BorderStyle) {
        match value {
            LinkBorder::Dashed => BorderStyle { width: 1, dash_on: 3, dash_off: 2 },
            LinkBorder::NoBorder => BorderStyle { width: 0, dash_on: 0, dash_off: 0 },
            LinkBorder::Custom(s) => s,
        }
    }
}

impl vstd::std_specs::convert::FromSpecImpl<LinkBorder> for BorderStyle {
    open spec fn obeys_from_spec() -> bool {
        true
    }

    open spec fn from_spec(value: LinkBorder) -> BorderStyle {
        link_border_style(value)
    }
}

/// A navigable target: a page, a position on it, and a zoom factor in
/// thousandths (zero keeps the reader's current zoom).
///
/// The destination is owned by the document that created it; this value is
/// also the handle that links, outline entries and the open action refer to
/// it by.
#[derive(Clone, Copy, Debug, PartialEq, Eq, Structural)]
pub struct Destination {
    /// The object reference number the destination was registered under.
    pub id: u64,
    /// The object reference number of the target page.
    pub page_id: u64,
    /// The position on the page scrolled to.
    pub pos: Point,
    /// Zoom factor in thousandths; zero keeps the current zoom.
    pub zoom: u32,
}

/// What an annotation does.
#[derive(Debug)]
pub enum AnnotKind {
    /// A link to a destination in this document.
    Link {
        /// The object reference number of the destination linked to.
        dest_id: u64,
        /// Visual feedback when the link is activated.
        highlight: HighlightMode,
        /// The border drawn around the link.
        border: BorderStyle,
    },
    /// A text note.
    Note {
        /// The contents of the note.
        contents: Vec<u8>,
    },
    /// A link to an external resource.
    Uri {
        /// The target address.
        uri: Vec<u8>,
    },
}

/// An annotation: a decorated rectangle on a page.
#[derive(Debug)]
pub struct Annotation {
    /// The object reference number the annotation was registered under.
    pub id: u64,
    /// The object reference number of the decorated page.
    pub page_id: u64,
    /// The decorated rectangle, stored in normalized corner order.
    pub rect: Rectangle,
    /// What the annotation does.
    pub kind: AnnotKind,
}

/// A handle to a link annotation of a document.
#[derive(Clone, Copy, Debug, PartialEq, Eq, Structural)]
pub struct Link {
    /// The position of the annotation in the document's annotation list.
    pub annot_index: usize,
    /// The object reference number of the annotation.
    pub id: u64,
}

/// A handle to an outline entry of a document.
#[derive(Clone, Copy, Debug, PartialEq, Eq, Structural)]
pub struct Outline {
    /// The position of the entry in the document's outline list.
    pub index: usize,
    /// The object reference number of the entry.
    pub id: u64,
}

/// An entry of the document's outline tree.
#[derive(Debug)]
pub struct OutlineNode {
    /// The object reference number the entry was registered under.
    pub id: u64,
    /// The displayed title.
    pub title: Vec<u8>,
    /// The position of the parent entry in the outline list, or nothing
    /// for a top-level entry. Always smaller than the entry's own
    /// position: the tree is acyclic by construction.
    pub parent: Option<usize>,
    /// The object reference number of the destination jumped to, if one
    /// was attached.
    pub dest_id: Option<u64>,
}

} // verus!
