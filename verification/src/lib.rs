//! A small PDF document-construction engine.
//!
//! The crate builds a document as plain values — pages, fonts, link and text
//! annotations, destinations, an outline tree — and serializes the whole
//! object graph to a byte stream with a cross-reference table and a trailer.
//! Every operation is specified by a contract and verified with Verus.

pub mod annots;
pub mod compress;
pub mod content;
pub mod document;
pub mod emit;
pub mod errors;
pub mod font;
pub mod geom;
pub mod images;
pub mod measure;
pub mod page;
pub mod serialize;

pub use annots::{AnnotKind, Annotation, BorderStyle, Destination, HighlightMode, Link, LinkBorder, Outline, OutlineNode};
pub use compress::CompressionMode;
pub use content::{ContentStream, PaintKind, StreamMode};
pub use document::{Document, Encoder, FontRecord, LoadedFont, MetaEntry, Metadata, PageLabel, PageLayout, PageMode, PageNumStyle};
pub use errors::ErrorKind;
pub use font::{Font, WidthClass};
pub use geom::{CmykColor, Color, Corner, Point, Rect, Rectangle, RectangleBuilder};
pub use images::Image;
pub use page::{GraphicsState, LineCap, LineJoin, Page, PageDirection, PageSize, PathOp, TextAlignment, TextOp, TextRenderingMode};
