//! Pages: size, rotation, the per-page content stream, and the text and
//! drawing operations that build it.
//!
//! A page belongs to the document that created it; the document assigned it
//! an object reference number at creation. Every fallible operation that
//! takes the page by mutable reference records the kind of each failure in
//! the page's error log, and the same kind is returned to the caller.

use vstd::prelude::*;
use vstd::string::StringSliceAdditionalSpecFns;

use crate::content::{
    op2_bytes, paint_bytes, set_font_bytes, show_text_bytes, ContentStream, PaintKind, StreamMode,
};
use crate::emit::dec_i32;
use crate::errors::ErrorKind;
use crate::font::{Font, WidthClass};
use crate::geom::{Color, Point};
use crate::images::Image;
use crate::measure;

verus! {

/// The style of line cap.
#[derive(Clone, Copy, Debug, PartialEq, Eq, Structural)]
pub enum LineCap {
    /// The line is squared off at the endpoint of the path.
    Butt,
    /// The end of the line becomes a semicircle centered on the endpoint.
    Round,
    /// The line continues half the stroke width beyond the endpoint.
    ProjectingSquare,
}

/// The style of line join.
#[derive(Clone, Copy, Debug, PartialEq, Eq, Structural)]
pub enum LineJoin {
    /// Mitered corners.
    Miter,
    /// Rounded corners.
    Round,
    /// Beveled corners.
    Bevel,
}

/// How shown text is rendered.
#[derive(Clone, Copy, Debug, PartialEq, Eq, Structural)]
pub enum TextRenderingMode {
    /// Fill the glyphs.
    Fill,
    /// Stroke the glyph outlines.
    Stroke,
    /// Fill, then stroke.
    FillThenStroke,
    /// Paint nothing.
    Invisible,
    /// Fill and add to the clipping path.
    FillClipping,
    /// Stroke and add to the clipping path.
    StrokeClipping,
    /// Fill, stroke, and add to the clipping path.
    FillStrokeClipping,
    /// Only add to the clipping path.
    Clipping,
}

/// Predefined page sizes.
#[derive(Clone, Copy, Debug, PartialEq, Eq, Structural)]
pub enum PageSize {
    /// 8.5 by 11 inches: 612 by 792 units.
    Letter,
    /// 8.5 by 14 inches: 612 by 1008 units.
    Legal,
    /// 297 by 420 millimetres: 842 by 1191 units.
    A3,
    /// 210 by 297 millimetres: 595 by 842 units.
    A4,
    /// 148 by 210 millimetres: 420 by 595 units.
    A5,
    /// 250 by 353 millimetres: 709 by 1001 units.
    B4,
    /// 176 by 250 millimetres: 499 by 709 units.
    B5,
    /// 7.5 by 10.5 inches: 522 by 756 units.
    Executive,
    /// 4 by 6 inches: 288 by 432 units.
    US4x6,
    /// 4 by 8 inches: 288 by 576 units.
    US4x8,
    /// 5 by 7 inches: 360 by 504 units.
    US5x7,
    /// 4.125 by 9.5 inches: 297 by 684 units.
    Comm10,
}

/// Whether the longer edge of a predefined size runs vertically or
/// horizontally.
#[derive(Clone, Copy, Debug, PartialEq, Eq, Structural)]
pub enum PageDirection {
    /// The longer edge runs vertically.
    Portrait,
    /// The longer edge runs horizontally.
    Landscape,
}

/// Horizontal alignment of laid-out text.
#[derive(Clone, Copy, Debug, PartialEq, Eq, Structural)]
pub enum TextAlignment {
    /// Align on the left edge.
    Left,
    /// Align on the right edge.
    Right,
    /// Center between the edges.
    Center,
    /// Stretch lines to both edges.
    Justify,
}

/// The portrait dimensions of a predefined page size, width first.
pub open spec fn page_size_dims(size: PageSize) -> (int, int) {
    match size {
        PageSize::Letter => (612int, 792int),
        PageSize::Legal => (612int, 1008int),
        PageSize::A3 => (842int, 1191int),
        PageSize::A4 => (595int, 842int),
        PageSize::A5 => (420int, 595int),
        PageSize::B4 => (709int, 1001int),
        PageSize::B5 => (499int, 709int),
        PageSize::Executive => (522int, 756int),
        PageSize::US4x6 => (288int, 432int),
        PageSize::US4x8 => (288int, 576int),
        PageSize::US5x7 => (360int, 504int),
        PageSize::Comm10 => (297int, 684int),
    }
}

/// Addition on a coordinate, clamped to the representable range.
pub open spec fn sat_add_i32(a: int, b: int) -> i32 {
    if a + b > i32::MAX {
        i32::MAX
    } else if a + b < i32::MIN {
        i32::MIN
    } else {
        (a + b) as i32
    }
}

/// One operator of a scoped text block run by [`Page::run_text_mode`].
#[derive(Debug)]
pub enum TextOp {
    /// Move the text position by the given offsets.
    MoveTextPos(i32, i32),
    /// Show a string of text.
    ShowText(Vec<u8>),
    /// Set the text leading.
    SetTextLeading(i32),
    /// Move to the start of the next text line.
    MoveToNextLine,
    /// Select the font and size.
    SetFontAndSize(Font, u32),
}

/// Whether a text operator is accepted inside a text block: only a font
/// size of zero is rejected.
pub open spec fn text_op_ok(op: TextOp) -> bool {
    match op {
        TextOp::SetFontAndSize(_, size) => size > 0,
        _ => true,
    }
}

/// The bytes one text operator appends.
pub open spec fn text_op_bytes(op: TextOp) -> Seq<u8> {
    match op {
        TextOp::MoveTextPos(x, y) => op2_bytes(x as int, y as int, ("Td\n").spec_bytes()),
        TextOp::ShowText(s) => show_text_bytes(s@),
        TextOp::SetTextLeading(v) => dec_i32(v as int) + (" TL\n").spec_bytes(),
        TextOp::MoveToNextLine => ("T*\n").spec_bytes(),
        TextOp::SetFontAndSize(f, size) => set_font_bytes(f.id, size),
    }
}

/// The bytes a sequence of text operators appends.
pub open spec fn text_ops_bytes(ops: Seq<TextOp>) -> Seq<u8>
    decreases ops.len(),
{
    if ops.len() == 0 {
        Seq::<u8>::empty()
    } else {
        text_ops_bytes(ops.drop_last()) + text_op_bytes(ops.last())
    }
}

/// The position of the first rejected operator, or the length when every
/// operator is accepted.
pub open spec fn first_bad_text_op(ops: Seq<TextOp>) -> int
    decreases ops.len(),
{
    if ops.len() == 0 {
        0
    } else if first_bad_text_op(ops.drop_last()) < ops.len() - 1 {
        first_bad_text_op(ops.drop_last())
    } else if text_op_ok(ops.last()) {
        ops.len() as int
    } else {
        ops.len() - 1
    }
}

/// One operator of a scoped path block run by [`Page::run_path_mode`].
#[derive(Clone, Copy, Debug, PartialEq, Eq, Structural)]
pub enum PathOp {
    /// Start a new subpath at the given point.
    MoveTo(i32, i32),
    /// Extend the subpath with a line segment to the given point.
    LineTo(i32, i32),
}

/// The bytes one path operator appends.
pub open spec fn path_op_bytes(op: PathOp) -> Seq<u8> {
    match op {
        PathOp::MoveTo(x, y) => op2_bytes(x as int, y as int, ("m\n").spec_bytes()),
        PathOp::LineTo(x, y) => op2_bytes(x as int, y as int, ("l\n").spec_bytes()),
    }
}

/// The bytes a sequence of path operators appends.
pub open spec fn path_ops_bytes(ops: Seq<PathOp>) -> Seq<u8>
    decreases ops.len(),
{
    if ops.len() == 0 {
        Seq::<u8>::empty()
    } else {
        path_ops_bytes(ops.drop_last()) + path_op_bytes(ops.last())
    }
}

/// One saved snapshot of a page's tracked graphics state: what `q`
/// saves and `Q` brings back.
#[derive(Clone, Copy, Debug)]
pub struct GraphicsState {
    /// The selected font, if one was selected.
    pub font: Option<Font>,
    /// The selected font size.
    pub font_size: u32,
    /// Extra advance per shown byte, in width units.
    pub char_space: u32,
    /// Extra advance per shown space, in width units.
    pub word_space: u32,
    /// Vertical distance between text lines.
    pub leading: i32,
    /// Stroke width of painted paths.
    pub line_width: i32,
    /// The fill color.
    pub fill_color: Color,
}

/// A page of a document.
#[derive(Debug)]
pub struct Page {
    /// The object reference number of the page.
    pub id: u64,
    /// The object reference number of the page's content stream.
    pub content_id: u64,
    /// Page width in user-space units; always positive.
    pub width: i32,
    /// Page height in user-space units; always positive.
    pub height: i32,
    /// Rotation in degrees: 0, 90, 180 or 270.
    pub rotate: u16,
    /// The accumulating content stream.
    pub cs: ContentStream,
    /// The selected font, if one was selected.
    pub font: Option<Font>,
    /// The selected font size; zero until a font is selected.
    pub font_size: u32,
    /// Extra advance per shown byte, in width units.
    pub char_space: u32,
    /// Extra advance per shown space, in width units.
    pub word_space: u32,
    /// Vertical distance between text lines.
    pub leading: i32,
    /// Stroke width of painted paths.
    pub line_width: i32,
    /// The current fill color.
    pub fill_color: Color,
    /// The current position for text showing.
    pub text_pos: Point,
    /// The current position for path painting.
    pub path_pos: Point,
    /// The snapshots pushed by `gsave` and not yet popped, oldest first.
    pub gs_stack: Vec<GraphicsState>,
    /// The kinds of the failures this page has reported, oldest first.
    pub errors: Vec<ErrorKind>,
}

/// The snapshot of the page's tracked graphics state that `gsave` pushes.
pub open spec fn graphics_state_of(p: Page) -> GraphicsState {
    GraphicsState {
        font: p.font,
        font_size: p.font_size,
        char_space: p.char_space,
        word_space: p.word_space,
        leading: p.leading,
        line_width: p.line_width,
        fill_color: p.fill_color,
    }
}

/// The page `p` with its tracked graphics state replaced by the snapshot
/// `g`; everything else keeps its value.
pub open spec fn with_graphics_state(p: Page, g: GraphicsState) -> Page {
    Page {
        font: g.font,
        font_size: g.font_size,
        char_space: g.char_space,
        word_space: g.word_space,
        leading: g.leading,
        line_width: g.line_width,
        fill_color: g.fill_color,
        ..p
    }
}

/// True when `post` is `pre` with exactly the error kind `k` appended to
/// the log and everything else unchanged.
pub open spec fn page_logged(pre: Page, post: Page, k: ErrorKind) -> bool {
    post.errors@ == pre.errors@.push(k) && post == (Page { errors: post.errors, ..pre })
}

/// The effect of one accepted text operator on the page's bookkeeping
/// fields; the content stream itself is specified separately.
pub open spec fn apply_text_op(p: Page, op: TextOp) -> Page {
    match op {
        TextOp::MoveTextPos(x, y) => Page {
            text_pos: Point {
                x: sat_add_i32(p.text_pos.x as int, x as int),
                y: sat_add_i32(p.text_pos.y as int, y as int),
            },
            ..p
        },
        TextOp::ShowText(_) => p,
        TextOp::SetTextLeading(v) => Page { leading: v, ..p },
        TextOp::MoveToNextLine => Page {
            text_pos: Point {
                x: p.text_pos.x,
                y: sat_add_i32(p.text_pos.y as int, -(p.leading as int)),
            },
            ..p
        },
        TextOp::SetFontAndSize(f, size) => Page { font: Some(f), font_size: size, ..p },
    }
}

/// The effect of a sequence of accepted text operators on the page's
/// bookkeeping fields.
pub open spec fn apply_text_ops(p: Page, ops: Seq<TextOp>) -> Page
    decreases ops.len(),
{
    if ops.len() == 0 {
        p
    } else {
        apply_text_op(apply_text_ops(p, ops.drop_last()), ops.last())
    }
}

impl Page {
    /// A fresh page under the given object reference numbers: letter-sized,
    /// unrotated, with an empty content stream and an empty error log.
    pub(crate) fn new(id: u64, content_id: u64) -> (p: Page)
        ensures
            p.id == id,
            p.content_id == content_id,
            p.width == 612,
            p.height == 792,
            p.rotate == 0,
            p.cs.buf@ == Seq::<u8>::empty(),
            p.cs.mode == StreamMode::Idle,
            p.cs.gs_depth == 0,
            p.font is None,
            p.font_size == 0,
            p.char_space == 0,
            p.word_space == 0,
            p.leading == 0,
            p.line_width == 1,
            p.text_pos == (Point { x: 0, y: 0 }),
            p.path_pos == (Point { x: 0, y: 0 }),
            p.gs_stack@ == Seq::<GraphicsState>::empty(),
            p.errors@ == Seq::<ErrorKind>::empty(),
    {
        Page {
            id,
            content_id,
            width: 612,
            height: 792,
            rotate: 0,
            cs: ContentStream::new(),
            font: None,
            font_size: 0,
            char_space: 0,
            word_space: 0,
            leading: 0,
            line_width: 1,
            fill_color: Color { red: 0, green: 0, blue: 0 },
            text_pos: Point { x: 0, y: 0 },
            path_pos: Point { x: 0, y: 0 },
            gs_stack: Vec::new(),
            errors: Vec::new(),
        }
    }

    /// The page width.
    pub fn width(&self) -> (r: i32)
        ensures
            r == self.width,
    {
        self.width
    }

    /// The page height.
    pub fn height(&self) -> (r: i32)
        ensures
            r == self.height,
    {
        self.height
    }

    /// Set the page width; a width that is not positive is rejected.
    pub fn set_width(&mut self, val: i32) -> (r: Result<(), ErrorKind>)
        ensures
            val > 0 ==> r is Ok && *final(self) == (Page { width: val, ..*old(self) }),
            val <= 0 ==> r == Err::<(), ErrorKind>(ErrorKind::InvalidArgument) && page_logged(
                *old(self),
                *final(self),
                ErrorKind::InvalidArgument,
            ),
    {
        if val <= 0 {
            self.errors.push(ErrorKind::InvalidArgument);
            return Err(ErrorKind::InvalidArgument);
        }
        self.width = val;
        Ok(())
    }

    /// Set the page height; a height that is not positive is rejected.
    pub fn set_height(&mut self, val: i32) -> (r: Result<(), ErrorKind>)
        ensures
            val > 0 ==> r is Ok && *final(self) == (Page { height: val, ..*old(self) }),
            val <= 0 ==> r == Err::<(), ErrorKind>(ErrorKind::InvalidArgument) && page_logged(
                *old(self),
                *final(self),
                ErrorKind::InvalidArgument,
            ),
    {
        if val <= 0 {
            self.errors.push(ErrorKind::InvalidArgument);
            return Err(ErrorKind::InvalidArgument);
        }
        self.height = val;
        Ok(())
    }

    /// Set the page to a predefined size and direction.
    pub fn set_size(&mut self, size: PageSize, direction: PageDirection) -> (r: Result<
        (),
        ErrorKind,
    >)
        ensures
            r is Ok,
            direction == PageDirection::Portrait ==> *final(self) == (Page {
                width: page_size_dims(size).0 as i32,
                height: page_size_dims(size).1 as i32,
                ..*old(self)
            }),
            direction == PageDirection::Landscape ==> *final(self) == (Page {
                width: page_size_dims(size).1 as i32,
                height: page_size_dims(size).0 as i32,
                ..*old(self)
            }),
    {
        let dims: (i32, i32) = match size {
            PageSize::Letter => (612, 792),
            PageSize::Legal => (612, 1008),
            PageSize::A3 => (842, 1191),
            PageSize::A4 => (595, 842),
            PageSize::A5 => (420, 595),
            PageSize::B4 => (709, 1001),
            PageSize::B5 => (499, 709),
            PageSize::Executive => (522, 756),
            PageSize::US4x6 => (288, 432),
            PageSize::US4x8 => (288, 576),
            PageSize::US5x7 => (360, 504),
            PageSize::Comm10 => (297, 684),
        };
        match direction {
            PageDirection::Portrait => {
                self.width = dims.0;
                self.height = dims.1;
            },
            PageDirection::Landscape => {
                self.width = dims.1;
                self.height = dims.0;
            },
        }
        Ok(())
    }

    /// Set the rotation of the page; the angle must be a multiple of
    /// ninety degrees and is stored modulo a full turn.
    pub fn set_rotate(&mut self, angle: u16) -> (r: Result<(), ErrorKind>)
        ensures
            angle % 90 == 0 ==> r is Ok && *final(self) == (Page {
                rotate: (angle % 360) as u16,
                ..*old(self)
            }),
            angle % 90 != 0 ==> r == Err::<(), ErrorKind>(ErrorKind::InvalidArgument)
                && page_logged(*old(self), *final(self), ErrorKind::InvalidArgument),
    {
        if angle % 90 != 0 {
            self.errors.push(ErrorKind::InvalidArgument);
            return Err(ErrorKind::InvalidArgument);
        }
        self.rotate = angle % 360;
        Ok(())
    }

    /// The current stroke width.
    pub fn line_width(&self) -> (r: i32)
        ensures
            r == self.line_width,
    {
        self.line_width
    }

    /// The current fill color.
    pub fn rgb_fill(&self) -> (r: Color)
        ensures
            r == self.fill_color,
    {
        self.fill_color
    }

    /// The current position for text showing.
    pub fn current_text_pos(&self) -> (r: Point)
        ensures
            r == self.text_pos,
    {
        self.text_pos
    }

    /// The current position for path painting.
    pub fn current_pos(&self) -> (r: Point)
        ensures
            r == self.path_pos,
    {
        self.path_pos
    }

    /// The current text leading.
    pub fn text_leading(&self) -> (r: i32)
        ensures
            r == self.leading,
    {
        self.leading
    }

    /// The selected font; fails when none was selected. A query: nothing
    /// is logged.
    pub fn current_font(&self) -> (r: Result<Font, ErrorKind>)
        ensures
            self.font matches Some(f) ==> r == Ok::<Font, ErrorKind>(f),
            self.font is None ==> r == Err::<Font, ErrorKind>(ErrorKind::UnknownFont),
    {
        match self.font {
            Some(f) => Ok(f),
            None => Err(ErrorKind::UnknownFont),
        }
    }

    /// The selected font size; zero until a font is selected.
    pub fn current_font_size(&self) -> (r: u32)
        ensures
            r == self.font_size,
    {
        self.font_size
    }
}

/// True when `post` is `pre` with new bytes appended to the content stream
/// in the given final mode, the graphics-state depth unchanged, and every
/// other field unchanged.
pub open spec fn cs_appended(pre: Page, post: Page, bytes: Seq<u8>, mode: StreamMode) -> bool {
    post == (Page { cs: post.cs, ..pre }) && post.cs.buf@ == pre.cs.buf@ + bytes && post.cs.mode
        == mode && post.cs.gs_depth == pre.cs.gs_depth
}

impl Page {
    /// Open a text block: allowed unless one is already open, appends `BT`.
    pub fn begin_text(&mut self) -> (r: Result<(), ErrorKind>)
        ensures
            old(self).cs.mode != StreamMode::Text ==> r is Ok && cs_appended(
                *old(self),
                *final(self),
                ("BT\n").spec_bytes(),
                StreamMode::Text,
            ),
            old(self).cs.mode == StreamMode::Text ==> r == Err::<(), ErrorKind>(
                ErrorKind::WrongMode,
            ) && page_logged(*old(self), *final(self), ErrorKind::WrongMode),
    {
        match self.cs.begin_text() {
            Ok(()) => Ok(()),
            Err(k) => {
                self.errors.push(k);
                Err(k)
            },
        }
    }

    /// Close the text block: allowed only inside one, appends `ET`.
    pub fn end_text(&mut self) -> (r: Result<(), ErrorKind>)
        ensures
            old(self).cs.mode == StreamMode::Text ==> r is Ok && cs_appended(
                *old(self),
                *final(self),
                ("ET\n").spec_bytes(),
                StreamMode::Idle,
            ),
            old(self).cs.mode != StreamMode::Text ==> r == Err::<(), ErrorKind>(
                ErrorKind::WrongMode,
            ) && page_logged(*old(self), *final(self), ErrorKind::WrongMode),
    {
        match self.cs.end_text() {
            Ok(()) => Ok(()),
            Err(k) => {
                self.errors.push(k);
                Err(k)
            },
        }
    }

    /// Show a string of text: allowed only inside a text block. Appending
    /// it in any other mode fails and leaves the content stream unchanged.
    pub fn show_text(&mut self, text: &str) -> (r: Result<(), ErrorKind>)
        ensures
            old(self).cs.mode == StreamMode::Text ==> r is Ok && cs_appended(
                *old(self),
                *final(self),
                show_text_bytes(text.spec_bytes()),
                StreamMode::Text,
            ),
            old(self).cs.mode != StreamMode::Text ==> r == Err::<(), ErrorKind>(
                ErrorKind::WrongMode,
            ) && page_logged(*old(self), *final(self), ErrorKind::WrongMode),
    {
        match self.cs.show_text(text.as_bytes()) {
            Ok(()) => Ok(()),
            Err(k) => {
                self.errors.push(k);
                Err(k)
            },
        }
    }

    /// Show a string of raw bytes: allowed only inside a text block.
    pub fn show_text_bytes(&mut self, text: &[u8]) -> (r: Result<(), ErrorKind>)
        ensures
            old(self).cs.mode == StreamMode::Text ==> r is Ok && cs_appended(
                *old(self),
                *final(self),
                show_text_bytes(text@),
                StreamMode::Text,
            ),
            old(self).cs.mode != StreamMode::Text ==> r == Err::<(), ErrorKind>(
                ErrorKind::WrongMode,
            ) && page_logged(*old(self), *final(self), ErrorKind::WrongMode),
    {
        match self.cs.show_text(text) {
            Ok(()) => Ok(()),
            Err(k) => {
                self.errors.push(k);
                Err(k)
            },
        }
    }

    /// Move the text position by `(x, y)`: allowed only inside a text
    /// block. The tracked position is updated within the representable
    /// coordinate range.
    pub fn move_text_pos(&mut self, x: i32, y: i32) -> (r: Result<(), ErrorKind>)
        ensures
            old(self).cs.mode == StreamMode::Text ==> r is Ok && *final(self) == (Page {
                cs: final(self).cs,
                text_pos: Point {
                    x: sat_add_i32(old(self).text_pos.x as int, x as int),
                    y: sat_add_i32(old(self).text_pos.y as int, y as int),
                },
                ..*old(self)
            }) && final(self).cs.buf@ == old(self).cs.buf@ + op2_bytes(
                x as int,
                y as int,
                ("Td\n").spec_bytes(),
            ) && final(self).cs.mode == StreamMode::Text && final(self).cs.gs_depth == old(self).cs.gs_depth,
            old(self).cs.mode != StreamMode::Text ==> r == Err::<(), ErrorKind>(
                ErrorKind::WrongMode,
            ) && page_logged(*old(self), *final(self), ErrorKind::WrongMode),
    {
        match self.cs.move_text_pos(x, y) {
            Ok(()) => {
                self.text_pos = Point { x: sat_add(self.text_pos.x, x), y: sat_add(self.text_pos.y, y) };
                Ok(())
            },
            Err(k) => {
                self.errors.push(k);
                Err(k)
            },
        }
    }

    /// Move to the start of the next text line: allowed only inside a text
    /// block; moves the tracked position down by the leading.
    pub fn move_to_next_line(&mut self) -> (r: Result<(), ErrorKind>)
        ensures
            old(self).cs.mode == StreamMode::Text ==> r is Ok && *final(self) == (Page {
                cs: final(self).cs,
                text_pos: Point {
                    x: old(self).text_pos.x,
                    y: sat_add_i32(old(self).text_pos.y as int, -(old(self).leading as int)),
                },
                ..*old(self)
            }) && final(self).cs.buf@ == old(self).cs.buf@ + ("T*\n").spec_bytes() && final(self).cs.mode == StreamMode::Text && final(self).cs.gs_depth == old(self).cs.gs_depth,
            old(self).cs.mode != StreamMode::Text ==> r == Err::<(), ErrorKind>(
                ErrorKind::WrongMode,
            ) && page_logged(*old(self), *final(self), ErrorKind::WrongMode),
    {
        match self.cs.move_to_next_line() {
            Ok(()) => {
                self.text_pos = Point { x: self.text_pos.x, y: sat_sub(self.text_pos.y, self.leading) };
                Ok(())
            },
            Err(k) => {
                self.errors.push(k);
                Err(k)
            },
        }
    }

    /// Select the font and size: allowed while idle or in a text block; a
    /// size of zero is rejected.
    pub fn set_font_and_size(&mut self, font: &Font, size: u32) -> (r: Result<(), ErrorKind>)
        ensures
            old(self).cs.mode != StreamMode::Path && size > 0 ==> r is Ok && *final(self) == (Page {
                cs: final(self).cs,
                font: Some(*font),
                font_size: size,
                ..*old(self)
            }) && final(self).cs.buf@ == old(self).cs.buf@ + set_font_bytes(font.id, size) && final(self).cs.mode == old(self).cs.mode && final(self).cs.gs_depth == old(self).cs.gs_depth,
            old(self).cs.mode == StreamMode::Path ==> r == Err::<(), ErrorKind>(
                ErrorKind::WrongMode,
            ) && page_logged(*old(self), *final(self), ErrorKind::WrongMode),
            old(self).cs.mode != StreamMode::Path && size == 0 ==> r == Err::<(), ErrorKind>(
                ErrorKind::InvalidArgument,
            ) && page_logged(*old(self), *final(self), ErrorKind::InvalidArgument),
    {
        match self.cs.set_font(font.id, size) {
            Ok(()) => {
                self.font = Some(*font);
                self.font_size = size;
                Ok(())
            },
            Err(k) => {
                self.errors.push(k);
                Err(k)
            },
        }
    }

    /// Set the text leading: allowed while idle or in a text block.
    pub fn set_text_leading(&mut self, v: i32) -> (r: Result<(), ErrorKind>)
        ensures
            old(self).cs.mode != StreamMode::Path ==> r is Ok && *final(self) == (Page {
                cs: final(self).cs,
                leading: v,
                ..*old(self)
            }) && final(self).cs.buf@ == old(self).cs.buf@ + dec_i32(v as int) + (
            " TL\n").spec_bytes() && final(self).cs.mode == old(self).cs.mode && final(self).cs.gs_depth == old(self).cs.gs_depth,
            old(self).cs.mode == StreamMode::Path ==> r == Err::<(), ErrorKind>(
                ErrorKind::WrongMode,
            ) && page_logged(*old(self), *final(self), ErrorKind::WrongMode),
    {
        match self.cs.set_text_leading(v) {
            Ok(()) => {
                self.leading = v;
                Ok(())
            },
            Err(k) => {
                self.errors.push(k);
                Err(k)
            },
        }
    }

    /// Set the character spacing used by text showing and measurement.
    pub fn set_char_space(&mut self, v: u32) -> (r: Result<(), ErrorKind>)
        ensures
            old(self).cs.mode != StreamMode::Path ==> r is Ok && *final(self) == (Page {
                cs: final(self).cs,
                char_space: v,
                ..*old(self)
            }) && final(self).cs.buf@ == old(self).cs.buf@ + crate::emit::dec_u64(v as nat) + (
            " Tc\n").spec_bytes() && final(self).cs.mode == old(self).cs.mode && final(self).cs.gs_depth == old(self).cs.gs_depth,
            old(self).cs.mode == StreamMode::Path ==> r == Err::<(), ErrorKind>(
                ErrorKind::WrongMode,
            ) && page_logged(*old(self), *final(self), ErrorKind::WrongMode),
    {
        match self.cs.set_char_space(v) {
            Ok(()) => {
                self.char_space = v;
                Ok(())
            },
            Err(k) => {
                self.errors.push(k);
                Err(k)
            },
        }
    }

    /// Set the word spacing used by text showing and measurement.
    pub fn set_word_space(&mut self, v: u32) -> (r: Result<(), ErrorKind>)
        ensures
            old(self).cs.mode != StreamMode::Path ==> r is Ok && *final(self) == (Page {
                cs: final(self).cs,
                word_space: v,
                ..*old(self)
            }) && final(self).cs.buf@ == old(self).cs.buf@ + crate::emit::dec_u64(v as nat) + (
            " Tw\n").spec_bytes() && final(self).cs.mode == old(self).cs.mode && final(self).cs.gs_depth == old(self).cs.gs_depth,
            old(self).cs.mode == StreamMode::Path ==> r == Err::<(), ErrorKind>(
                ErrorKind::WrongMode,
            ) && page_logged(*old(self), *final(self), ErrorKind::WrongMode),
    {
        match self.cs.set_word_space(v) {
            Ok(()) => {
                self.word_space = v;
                Ok(())
            },
            Err(k) => {
                self.errors.push(k);
                Err(k)
            },
        }
    }

    /// Clear the line-dash pattern.
    pub fn clear_dash(&mut self) -> (r: Result<(), ErrorKind>)
        ensures
            old(self).cs.mode != StreamMode::Path ==> r is Ok && cs_appended(
                *old(self),
                *final(self),
                ("[] 0 d\n").spec_bytes(),
                old(self).cs.mode,
            ),
            old(self).cs.mode == StreamMode::Path ==> r == Err::<(), ErrorKind>(
                ErrorKind::WrongMode,
            ) && page_logged(*old(self), *final(self), ErrorKind::WrongMode),
    {
        match self.cs.clear_dash() {
            Ok(()) => Ok(()),
            Err(k) => {
                self.errors.push(k);
                Err(k)
            },
        }
    }

    /// Push the page's current graphics state: allowed only between
    /// graphics objects. A snapshot of the tracked state — font, size,
    /// spacing, leading, line width and fill color — is saved for the
    /// matching restore.
    pub fn gsave(&mut self) -> (r: Result<(), ErrorKind>)
        ensures
            old(self).cs.mode == StreamMode::Idle && old(self).cs.gs_depth < usize::MAX ==> r is Ok
                && *final(self) == (Page {
                cs: final(self).cs,
                gs_stack: final(self).gs_stack,
                ..*old(self)
            }) && final(self).gs_stack@ == old(self).gs_stack@.push(graphics_state_of(*old(self)))
                && final(self).cs.buf@ == old(self).cs.buf@ + ("q\n").spec_bytes() && final(self).cs.mode == StreamMode::Idle && final(self).cs.gs_depth == old(self).cs.gs_depth + 1,
            old(self).cs.mode != StreamMode::Idle ==> r == Err::<(), ErrorKind>(
                ErrorKind::WrongMode,
            ) && page_logged(*old(self), *final(self), ErrorKind::WrongMode),
            old(self).cs.mode == StreamMode::Idle && old(self).cs.gs_depth == usize::MAX ==> r
                == Err::<(), ErrorKind>(ErrorKind::InvalidArgument) && page_logged(
                *old(self),
                *final(self),
                ErrorKind::InvalidArgument,
            ),
    {
        let snapshot = GraphicsState {
            font: self.font,
            font_size: self.font_size,
            char_space: self.char_space,
            word_space: self.word_space,
            leading: self.leading,
            line_width: self.line_width,
            fill_color: self.fill_color,
        };
        match self.cs.gsave() {
            Ok(()) => {
                self.gs_stack.push(snapshot);
                Ok(())
            },
            Err(k) => {
                self.errors.push(k);
                Err(k)
            },
        }
    }

    /// Pop the graphics state pushed last and restore it: the tracked
    /// font, size, spacing, leading, line width and fill color take the
    /// values they had at the matching save. Fails when none is pushed,
    /// leaving everything unchanged.
    pub fn grestore(&mut self) -> (r: Result<(), ErrorKind>)
        ensures
            old(self).cs.mode == StreamMode::Idle && old(self).cs.gs_depth > 0 && old(self).gs_stack@.len() > 0 ==> r is Ok && *final(self) == (Page {
                cs: final(self).cs,
                gs_stack: final(self).gs_stack,
                ..with_graphics_state(*old(self), old(self).gs_stack@.last())
            }) && final(self).gs_stack@ == old(self).gs_stack@.drop_last() && final(self).cs.buf@
                == old(self).cs.buf@ + ("Q\n").spec_bytes() && final(self).cs.mode
                == StreamMode::Idle && final(self).cs.gs_depth == old(self).cs.gs_depth - 1,
            old(self).cs.mode != StreamMode::Idle ==> r == Err::<(), ErrorKind>(
                ErrorKind::WrongMode,
            ) && page_logged(*old(self), *final(self), ErrorKind::WrongMode),
            old(self).cs.mode == StreamMode::Idle && (old(self).cs.gs_depth == 0 || old(self).gs_stack@.len() == 0) ==> r == Err::<(), ErrorKind>(ErrorKind::InvalidArgument)
                && page_logged(*old(self), *final(self), ErrorKind::InvalidArgument),
    {
        if self.cs.mode == StreamMode::Idle && self.gs_stack.len() == 0 {
            self.errors.push(ErrorKind::InvalidArgument);
            return Err(ErrorKind::InvalidArgument);
        }
        match self.cs.grestore() {
            Ok(()) => {
                match self.gs_stack.pop() {
                    Some(g) => {
                        self.font = g.font;
                        self.font_size = g.font_size;
                        self.char_space = g.char_space;
                        self.word_space = g.word_space;
                        self.leading = g.leading;
                        self.line_width = g.line_width;
                        self.fill_color = g.fill_color;
                        Ok(())
                    },
                    None => {
                        proof {
                            assert(false);
                        }
                        Err(ErrorKind::InvalidArgument)
                    },
                }
            },
            Err(k) => {
                self.errors.push(k);
                Err(k)
            },
        }
    }

    /// Start or extend a path at `(x, y)`: allowed outside a text block;
    /// the page is in path mode afterwards.
    pub fn move_to(&mut self, x: i32, y: i32) -> (r: Result<(), ErrorKind>)
        ensures
            old(self).cs.mode != StreamMode::Text ==> r is Ok && *final(self) == (Page {
                cs: final(self).cs,
                path_pos: Point { x, y },
                ..*old(self)
            }) && final(self).cs.buf@ == old(self).cs.buf@ + op2_bytes(
                x as int,
                y as int,
                ("m\n").spec_bytes(),
            ) && final(self).cs.mode == StreamMode::Path && final(self).cs.gs_depth == old(self).cs.gs_depth,
            old(self).cs.mode == StreamMode::Text ==> r == Err::<(), ErrorKind>(
                ErrorKind::WrongMode,
            ) && page_logged(*old(self), *final(self), ErrorKind::WrongMode),
    {
        match self.cs.move_to(x, y) {
            Ok(()) => {
                self.path_pos = Point { x, y };
                Ok(())
            },
            Err(k) => {
                self.errors.push(k);
                Err(k)
            },
        }
    }

    /// Add a rectangle subpath with lower-left corner `(x, y)`: allowed
    /// outside a text block; the page is in path mode afterwards.
    pub fn rect(&mut self, x: i32, y: i32, width: i32, height: i32) -> (r: Result<(), ErrorKind>)
        ensures
            old(self).cs.mode != StreamMode::Text ==> r is Ok && cs_appended(
                *old(self),
                *final(self),
                crate::content::rect_op_bytes(x as int, y as int, width as int, height as int),
                StreamMode::Path,
            ),
            old(self).cs.mode == StreamMode::Text ==> r == Err::<(), ErrorKind>(
                ErrorKind::WrongMode,
            ) && page_logged(*old(self), *final(self), ErrorKind::WrongMode),
    {
        match self.cs.rect_path(x, y, width, height) {
            Ok(()) => Ok(()),
            Err(k) => {
                self.errors.push(k);
                Err(k)
            },
        }
    }

    /// Extend the path with a line segment to `(x, y)`: allowed only while
    /// building a path.
    pub fn line_to(&mut self, x: i32, y: i32) -> (r: Result<(), ErrorKind>)
        ensures
            old(self).cs.mode == StreamMode::Path ==> r is Ok && *final(self) == (Page {
                cs: final(self).cs,
                path_pos: Point { x, y },
                ..*old(self)
            }) && final(self).cs.buf@ == old(self).cs.buf@ + op2_bytes(
                x as int,
                y as int,
                ("l\n").spec_bytes(),
            ) && final(self).cs.mode == StreamMode::Path && final(self).cs.gs_depth == old(self).cs.gs_depth,
            old(self).cs.mode != StreamMode::Path ==> r == Err::<(), ErrorKind>(
                ErrorKind::WrongMode,
            ) && page_logged(*old(self), *final(self), ErrorKind::WrongMode),
    {
        match self.cs.line_to(x, y) {
            Ok(()) => {
                self.path_pos = Point { x, y };
                Ok(())
            },
            Err(k) => {
                self.errors.push(k);
                Err(k)
            },
        }
    }

    /// Paint and close the current path: allowed only while building one.
    pub fn end_path(&mut self, paint: PaintKind) -> (r: Result<(), ErrorKind>)
        ensures
            old(self).cs.mode == StreamMode::Path ==> r is Ok && cs_appended(
                *old(self),
                *final(self),
                paint_bytes(paint),
                StreamMode::Idle,
            ),
            old(self).cs.mode != StreamMode::Path ==> r == Err::<(), ErrorKind>(
                ErrorKind::WrongMode,
            ) && page_logged(*old(self), *final(self), ErrorKind::WrongMode),
    {
        match self.cs.end_path(paint) {
            Ok(()) => Ok(()),
            Err(k) => {
                self.errors.push(k);
                Err(k)
            },
        }
    }

    /// Show the image in one operation: scaled to `width` by `height`
    /// with its lower-left corner at `pos`. Allowed only between graphics
    /// objects; a scale that is not positive is rejected.
    pub fn draw_image(&mut self, img: &Image, pos: Point, width: i32, height: i32) -> (r: Result<
        (),
        ErrorKind,
    >)
        ensures
            old(self).cs.mode == StreamMode::Idle && width > 0 && height > 0 ==> r is Ok
                && cs_appended(
                *old(self),
                *final(self),
                crate::content::draw_image_bytes(
                    img.id,
                    pos.x as int,
                    pos.y as int,
                    width as int,
                    height as int,
                ),
                StreamMode::Idle,
            ),
            old(self).cs.mode != StreamMode::Idle ==> r == Err::<(), ErrorKind>(
                ErrorKind::WrongMode,
            ) && page_logged(*old(self), *final(self), ErrorKind::WrongMode),
            old(self).cs.mode == StreamMode::Idle && !(width > 0 && height > 0) ==> r == Err::<
                (),
                ErrorKind,
            >(ErrorKind::InvalidArgument) && page_logged(
                *old(self),
                *final(self),
                ErrorKind::InvalidArgument,
            ),
    {
        match self.cs.draw_image_op(img.id, pos.x, pos.y, width, height) {
            Ok(()) => Ok(()),
            Err(k) => {
                self.errors.push(k);
                Err(k)
            },
        }
    }

    /// The width of `text` in the page's current font, size and spacing.
    /// A query: fails without logging when no font is selected.
    pub fn text_width(&self, text: &str) -> (r: Result<u128, ErrorKind>)
        ensures
            self.font matches Some(f) ==> r == Ok::<u128, ErrorKind>(
                measure::text_advance(
                    f.widths,
                    self.font_size,
                    self.char_space,
                    self.word_space,
                    text.spec_bytes(),
                ) as u128,
            ),
            self.font is None ==> r == Err::<u128, ErrorKind>(ErrorKind::UnknownFont),
    {
        let f = match self.font {
            Some(f) => f,
            None => {
                return Err(ErrorKind::UnknownFont);
            },
        };
        let bytes = text.as_bytes();
        let _n = bytes.len();
        proof {
            measure::lemma_unbounded_width_fits(
                f.widths,
                self.font_size,
                self.char_space,
                self.word_space,
                bytes@,
            );
        }
        let (off, width) = measure::measure_bytes(
            f.widths,
            self.font_size,
            self.char_space,
            self.word_space,
            bytes,
            u128::MAX,
            false,
            false,
        );
        proof {
            measure::lemma_measure_whole_text(
                f.widths,
                self.font_size,
                self.char_space,
                self.word_space,
                bytes@,
                u128::MAX as nat,
                false,
                false,
            );
        }
        Ok(width)
    }

    /// The largest byte offset of `text` whose cumulative advance stays
    /// within `width` width units, and that prefix's advance. Word
    /// wrapping pulls the offset back to the preceding word break; the
    /// offset never splits a multi-byte character. `u128::MAX` serves as
    /// an unbounded width. A query: fails without logging when no font is
    /// selected.
    pub fn measure_text(&self, text: &str, width: u128, wordwrap: bool) -> (r: Result<
        (usize, u128),
        ErrorKind,
    >)
        ensures
            self.font matches Some(f) ==> r matches Ok(m) && m.0 == measure::measured_offset(
                f.widths,
                self.font_size,
                self.char_space,
                self.word_space,
                text.spec_bytes(),
                width as nat,
                wordwrap,
                true,
            ) && m.1 == measure::text_advance(
                f.widths,
                self.font_size,
                self.char_space,
                self.word_space,
                text.spec_bytes().take(m.0 as int),
            ) && vstd::utf8::is_char_boundary(text.spec_bytes(), m.0 as int),
            self.font is None ==> r == Err::<(usize, u128), ErrorKind>(ErrorKind::UnknownFont),
    {
        let f = match self.font {
            Some(f) => f,
            None => {
                return Err(ErrorKind::UnknownFont);
            },
        };
        let bytes = text.as_bytes();
        let m = measure::measure_bytes(
            f.widths,
            self.font_size,
            self.char_space,
            self.word_space,
            bytes,
            width,
            wordwrap,
            true,
        );
        proof {
            vstd::utf8::encode_utf8_valid_utf8(text@);
            measure::lemma_measure_char_boundary(
                f.widths,
                self.font_size,
                self.char_space,
                self.word_space,
                bytes@,
                width as nat,
                wordwrap,
            );
        }
        Ok(m)
    }

    /// Like [`Page::measure_text`], for raw bytes in a single-byte
    /// encoding: the offset is not adjusted to UTF-8 character boundaries.
    pub fn measure_text_bytes(&self, text: &[u8], width: u128, wordwrap: bool) -> (r: Result<
        (usize, u128),
        ErrorKind,
    >)
        ensures
            self.font matches Some(f) ==> r matches Ok(m) && m.0 == measure::measured_offset(
                f.widths,
                self.font_size,
                self.char_space,
                self.word_space,
                text@,
                width as nat,
                wordwrap,
                false,
            ) && m.1 == measure::text_advance(
                f.widths,
                self.font_size,
                self.char_space,
                self.word_space,
                text@.take(m.0 as int),
            ),
            self.font is None ==> r == Err::<(usize, u128), ErrorKind>(ErrorKind::UnknownFont),
    {
        let f = match self.font {
            Some(f) => f,
            None => {
                return Err(ErrorKind::UnknownFont);
            },
        };
        let m = measure::measure_bytes(
            f.widths,
            self.font_size,
            self.char_space,
            self.word_space,
            text,
            width,
            wordwrap,
            false,
        );
        Ok(m)
    }
}

/// Addition on a coordinate, clamped to the representable range.
fn sat_add(a: i32, b: i32) -> (r: i32)
    ensures
        r == sat_add_i32(a as int, b as int),
{
    let s: i64 = a as i64 + b as i64;
    if s > i32::MAX as i64 {
        i32::MAX
    } else if s < i32::MIN as i64 {
        i32::MIN
    } else {
        s as i32
    }
}

/// Subtraction on a coordinate, clamped to the representable range.
fn sat_sub(a: i32, b: i32) -> (r: i32)
    ensures
        r == sat_add_i32(a as int, -(b as int)),
{
    let s: i64 = a as i64 - b as i64;
    if s > i32::MAX as i64 {
        i32::MAX
    } else if s < i32::MIN as i64 {
        i32::MIN
    } else {
        s as i32
    }
}

/// Where the path position ends after a run of path operators.
pub open spec fn path_end(start: Point, ops: Seq<PathOp>) -> Point {
    if ops.len() == 0 {
        start
    } else {
        match ops.last() {
            PathOp::MoveTo(x, y) => Point { x, y },
            PathOp::LineTo(x, y) => Point { x, y },
        }
    }
}

/// What characterizes the first rejected position: every operator before
/// it is accepted, and it is either the end or a rejected operator.
pub proof fn lemma_first_bad_characterization(ops: Seq<TextOp>)
    ensures
        0 <= first_bad_text_op(ops) <= ops.len(),
        forall|j: int| 0 <= j < first_bad_text_op(ops) ==> text_op_ok(#[trigger] ops[j]),
        first_bad_text_op(ops) < ops.len() ==> !text_op_ok(ops[first_bad_text_op(ops)]),
    decreases ops.len(),
{
    if ops.len() > 0 {
        lemma_first_bad_characterization(ops.drop_last());
        assert forall|j: int| 0 <= j < first_bad_text_op(ops) implies text_op_ok(
            #[trigger] ops[j],
        ) by {
            if j < ops.len() - 1 {
                assert(ops.drop_last()[j] == ops[j]);
            }
        }
        if first_bad_text_op(ops) < ops.len() && first_bad_text_op(ops) < ops.len() - 1 {
            assert(ops.drop_last()[first_bad_text_op(ops)] == ops[first_bad_text_op(ops)]);
        }
    }
}

/// Text operators only touch the font selection, the leading and the text
/// position: everything else on the page is preserved.
pub proof fn lemma_apply_text_ops_frame(p: Page, ops: Seq<TextOp>)
    ensures
        apply_text_ops(p, ops).errors == p.errors,
        apply_text_ops(p, ops).cs == p.cs,
        apply_text_ops(p, ops).id == p.id,
    decreases ops.len(),
{
    if ops.len() > 0 {
        lemma_apply_text_ops_frame(p, ops.drop_last());
    }
}

impl Page {
    /// Run a caller-supplied sequence of text operators as one scoped text
    /// block. The block is opened with `BT` and — whether every operator
    /// is accepted or one fails — always closed with `ET`, so the content
    /// stream stays well formed. Operators before the first rejected one
    /// take effect; the rejected one and everything after it do not.
    pub fn run_text_mode(&mut self, ops: &[TextOp]) -> (r: Result<(), ErrorKind>)
        ensures
            old(self).cs.mode == StreamMode::Text ==> r == Err::<(), ErrorKind>(
                ErrorKind::WrongMode,
            ) && page_logged(*old(self), *final(self), ErrorKind::WrongMode),
            old(self).cs.mode != StreamMode::Text ==> ({
                let k = first_bad_text_op(ops@);
                let mid = apply_text_ops(*old(self), ops@.take(k));
                &&& *final(self) == (Page {
                    cs: final(self).cs,
                    errors: final(self).errors,
                    ..mid
                })
                &&& final(self).cs.mode == StreamMode::Idle
                &&& final(self).cs.gs_depth == old(self).cs.gs_depth
                &&& final(self).cs.buf@ == old(self).cs.buf@ + ("BT\n").spec_bytes()
                    + text_ops_bytes(ops@.take(k)) + ("ET\n").spec_bytes()
                &&& (k == ops@.len() ==> r is Ok && final(self).errors@ == old(self).errors@)
                &&& (k < ops@.len() ==> r == Err::<(), ErrorKind>(ErrorKind::InvalidArgument)
                    && final(self).errors@ == old(self).errors@.push(ErrorKind::InvalidArgument))
            }),
    {
        match self.cs.begin_text() {
            Ok(()) => (),
            Err(k) => {
                self.errors.push(k);
                return Err(k);
            },
        }
        let n = ops.len();
        let mut i: usize = 0;
        proof {
            assert(ops@.take(0) =~= Seq::<TextOp>::empty());
        }
        while i < n
            invariant
                i <= n,
                n == ops@.len(),
                old(self).cs.mode != StreamMode::Text,
                forall|j: int| 0 <= j < i ==> text_op_ok(#[trigger] ops@[j]),
                *self == (Page {
                    cs: self.cs,
                    ..apply_text_ops(*old(self), ops@.take(i as int))
                }),
                self.cs.mode == StreamMode::Text,
                self.cs.gs_depth == old(self).cs.gs_depth,
                self.cs.buf@ == old(self).cs.buf@ + ("BT\n").spec_bytes() + text_ops_bytes(
                    ops@.take(i as int),
                ),
            decreases n - i,
        {
            let ghost pre_ops = ops@.take(i as int);
            proof {
                assert(ops@.take(i + 1).drop_last() =~= pre_ops);
                assert(ops@.take(i + 1).last() == ops@[i as int]);
            }
            let op = &ops[i];
            match op {
                TextOp::MoveTextPos(x, y) => {
                    let _r = self.cs.move_text_pos(*x, *y);
                    self.text_pos = Point {
                        x: sat_add(self.text_pos.x, *x),
                        y: sat_add(self.text_pos.y, *y),
                    };
                },
                TextOp::ShowText(v) => {
                    let _r = self.cs.show_text(v.as_slice());
                },
                TextOp::SetTextLeading(v) => {
                    let _r = self.cs.set_text_leading(*v);
                    self.leading = *v;
                },
                TextOp::MoveToNextLine => {
                    let _r = self.cs.move_to_next_line();
                    self.text_pos = Point {
                        x: self.text_pos.x,
                        y: sat_sub(self.text_pos.y, self.leading),
                    };
                },
                TextOp::SetFontAndSize(f, size) => {
                    if *size == 0 {
                        // the first rejected operator: close the block and
                        // report, leaving everything before it in effect
                        let _r = self.cs.end_text();
                        self.errors.push(ErrorKind::InvalidArgument);
                        proof {
                            lemma_first_bad_characterization(ops@);
                            let fb = first_bad_text_op(ops@);
                            if fb < i {
                                assert(text_op_ok(ops@[fb]));
                                assert(false);
                            }
                            if i < fb {
                                assert(text_op_ok(ops@[i as int]));
                                assert(false);
                            }
                            assert(self.cs.buf@ =~= old(self).cs.buf@ + ("BT\n").spec_bytes()
                                + text_ops_bytes(ops@.take(i as int)) + ("ET\n").spec_bytes());
                            lemma_apply_text_ops_frame(*old(self), ops@.take(i as int));
                        }
                        return Err(ErrorKind::InvalidArgument);
                    }
                    let _r = self.cs.set_font(f.id, *size);
                    self.font = Some(*f);
                    self.font_size = *size;
                },
            }
            proof {
                assert(apply_text_ops(*old(self), ops@.take(i + 1)) == apply_text_op(
                    apply_text_ops(*old(self), pre_ops),
                    ops@[i as int],
                ));
                assert(text_ops_bytes(ops@.take(i + 1)) == text_ops_bytes(pre_ops)
                    + text_op_bytes(ops@[i as int]));
                assert(self.cs.buf@ =~= old(self).cs.buf@ + ("BT\n").spec_bytes()
                    + text_ops_bytes(ops@.take(i + 1)));
            }
            i = i + 1;
        }
        let _r = self.cs.end_text();
        proof {
            lemma_first_bad_characterization(ops@);
            let fb = first_bad_text_op(ops@);
            if fb < n {
                assert(text_op_ok(ops@[fb]));
                assert(false);
            }
            assert(ops@.take(n as int) =~= ops@);
            assert(self.cs.buf@ =~= old(self).cs.buf@ + ("BT\n").spec_bytes() + text_ops_bytes(
                ops@.take(fb),
            ) + ("ET\n").spec_bytes());
            lemma_apply_text_ops_frame(*old(self), ops@.take(fb));
        }
        Ok(())
    }

    /// Run a caller-supplied sequence of path operators as one scoped path
    /// block: the path starts at `start`, the operators extend it, and the
    /// block always ends with the chosen paint operator, keeping the
    /// content stream well formed.
    pub fn run_path_mode(&mut self, start: Point, ops: &[PathOp], paint: PaintKind) -> (r: Result<
        (),
        ErrorKind,
    >)
        ensures
            old(self).cs.mode == StreamMode::Text ==> r == Err::<(), ErrorKind>(
                ErrorKind::WrongMode,
            ) && page_logged(*old(self), *final(self), ErrorKind::WrongMode),
            old(self).cs.mode != StreamMode::Text ==> r is Ok && *final(self) == (Page {
                cs: final(self).cs,
                path_pos: path_end(start, ops@),
                ..*old(self)
            }) && final(self).cs.mode == StreamMode::Idle && final(self).cs.gs_depth == old(self).cs.gs_depth && final(self).cs.buf@ == old(self).cs.buf@ + op2_bytes(
                start.x as int,
                start.y as int,
                ("m\n").spec_bytes(),
            ) + path_ops_bytes(ops@) + paint_bytes(paint),
    {
        match self.cs.move_to(start.x, start.y) {
            Ok(()) => (),
            Err(k) => {
                self.errors.push(k);
                return Err(k);
            },
        }
        self.path_pos = Point { x: start.x, y: start.y };
        let n = ops.len();
        let mut i: usize = 0;
        proof {
            assert(ops@.take(0) =~= Seq::<PathOp>::empty());
        }
        while i < n
            invariant
                i <= n,
                n == ops@.len(),
                old(self).cs.mode != StreamMode::Text,
                *self == (Page {
                    cs: self.cs,
                    path_pos: path_end(start, ops@.take(i as int)),
                    ..*old(self)
                }),
                self.cs.mode == StreamMode::Path,
                self.cs.gs_depth == old(self).cs.gs_depth,
                self.cs.buf@ == old(self).cs.buf@ + op2_bytes(
                    start.x as int,
                    start.y as int,
                    ("m\n").spec_bytes(),
                ) + path_ops_bytes(ops@.take(i as int)),
            decreases n - i,
        {
            proof {
                assert(ops@.take(i + 1).drop_last() =~= ops@.take(i as int));
                assert(ops@.take(i + 1).last() == ops@[i as int]);
            }
            let op = ops[i];
            match op {
                PathOp::MoveTo(x, y) => {
                    let _r = self.cs.move_to(x, y);
                    self.path_pos = Point { x, y };
                },
                PathOp::LineTo(x, y) => {
                    let _r = self.cs.line_to(x, y);
                    self.path_pos = Point { x, y };
                },
            }
            proof {
                assert(self.cs.buf@ =~= old(self).cs.buf@ + op2_bytes(
                    start.x as int,
                    start.y as int,
                    ("m\n").spec_bytes(),
                ) + path_ops_bytes(ops@.take(i + 1)));
            }
            i = i + 1;
        }
        let _r = self.cs.end_path(paint);
        proof {
            assert(ops@.take(n as int) =~= ops@);
        }
        Ok(())
    }
}

/// Saving and restoring round-trips: whatever the page's tracked
/// graphics state became in between, restoring the snapshot taken at the
/// save brings every tracked component — font, size, spacing, leading,
/// line width and fill color — back to its value at the save.
pub proof fn lemma_graphics_state_round_trip(at_save: Page, later: Page)
    ensures
        graphics_state_of(with_graphics_state(later, graphics_state_of(at_save)))
            == graphics_state_of(at_save),
{
}

/// Setting the page size round-trips: for every page and every positive
/// width and height, setting the width and then the height yields a page
/// that reports exactly that width and that height.
pub proof fn lemma_page_size_round_trip(p: Page, width: i32, height: i32)
    requires
        width > 0,
        height > 0,
    ensures
        ({
            let q = Page { height, ..(Page { width, ..p }) };
            q.width == width && q.height == height
        }),
{
}

} // verus!

