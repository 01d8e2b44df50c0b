//! The content-stream builder: a mode-gated state machine that accumulates
//! the drawing and text operators of one page as bytes.
//!
//! The stream is in one of three modes. Text-showing operators are accepted
//! only between `begin_text` and `end_text`; path-construction operators
//! only while a path is being built. An operator appended in the wrong mode
//! fails with [`ErrorKind::WrongMode`] and leaves the stream untouched —
//! the buffer, the mode and the graphics-state depth all keep their values.

use vstd::prelude::*;
use vstd::string::StringSliceAdditionalSpecFns;

use crate::emit::{dec_i32, dec_u64, push_i32_dec, push_str, push_u64_dec};
use crate::errors::ErrorKind;

verus! {

/// The mode of a page's content stream.
#[derive(Clone, Copy, Debug, PartialEq, Eq, Structural)]
pub enum StreamMode {
    /// Between graphics objects: no text block and no open path.
    Idle,
    /// Inside a text block.
    Text,
    /// Building a path.
    Path,
}

/// How a finished path is painted.
#[derive(Clone, Copy, Debug, PartialEq, Eq, Structural)]
pub enum PaintKind {
    /// Stroke the path.
    Stroke,
    /// Fill the path.
    Fill,
    /// Fill, then stroke.
    FillStroke,
    /// Abandon the path without painting.
    Discard,
}

/// The operator that paints a finished path.
pub open spec fn paint_bytes(p: PaintKind) -> Seq<u8> {
    match p {
        PaintKind::Stroke => ("S\n").spec_bytes(),
        PaintKind::Fill => ("f\n").spec_bytes(),
        PaintKind::FillStroke => ("B\n").spec_bytes(),
        PaintKind::Discard => ("n\n").spec_bytes(),
    }
}

/// A byte of a string operand, escaped: parentheses and the backslash are
/// preceded by a backslash.
pub open spec fn escape_byte(b: u8) -> Seq<u8> {
    if b == 40 || b == 41 || b == 92 {
        seq![92u8, b]
    } else {
        seq![b]
    }
}

/// A string operand with every byte escaped.
pub open spec fn escape_string(s: Seq<u8>) -> Seq<u8>
    decreases s.len(),
{
    if s.len() == 0 {
        Seq::<u8>::empty()
    } else {
        escape_string(s.drop_last()) + escape_byte(s.last())
    }
}

/// Append the escaped form of `s` to `out`.
pub fn push_escaped(out: &mut Vec<u8>, s: &[u8])
    ensures
        final(out)@ == old(out)@ + escape_string(s@),
{
    let n = s.len();
    let mut i: usize = 0;
    proof {
        assert(s@.take(0) =~= Seq::<u8>::empty());
    }
    while i < n
        invariant
            i <= n,
            n == s@.len(),
            out@ =~= old(out)@ + escape_string(s@.take(i as int)),
        decreases n - i,
    {
        let b = s[i];
        if b == 40 || b == 41 || b == 92 {
            out.push(92);
            out.push(b);
        } else {
            out.push(b);
        }
        proof {
            assert(s@.take(i + 1).drop_last() =~= s@.take(i as int));
            assert(s@.take(i + 1).last() == s@[i as int]);
            assert(out@ =~= old(out)@ + escape_string(s@.take(i + 1)));
        }
        i = i + 1;
    }
    proof {
        assert(s@.take(n as int) =~= s@);
    }
}

/// The bytes the text-showing operator appends for the string `s`.
pub open spec fn show_text_bytes(s: Seq<u8>) -> Seq<u8> {
    ("(").spec_bytes() + escape_string(s) + (") Tj\n").spec_bytes()
}

/// The bytes of an operator with two integer operands, such as `x y Td`.
pub open spec fn op2_bytes(x: int, y: int, op: Seq<u8>) -> Seq<u8> {
    dec_i32(x) + (" ").spec_bytes() + dec_i32(y) + (" ").spec_bytes() + op
}

/// The bytes of the rectangle operator `x y w h re`.
pub open spec fn rect_op_bytes(x: int, y: int, width: int, height: int) -> Seq<u8> {
    dec_i32(x) + (" ").spec_bytes() + dec_i32(y) + (" ").spec_bytes() + dec_i32(width) + (
    " ").spec_bytes() + dec_i32(height) + (" re\n").spec_bytes()
}

/// The bytes of the font-selection operator `/F<id> <size> Tf`.
pub open spec fn set_font_bytes(id: u64, size: u32) -> Seq<u8> {
    ("/F").spec_bytes() + dec_u64(id as nat) + (" ").spec_bytes() + dec_u64(size as nat) + (
    " Tf\n").spec_bytes()
}

/// The bytes of the image-placement block
/// `q <w> 0 0 <h> <x> <y> cm /I<id> Do Q`.
pub open spec fn draw_image_bytes(id: u64, x: int, y: int, width: int, height: int) -> Seq<u8> {
    ("q ").spec_bytes() + dec_i32(width) + (" 0 0 ").spec_bytes() + dec_i32(height) + (
    " ").spec_bytes() + dec_i32(x) + (" ").spec_bytes() + dec_i32(y) + (" cm /I").spec_bytes()
        + dec_u64(id as nat) + (" Do Q\n").spec_bytes()
}

/// A page's accumulating content stream.
#[derive(Debug)]
pub struct ContentStream {
    /// The operator bytes appended so far.
    pub buf: Vec<u8>,
    /// The current mode.
    pub mode: StreamMode,
    /// How many graphics states have been pushed and not yet popped.
    pub gs_depth: usize,
}

impl ContentStream {
    /// An empty stream in the idle mode.
    pub fn new() -> (cs: ContentStream)
        ensures
            cs.buf@ == Seq::<u8>::empty(),
            cs.mode == StreamMode::Idle,
            cs.gs_depth == 0,
    {
        ContentStream { buf: Vec::new(), mode: StreamMode::Idle, gs_depth: 0 }
    }

    /// Open a text block: allowed while idle or while building a path,
    /// appends `BT`.
    pub fn begin_text(&mut self) -> (r: Result<(), ErrorKind>)
        ensures
            old(self).mode != StreamMode::Text ==> r is Ok && final(self).mode == StreamMode::Text
                && final(self).buf@ == old(self).buf@ + ("BT\n").spec_bytes() && final(self).gs_depth == old(self).gs_depth,
            old(self).mode == StreamMode::Text ==> r == Err::<(), ErrorKind>(ErrorKind::WrongMode)
                && *final(self) == *old(self),
    {
        if self.mode == StreamMode::Text {
            return Err(ErrorKind::WrongMode);
        }
        push_str(&mut self.buf, "BT\n");
        self.mode = StreamMode::Text;
        Ok(())
    }

    /// Close the text block: allowed only inside one, appends `ET`.
    pub fn end_text(&mut self) -> (r: Result<(), ErrorKind>)
        ensures
            old(self).mode == StreamMode::Text ==> r is Ok && final(self).mode == StreamMode::Idle
                && final(self).buf@ == old(self).buf@ + ("ET\n").spec_bytes() && final(self).gs_depth == old(self).gs_depth,
            old(self).mode != StreamMode::Text ==> r == Err::<(), ErrorKind>(ErrorKind::WrongMode)
                && *final(self) == *old(self),
    {
        if self.mode != StreamMode::Text {
            return Err(ErrorKind::WrongMode);
        }
        push_str(&mut self.buf, "ET\n");
        self.mode = StreamMode::Idle;
        Ok(())
    }

    /// Show a string of text: allowed only inside a text block.
    pub fn show_text(&mut self, text: &[u8]) -> (r: Result<(), ErrorKind>)
        ensures
            old(self).mode == StreamMode::Text ==> r is Ok && final(self).mode == StreamMode::Text
                && final(self).buf@ == old(self).buf@ + show_text_bytes(text@) && final(self).gs_depth == old(self).gs_depth,
            old(self).mode != StreamMode::Text ==> r == Err::<(), ErrorKind>(ErrorKind::WrongMode)
                && *final(self) == *old(self),
    {
        if self.mode != StreamMode::Text {
            return Err(ErrorKind::WrongMode);
        }
        push_str(&mut self.buf, "(");
        push_escaped(&mut self.buf, text);
        push_str(&mut self.buf, ") Tj\n");
        proof {
            assert(self.buf@ =~= old(self).buf@ + show_text_bytes(text@));
        }
        Ok(())
    }

    /// Move the text position by `(x, y)`: allowed only inside a text
    /// block, appends `x y Td`.
    pub fn move_text_pos(&mut self, x: i32, y: i32) -> (r: Result<(), ErrorKind>)
        ensures
            old(self).mode == StreamMode::Text ==> r is Ok && final(self).mode == StreamMode::Text
                && final(self).buf@ == old(self).buf@ + op2_bytes(
                x as int,
                y as int,
                ("Td\n").spec_bytes(),
            ) && final(self).gs_depth == old(self).gs_depth,
            old(self).mode != StreamMode::Text ==> r == Err::<(), ErrorKind>(ErrorKind::WrongMode)
                && *final(self) == *old(self),
    {
        if self.mode != StreamMode::Text {
            return Err(ErrorKind::WrongMode);
        }
        push_i32_dec(&mut self.buf, x);
        push_str(&mut self.buf, " ");
        push_i32_dec(&mut self.buf, y);
        push_str(&mut self.buf, " ");
        push_str(&mut self.buf, "Td\n");
        proof {
            assert(self.buf@ =~= old(self).buf@ + op2_bytes(
                x as int,
                y as int,
                ("Td\n").spec_bytes(),
            ));
        }
        Ok(())
    }

    /// Move to the next text line: allowed only inside a text block,
    /// appends `T*`.
    pub fn move_to_next_line(&mut self) -> (r: Result<(), ErrorKind>)
        ensures
            old(self).mode == StreamMode::Text ==> r is Ok && final(self).mode == StreamMode::Text
                && final(self).buf@ == old(self).buf@ + ("T*\n").spec_bytes() && final(self).gs_depth == old(self).gs_depth,
            old(self).mode != StreamMode::Text ==> r == Err::<(), ErrorKind>(ErrorKind::WrongMode)
                && *final(self) == *old(self),
    {
        if self.mode != StreamMode::Text {
            return Err(ErrorKind::WrongMode);
        }
        push_str(&mut self.buf, "T*\n");
        Ok(())
    }

    /// Select the font and size: allowed while idle or in a text block; a
    /// size of zero is rejected as an invalid argument.
    pub fn set_font(&mut self, id: u64, size: u32) -> (r: Result<(), ErrorKind>)
        ensures
            old(self).mode != StreamMode::Path && size > 0 ==> r is Ok && final(self).mode == old(self).mode && final(self).buf@ == old(self).buf@ + set_font_bytes(id, size) && final(self).gs_depth == old(self).gs_depth,
            old(self).mode == StreamMode::Path ==> r == Err::<(), ErrorKind>(ErrorKind::WrongMode)
                && *final(self) == *old(self),
            old(self).mode != StreamMode::Path && size == 0 ==> r == Err::<(), ErrorKind>(
                ErrorKind::InvalidArgument,
            ) && *final(self) == *old(self),
    {
        if self.mode == StreamMode::Path {
            return Err(ErrorKind::WrongMode);
        }
        if size == 0 {
            return Err(ErrorKind::InvalidArgument);
        }
        push_str(&mut self.buf, "/F");
        push_u64_dec(&mut self.buf, id);
        push_str(&mut self.buf, " ");
        push_u64_dec(&mut self.buf, size as u64);
        push_str(&mut self.buf, " Tf\n");
        proof {
            assert(self.buf@ =~= old(self).buf@ + set_font_bytes(id, size));
        }
        Ok(())
    }

    /// Set the text leading: allowed while idle or in a text block,
    /// appends `v TL`.
    pub fn set_text_leading(&mut self, v: i32) -> (r: Result<(), ErrorKind>)
        ensures
            old(self).mode != StreamMode::Path ==> r is Ok && final(self).mode == old(self).mode
                && final(self).buf@ == old(self).buf@ + dec_i32(v as int) + (" TL\n").spec_bytes()
                && final(self).gs_depth == old(self).gs_depth,
            old(self).mode == StreamMode::Path ==> r == Err::<(), ErrorKind>(ErrorKind::WrongMode)
                && *final(self) == *old(self),
    {
        if self.mode == StreamMode::Path {
            return Err(ErrorKind::WrongMode);
        }
        push_i32_dec(&mut self.buf, v);
        push_str(&mut self.buf, " TL\n");
        proof {
            assert(self.buf@ =~= old(self).buf@ + dec_i32(v as int) + (" TL\n").spec_bytes());
        }
        Ok(())
    }

    /// Set the character spacing: allowed while idle or in a text block,
    /// appends `v Tc`.
    pub fn set_char_space(&mut self, v: u32) -> (r: Result<(), ErrorKind>)
        ensures
            old(self).mode != StreamMode::Path ==> r is Ok && final(self).mode == old(self).mode
                && final(self).buf@ == old(self).buf@ + dec_u64(v as nat) + (" Tc
").spec_bytes()
                && final(self).gs_depth == old(self).gs_depth,
            old(self).mode == StreamMode::Path ==> r == Err::<(), ErrorKind>(ErrorKind::WrongMode)
                && *final(self) == *old(self),
    {
        if self.mode == StreamMode::Path {
            return Err(ErrorKind::WrongMode);
        }
        push_u64_dec(&mut self.buf, v as u64);
        push_str(&mut self.buf, " Tc
");
        proof {
            assert(self.buf@ =~= old(self).buf@ + dec_u64(v as nat) + (" Tc
").spec_bytes());
        }
        Ok(())
    }

    /// Set the word spacing: allowed while idle or in a text block,
    /// appends `v Tw`.
    pub fn set_word_space(&mut self, v: u32) -> (r: Result<(), ErrorKind>)
        ensures
            old(self).mode != StreamMode::Path ==> r is Ok && final(self).mode == old(self).mode
                && final(self).buf@ == old(self).buf@ + dec_u64(v as nat) + (" Tw
").spec_bytes()
                && final(self).gs_depth == old(self).gs_depth,
            old(self).mode == StreamMode::Path ==> r == Err::<(), ErrorKind>(ErrorKind::WrongMode)
                && *final(self) == *old(self),
    {
        if self.mode == StreamMode::Path {
            return Err(ErrorKind::WrongMode);
        }
        push_u64_dec(&mut self.buf, v as u64);
        push_str(&mut self.buf, " Tw
");
        proof {
            assert(self.buf@ =~= old(self).buf@ + dec_u64(v as nat) + (" Tw
").spec_bytes());
        }
        Ok(())
    }

    /// Clear the line-dash pattern: allowed while idle or in a text block,
    /// appends `[] 0 d`.
    pub fn clear_dash(&mut self) -> (r: Result<(), ErrorKind>)
        ensures
            old(self).mode != StreamMode::Path ==> r is Ok && final(self).mode == old(self).mode
                && final(self).buf@ == old(self).buf@ + ("[] 0 d\n").spec_bytes() && final(self).gs_depth == old(self).gs_depth,
            old(self).mode == StreamMode::Path ==> r == Err::<(), ErrorKind>(ErrorKind::WrongMode)
                && *final(self) == *old(self),
    {
        if self.mode == StreamMode::Path {
            return Err(ErrorKind::WrongMode);
        }
        push_str(&mut self.buf, "[] 0 d\n");
        Ok(())
    }

    /// Start or extend a path with `x y m`: allowed while idle or building
    /// a path; the stream is in path mode afterwards.
    pub fn move_to(&mut self, x: i32, y: i32) -> (r: Result<(), ErrorKind>)
        ensures
            old(self).mode != StreamMode::Text ==> r is Ok && final(self).mode == StreamMode::Path
                && final(self).buf@ == old(self).buf@ + op2_bytes(
                x as int,
                y as int,
                ("m\n").spec_bytes(),
            ) && final(self).gs_depth == old(self).gs_depth,
            old(self).mode == StreamMode::Text ==> r == Err::<(), ErrorKind>(ErrorKind::WrongMode)
                && *final(self) == *old(self),
    {
        if self.mode == StreamMode::Text {
            return Err(ErrorKind::WrongMode);
        }
        push_i32_dec(&mut self.buf, x);
        push_str(&mut self.buf, " ");
        push_i32_dec(&mut self.buf, y);
        push_str(&mut self.buf, " ");
        push_str(&mut self.buf, "m\n");
        self.mode = StreamMode::Path;
        proof {
            assert(self.buf@ =~= old(self).buf@ + op2_bytes(
                x as int,
                y as int,
                ("m\n").spec_bytes(),
            ));
        }
        Ok(())
    }

    /// Add a rectangle subpath `x y w h re`: allowed while idle or
    /// building a path; the stream is in path mode afterwards.
    #[verifier::rlimit(100)]
    pub fn rect_path(&mut self, x: i32, y: i32, width: i32, height: i32) -> (r: Result<
        (),
        ErrorKind,
    >)
        ensures
            old(self).mode != StreamMode::Text ==> r is Ok && final(self).mode == StreamMode::Path
                && final(self).buf@ == old(self).buf@ + rect_op_bytes(
                x as int,
                y as int,
                width as int,
                height as int,
            ) && final(self).gs_depth == old(self).gs_depth,
            old(self).mode == StreamMode::Text ==> r == Err::<(), ErrorKind>(ErrorKind::WrongMode)
                && *final(self) == *old(self),
    {
        if self.mode == StreamMode::Text {
            return Err(ErrorKind::WrongMode);
        }
        push_i32_dec(&mut self.buf, x);
        push_str(&mut self.buf, " ");
        push_i32_dec(&mut self.buf, y);
        push_str(&mut self.buf, " ");
        push_i32_dec(&mut self.buf, width);
        push_str(&mut self.buf, " ");
        push_i32_dec(&mut self.buf, height);
        push_str(&mut self.buf, " re\n");
        self.mode = StreamMode::Path;
        proof {
            assert(self.buf@ =~= old(self).buf@ + rect_op_bytes(
                x as int,
                y as int,
                width as int,
                height as int,
            ));
        }
        Ok(())
    }

    /// Extend the path with a line segment `x y l`: allowed only while
    /// building a path.
    pub fn line_to(&mut self, x: i32, y: i32) -> (r: Result<(), ErrorKind>)
        ensures
            old(self).mode == StreamMode::Path ==> r is Ok && final(self).mode == StreamMode::Path
                && final(self).buf@ == old(self).buf@ + op2_bytes(
                x as int,
                y as int,
                ("l\n").spec_bytes(),
            ) && final(self).gs_depth == old(self).gs_depth,
            old(self).mode != StreamMode::Path ==> r == Err::<(), ErrorKind>(ErrorKind::WrongMode)
                && *final(self) == *old(self),
    {
        if self.mode != StreamMode::Path {
            return Err(ErrorKind::WrongMode);
        }
        push_i32_dec(&mut self.buf, x);
        push_str(&mut self.buf, " ");
        push_i32_dec(&mut self.buf, y);
        push_str(&mut self.buf, " ");
        push_str(&mut self.buf, "l\n");
        proof {
            assert(self.buf@ =~= old(self).buf@ + op2_bytes(
                x as int,
                y as int,
                ("l\n").spec_bytes(),
            ));
        }
        Ok(())
    }

    /// Paint and close the current path: allowed only while building one;
    /// the stream is idle afterwards.
    pub fn end_path(&mut self, paint: PaintKind) -> (r: Result<(), ErrorKind>)
        ensures
            old(self).mode == StreamMode::Path ==> r is Ok && final(self).mode == StreamMode::Idle
                && final(self).buf@ == old(self).buf@ + paint_bytes(paint) && final(self).gs_depth
                == old(self).gs_depth,
            old(self).mode != StreamMode::Path ==> r == Err::<(), ErrorKind>(ErrorKind::WrongMode)
                && *final(self) == *old(self),
    {
        if self.mode != StreamMode::Path {
            return Err(ErrorKind::WrongMode);
        }
        match paint {
            PaintKind::Stroke => push_str(&mut self.buf, "S\n"),
            PaintKind::Fill => push_str(&mut self.buf, "f\n"),
            PaintKind::FillStroke => push_str(&mut self.buf, "B\n"),
            PaintKind::Discard => push_str(&mut self.buf, "n\n"),
        }
        self.mode = StreamMode::Idle;
        Ok(())
    }

    /// Push the graphics state: allowed only while idle, appends `q`.
    pub fn gsave(&mut self) -> (r: Result<(), ErrorKind>)
        ensures
            old(self).mode == StreamMode::Idle && old(self).gs_depth < usize::MAX ==> r is Ok
                && final(self).mode == StreamMode::Idle && final(self).buf@ == old(self).buf@ + (
            "q\n").spec_bytes() && final(self).gs_depth == old(self).gs_depth + 1,
            old(self).mode != StreamMode::Idle ==> r == Err::<(), ErrorKind>(ErrorKind::WrongMode)
                && *final(self) == *old(self),
            old(self).mode == StreamMode::Idle && old(self).gs_depth == usize::MAX ==> r
                == Err::<(), ErrorKind>(ErrorKind::InvalidArgument) && *final(self) == *old(self),
    {
        if self.mode != StreamMode::Idle {
            return Err(ErrorKind::WrongMode);
        }
        if self.gs_depth == usize::MAX {
            return Err(ErrorKind::InvalidArgument);
        }
        push_str(&mut self.buf, "q\n");
        self.gs_depth = self.gs_depth + 1;
        Ok(())
    }

    /// Pop the graphics state: allowed only while idle and only when one
    /// was pushed, appends `Q`.
    pub fn grestore(&mut self) -> (r: Result<(), ErrorKind>)
        ensures
            old(self).mode == StreamMode::Idle && old(self).gs_depth > 0 ==> r is Ok && final(self).mode == StreamMode::Idle && final(self).buf@ == old(self).buf@ + ("Q\n").spec_bytes()
                && final(self).gs_depth == old(self).gs_depth - 1,
            old(self).mode != StreamMode::Idle ==> r == Err::<(), ErrorKind>(ErrorKind::WrongMode)
                && *final(self) == *old(self),
            old(self).mode == StreamMode::Idle && old(self).gs_depth == 0 ==> r == Err::<
                (),
                ErrorKind,
            >(ErrorKind::InvalidArgument) && *final(self) == *old(self),
    {
        if self.mode != StreamMode::Idle {
            return Err(ErrorKind::WrongMode);
        }
        if self.gs_depth == 0 {
            return Err(ErrorKind::InvalidArgument);
        }
        push_str(&mut self.buf, "Q\n");
        self.gs_depth = self.gs_depth - 1;
        Ok(())
    }

    /// Place an image: allowed only while idle; appends a saved-state block
    /// that scales the unit square to `width` by `height` at `(x, y)` and
    /// paints the image object.
    #[verifier::rlimit(100)]
    pub fn draw_image_op(&mut self, id: u64, x: i32, y: i32, width: i32, height: i32) -> (r: Result<
        (),
        ErrorKind,
    >)
        ensures
            old(self).mode == StreamMode::Idle && width > 0 && height > 0 ==> r is Ok && final(self).mode == StreamMode::Idle && final(self).buf@ == old(self).buf@ + draw_image_bytes(
                id,
                x as int,
                y as int,
                width as int,
                height as int,
            ) && final(self).gs_depth == old(self).gs_depth,
            old(self).mode != StreamMode::Idle ==> r == Err::<(), ErrorKind>(ErrorKind::WrongMode)
                && *final(self) == *old(self),
            old(self).mode == StreamMode::Idle && !(width > 0 && height > 0) ==> r == Err::<
                (),
                ErrorKind,
            >(ErrorKind::InvalidArgument) && *final(self) == *old(self),
    {
        if self.mode != StreamMode::Idle {
            return Err(ErrorKind::WrongMode);
        }
        if width <= 0 || height <= 0 {
            return Err(ErrorKind::InvalidArgument);
        }
        push_str(&mut self.buf, "q ");
        push_i32_dec(&mut self.buf, width);
        push_str(&mut self.buf, " 0 0 ");
        push_i32_dec(&mut self.buf, height);
        push_str(&mut self.buf, " ");
        push_i32_dec(&mut self.buf, x);
        push_str(&mut self.buf, " ");
        push_i32_dec(&mut self.buf, y);
        push_str(&mut self.buf, " cm /I");
        push_u64_dec(&mut self.buf, id);
        push_str(&mut self.buf, " Do Q\n");
        proof {
            assert(self.buf@ =~= old(self).buf@ + draw_image_bytes(
                id,
                x as int,
                y as int,
                width as int,
                height as int,
            ));
        }
        Ok(())
    }
}

} // verus!
