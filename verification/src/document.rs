//! The document: the owner of pages, fonts, destinations, annotations,
//! outlines and images, the reference table that numbers them, and the
//! registry of font and encoding names.
//!
//! Every object created through the document receives a unique, strictly
//! increasing reference number; numbers are never reused. Every fallible
//! operation that takes the document by mutable reference records the kind
//! of each failure in the document's error log before returning it.

use vstd::prelude::*;
use vstd::string::StringSliceAdditionalSpecFns;

use crate::annots::{Annotation, AnnotKind, BorderStyle, Destination, HighlightMode, Link, Outline, OutlineNode};
use crate::compress::CompressionMode;
use crate::content::StreamMode;
use crate::emit::{dec_u64, push_bytes, push_u64_dec};
use crate::errors::ErrorKind;
use crate::font::{
    check_base14_name, check_base_encoding_name, check_cns_encoding_name, check_cns_font_name,
    check_cnt_encoding_name, check_cnt_font_name, check_fixed_pitch_name, check_jp_encoding_name,
    check_jp_font_name, check_kr_encoding_name, check_kr_font_name, check_utf_encoding_name,
    bytes_eq, is_base14_name, is_base_encoding_name, is_cns_encoding_name, is_cns_font_name,
    is_cnt_encoding_name, is_cnt_font_name, is_fixed_pitch_name, is_jp_encoding_name,
    is_jp_font_name, is_kr_encoding_name, is_kr_font_name, is_utf_encoding_name, Font, WidthClass,
};
use crate::geom::{Point, Rect, Rectangle, normalized_rectangle};
use crate::images::{be16_at, be32_at, png_dimensions, png_header_ok, png_height, png_width,
    read_be16, read_be32, Image, ImageRecord};
use crate::page::Page;

verus! {

/// The style page labels are displayed in.
#[derive(Clone, Copy, Debug, PartialEq, Eq, Structural)]
pub enum PageNumStyle {
    /// Arabic numerals.
    Decimal,
    /// Uppercase roman numerals.
    UpperRoman,
    /// Lowercase roman numerals.
    LowerRoman,
    /// Uppercase letters.
    UpperLetters,
    /// Lowercase letters.
    LowerLetters,
}

/// How the document is displayed when opened.
#[derive(Clone, Copy, Debug, PartialEq, Eq, Structural)]
pub enum PageMode {
    /// Neither outline nor thumbnails.
    UseNone,
    /// With the outline pane.
    Outline,
    /// With the thumbnail pane.
    Thumbs,
    /// In full-screen mode.
    FullScreen,
}

/// How pages are laid out when the document is displayed.
#[derive(Clone, Copy, Debug, PartialEq, Eq, Structural)]
pub enum PageLayout {
    /// One page at a time.
    Single,
    /// The pages in one column.
    OneColumn,
    /// Two columns; odd pages on the left.
    TwoColumnLeft,
    /// Two columns; odd pages on the right.
    TwoColumnRight,
}

/// The file attributes of the information dictionary.
#[derive(Clone, Copy, Debug, PartialEq, Eq, Structural)]
pub enum Metadata {
    /// Creation date of the document.
    CreationDate,
    /// Last modification date.
    ModDate,
    /// Document author.
    Author,
    /// Document creator.
    Creator,
    /// Document producer.
    Producer,
    /// Document title.
    Title,
    /// Document subject.
    Subject,
    /// Document keywords.
    Keywords,
    /// Trapping information.
    Trapped,
    /// Conformance version of the document.
    PDFXVersion,
}

/// A font registered with the document: one object per distinct pair of
/// name and encoding.
#[derive(Debug)]
pub struct FontRecord {
    /// The object reference number the font was registered under.
    pub id: u64,
    /// The font name.
    pub name: Vec<u8>,
    /// The encoding name.
    pub encoding: Vec<u8>,
    /// How the font's glyph widths are determined.
    pub widths: WidthClass,
}

/// An external font program registered with the document.
#[derive(Debug)]
pub struct LoadedFont {
    /// The name the program was registered under.
    pub name: Vec<u8>,
    /// Whether the program is embedded in the output.
    pub embedding: bool,
}

/// One file attribute of the information dictionary.
#[derive(Debug)]
pub struct MetaEntry {
    /// Which attribute.
    pub key: Metadata,
    /// Its value.
    pub value: Vec<u8>,
}

/// A page-labeling range.
#[derive(Debug)]
pub struct PageLabel {
    /// The index of the first page the range applies to.
    pub page_num: usize,
    /// The numbering style.
    pub style: PageNumStyle,
    /// The number the range starts counting at; at least one.
    pub first_page: usize,
    /// The label prefix.
    pub prefix: Vec<u8>,
}

/// The object reference numbers every document reserves at creation: the
/// catalog, the page tree root, the outline root and the information
/// dictionary.
pub const CATALOG_ID: u64 = 1;

/// The reserved reference number of the page tree root.
pub const PAGES_ROOT_ID: u64 = 2;

/// The reserved reference number of the outline root.
pub const OUTLINE_ROOT_ID: u64 = 3;

/// The reserved reference number of the information dictionary.
pub const INFO_ID: u64 = 4;

/// The first reference number handed out to created objects.
pub const FIRST_FREE_ID: u64 = 5;

/// A document being constructed.
#[derive(Debug)]
pub struct Document {
    /// The pages, in display order.
    pub pages: Vec<Page>,
    /// The position of the current page: the page created last.
    pub current: usize,
    /// The fonts registered so far.
    pub fonts: Vec<FontRecord>,
    /// The external font programs registered so far.
    pub loaded_fonts: Vec<LoadedFont>,
    /// Whether the Japanese font bundle is enabled.
    pub jp_fonts: bool,
    /// Whether the Korean font bundle is enabled.
    pub kr_fonts: bool,
    /// Whether the simplified-Chinese font bundle is enabled.
    pub cns_fonts: bool,
    /// Whether the traditional-Chinese font bundle is enabled.
    pub cnt_fonts: bool,
    /// Whether the Japanese encoding bundle is enabled.
    pub jp_encodings: bool,
    /// Whether the Korean encoding bundle is enabled.
    pub kr_encodings: bool,
    /// Whether the simplified-Chinese encoding bundle is enabled.
    pub cns_encodings: bool,
    /// Whether the traditional-Chinese encoding bundle is enabled.
    pub cnt_encodings: bool,
    /// Whether the Unicode encoding bundle is enabled.
    pub utf_encodings: bool,
    /// The name of the current encoder.
    pub encoder: Vec<u8>,
    /// Which classes of stream are compressed on serialization.
    pub compression: CompressionMode,
    /// How the document is displayed when opened.
    pub page_mode: PageMode,
    /// How pages are laid out, if a layout was chosen.
    pub layout: Option<PageLayout>,
    /// The file attributes of the information dictionary.
    pub metadata: Vec<MetaEntry>,
    /// The page-labeling ranges.
    pub page_labels: Vec<PageLabel>,
    /// The outline tree, in creation order; parents precede children.
    pub outlines: Vec<OutlineNode>,
    /// The destinations created so far.
    pub dests: Vec<Destination>,
    /// The annotations created so far.
    pub annots: Vec<Annotation>,
    /// The destination shown when the document is opened, if one was set.
    pub open_action: Option<u64>,
    /// The images registered so far.
    pub images: Vec<ImageRecord>,
    /// The next free object reference number; strictly increasing, never
    /// reused.
    pub next_id: u64,
    /// The serialized byte stream produced by the last save.
    pub stream: Vec<u8>,
    /// The read position within the saved stream.
    pub read_pos: usize,
    /// The kinds of the failures this document has reported, oldest first.
    pub errors: Vec<ErrorKind>,
}

/// True when `post` is `pre` with exactly the error kind `k` appended to
/// the log and everything else unchanged.
pub open spec fn doc_logged(pre: Document, post: Document, k: ErrorKind) -> bool {
    post.errors@ == pre.errors@.push(k) && post == (Document { errors: post.errors, ..pre })
}

/// The structural invariant of a document: the reserved numbers are below
/// the allocation frontier, the current page is in range, and every
/// outline entry's parent precedes it.
pub open spec fn doc_wf(d: Document) -> bool {
    &&& d.next_id >= FIRST_FREE_ID
    &&& d.pages.len() > 0 ==> d.current < d.pages.len()
    &&& forall|i: int|
        0 <= i < d.outlines.len() ==> (#[trigger] d.outlines[i].parent matches Some(p) ==> p < i)
    &&& d.read_pos <= d.stream.len()
}

/// True when the font name `s` is known to the document: one of the
/// standard fourteen, one of an enabled regional bundle, or the name of a
/// registered external font program.
pub open spec fn font_name_known(d: Document, s: Seq<u8>) -> bool {
    ||| is_base14_name(s)
    ||| d.jp_fonts && is_jp_font_name(s)
    ||| d.kr_fonts && is_kr_font_name(s)
    ||| d.cns_fonts && is_cns_font_name(s)
    ||| d.cnt_fonts && is_cnt_font_name(s)
    ||| exists|i: int| 0 <= i < d.loaded_fonts.len() && (#[trigger] d.loaded_fonts[i].name@) == s
}

/// True when the encoding name `s` is known to the document: one of the
/// always-known single-byte encodings or one of an enabled bundle.
pub open spec fn encoding_name_known(d: Document, s: Seq<u8>) -> bool {
    ||| is_base_encoding_name(s)
    ||| d.jp_encodings && is_jp_encoding_name(s)
    ||| d.kr_encodings && is_kr_encoding_name(s)
    ||| d.cns_encodings && is_cns_encoding_name(s)
    ||| d.cnt_encodings && is_cnt_encoding_name(s)
    ||| d.utf_encodings && is_utf_encoding_name(s)
}

/// The position of the first registered font with the given name and
/// encoding, or the list length when there is none.
pub open spec fn font_lookup(fonts: Seq<FontRecord>, name: Seq<u8>, enc: Seq<u8>) -> int
    decreases fonts.len(),
{
    if fonts.len() == 0 {
        0
    } else if fonts[0].name@ == name && fonts[0].encoding@ == enc {
        0
    } else {
        1 + font_lookup(fonts.drop_first(), name, enc)
    }
}

/// What characterizes the font lookup position: entries before it do not
/// match, and it either matches or is the end of the list.
pub proof fn lemma_font_lookup_characterization(fonts: Seq<FontRecord>, name: Seq<u8>, enc: Seq<u8>)
    ensures
        0 <= font_lookup(fonts, name, enc) <= fonts.len(),
        forall|j: int|
            0 <= j < font_lookup(fonts, name, enc) ==> !((#[trigger] fonts[j].name@) == name
                && fonts[j].encoding@ == enc),
        font_lookup(fonts, name, enc) < fonts.len() ==> fonts[font_lookup(fonts, name, enc)].name@
            == name && fonts[font_lookup(fonts, name, enc)].encoding@ == enc,
    decreases fonts.len(),
{
    if fonts.len() > 0 && !(fonts[0].name@ == name && fonts[0].encoding@ == enc) {
        lemma_font_lookup_characterization(fonts.drop_first(), name, enc);
        assert forall|j: int|
            0 <= j < font_lookup(fonts, name, enc) implies !((#[trigger] fonts[j].name@) == name
            && fonts[j].encoding@ == enc) by {
            if j >= 1 {
                assert(fonts.drop_first()[j - 1] == fonts[j]);
            }
        }
        if font_lookup(fonts, name, enc) < fonts.len() {
            assert(fonts.drop_first()[font_lookup(fonts, name, enc) - 1] == fonts[font_lookup(
                fonts,
                name,
                enc,
            )]);
        }
    }
}

/// A freshly created page: letter-sized, unrotated, with an empty content
/// stream, no font, and an empty error log, registered under the two given
/// reference numbers.
pub open spec fn page_is_fresh(p: Page, id: u64, content_id: u64) -> bool {
    &&& p.id == id
    &&& p.content_id == content_id
    &&& p.width == 612
    &&& p.height == 792
    &&& p.rotate == 0
    &&& p.cs.buf@ == Seq::<u8>::empty()
    &&& p.cs.mode == StreamMode::Idle
    &&& p.cs.gs_depth == 0
    &&& p.font is None
    &&& p.font_size == 0
    &&& p.char_space == 0
    &&& p.word_space == 0
    &&& p.leading == 0
    &&& p.line_width == 1
    &&& p.text_pos == (Point { x: 0, y: 0 })
    &&& p.path_pos == (Point { x: 0, y: 0 })
    &&& p.gs_stack@ == Seq::<crate::page::GraphicsState>::empty()
    &&& p.errors@ == Seq::<ErrorKind>::empty()
}

impl Document {
    /// A new, empty document: no pages, no fonts, no compression, shown
    /// with neither outline nor thumbnails, with the standard encoding
    /// current and the first free reference number ready to hand out.
    pub fn new() -> (d: Document)
        ensures
            doc_wf(d),
            d.pages@.len() == 0,
            d.fonts@.len() == 0,
            d.loaded_fonts@.len() == 0,
            !d.jp_fonts && !d.kr_fonts && !d.cns_fonts && !d.cnt_fonts,
            !d.jp_encodings && !d.kr_encodings && !d.cns_encodings && !d.cnt_encodings
                && !d.utf_encodings,
            d.encoder@ == ("StandardEncoding").spec_bytes(),
            d.compression == (CompressionMode { text: false, image: false, metadata: false }),
            d.page_mode == PageMode::UseNone,
            d.layout is None,
            d.metadata@.len() == 0,
            d.page_labels@.len() == 0,
            d.outlines@.len() == 0,
            d.dests@.len() == 0,
            d.annots@.len() == 0,
            d.open_action is None,
            d.images@.len() == 0,
            d.next_id == FIRST_FREE_ID,
            d.stream@.len() == 0,
            d.read_pos == 0,
            d.errors@.len() == 0,
    {
        let mut encoder: Vec<u8> = Vec::new();
        push_bytes(&mut encoder, "StandardEncoding".as_bytes());
        Document {
            pages: Vec::new(),
            current: 0,
            fonts: Vec::new(),
            loaded_fonts: Vec::new(),
            jp_fonts: false,
            kr_fonts: false,
            cns_fonts: false,
            cnt_fonts: false,
            jp_encodings: false,
            kr_encodings: false,
            cns_encodings: false,
            cnt_encodings: false,
            utf_encodings: false,
            encoder,
            compression: CompressionMode { text: false, image: false, metadata: false },
            page_mode: PageMode::UseNone,
            layout: None,
            metadata: Vec::new(),
            page_labels: Vec::new(),
            outlines: Vec::new(),
            dests: Vec::new(),
            annots: Vec::new(),
            open_action: None,
            images: Vec::new(),
            next_id: FIRST_FREE_ID,
            stream: Vec::new(),
            read_pos: 0,
            errors: Vec::new(),
        }
    }

    /// Hand out one fresh object reference number. Fails only when the
    /// number space is exhausted.
    fn alloc_id(&mut self) -> (r: Result<u64, ErrorKind>)
        ensures
            old(self).next_id < u64::MAX ==> (r matches Ok(id) && id == old(self).next_id
                && *final(self) == (Document {
                next_id: (old(self).next_id + 1) as u64,
                ..*old(self)
            })),
            old(self).next_id == u64::MAX ==> r == Err::<u64, ErrorKind>(
                ErrorKind::SerializationError,
            ) && doc_logged(*old(self), *final(self), ErrorKind::SerializationError),
    {
        if self.next_id == u64::MAX {
            self.errors.push(ErrorKind::SerializationError);
            return Err(ErrorKind::SerializationError);
        }
        let id = self.next_id;
        self.next_id = self.next_id + 1;
        Ok(id)
    }

    /// Create a new page after the last page of the document and make it
    /// the current page. Returns the new page's position in the page
    /// list. Fails only when the reference-number space is exhausted.
    pub fn add_page(&mut self) -> (r: Result<usize, ErrorKind>)
        requires
            doc_wf(*old(self)),
        ensures
            doc_wf(*final(self)),
            old(self).next_id < u64::MAX - 1 ==> (r matches Ok(ix) && ix == old(self).pages@.len()
                && final(self).pages@.len() == old(self).pages@.len() + 1 && page_is_fresh(
                final(self).pages@.last(),
                old(self).next_id,
                (old(self).next_id + 1) as u64,
            ) && final(self).pages@.take(ix as int) == old(self).pages@ && *final(self)
                == (Document {
                pages: final(self).pages,
                current: ix,
                next_id: (old(self).next_id + 2) as u64,
                ..*old(self)
            })),
            old(self).next_id >= u64::MAX - 1 ==> r == Err::<usize, ErrorKind>(
                ErrorKind::SerializationError,
            ) && doc_logged(*old(self), *final(self), ErrorKind::SerializationError),
    {
        if self.next_id >= u64::MAX - 1 {
            self.errors.push(ErrorKind::SerializationError);
            return Err(ErrorKind::SerializationError);
        }
        let id = self.next_id;
        let content_id = self.next_id + 1;
        self.next_id = self.next_id + 2;
        let ix = self.pages.len();
        self.pages.push(Page::new(id, content_id));
        self.current = ix;
        proof {
            assert(final(self).pages@.take(ix as int) =~= old(self).pages@);
        }
        Ok(ix)
    }

    /// Create a new page just before the page at `target` . The pages at
    /// and after `target` move one position up; the new page becomes the
    /// current page. Fails when `target` is not a page of this document.
    pub fn insert_page(&mut self, target: usize) -> (r: Result<usize, ErrorKind>)
        requires
            doc_wf(*old(self)),
        ensures
            doc_wf(*final(self)),
            target < old(self).pages@.len() && old(self).next_id < u64::MAX - 1 ==> (r matches Ok(
                ix,
            ) && ix == target && final(self).pages@.len() == old(self).pages@.len() + 1
                && page_is_fresh(
                final(self).pages@[target as int],
                old(self).next_id,
                (old(self).next_id + 1) as u64,
            ) && final(self).pages@ == old(self).pages@.insert(
                target as int,
                final(self).pages@[target as int],
            ) && *final(self) == (Document {
                pages: final(self).pages,
                current: target,
                next_id: (old(self).next_id + 2) as u64,
                ..*old(self)
            })),
            target >= old(self).pages@.len() ==> r == Err::<usize, ErrorKind>(
                ErrorKind::InvalidArgument,
            ) && doc_logged(*old(self), *final(self), ErrorKind::InvalidArgument),
            target < old(self).pages@.len() && old(self).next_id >= u64::MAX - 1 ==> r == Err::<
                usize,
                ErrorKind,
            >(ErrorKind::SerializationError) && doc_logged(
                *old(self),
                *final(self),
                ErrorKind::SerializationError,
            ),
    {
        if target >= self.pages.len() {
            self.errors.push(ErrorKind::InvalidArgument);
            return Err(ErrorKind::InvalidArgument);
        }
        if self.next_id >= u64::MAX - 1 {
            self.errors.push(ErrorKind::SerializationError);
            return Err(ErrorKind::SerializationError);
        }
        let id = self.next_id;
        let content_id = self.next_id + 1;
        self.next_id = self.next_id + 2;
        self.pages.insert(target, Page::new(id, content_id));
        self.current = target;
        Ok(target)
    }

    /// The position of the current page: the page created last. Fails
    /// when the document has no pages. A query: nothing is logged.
    pub fn current_page(&self) -> (r: Result<usize, ErrorKind>)
        ensures
            self.pages@.len() > 0 ==> r == Ok::<usize, ErrorKind>(self.current),
            self.pages@.len() == 0 ==> r == Err::<usize, ErrorKind>(ErrorKind::InvalidArgument),
    {
        if self.pages.len() == 0 {
            return Err(ErrorKind::InvalidArgument);
        }
        Ok(self.current)
    }

    /// Set how the document is displayed when opened.
    pub fn set_page_mode(&mut self, mode: PageMode) -> (r: Result<(), ErrorKind>)
        ensures
            r is Ok,
            *final(self) == (Document { page_mode: mode, ..*old(self) }),
    {
        self.page_mode = mode;
        Ok(())
    }

    /// How the document is displayed when opened.
    pub fn page_mode(&self) -> (r: Result<PageMode, ErrorKind>)
        ensures
            r == Ok::<PageMode, ErrorKind>(self.page_mode),
    {
        Ok(self.page_mode)
    }

    /// Set how pages are laid out when the document is displayed.
    pub fn set_page_layout(&mut self, layout: PageLayout) -> (r: Result<(), ErrorKind>)
        ensures
            r is Ok,
            *final(self) == (Document { layout: Some(layout), ..*old(self) }),
    {
        self.layout = Some(layout);
        Ok(())
    }

    /// How pages are laid out when the document is displayed. Fails when
    /// no layout was chosen. A query: nothing is logged.
    pub fn page_layout(&self) -> (r: Result<PageLayout, ErrorKind>)
        ensures
            self.layout matches Some(l) ==> r == Ok::<PageLayout, ErrorKind>(l),
            self.layout is None ==> r == Err::<PageLayout, ErrorKind>(ErrorKind::InvalidArgument),
    {
        match self.layout {
            Some(l) => Ok(l),
            None => Err(ErrorKind::InvalidArgument),
        }
    }

    /// Set the mode of compression applied when the document is
    /// serialized.
    pub fn set_compression_mode(&mut self, mode: CompressionMode) -> (r: Result<(), ErrorKind>)
        ensures
            r is Ok,
            *final(self) == (Document { compression: mode, ..*old(self) }),
    {
        self.compression = mode;
        Ok(())
    }

    /// Enable the Japanese fonts. Idempotent: enabling them again changes
    /// nothing.
    pub fn use_jpfonts(&mut self) -> (r: Result<(), ErrorKind>)
        ensures
            r is Ok,
            *final(self) == (Document { jp_fonts: true, ..*old(self) }),
    {
        self.jp_fonts = true;
        Ok(())
    }

    /// Enable the Korean fonts. Idempotent: enabling them again changes
    /// nothing.
    pub fn use_krfonts(&mut self) -> (r: Result<(), ErrorKind>)
        ensures
            r is Ok,
            *final(self) == (Document { kr_fonts: true, ..*old(self) }),
    {
        self.kr_fonts = true;
        Ok(())
    }

    /// Enable the simplified-Chinese fonts. Idempotent: enabling them
    /// again changes nothing.
    pub fn use_cnsfonts(&mut self) -> (r: Result<(), ErrorKind>)
        ensures
            r is Ok,
            *final(self) == (Document { cns_fonts: true, ..*old(self) }),
    {
        self.cns_fonts = true;
        Ok(())
    }

    /// Enable the traditional-Chinese fonts. Idempotent: enabling them
    /// again changes nothing.
    pub fn use_cntfonts(&mut self) -> (r: Result<(), ErrorKind>)
        ensures
            r is Ok,
            *final(self) == (Document { cnt_fonts: true, ..*old(self) }),
    {
        self.cnt_fonts = true;
        Ok(())
    }

    /// Enable the Japanese encodings. Idempotent: enabling them again
    /// changes nothing.
    pub fn use_jpencodings(&mut self) -> (r: Result<(), ErrorKind>)
        ensures
            r is Ok,
            *final(self) == (Document { jp_encodings: true, ..*old(self) }),
    {
        self.jp_encodings = true;
        Ok(())
    }

    /// Enable the Korean encodings. Idempotent: enabling them again
    /// changes nothing.
    pub fn use_krencodings(&mut self) -> (r: Result<(), ErrorKind>)
        ensures
            r is Ok,
            *final(self) == (Document { kr_encodings: true, ..*old(self) }),
    {
        self.kr_encodings = true;
        Ok(())
    }

    /// Enable the simplified-Chinese encodings. Idempotent: enabling them
    /// again changes nothing.
    pub fn use_cnsencodings(&mut self) -> (r: Result<(), ErrorKind>)
        ensures
            r is Ok,
            *final(self) == (Document { cns_encodings: true, ..*old(self) }),
    {
        self.cns_encodings = true;
        Ok(())
    }

    /// Enable the traditional-Chinese encodings. Idempotent: enabling
    /// them again changes nothing.
    pub fn use_cntencodings(&mut self) -> (r: Result<(), ErrorKind>)
        ensures
            r is Ok,
            *final(self) == (Document { cnt_encodings: true, ..*old(self) }),
    {
        self.cnt_encodings = true;
        Ok(())
    }

    /// Enable the Unicode encodings. Idempotent: enabling them again
    /// changes nothing.
    pub fn use_utfencodings(&mut self) -> (r: Result<(), ErrorKind>)
        ensures
            r is Ok,
            *final(self) == (Document { utf_encodings: true, ..*old(self) }),
    {
        self.utf_encodings = true;
        Ok(())
    }

    /// Decide whether a font name is known to this document.
    fn font_name_is_known(&self, name: &[u8]) -> (r: bool)
        ensures
            r == font_name_known(*self, name@),
    {
        if check_base14_name(name) {
            return true;
        }
        if self.jp_fonts && check_jp_font_name(name) {
            return true;
        }
        if self.kr_fonts && check_kr_font_name(name) {
            return true;
        }
        if self.cns_fonts && check_cns_font_name(name) {
            return true;
        }
        if self.cnt_fonts && check_cnt_font_name(name) {
            return true;
        }
        let n = self.loaded_fonts.len();
        let mut i: usize = 0;
        while i < n
            invariant
                i <= n,
                n == self.loaded_fonts@.len(),
                forall|j: int| 0 <= j < i ==> (#[trigger] self.loaded_fonts@[j].name@) != name@,
            decreases n - i,
        {
            if bytes_eq(self.loaded_fonts[i].name.as_slice(), name) {
                return true;
            }
            i = i + 1;
        }
        false
    }

    /// Decide whether an encoding name is known to this document.
    fn encoding_name_is_known(&self, name: &[u8]) -> (r: bool)
        ensures
            r == encoding_name_known(*self, name@),
    {
        check_base_encoding_name(name) || (self.jp_encodings && check_jp_encoding_name(name)) || (
        self.kr_encodings && check_kr_encoding_name(name)) || (self.cns_encodings
            && check_cns_encoding_name(name)) || (self.cnt_encodings && check_cnt_encoding_name(
            name,
        )) || (self.utf_encodings && check_utf_encoding_name(name))
    }

    /// The handle of the font with the given name and encoding, creating
    /// its record on first use. When no encoding is named, the current
    /// encoder is used. Fails when the encoding or the font name is not
    /// known to the registry.
    pub fn font(&mut self, font_name: &str, encoding_name: Option<&str>) -> (r: Result<
        Font,
        ErrorKind,
    >)
        ensures
            ({
                let enc = match encoding_name {
                    Some(e) => e.spec_bytes(),
                    None => old(self).encoder@,
                };
                &&& (!encoding_name_known(*old(self), enc) ==> r == Err::<Font, ErrorKind>(
                    ErrorKind::UnknownEncoding,
                ) && doc_logged(*old(self), *final(self), ErrorKind::UnknownEncoding))
                &&& (encoding_name_known(*old(self), enc) && !font_name_known(
                    *old(self),
                    font_name.spec_bytes(),
                ) ==> r == Err::<Font, ErrorKind>(ErrorKind::UnknownFont) && doc_logged(
                    *old(self),
                    *final(self),
                    ErrorKind::UnknownFont,
                ))
                &&& (encoding_name_known(*old(self), enc) && font_name_known(
                    *old(self),
                    font_name.spec_bytes(),
                ) && old(self).next_id < u64::MAX ==> (r matches Ok(f) && f.index < final(self).fonts@.len() && final(self).fonts@[f.index as int].name@
                    == font_name.spec_bytes() && final(self).fonts@[f.index as int].encoding@ == enc
                    && f.id == final(self).fonts@[f.index as int].id && f.widths == (if is_fixed_pitch_name(
                    font_name.spec_bytes(),
                ) {
                    WidthClass::Fixed
                } else {
                    WidthClass::Proportional
                }) && (font_lookup(old(self).fonts@, font_name.spec_bytes(), enc) < old(self).fonts@.len() ==> *final(self) == *old(self) && f.index as int == font_lookup(
                    old(self).fonts@,
                    font_name.spec_bytes(),
                    enc,
                )) && (font_lookup(old(self).fonts@, font_name.spec_bytes(), enc) == old(self).fonts@.len() ==> f.index as int == old(self).fonts@.len() && f.id == old(self).next_id && final(self).fonts@ == old(self).fonts@.push(
                    final(self).fonts@.last(),
                ) && *final(self) == (Document {
                    fonts: final(self).fonts,
                    next_id: (old(self).next_id + 1) as u64,
                    ..*old(self)
                }))))
            }),
    {
        let mut enc_copy: Vec<u8> = Vec::new();
        match encoding_name {
            Some(e) => push_bytes(&mut enc_copy, e.as_bytes()),
            None => push_bytes(&mut enc_copy, self.encoder.as_slice()),
        }
        let mut name_copy: Vec<u8> = Vec::new();
        push_bytes(&mut name_copy, font_name.as_bytes());
        proof {
            assert(enc_copy@ =~= (match encoding_name {
                Some(e) => e.spec_bytes(),
                None => old(self).encoder@,
            }));
            assert(name_copy@ =~= font_name.spec_bytes());
        }
        if !self.encoding_name_is_known(enc_copy.as_slice()) {
            self.errors.push(ErrorKind::UnknownEncoding);
            return Err(ErrorKind::UnknownEncoding);
        }
        if !self.font_name_is_known(name_copy.as_slice()) {
            self.errors.push(ErrorKind::UnknownFont);
            return Err(ErrorKind::UnknownFont);
        }
        let widths = if check_fixed_pitch_name(name_copy.as_slice()) {
            WidthClass::Fixed
        } else {
            WidthClass::Proportional
        };
        // look for an existing record with this name and encoding
        let n = self.fonts.len();
        let mut i: usize = 0;
        proof {
            lemma_font_lookup_characterization(self.fonts@, name_copy@, enc_copy@);
        }
        while i < n
            invariant
                i <= n,
                n == self.fonts@.len(),
                *self == *old(self),
                enc_copy@ == (match encoding_name {
                    Some(e) => e.spec_bytes(),
                    None => old(self).encoder@,
                }),
                name_copy@ == font_name.spec_bytes(),
                encoding_name_known(*old(self), enc_copy@),
                font_name_known(*old(self), name_copy@),
                widths == (if is_fixed_pitch_name(name_copy@) {
                    WidthClass::Fixed
                } else {
                    WidthClass::Proportional
                }),
                forall|j: int|
                    0 <= j < i ==> !((#[trigger] self.fonts@[j].name@) == name_copy@
                        && self.fonts@[j].encoding@ == enc_copy@),
            decreases n - i,
        {
            let hit = bytes_eq(self.fonts[i].name.as_slice(), name_copy.as_slice()) && bytes_eq(
                self.fonts[i].encoding.as_slice(),
                enc_copy.as_slice(),
            );
            if hit {
                proof {
                    lemma_font_lookup_characterization(self.fonts@, name_copy@, enc_copy@);
                    let lk = font_lookup(self.fonts@, name_copy@, enc_copy@);
                    if lk < i {
                        assert(false);
                    }
                    if i < lk {
                        assert(false);
                    }
                }
                let fid = self.fonts[i].id;
                return Ok(Font { id: fid, index: i, widths });
            }
            i = i + 1;
        }
        proof {
            lemma_font_lookup_characterization(self.fonts@, name_copy@, enc_copy@);
            let lk = font_lookup(self.fonts@, name_copy@, enc_copy@);
            if lk < n {
                assert(false);
            }
        }
        // first use: create the record under a fresh reference number
        let id = match self.alloc_id() {
            Ok(id) => id,
            Err(k) => {
                return Err(k);
            },
        };
        let index = self.fonts.len();
        self.fonts.push(FontRecord { id, name: name_copy, encoding: enc_copy, widths });
        Ok(Font { id, index, widths })
    }
}

/// A handle to an encoder known to a document's registry.
#[derive(Debug)]
pub struct Encoder {
    /// The encoding's name.
    pub name: Vec<u8>,
}

/// The position of the first information-dictionary entry with the given
/// key, or the list length when there is none.
pub open spec fn meta_index(entries: Seq<MetaEntry>, key: Metadata) -> int
    decreases entries.len(),
{
    if entries.len() == 0 {
        0
    } else if entries[0].key == key {
        0
    } else {
        1 + meta_index(entries.drop_first(), key)
    }
}

/// What characterizes the metadata position: entries before it carry
/// other keys, and it either carries the key or is the end of the list.
pub proof fn lemma_meta_index_characterization(entries: Seq<MetaEntry>, key: Metadata)
    ensures
        0 <= meta_index(entries, key) <= entries.len(),
        forall|j: int| 0 <= j < meta_index(entries, key) ==> (#[trigger] entries[j].key) != key,
        meta_index(entries, key) < entries.len() ==> entries[meta_index(entries, key)].key == key,
    decreases entries.len(),
{
    if entries.len() > 0 && entries[0].key != key {
        lemma_meta_index_characterization(entries.drop_first(), key);
        assert forall|j: int| 0 <= j < meta_index(entries, key) implies (#[trigger] entries[j].key)
            != key by {
            if j >= 1 {
                assert(entries.drop_first()[j - 1] == entries[j]);
            }
        }
        if meta_index(entries, key) < entries.len() {
            assert(entries.drop_first()[meta_index(entries, key) - 1] == entries[meta_index(
                entries,
                key,
            )]);
        }
    }
}

/// The position of the first destination with the given reference number,
/// or the list length when there is none.
pub open spec fn dest_index(dests: Seq<Destination>, id: u64) -> int
    decreases dests.len(),
{
    if dests.len() == 0 {
        0
    } else if dests[0].id == id {
        0
    } else {
        1 + dest_index(dests.drop_first(), id)
    }
}

/// What characterizes the destination position: entries before it carry
/// other numbers, and it either carries the number or is the end.
pub proof fn lemma_dest_index_characterization(dests: Seq<Destination>, id: u64)
    ensures
        0 <= dest_index(dests, id) <= dests.len(),
        forall|j: int| 0 <= j < dest_index(dests, id) ==> (#[trigger] dests[j].id) != id,
        dest_index(dests, id) < dests.len() ==> dests[dest_index(dests, id)].id == id,
    decreases dests.len(),
{
    if dests.len() > 0 && dests[0].id != id {
        lemma_dest_index_characterization(dests.drop_first(), id);
        assert forall|j: int| 0 <= j < dest_index(dests, id) implies (#[trigger] dests[j].id)
            != id by {
            if j >= 1 {
                assert(dests.drop_first()[j - 1] == dests[j]);
            }
        }
        if dest_index(dests, id) < dests.len() {
            assert(dests.drop_first()[dest_index(dests, id) - 1] == dests[dest_index(dests, id)]);
        }
    }
}

/// True when a destination with the given reference number is registered.
pub open spec fn dest_registered(d: Document, id: u64) -> bool {
    dest_index(d.dests@, id) < d.dests@.len()
}

impl Document {
    /// Decide whether a destination with the given reference number is
    /// registered, and at which position.
    pub(crate) fn find_dest(&self, id: u64) -> (r: Option<usize>)
        ensures
            dest_registered(*self, id) ==> r == Some(dest_index(self.dests@, id) as usize),
            !dest_registered(*self, id) ==> r is None,
    {
        let n = self.dests.len();
        let mut i: usize = 0;
        proof {
            lemma_dest_index_characterization(self.dests@, id);
        }
        while i < n
            invariant
                i <= n,
                n == self.dests@.len(),
                forall|j: int| 0 <= j < i ==> (#[trigger] self.dests@[j].id) != id,
            decreases n - i,
        {
            if self.dests[i].id == id {
                proof {
                    lemma_dest_index_characterization(self.dests@, id);
                    let k = dest_index(self.dests@, id);
                    if k < i {
                        assert(false);
                    }
                    if i < k {
                        assert(false);
                    }
                }
                return Some(i);
            }
            i = i + 1;
        }
        proof {
            lemma_dest_index_characterization(self.dests@, id);
            if dest_index(self.dests@, id) < n {
                assert(false);
            }
        }
        None
    }

    /// The handle of the encoder with the given name. Fails when the name
    /// is not known to the registry. A query: nothing is logged.
    pub fn find_encoder(&self, encoding_name: &str) -> (r: Result<Encoder, ErrorKind>)
        ensures
            encoding_name_known(*self, encoding_name.spec_bytes()) ==> (r matches Ok(e)
                && e.name@ == encoding_name.spec_bytes()),
            !encoding_name_known(*self, encoding_name.spec_bytes()) ==> r == Err::<
                Encoder,
                ErrorKind,
            >(ErrorKind::UnknownEncoding),
    {
        let mut name: Vec<u8> = Vec::new();
        push_bytes(&mut name, encoding_name.as_bytes());
        proof {
            assert(name@ =~= encoding_name.spec_bytes());
        }
        if !self.encoding_name_is_known(name.as_slice()) {
            return Err(ErrorKind::UnknownEncoding);
        }
        Ok(Encoder { name })
    }

    /// The handle of the document's current encoder.
    pub fn current_encoder(&self) -> (r: Result<Encoder, ErrorKind>)
        ensures
            r matches Ok(e) && e.name@ == self.encoder@,
    {
        let mut name: Vec<u8> = Vec::new();
        push_bytes(&mut name, self.encoder.as_slice());
        proof {
            assert(name@ =~= self.encoder@);
        }
        Ok(Encoder { name })
    }

    /// Make the named encoder current. Fails when the name is not known
    /// to the registry.
    pub fn set_current_encoder(&mut self, encoding_name: &str) -> (r: Result<(), ErrorKind>)
        ensures
            encoding_name_known(*old(self), encoding_name.spec_bytes()) ==> r is Ok && *final(self)
                == (Document { encoder: final(self).encoder, ..*old(self) }) && final(self).encoder@ == encoding_name.spec_bytes(),
            !encoding_name_known(*old(self), encoding_name.spec_bytes()) ==> r == Err::<
                (),
                ErrorKind,
            >(ErrorKind::UnknownEncoding) && doc_logged(
                *old(self),
                *final(self),
                ErrorKind::UnknownEncoding,
            ),
    {
        let mut name: Vec<u8> = Vec::new();
        push_bytes(&mut name, encoding_name.as_bytes());
        proof {
            assert(name@ =~= encoding_name.spec_bytes());
        }
        if !self.encoding_name_is_known(name.as_slice()) {
            self.errors.push(ErrorKind::UnknownEncoding);
            return Err(ErrorKind::UnknownEncoding);
        }
        self.encoder = name;
        Ok(())
    }

    /// Set one file attribute of the information dictionary, replacing
    /// its previous value if it had one.
    pub fn set_file_attr(&mut self, attr: Metadata, value: &str) -> (r: Result<(), ErrorKind>)
        ensures
            r is Ok,
            *final(self) == (Document { metadata: final(self).metadata, ..*old(self) }),
            ({
                let ix = meta_index(old(self).metadata@, attr);
                &&& (ix < old(self).metadata@.len() ==> final(self).metadata@ == old(self).metadata@.update(ix, final(self).metadata@[ix]) && final(self).metadata@[ix].key
                    == attr && final(self).metadata@[ix].value@ == value.spec_bytes())
                &&& (ix == old(self).metadata@.len() ==> final(self).metadata@ == old(self).metadata@.push(final(self).metadata@.last()) && final(self).metadata@.last().key
                    == attr && final(self).metadata@.last().value@ == value.spec_bytes())
            }),
    {
        let mut value_copy: Vec<u8> = Vec::new();
        push_bytes(&mut value_copy, value.as_bytes());
        proof {
            assert(value_copy@ =~= value.spec_bytes());
            lemma_meta_index_characterization(self.metadata@, attr);
        }
        let n = self.metadata.len();
        let mut i: usize = 0;
        while i < n
            invariant
                i <= n,
                n == self.metadata@.len(),
                *self == *old(self),
                value_copy@ == value.spec_bytes(),
                forall|j: int| 0 <= j < i ==> (#[trigger] self.metadata@[j].key) != attr,
            decreases n - i,
        {
            if self.metadata[i].key == attr {
                proof {
                    lemma_meta_index_characterization(self.metadata@, attr);
                    let k = meta_index(self.metadata@, attr);
                    if k < i {
                        assert(false);
                    }
                    if i < k {
                        assert(false);
                    }
                }
                self.metadata.set(i, MetaEntry { key: attr, value: value_copy });
                return Ok(());
            }
            i = i + 1;
        }
        proof {
            lemma_meta_index_characterization(self.metadata@, attr);
            if meta_index(self.metadata@, attr) < n {
                assert(false);
            }
        }
        self.metadata.push(MetaEntry { key: attr, value: value_copy });
        Ok(())
    }

    /// Add a page-labeling range starting at page `page_num`, counting
    /// from `first_page` in the given style, with an optional prefix.
    /// A starting number of zero is rejected.
    pub fn add_page_label(
        &mut self,
        page_num: usize,
        style: PageNumStyle,
        first_page: usize,
        prefix: Option<&str>,
    ) -> (r: Result<(), ErrorKind>)
        ensures
            first_page >= 1 ==> r is Ok && *final(self) == (Document {
                page_labels: final(self).page_labels,
                ..*old(self)
            }) && final(self).page_labels@ == old(self).page_labels@.push(
                final(self).page_labels@.last(),
            ) && ({
                let l = final(self).page_labels@.last();
                &&& l.page_num == page_num
                &&& l.style == style
                &&& l.first_page == first_page
                &&& l.prefix@ == (match prefix {
                    Some(p) => p.spec_bytes(),
                    None => Seq::<u8>::empty(),
                })
            }),
            first_page == 0 ==> r == Err::<(), ErrorKind>(ErrorKind::InvalidArgument)
                && doc_logged(*old(self), *final(self), ErrorKind::InvalidArgument),
    {
        if first_page == 0 {
            self.errors.push(ErrorKind::InvalidArgument);
            return Err(ErrorKind::InvalidArgument);
        }
        let mut prefix_copy: Vec<u8> = Vec::new();
        match prefix {
            Some(p) => push_bytes(&mut prefix_copy, p.as_bytes()),
            None => (),
        }
        proof {
            assert(prefix_copy@ =~= (match prefix {
                Some(p) => p.spec_bytes(),
                None => Seq::<u8>::empty(),
            }));
        }
        self.page_labels.push(PageLabel { page_num, style, first_page, prefix: prefix_copy });
        Ok(())
    }

    /// Create an outline entry with the given title. With no parent the
    /// entry becomes a top-level child of the document's outline root;
    /// with one it becomes that entry's child. Fails when the parent
    /// handle does not name an entry of this document.
    pub fn create_outline(&mut self, title: &str, parent: Option<&Outline>) -> (r: Result<
        Outline,
        ErrorKind,
    >)
        requires
            doc_wf(*old(self)),
        ensures
            doc_wf(*final(self)),
            ({
                let parent_ok = match parent {
                    Some(h) => h.index < old(self).outlines@.len() && old(self).outlines@[h.index as int].id == h.id,
                    None => true,
                };
                &&& (!parent_ok ==> r == Err::<Outline, ErrorKind>(ErrorKind::DanglingReference)
                    && doc_logged(*old(self), *final(self), ErrorKind::DanglingReference))
                &&& (parent_ok && old(self).next_id < u64::MAX ==> (r matches Ok(h) && h.index
                    == old(self).outlines@.len() && h.id == old(self).next_id && final(self).outlines@ == old(self).outlines@.push(final(self).outlines@.last()) && ({
                    let node = final(self).outlines@.last();
                    &&& node.id == old(self).next_id
                    &&& node.title@ == title.spec_bytes()
                    &&& node.parent == (match parent {
                        Some(ph) => Some(ph.index),
                        None => None::<usize>,
                    })
                    &&& node.dest_id is None
                }) && *final(self) == (Document {
                    outlines: final(self).outlines,
                    next_id: (old(self).next_id + 1) as u64,
                    ..*old(self)
                })))
            }),
    {
        let mut title_copy: Vec<u8> = Vec::new();
        push_bytes(&mut title_copy, title.as_bytes());
        proof {
            assert(title_copy@ =~= title.spec_bytes());
        }
        self.create_outline_entry(title_copy, parent)
    }

    /// Create an outline entry from a title given as raw bytes; otherwise
    /// exactly [`Document::create_outline`].
    pub fn create_outline_bytes(&mut self, title: &[u8], parent: Option<&Outline>) -> (r: Result<
        Outline,
        ErrorKind,
    >)
        requires
            doc_wf(*old(self)),
        ensures
            doc_wf(*final(self)),
            ({
                let parent_ok = match parent {
                    Some(h) => h.index < old(self).outlines@.len() && old(self).outlines@[h.index as int].id == h.id,
                    None => true,
                };
                &&& (!parent_ok ==> r == Err::<Outline, ErrorKind>(ErrorKind::DanglingReference)
                    && doc_logged(*old(self), *final(self), ErrorKind::DanglingReference))
                &&& (parent_ok && old(self).next_id < u64::MAX ==> (r matches Ok(h) && h.index
                    == old(self).outlines@.len() && h.id == old(self).next_id && final(self).outlines@ == old(self).outlines@.push(final(self).outlines@.last()) && ({
                    let node = final(self).outlines@.last();
                    &&& node.id == old(self).next_id
                    &&& node.title@ == title@
                    &&& node.parent == (match parent {
                        Some(ph) => Some(ph.index),
                        None => None::<usize>,
                    })
                    &&& node.dest_id is None
                }) && *final(self) == (Document {
                    outlines: final(self).outlines,
                    next_id: (old(self).next_id + 1) as u64,
                    ..*old(self)
                })))
            }),
    {
        let mut title_copy: Vec<u8> = Vec::new();
        push_bytes(&mut title_copy, title);
        proof {
            assert(title_copy@ =~= title@);
        }
        self.create_outline_entry(title_copy, parent)
    }

    /// The shared body of the outline constructors.
    fn create_outline_entry(&mut self, title: Vec<u8>, parent: Option<&Outline>) -> (r: Result<
        Outline,
        ErrorKind,
    >)
        requires
            doc_wf(*old(self)),
        ensures
            doc_wf(*final(self)),
            ({
                let parent_ok = match parent {
                    Some(h) => h.index < old(self).outlines@.len() && old(self).outlines@[h.index as int].id == h.id,
                    None => true,
                };
                &&& (!parent_ok ==> r == Err::<Outline, ErrorKind>(ErrorKind::DanglingReference)
                    && doc_logged(*old(self), *final(self), ErrorKind::DanglingReference))
                &&& (parent_ok && old(self).next_id < u64::MAX ==> (r matches Ok(h) && h.index
                    == old(self).outlines@.len() && h.id == old(self).next_id && final(self).outlines@ == old(self).outlines@.push(final(self).outlines@.last()) && ({
                    let node = final(self).outlines@.last();
                    &&& node.id == old(self).next_id
                    &&& node.title@ == title@
                    &&& node.parent == (match parent {
                        Some(ph) => Some(ph.index),
                        None => None::<usize>,
                    })
                    &&& node.dest_id is None
                }) && *final(self) == (Document {
                    outlines: final(self).outlines,
                    next_id: (old(self).next_id + 1) as u64,
                    ..*old(self)
                })))
            }),
    {
        let parent_index: Option<usize> = match parent {
            Some(h) => {
                if h.index >= self.outlines.len() {
                    self.errors.push(ErrorKind::DanglingReference);
                    return Err(ErrorKind::DanglingReference);
                }
                if self.outlines[h.index].id != h.id {
                    self.errors.push(ErrorKind::DanglingReference);
                    return Err(ErrorKind::DanglingReference);
                }
                Some(h.index)
            },
            None => None,
        };
        let id = match self.alloc_id() {
            Ok(id) => id,
            Err(k) => {
                return Err(k);
            },
        };
        let index = self.outlines.len();
        self.outlines.push(OutlineNode { id, title, parent: parent_index, dest_id: None });
        Ok(Outline { index, id })
    }

    /// Attach a destination to an outline entry: activating the entry
    /// then jumps there. Fails when either handle does not name an object
    /// of this document.
    pub fn set_outline_destination(&mut self, outline: &Outline, dst: &Destination) -> (r: Result<
        (),
        ErrorKind,
    >)
        requires
            doc_wf(*old(self)),
        ensures
            doc_wf(*final(self)),
            ({
                let outline_ok = outline.index < old(self).outlines@.len() && old(self).outlines@[outline.index as int].id == outline.id;
                &&& (!(outline_ok && dest_registered(*old(self), dst.id)) ==> r == Err::<
                    (),
                    ErrorKind,
                >(ErrorKind::DanglingReference) && doc_logged(
                    *old(self),
                    *final(self),
                    ErrorKind::DanglingReference,
                ))
                &&& (outline_ok && dest_registered(*old(self), dst.id) ==> r is Ok && *final(self)
                    == (Document { outlines: final(self).outlines, ..*old(self) }) && final(self).outlines@ == old(self).outlines@.update(
                    outline.index as int,
                    final(self).outlines@[outline.index as int],
                ) && ({
                    let node = final(self).outlines@[outline.index as int];
                    let pre = old(self).outlines@[outline.index as int];
                    node.id == pre.id && node.title == pre.title && node.parent == pre.parent
                        && node.dest_id == Some(dst.id)
                }))
            }),
    {
        if outline.index >= self.outlines.len() {
            self.errors.push(ErrorKind::DanglingReference);
            return Err(ErrorKind::DanglingReference);
        }
        if self.outlines[outline.index].id != outline.id {
            self.errors.push(ErrorKind::DanglingReference);
            return Err(ErrorKind::DanglingReference);
        }
        if self.find_dest(dst.id).is_none() {
            self.errors.push(ErrorKind::DanglingReference);
            return Err(ErrorKind::DanglingReference);
        }
        let node = self.outlines.remove(outline.index);
        let updated = OutlineNode {
            id: node.id,
            title: node.title,
            parent: node.parent,
            dest_id: Some(dst.id),
        };
        self.outlines.insert(outline.index, updated);
        proof {
            assert(final(self).outlines@ =~= old(self).outlines@.update(
                outline.index as int,
                final(self).outlines@[outline.index as int],
            ));
        }
        Ok(())
    }

    /// Create a destination for the page at `page`: a target at `pos`
    /// with the given zoom in thousandths (zero keeps the reader's
    /// current zoom). Fails when `page` is not a page of this document.
    pub fn create_destination(&mut self, page: usize, pos: Point, zoom: u32) -> (r: Result<
        Destination,
        ErrorKind,
    >)
        requires
            doc_wf(*old(self)),
        ensures
            doc_wf(*final(self)),
            page >= old(self).pages@.len() ==> r == Err::<Destination, ErrorKind>(
                ErrorKind::InvalidArgument,
            ) && doc_logged(*old(self), *final(self), ErrorKind::InvalidArgument),
            page < old(self).pages@.len() && old(self).next_id < u64::MAX ==> (r matches Ok(d)
                && d == (Destination {
                id: old(self).next_id,
                page_id: old(self).pages@[page as int].id,
                pos,
                zoom,
            }) && final(self).dests@ == old(self).dests@.push(d) && *final(self) == (Document {
                dests: final(self).dests,
                next_id: (old(self).next_id + 1) as u64,
                ..*old(self)
            })),
    {
        if page >= self.pages.len() {
            self.errors.push(ErrorKind::InvalidArgument);
            return Err(ErrorKind::InvalidArgument);
        }
        let page_id = self.pages[page].id;
        let id = match self.alloc_id() {
            Ok(id) => id,
            Err(k) => {
                return Err(k);
            },
        };
        let d = Destination { id, page_id, pos, zoom };
        self.dests.push(d);
        Ok(d)
    }

    /// Set the destination shown when the document is opened. Fails when
    /// the handle does not name a destination of this document.
    pub fn set_open_action(&mut self, dst: &Destination) -> (r: Result<(), ErrorKind>)
        ensures
            dest_registered(*old(self), dst.id) ==> r is Ok && *final(self) == (Document {
                open_action: Some(dst.id),
                ..*old(self)
            }),
            !dest_registered(*old(self), dst.id) ==> r == Err::<(), ErrorKind>(
                ErrorKind::DanglingReference,
            ) && doc_logged(*old(self), *final(self), ErrorKind::DanglingReference),
    {
        if self.find_dest(dst.id).is_none() {
            self.errors.push(ErrorKind::DanglingReference);
            return Err(ErrorKind::DanglingReference);
        }
        self.open_action = Some(dst.id);
        Ok(())
    }
}

/// True when the sfnt header of a font program is well formed: a known
/// magic number, at least one table, and a table directory that fits in
/// the data.
pub open spec fn sfnt_ok(s: Seq<u8>) -> bool {
    &&& s.len() >= 12
    &&& (be32_at(s, 0) == 0x00010000 || be32_at(s, 0) == 0x74727565 || be32_at(s, 0) == 0x4f54544f)
    &&& be16_at(s, 4) > 0
    &&& 12 + 16 * be16_at(s, 4) <= s.len()
}

/// True when the collection header of a font-collection file is well
/// formed and holds a well-formed font at the given position.
pub open spec fn ttc_ok(s: Seq<u8>, index: int) -> bool {
    &&& s.len() >= 12
    &&& be32_at(s, 0) == 0x74746366
    &&& 0 <= index < be32_at(s, 8)
    &&& 12 + 4 * index + 4 <= s.len()
    &&& be32_at(s, 12 + 4 * index) + 12 <= s.len()
    &&& sfnt_ok(s.skip(be32_at(s, 12 + 4 * index) as int))
}

/// The name an external font program is registered under: the letter `X`
/// followed by the position in the loaded-font list.
pub open spec fn loaded_font_name(index: nat) -> Seq<u8> {
    seq![88u8] + dec_u64(index)
}

impl Document {
    /// Decide whether the sfnt header of a font program is well formed.
    fn check_sfnt(data: &[u8]) -> (r: bool)
        ensures
            r == sfnt_ok(data@),
    {
        if data.len() < 12 {
            return false;
        }
        let magic = read_be32(data, 0);
        if !(magic == 0x00010000 || magic == 0x74727565 || magic == 0x4f54544f) {
            return false;
        }
        let tables = read_be16(data, 4);
        if tables == 0 {
            return false;
        }
        12 + 16 * (tables as usize) <= data.len()
    }

    /// Register the external font program held in `data` and return the
    /// name it is registered under; `get` it later through
    /// [`Document::font`]. With `embedding` the program is embedded in
    /// the output. Fails when the font data is malformed.
    pub fn load_ttf_font(&mut self, data: &[u8], embedding: bool) -> (r: Result<
        Vec<u8>,
        ErrorKind,
    >)
        ensures
            !sfnt_ok(data@) ==> r == Err::<Vec<u8>, ErrorKind>(ErrorKind::FontLoadError)
                && doc_logged(*old(self), *final(self), ErrorKind::FontLoadError),
            sfnt_ok(data@) ==> (r matches Ok(name) && name@ == loaded_font_name(
                old(self).loaded_fonts@.len(),
            ) && final(self).loaded_fonts@ == old(self).loaded_fonts@.push(
                final(self).loaded_fonts@.last(),
            ) && final(self).loaded_fonts@.last().name@ == name@ && final(self).loaded_fonts@.last().embedding == embedding && *final(self) == (Document {
                loaded_fonts: final(self).loaded_fonts,
                ..*old(self)
            })),
    {
        if !Document::check_sfnt(data) {
            self.errors.push(ErrorKind::FontLoadError);
            return Err(ErrorKind::FontLoadError);
        }
        let mut name: Vec<u8> = Vec::new();
        name.push(88);
        push_u64_dec(&mut name, self.loaded_fonts.len() as u64);
        proof {
            assert(name@ =~= loaded_font_name(old(self).loaded_fonts@.len()));
        }
        let mut name_copy: Vec<u8> = Vec::new();
        push_bytes(&mut name_copy, name.as_slice());
        self.loaded_fonts.push(LoadedFont { name: name_copy, embedding });
        proof {
            assert(final(self).loaded_fonts@.last().name@ =~= name@);
        }
        Ok(name)
    }

    /// Register the font at position `index` of the font collection held
    /// in `data`; otherwise exactly [`Document::load_ttf_font`]. Fails
    /// when the collection header is malformed or the position is out of
    /// range.
    #[verifier::rlimit(60)]
    pub fn load_ttf_font_from_ttc(&mut self, data: &[u8], index: usize, embedding: bool) -> (r:
        Result<Vec<u8>, ErrorKind>)
        ensures
            !ttc_ok(data@, index as int) ==> r == Err::<Vec<u8>, ErrorKind>(
                ErrorKind::FontLoadError,
            ) && doc_logged(*old(self), *final(self), ErrorKind::FontLoadError),
            ttc_ok(data@, index as int) ==> (r matches Ok(name) && name@ == loaded_font_name(
                old(self).loaded_fonts@.len(),
            ) && final(self).loaded_fonts@ == old(self).loaded_fonts@.push(
                final(self).loaded_fonts@.last(),
            ) && final(self).loaded_fonts@.last().name@ == name@ && final(self).loaded_fonts@.last().embedding == embedding && *final(self) == (Document {
                loaded_fonts: final(self).loaded_fonts,
                ..*old(self)
            })),
    {
        if data.len() < 12 {
            self.errors.push(ErrorKind::FontLoadError);
            return Err(ErrorKind::FontLoadError);
        }
        let magic = read_be32(data, 0);
        let count = read_be32(data, 8);
        if magic != 0x74746366 || (index as u64) >= (count as u64) {
            self.errors.push(ErrorKind::FontLoadError);
            return Err(ErrorKind::FontLoadError);
        }
        if index > (usize::MAX - 16) / 4 || 12 + 4 * index + 4 > data.len() {
            self.errors.push(ErrorKind::FontLoadError);
            return Err(ErrorKind::FontLoadError);
        }
        let offset = read_be32(data, 12 + 4 * index);
        if (offset as u64) + 12 > data.len() as u64 {
            self.errors.push(ErrorKind::FontLoadError);
            return Err(ErrorKind::FontLoadError);
        }
        let (_, sub) = data.split_at(offset as usize);
        if !Document::check_sfnt(sub) {
            self.errors.push(ErrorKind::FontLoadError);
            return Err(ErrorKind::FontLoadError);
        }
        let mut name: Vec<u8> = Vec::new();
        name.push(88);
        push_u64_dec(&mut name, self.loaded_fonts.len() as u64);
        proof {
            assert(name@ =~= loaded_font_name(old(self).loaded_fonts@.len()));
        }
        let mut name_copy: Vec<u8> = Vec::new();
        push_bytes(&mut name_copy, name.as_slice());
        self.loaded_fonts.push(LoadedFont { name: name_copy, embedding });
        proof {
            assert(final(self).loaded_fonts@.last().name@ =~= name@);
        }
        Ok(name)
    }

    /// Register the PNG image held in `data` and return its handle.
    /// Fails when the image header is malformed or a dimension is zero.
    pub fn load_png_image(&mut self, data: &[u8]) -> (r: Result<Image, ErrorKind>)
        requires
            doc_wf(*old(self)),
        ensures
            doc_wf(*final(self)),
            !(png_header_ok(data@) && png_width(data@) > 0 && png_height(data@) > 0) ==> r
                == Err::<Image, ErrorKind>(ErrorKind::InvalidArgument) && doc_logged(
                *old(self),
                *final(self),
                ErrorKind::InvalidArgument,
            ),
            png_header_ok(data@) && png_width(data@) > 0 && png_height(data@) > 0 && old(self).next_id < u64::MAX ==> (r matches Ok(img) && img == (Image {
                id: old(self).next_id,
                index: old(self).images@.len() as usize,
                width_px: png_width(data@) as u32,
                height_px: png_height(data@) as u32,
            }) && final(self).images@ == old(self).images@.push(final(self).images@.last()) && ({
                let rec = final(self).images@.last();
                rec.id == img.id && rec.width_px == img.width_px && rec.height_px == img.height_px
                    && rec.data@ == data@
            }) && *final(self) == (Document {
                images: final(self).images,
                next_id: (old(self).next_id + 1) as u64,
                ..*old(self)
            })),
    {
        let dims = match png_dimensions(data) {
            Ok(d) => d,
            Err(k) => {
                self.errors.push(k);
                return Err(k);
            },
        };
        let id = match self.alloc_id() {
            Ok(id) => id,
            Err(k) => {
                return Err(k);
            },
        };
        let mut data_copy: Vec<u8> = Vec::new();
        push_bytes(&mut data_copy, data);
        proof {
            assert(data_copy@ =~= data@);
        }
        let index = self.images.len();
        self.images.push(
            ImageRecord { id, width_px: dims.0, height_px: dims.1, data: data_copy },
        );
        Ok(Image { id, index, width_px: dims.0, height_px: dims.1 })
    }

    /// Decorate the page at `page` with a text note showing `text` inside
    /// `rect`; the rectangle's corners may be given in any order. Fails
    /// when `page` is not a page of this document.
    pub fn text_annot(&mut self, page: usize, rect: Rectangle, text: &[u8]) -> (r: Result<
        (),
        ErrorKind,
    >)
        requires
            doc_wf(*old(self)),
        ensures
            doc_wf(*final(self)),
            page >= old(self).pages@.len() ==> r == Err::<(), ErrorKind>(ErrorKind::InvalidArgument)
                && doc_logged(*old(self), *final(self), ErrorKind::InvalidArgument),
            page < old(self).pages@.len() && old(self).next_id < u64::MAX ==> (r is Ok && final(self).annots@ == old(self).annots@.push(final(self).annots@.last()) && ({
                let a = final(self).annots@.last();
                &&& a.id == old(self).next_id
                &&& a.page_id == old(self).pages@[page as int].id
                &&& a.rect == normalized_rectangle(rect)
                &&& a.kind matches AnnotKind::Note { contents } && contents@ == text@
            }) && *final(self) == (Document {
                annots: final(self).annots,
                next_id: (old(self).next_id + 1) as u64,
                ..*old(self)
            })),
    {
        if page >= self.pages.len() {
            self.errors.push(ErrorKind::InvalidArgument);
            return Err(ErrorKind::InvalidArgument);
        }
        let page_id = self.pages[page].id;
        let id = match self.alloc_id() {
            Ok(id) => id,
            Err(k) => {
                return Err(k);
            },
        };
        let mut contents: Vec<u8> = Vec::new();
        push_bytes(&mut contents, text);
        proof {
            assert(contents@ =~= text@);
        }
        self.annots.push(
            Annotation {
                id,
                page_id,
                rect: rect.normalize(),
                kind: AnnotKind::Note { contents },
            },
        );
        Ok(())
    }

    /// Decorate the page at `page` with a link to the destination `dst`
    /// inside `rect`; the rectangle's corners may be given in any order
    /// and are stored normalized. The link starts out with no highlight
    /// and a solid border of width zero. Whether the destination resolves
    /// is checked when the document is serialized. Fails when `page` is
    /// not a page of this document.
    pub fn link_annot(&mut self, page: usize, rect: Rectangle, dst: &Destination) -> (r: Result<
        Link,
        ErrorKind,
    >)
        requires
            doc_wf(*old(self)),
        ensures
            doc_wf(*final(self)),
            page >= old(self).pages@.len() ==> r == Err::<Link, ErrorKind>(
                ErrorKind::InvalidArgument,
            ) && doc_logged(*old(self), *final(self), ErrorKind::InvalidArgument),
            page < old(self).pages@.len() && old(self).next_id < u64::MAX ==> (r matches Ok(l)
                && l == (Link { annot_index: old(self).annots@.len() as usize, id: old(self).next_id })
                && final(self).annots@ == old(self).annots@.push(final(self).annots@.last()) && ({
                let a = final(self).annots@.last();
                &&& a.id == old(self).next_id
                &&& a.page_id == old(self).pages@[page as int].id
                &&& a.rect == normalized_rectangle(rect)
                &&& a.rect.is_normalized()
                &&& a.kind == (AnnotKind::Link {
                    dest_id: dst.id,
                    highlight: HighlightMode::NoHighlight,
                    border: BorderStyle { width: 0, dash_on: 0, dash_off: 0 },
                })
            }) && *final(self) == (Document {
                annots: final(self).annots,
                next_id: (old(self).next_id + 1) as u64,
                ..*old(self)
            })),
    {
        if page >= self.pages.len() {
            self.errors.push(ErrorKind::InvalidArgument);
            return Err(ErrorKind::InvalidArgument);
        }
        let page_id = self.pages[page].id;
        let id = match self.alloc_id() {
            Ok(id) => id,
            Err(k) => {
                return Err(k);
            },
        };
        let index = self.annots.len();
        self.annots.push(
            Annotation {
                id,
                page_id,
                rect: rect.normalize(),
                kind: AnnotKind::Link {
                    dest_id: dst.id,
                    highlight: HighlightMode::NoHighlight,
                    border: BorderStyle { width: 0, dash_on: 0, dash_off: 0 },
                },
            },
        );
        Ok(Link { annot_index: index, id })
    }

    /// Decorate the page at `page` with a link to the external resource
    /// `uri` inside `rect`. Fails when `page` is not a page of this
    /// document.
    pub fn uri_link(&mut self, page: usize, rect: Rect, uri: &str) -> (r: Result<(), ErrorKind>)
        requires
            doc_wf(*old(self)),
        ensures
            doc_wf(*final(self)),
            page >= old(self).pages@.len() ==> r == Err::<(), ErrorKind>(ErrorKind::InvalidArgument)
                && doc_logged(*old(self), *final(self), ErrorKind::InvalidArgument),
            page < old(self).pages@.len() && old(self).next_id < u64::MAX ==> (r is Ok && final(self).annots@ == old(self).annots@.push(final(self).annots@.last()) && ({
                let a = final(self).annots@.last();
                &&& a.id == old(self).next_id
                &&& a.page_id == old(self).pages@[page as int].id
                &&& a.rect == normalized_rectangle(
                    Rectangle {
                        lower_left: Point { x: rect.left, y: rect.bottom },
                        upper_right: Point { x: rect.right, y: rect.top },
                    },
                )
                &&& a.kind matches AnnotKind::Uri { uri: u } && u@ == uri.spec_bytes()
            }) && *final(self) == (Document {
                annots: final(self).annots,
                next_id: (old(self).next_id + 1) as u64,
                ..*old(self)
            })),
    {
        if page >= self.pages.len() {
            self.errors.push(ErrorKind::InvalidArgument);
            return Err(ErrorKind::InvalidArgument);
        }
        let page_id = self.pages[page].id;
        let id = match self.alloc_id() {
            Ok(id) => id,
            Err(k) => {
                return Err(k);
            },
        };
        let mut uri_copy: Vec<u8> = Vec::new();
        push_bytes(&mut uri_copy, uri.as_bytes());
        proof {
            assert(uri_copy@ =~= uri.spec_bytes());
        }
        let corners = Rectangle {
            lower_left: Point { x: rect.left, y: rect.bottom },
            upper_right: Point { x: rect.right, y: rect.top },
        };
        self.annots.push(
            Annotation { id, page_id, rect: corners.normalize(), kind: AnnotKind::Uri { uri: uri_copy } },
        );
        Ok(())
    }

    /// The length of the byte stream produced by the last save.
    pub fn get_stream_size(&self) -> (r: usize)
        ensures
            r == self.stream@.len(),
    {
        self.stream.len()
    }

    /// Rewind the read position of the saved stream to its start.
    pub fn reset_stream(&mut self) -> (r: Result<(), ErrorKind>)
        ensures
            r is Ok,
            *final(self) == (Document { read_pos: 0usize, ..*old(self) }),
    {
        self.read_pos = 0;
        Ok(())
    }

    /// Read up to `n` bytes of the saved stream from the current read
    /// position, advancing it past what was read.
    pub fn read_from_stream(&mut self, n: usize) -> (r: Vec<u8>)
        requires
            doc_wf(*old(self)),
        ensures
            doc_wf(*final(self)),
            ({
                let take = if n <= old(self).stream@.len() - old(self).read_pos {
                    n as int
                } else {
                    old(self).stream@.len() - old(self).read_pos
                };
                &&& r@ == old(self).stream@.subrange(
                    old(self).read_pos as int,
                    old(self).read_pos + take,
                )
                &&& *final(self) == (Document {
                    read_pos: (old(self).read_pos + take) as usize,
                    ..*old(self)
                })
            }),
    {
        let len = self.stream.len();
        let avail = len - self.read_pos;
        let take = if n <= avail {
            n
        } else {
            avail
        };
        let mut out: Vec<u8> = Vec::new();
        let mut k: usize = 0;
        while k < take
            invariant
                k <= take,
                len == self.stream@.len(),
                self.read_pos + take <= len,
                out@ =~= self.stream@.subrange(self.read_pos as int, self.read_pos + k),
                *self == *old(self),
            decreases take - k,
        {
            out.push(self.stream[self.read_pos + k]);
            proof {
                assert(self.stream@.subrange(self.read_pos as int, self.read_pos + k + 1)
                    =~= self.stream@.subrange(self.read_pos as int, self.read_pos + k).push(
                    self.stream@[self.read_pos + k],
                ));
            }
            k = k + 1;
        }
        self.read_pos = self.read_pos + take;
        out
    }
}

impl Link {
    /// Set the visual feedback shown when this link is activated. Fails
    /// when the handle does not name a link annotation of the document.
    pub fn set_highlight_mode(&self, doc: &mut Document, mode: HighlightMode) -> (r: Result<
        (),
        ErrorKind,
    >)
        ensures
            ({
                let link_ok = self.annot_index < old(doc).annots@.len() && old(doc).annots@[self.annot_index as int].id == self.id && old(doc).annots@[self.annot_index as int].kind is Link;
                &&& (!link_ok ==> r == Err::<(), ErrorKind>(ErrorKind::DanglingReference)
                    && doc_logged(*old(doc), *final(doc), ErrorKind::DanglingReference))
                &&& (link_ok ==> r is Ok && *final(doc) == (Document {
                    annots: final(doc).annots,
                    ..*old(doc)
                }) && final(doc).annots@ == old(doc).annots@.update(
                    self.annot_index as int,
                    final(doc).annots@[self.annot_index as int],
                ) && ({
                    let a = final(doc).annots@[self.annot_index as int];
                    let pre = old(doc).annots@[self.annot_index as int];
                    &&& a.id == pre.id
                    &&& a.page_id == pre.page_id
                    &&& a.rect == pre.rect
                    &&& (pre.kind matches AnnotKind::Link { dest_id, border, .. } ==> a.kind
                        == (AnnotKind::Link { dest_id, highlight: mode, border }))
                }))
            }),
    {
        if self.annot_index >= doc.annots.len() {
            doc.errors.push(ErrorKind::DanglingReference);
            return Err(ErrorKind::DanglingReference);
        }
        if doc.annots[self.annot_index].id != self.id {
            doc.errors.push(ErrorKind::DanglingReference);
            return Err(ErrorKind::DanglingReference);
        }
        let is_link = matches!(&doc.annots[self.annot_index].kind, AnnotKind::Link { .. });
        if !is_link {
            doc.errors.push(ErrorKind::DanglingReference);
            return Err(ErrorKind::DanglingReference);
        }
        let a = doc.annots.remove(self.annot_index);
        match a.kind {
            AnnotKind::Link { dest_id, highlight: _, border } => {
                let updated = Annotation {
                    id: a.id,
                    page_id: a.page_id,
                    rect: a.rect,
                    kind: AnnotKind::Link { dest_id, highlight: mode, border },
                };
                doc.annots.insert(self.annot_index, updated);
                proof {
                    assert(final(doc).annots@ =~= old(doc).annots@.update(
                        self.annot_index as int,
                        final(doc).annots@[self.annot_index as int],
                    ));
                }
                Ok(())
            },
            _ => {
                proof {
                    assert(false);
                }
                Err(ErrorKind::DanglingReference)
            },
        }
    }

    /// Set the border drawn around this link. Fails when the handle does
    /// not name a link annotation of the document.
    pub fn set_border_style(&self, doc: &mut Document, style: BorderStyle) -> (r: Result<
        (),
        ErrorKind,
    >)
        ensures
            ({
                let link_ok = self.annot_index < old(doc).annots@.len() && old(doc).annots@[self.annot_index as int].id == self.id && old(doc).annots@[self.annot_index as int].kind is Link;
                &&& (!link_ok ==> r == Err::<(), ErrorKind>(ErrorKind::DanglingReference)
                    && doc_logged(*old(doc), *final(doc), ErrorKind::DanglingReference))
                &&& (link_ok ==> r is Ok && *final(doc) == (Document {
                    annots: final(doc).annots,
                    ..*old(doc)
                }) && final(doc).annots@ == old(doc).annots@.update(
                    self.annot_index as int,
                    final(doc).annots@[self.annot_index as int],
                ) && ({
                    let a = final(doc).annots@[self.annot_index as int];
                    let pre = old(doc).annots@[self.annot_index as int];
                    &&& a.id == pre.id
                    &&& a.page_id == pre.page_id
                    &&& a.rect == pre.rect
                    &&& (pre.kind matches AnnotKind::Link { dest_id, highlight, .. } ==> a.kind
                        == (AnnotKind::Link { dest_id, highlight, border: style }))
                }))
            }),
    {
        if self.annot_index >= doc.annots.len() {
            doc.errors.push(ErrorKind::DanglingReference);
            return Err(ErrorKind::DanglingReference);
        }
        if doc.annots[self.annot_index].id != self.id {
            doc.errors.push(ErrorKind::DanglingReference);
            return Err(ErrorKind::DanglingReference);
        }
        let is_link = matches!(&doc.annots[self.annot_index].kind, AnnotKind::Link { .. });
        if !is_link {
            doc.errors.push(ErrorKind::DanglingReference);
            return Err(ErrorKind::DanglingReference);
        }
        let a = doc.annots.remove(self.annot_index);
        match a.kind {
            AnnotKind::Link { dest_id, highlight, border: _ } => {
                let updated = Annotation {
                    id: a.id,
                    page_id: a.page_id,
                    rect: a.rect,
                    kind: AnnotKind::Link { dest_id, highlight, border: style },
                };
                doc.annots.insert(self.annot_index, updated);
                proof {
                    assert(final(doc).annots@ =~= old(doc).annots@.update(
                        self.annot_index as int,
                        final(doc).annots@[self.annot_index as int],
                    ));
                }
                Ok(())
            },
            _ => {
                proof {
                    assert(false);
                }
                Err(ErrorKind::DanglingReference)
            },
        }
    }
}

/// Enabling a compression mode is idempotent: setting the same mode a
/// second time leaves the document — and therefore the byte stream any
/// later save produces from it — exactly as after the first time.
pub proof fn lemma_compression_mode_idempotent(d: Document, mode: CompressionMode)
    ensures
        (Document { compression: mode, ..(Document { compression: mode, ..d }) }) == (Document {
            compression: mode,
            ..d
        }),
{
}

impl Font {
    /// The name of the font, read from the owning document's registry.
    /// Fails when the handle does not name a font of this document.
    pub fn name(&self, doc: &Document) -> (r: Result<Vec<u8>, ErrorKind>)
        ensures
            self.index < doc.fonts@.len() && doc.fonts@[self.index as int].id == self.id ==> (
            r matches Ok(name) && name@ == doc.fonts@[self.index as int].name@),
            !(self.index < doc.fonts@.len() && doc.fonts@[self.index as int].id == self.id) ==> r
                == Err::<Vec<u8>, ErrorKind>(ErrorKind::DanglingReference),
    {
        if self.index >= doc.fonts.len() {
            return Err(ErrorKind::DanglingReference);
        }
        if doc.fonts[self.index].id != self.id {
            return Err(ErrorKind::DanglingReference);
        }
        let mut name: Vec<u8> = Vec::new();
        push_bytes(&mut name, doc.fonts[self.index].name.as_slice());
        proof {
            assert(name@ =~= doc.fonts@[self.index as int].name@);
        }
        Ok(name)
    }
}

} // verus!

