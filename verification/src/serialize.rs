//! The document assembler: resolving the object graph into the final byte
//! stream — header, objects, cross-reference table and trailer.
//!
//! The object table is walked in assigned-number order: after the four
//! reserved objects, every created object is written in ascending order
//! of its reference number, and the cross-reference table records the
//! byte offset of each object as a one-entry subsection in that same
//! order. The whole output is specified byte for byte by the functions in
//! this module; the assembler is proved to produce exactly that sequence.

use vstd::prelude::*;
use vstd::string::StringSliceAdditionalSpecFns;

use crate::annots::{AnnotKind, Annotation, Destination, HighlightMode, OutlineNode};
use crate::compress::{rle_compress, rle_encode, RLE_EOD};
use crate::content::escape_string;
use crate::document::{
    dest_index, doc_logged, doc_wf, Document, Metadata, MetaEntry, PageLabel, PageLayout, PageMode,
    PageNumStyle, FontRecord, CATALOG_ID, FIRST_FREE_ID, INFO_ID, OUTLINE_ROOT_ID, PAGES_ROOT_ID,
};
use crate::emit::{dec_i32, dec_u64, pad10, push_bytes, push_i32_dec, push_str, push_u64_dec,
    push_u64_pad10};
use crate::errors::ErrorKind;
use crate::images::ImageRecord;
use crate::page::Page;

verus! {

/// The first line of the output.
pub open spec fn header_bytes() -> Seq<u8> {
    ("%PDF-1.4\n").spec_bytes()
}

/// The opening of an object: its number, the fixed generation zero, and
/// the `obj` keyword.
pub open spec fn obj_open(id: u64) -> Seq<u8> {
    dec_u64(id as nat) + (" 0 obj\n").spec_bytes()
}

/// The closing keyword of an object.
pub open spec fn obj_close() -> Seq<u8> {
    ("endobj\n").spec_bytes()
}

/// An indirect reference to the object with the given number.
pub open spec fn ref_bytes(id: u64) -> Seq<u8> {
    dec_u64(id as nat) + (" 0 R").spec_bytes()
}

/// The name of a page-labeling style.
pub open spec fn label_style_bytes(s: PageNumStyle) -> Seq<u8> {
    match s {
        PageNumStyle::Decimal => ("D").spec_bytes(),
        PageNumStyle::UpperRoman => ("R").spec_bytes(),
        PageNumStyle::LowerRoman => ("r").spec_bytes(),
        PageNumStyle::UpperLetters => ("A").spec_bytes(),
        PageNumStyle::LowerLetters => ("a").spec_bytes(),
    }
}

/// One number-to-label entry of the catalog's page-label tree.
pub open spec fn page_label_bytes(l: PageLabel) -> Seq<u8> {
    dec_u64(l.page_num as nat) + (" << /S /").spec_bytes() + label_style_bytes(l.style) + (
    " /St ").spec_bytes() + dec_u64(l.first_page as nat) + (" /P (").spec_bytes() + escape_string(
        l.prefix@,
    ) + (") >> ").spec_bytes()
}

/// The page-label entries of a document, in order.
pub open spec fn page_labels_bytes(labels: Seq<PageLabel>) -> Seq<u8>
    decreases labels.len(),
{
    if labels.len() == 0 {
        Seq::<u8>::empty()
    } else {
        page_labels_bytes(labels.drop_last()) + page_label_bytes(labels.last())
    }
}

/// The name of a page layout.
pub open spec fn layout_bytes(l: PageLayout) -> Seq<u8> {
    match l {
        PageLayout::Single => ("SinglePage").spec_bytes(),
        PageLayout::OneColumn => ("OneColumn").spec_bytes(),
        PageLayout::TwoColumnLeft => ("TwoColumnLeft").spec_bytes(),
        PageLayout::TwoColumnRight => ("TwoColumnRight").spec_bytes(),
    }
}

/// The name of a page mode.
pub open spec fn page_mode_bytes(m: PageMode) -> Seq<u8> {
    match m {
        PageMode::UseNone => ("UseNone").spec_bytes(),
        PageMode::Outline => ("UseOutlines").spec_bytes(),
        PageMode::Thumbs => ("UseThumbs").spec_bytes(),
        PageMode::FullScreen => ("FullScreen").spec_bytes(),
    }
}

/// The catalog object: the root of the document, naming the page tree,
/// the outline root, and the chosen page mode; the page layout, the open
/// action and the page labels when they were set.
pub open spec fn catalog_obj(d: Document) -> Seq<u8> {
    obj_open(CATALOG_ID) + ("<< /Type /Catalog /Pages 2 0 R /Outlines 3 0 R /PageMode /").spec_bytes()
        + page_mode_bytes(d.page_mode) + (match d.layout {
        Some(l) => (" /PageLayout /").spec_bytes() + layout_bytes(l),
        None => Seq::<u8>::empty(),
    }) + (match d.open_action {
        Some(id) => (" /OpenAction ").spec_bytes() + ref_bytes(id),
        None => Seq::<u8>::empty(),
    }) + (if d.page_labels@.len() > 0 {
        (" /PageLabels << /Nums [ ").spec_bytes() + page_labels_bytes(d.page_labels@) + (
        "] >>").spec_bytes()
    } else {
        Seq::<u8>::empty()
    }) + (" >>\n").spec_bytes() + obj_close()
}

/// The references to the pages of the document, in display order.
pub open spec fn kids_bytes(pages: Seq<Page>) -> Seq<u8>
    decreases pages.len(),
{
    if pages.len() == 0 {
        Seq::<u8>::empty()
    } else {
        kids_bytes(pages.drop_last()) + ref_bytes(pages.last().id) + (" ").spec_bytes()
    }
}

/// The page-tree root object: the list of pages and their count.
pub open spec fn pages_root_obj(d: Document) -> Seq<u8> {
    obj_open(PAGES_ROOT_ID) + ("<< /Type /Pages /Kids [ ").spec_bytes() + kids_bytes(d.pages@) + (
    "] /Count ").spec_bytes() + dec_u64(d.pages@.len() as nat) + (" >>\n").spec_bytes()
        + obj_close()
}

/// How many outline entries are top-level children of the outline root.
pub open spec fn top_outline_count(outlines: Seq<OutlineNode>) -> nat
    decreases outlines.len(),
{
    if outlines.len() == 0 {
        0
    } else {
        top_outline_count(outlines.drop_last()) + if outlines.last().parent is None {
            1nat
        } else {
            0nat
        }
    }
}

/// The position of the first top-level outline entry, or the length when
/// there is none.
pub open spec fn first_top_outline(outlines: Seq<OutlineNode>) -> int
    decreases outlines.len(),
{
    if outlines.len() == 0 {
        0
    } else if first_top_outline(outlines.drop_last()) < outlines.len() - 1 {
        first_top_outline(outlines.drop_last())
    } else if outlines.last().parent is None {
        outlines.len() - 1
    } else {
        outlines.len() as int
    }
}

/// The position of the last top-level outline entry, or the length when
/// there is none.
pub open spec fn last_top_outline(outlines: Seq<OutlineNode>) -> int
    decreases outlines.len(),
{
    if outlines.len() == 0 {
        0
    } else if outlines.last().parent is None {
        outlines.len() - 1
    } else if last_top_outline(outlines.drop_last()) < outlines.len() - 1 {
        last_top_outline(outlines.drop_last())
    } else {
        outlines.len() as int
    }
}

/// The outline-root object: the count of top-level entries and, when
/// there are any, the references to the first and last of them.
pub open spec fn outline_root_obj(d: Document) -> Seq<u8> {
    obj_open(OUTLINE_ROOT_ID) + ("<< /Type /Outlines /Count ").spec_bytes() + dec_u64(
        top_outline_count(d.outlines@),
    ) + (if first_top_outline(d.outlines@) < d.outlines@.len() {
        (" /First ").spec_bytes() + ref_bytes(d.outlines@[first_top_outline(d.outlines@)].id) + (
        " /Last ").spec_bytes() + ref_bytes(d.outlines@[last_top_outline(d.outlines@)].id)
    } else {
        Seq::<u8>::empty()
    }) + (" >>\n").spec_bytes() + obj_close()
}

/// The name of a file attribute of the information dictionary.
pub open spec fn meta_key_bytes(k: Metadata) -> Seq<u8> {
    match k {
        Metadata::CreationDate => ("CreationDate").spec_bytes(),
        Metadata::ModDate => ("ModDate").spec_bytes(),
        Metadata::Author => ("Author").spec_bytes(),
        Metadata::Creator => ("Creator").spec_bytes(),
        Metadata::Producer => ("Producer").spec_bytes(),
        Metadata::Title => ("Title").spec_bytes(),
        Metadata::Subject => ("Subject").spec_bytes(),
        Metadata::Keywords => ("Keywords").spec_bytes(),
        Metadata::Trapped => ("Trapped").spec_bytes(),
        Metadata::PDFXVersion => ("GTS_PDFX").spec_bytes(),
    }
}

/// The entries of the information dictionary, in order.
pub open spec fn meta_entries_bytes(entries: Seq<MetaEntry>) -> Seq<u8>
    decreases entries.len(),
{
    if entries.len() == 0 {
        Seq::<u8>::empty()
    } else {
        meta_entries_bytes(entries.drop_last()) + ("/").spec_bytes() + meta_key_bytes(
            entries.last().key,
        ) + (" (").spec_bytes() + escape_string(entries.last().value@) + (") ").spec_bytes()
    }
}

/// The information-dictionary object.
pub open spec fn info_obj(d: Document) -> Seq<u8> {
    obj_open(INFO_ID) + ("<< ").spec_bytes() + meta_entries_bytes(d.metadata@) + (
    ">>\n").spec_bytes() + obj_close()
}

/// The font-resource entries of a page: every registered font, named
/// `/F` plus its number.
pub open spec fn font_resource_bytes(fonts: Seq<FontRecord>) -> Seq<u8>
    decreases fonts.len(),
{
    if fonts.len() == 0 {
        Seq::<u8>::empty()
    } else {
        font_resource_bytes(fonts.drop_last()) + ("/F").spec_bytes() + dec_u64(
            fonts.last().id as nat,
        ) + (" ").spec_bytes() + ref_bytes(fonts.last().id) + (" ").spec_bytes()
    }
}

/// The image-resource entries of a page: every registered image, named
/// `/I` plus its number.
pub open spec fn image_resource_bytes(images: Seq<ImageRecord>) -> Seq<u8>
    decreases images.len(),
{
    if images.len() == 0 {
        Seq::<u8>::empty()
    } else {
        image_resource_bytes(images.drop_last()) + ("/I").spec_bytes() + dec_u64(
            images.last().id as nat,
        ) + (" ").spec_bytes() + ref_bytes(images.last().id) + (" ").spec_bytes()
    }
}

/// The references to the annotations that decorate the page with the
/// given number, in creation order.
pub open spec fn page_annot_refs(annots: Seq<Annotation>, page_id: u64) -> Seq<u8>
    decreases annots.len(),
{
    if annots.len() == 0 {
        Seq::<u8>::empty()
    } else {
        page_annot_refs(annots.drop_last(), page_id) + if annots.last().page_id == page_id {
            ref_bytes(annots.last().id) + (" ").spec_bytes()
        } else {
            Seq::<u8>::empty()
        }
    }
}

/// A page object: its media box, rotation, content stream, the shared
/// resources, and the annotations that decorate it.
pub open spec fn page_obj(d: Document, p: Page) -> Seq<u8> {
    obj_open(p.id) + ("<< /Type /Page /Parent 2 0 R /MediaBox [0 0 ").spec_bytes() + dec_i32(
        p.width as int,
    ) + (" ").spec_bytes() + dec_i32(p.height as int) + ("]").spec_bytes() + (if p.rotate != 0 {
        (" /Rotate ").spec_bytes() + dec_u64(p.rotate as nat)
    } else {
        Seq::<u8>::empty()
    }) + (" /Contents ").spec_bytes() + ref_bytes(p.content_id) + (
    " /Resources << /Font << ").spec_bytes() + font_resource_bytes(d.fonts@) + (
    ">> /XObject << ").spec_bytes() + image_resource_bytes(d.images@) + (">> >> /Annots [ ").spec_bytes()
        + page_annot_refs(d.annots@, p.id) + ("] >>\n").spec_bytes() + obj_close()
}

/// The body of a stream object: the raw bytes, or their run-length
/// encoding with the end-of-data byte when compression selects them.
pub open spec fn stream_body(raw: Seq<u8>, compressed: bool) -> Seq<u8> {
    if compressed {
        rle_encode(raw) + seq![RLE_EOD]
    } else {
        raw
    }
}

/// A content-stream object: its length, the filter when compressed, and
/// the accumulated operator bytes.
pub open spec fn content_obj(d: Document, p: Page) -> Seq<u8> {
    obj_open(p.content_id) + ("<< /Length ").spec_bytes() + dec_u64(
        stream_body(p.cs.buf@, d.compression.text).len(),
    ) + (if d.compression.text {
        (" /Filter /RunLengthDecode").spec_bytes()
    } else {
        Seq::<u8>::empty()
    }) + (" >>\nstream\n").spec_bytes() + stream_body(p.cs.buf@, d.compression.text) + (
    "\nendstream\nendobj\n").spec_bytes()
}

/// A font object: a simple font under its name and encoding.
pub open spec fn font_obj(f: FontRecord) -> Seq<u8> {
    obj_open(f.id) + ("<< /Type /Font /Subtype /Type1 /BaseFont /").spec_bytes() + f.name@ + (
    " /Encoding /").spec_bytes() + f.encoding@ + (" >>\n").spec_bytes() + obj_close()
}

/// A destination object: the target page, the position on it, and the
/// zoom in thousandths.
pub open spec fn dest_obj(dst: Destination) -> Seq<u8> {
    obj_open(dst.id) + ("[").spec_bytes() + ref_bytes(dst.page_id) + (" /XYZ ").spec_bytes()
        + dec_i32(dst.pos.x as int) + (" ").spec_bytes() + dec_i32(dst.pos.y as int) + (
    " ").spec_bytes() + dec_u64(dst.zoom as nat) + ("]\n").spec_bytes() + obj_close()
}

/// The name of a highlight mode.
pub open spec fn highlight_bytes(m: HighlightMode) -> Seq<u8> {
    match m {
        HighlightMode::NoHighlight => ("N").spec_bytes(),
        HighlightMode::InvertBox => ("I").spec_bytes(),
        HighlightMode::InvertBorder => ("O").spec_bytes(),
        HighlightMode::DownAppearance => ("P").spec_bytes(),
    }
}

/// An annotation object: its rectangle and, by kind, the link target with
/// its highlight mode and border, the note text, or the external address.
pub open spec fn annot_obj(a: Annotation) -> Seq<u8> {
    obj_open(a.id) + ("<< /Type /Annot /Rect [").spec_bytes() + dec_i32(a.rect.lower_left.x as int)
        + (" ").spec_bytes() + dec_i32(a.rect.lower_left.y as int) + (" ").spec_bytes() + dec_i32(
        a.rect.upper_right.x as int,
    ) + (" ").spec_bytes() + dec_i32(a.rect.upper_right.y as int) + ("]").spec_bytes() + (
    match a.kind {
        AnnotKind::Link { dest_id, highlight, border } => (" /Subtype /Link /Dest ").spec_bytes()
            + ref_bytes(dest_id) + (" /H /").spec_bytes() + highlight_bytes(highlight) + (
        " /Border [0 0 ").spec_bytes() + dec_i32(border.width as int) + (if border.dash_on > 0 {
            (" [").spec_bytes() + dec_u64(border.dash_on as nat) + (" ").spec_bytes() + dec_u64(
                border.dash_off as nat,
            ) + ("]").spec_bytes()
        } else {
            Seq::<u8>::empty()
        }) + ("]").spec_bytes(),
        AnnotKind::Note { contents } => (" /Subtype /Text /Contents (").spec_bytes()
            + escape_string(contents@) + (")").spec_bytes(),
        AnnotKind::Uri { uri } => (" /Subtype /Link /A << /S /URI /URI (").spec_bytes()
            + escape_string(uri@) + (") >>").spec_bytes(),
    }) + (" >>\n").spec_bytes() + obj_close()
}

/// An outline-entry object: its title, its parent — the outline root for
/// a top-level entry — and its destination when one was attached. The
/// parent position is read from the entry; positions outside the list
/// fall back to the outline root.
pub open spec fn outline_obj(d: Document, node: OutlineNode) -> Seq<u8> {
    obj_open(node.id) + ("<< /Title (").spec_bytes() + escape_string(node.title@) + (
    ") /Parent ").spec_bytes() + (match node.parent {
        Some(p) => if p < d.outlines@.len() {
            ref_bytes(d.outlines@[p as int].id)
        } else {
            ref_bytes(OUTLINE_ROOT_ID)
        },
        None => ref_bytes(OUTLINE_ROOT_ID),
    }) + (match node.dest_id {
        Some(id) => (" /Dest ").spec_bytes() + ref_bytes(id),
        None => Seq::<u8>::empty(),
    }) + (" >>\n").spec_bytes() + obj_close()
}

/// An image object: its pixel dimensions and its encoded bytes, with the
/// filter when compression selects image streams.
pub open spec fn image_obj(rec: ImageRecord, compressed: bool) -> Seq<u8> {
    obj_open(rec.id) + ("<< /Type /XObject /Subtype /Image /Width ").spec_bytes() + dec_u64(
        rec.width_px as nat,
    ) + (" /Height ").spec_bytes() + dec_u64(rec.height_px as nat) + (" /Length ").spec_bytes()
        + dec_u64(stream_body(rec.data@, compressed).len()) + (if compressed {
        (" /Filter /RunLengthDecode").spec_bytes()
    } else {
        Seq::<u8>::empty()
    }) + (" >>\nstream\n").spec_bytes() + stream_body(rec.data@, compressed) + (
    "\nendstream\nendobj\n").spec_bytes()
}

/// The bytes of the object that a page list owns under the given
/// reference number: a page object at a page's own number, a content
/// stream at its content number; nothing when no page matches.
pub open spec fn page_chunk_by_id(d: Document, pages: Seq<Page>, id: u64) -> Option<Seq<u8>>
    decreases pages.len(),
{
    if pages.len() == 0 {
        None
    } else if pages.first().id == id {
        Some(page_obj(d, pages.first()))
    } else if pages.first().content_id == id {
        Some(content_obj(d, pages.first()))
    } else {
        page_chunk_by_id(d, pages.drop_first(), id)
    }
}

/// The bytes of the font object registered under the given reference
/// number, when one is.
pub open spec fn font_chunk_by_id(fonts: Seq<FontRecord>, id: u64) -> Option<Seq<u8>>
    decreases fonts.len(),
{
    if fonts.len() == 0 {
        None
    } else if fonts.first().id == id {
        Some(font_obj(fonts.first()))
    } else {
        font_chunk_by_id(fonts.drop_first(), id)
    }
}

/// The bytes of the destination object registered under the given
/// reference number, when one is.
pub open spec fn dest_chunk_by_id(dests: Seq<Destination>, id: u64) -> Option<Seq<u8>>
    decreases dests.len(),
{
    if dests.len() == 0 {
        None
    } else if dests.first().id == id {
        Some(dest_obj(dests.first()))
    } else {
        dest_chunk_by_id(dests.drop_first(), id)
    }
}

/// The bytes of the annotation object registered under the given
/// reference number, when one is.
pub open spec fn annot_chunk_by_id(annots: Seq<Annotation>, id: u64) -> Option<Seq<u8>>
    decreases annots.len(),
{
    if annots.len() == 0 {
        None
    } else if annots.first().id == id {
        Some(annot_obj(annots.first()))
    } else {
        annot_chunk_by_id(annots.drop_first(), id)
    }
}

/// The bytes of the outline-entry object registered under the given
/// reference number, when one is.
pub open spec fn outline_chunk_by_id(d: Document, outlines: Seq<OutlineNode>, id: u64) -> Option<
    Seq<u8>,
>
    decreases outlines.len(),
{
    if outlines.len() == 0 {
        None
    } else if outlines.first().id == id {
        Some(outline_obj(d, outlines.first()))
    } else {
        outline_chunk_by_id(d, outlines.drop_first(), id)
    }
}

/// The bytes of the image object registered under the given reference
/// number, when one is.
pub open spec fn image_chunk_by_id(images: Seq<ImageRecord>, compressed: bool, id: u64) -> Option<
    Seq<u8>,
>
    decreases images.len(),
{
    if images.len() == 0 {
        None
    } else if images.first().id == id {
        Some(image_obj(images.first(), compressed))
    } else {
        image_chunk_by_id(images.drop_first(), compressed, id)
    }
}

/// The bytes of the created object that holds the given reference
/// number, found by searching the document's tables: pages and content
/// streams, then fonts, destinations, annotations, outline entries and
/// images. Nothing when no object holds it.
pub open spec fn object_bytes_for(d: Document, id: u64) -> Option<Seq<u8>> {
    match page_chunk_by_id(d, d.pages@, id) {
        Some(c) => Some(c),
        None => match font_chunk_by_id(d.fonts@, id) {
            Some(c) => Some(c),
            None => match dest_chunk_by_id(d.dests@, id) {
                Some(c) => Some(c),
                None => match annot_chunk_by_id(d.annots@, id) {
                    Some(c) => Some(c),
                    None => match outline_chunk_by_id(d, d.outlines@, id) {
                        Some(c) => Some(c),
                        None => image_chunk_by_id(d.images@, d.compression.image, id),
                    },
                },
            },
        },
    }
}

/// The created objects whose reference numbers lie below `hi`, in
/// ascending number order.
pub open spec fn ids_objs_upto(d: Document, hi: int) -> Seq<(u64, Seq<u8>)>
    decreases hi,
{
    if hi <= FIRST_FREE_ID as int {
        Seq::<(u64, Seq<u8>)>::empty()
    } else {
        ids_objs_upto(d, hi - 1) + (match object_bytes_for(d, (hi - 1) as u64) {
            Some(c) => seq![((hi - 1) as u64, c)],
            None => Seq::<(u64, Seq<u8>)>::empty(),
        })
    }
}

/// Every object of the document with its reference number, in emission
/// order: the four reserved objects, then every created object in
/// ascending assigned-number order.
pub open spec fn obj_list(d: Document) -> Seq<(u64, Seq<u8>)> {
    seq![
        (CATALOG_ID, catalog_obj(d)),
        (PAGES_ROOT_ID, pages_root_obj(d)),
        (OUTLINE_ROOT_ID, outline_root_obj(d)),
        (INFO_ID, info_obj(d)),
    ] + ids_objs_upto(d, d.next_id as int)
}

/// The concatenated bytes of a list of numbered objects.
pub open spec fn cat_objs(list: Seq<(u64, Seq<u8>)>) -> Seq<u8>
    decreases list.len(),
{
    if list.len() == 0 {
        Seq::<u8>::empty()
    } else {
        cat_objs(list.drop_last()) + list.last().1
    }
}

/// One cross-reference entry: a one-entry subsection recording the byte
/// offset of the object with the given number.
pub open spec fn xref_entry(id: u64, offset: nat) -> Seq<u8> {
    dec_u64(id as nat) + (" 1\n").spec_bytes() + pad10(offset) + (" 00000 n \n").spec_bytes()
}

/// The cross-reference entries of a list of numbered objects laid out one
/// after another starting at `base`.
pub open spec fn xref_list(list: Seq<(u64, Seq<u8>)>, base: nat) -> Seq<u8>
    decreases list.len(),
{
    if list.len() == 0 {
        Seq::<u8>::empty()
    } else {
        xref_entry(list.first().0, base) + xref_list(
            list.drop_first(),
            base + list.first().1.len(),
        )
    }
}

/// The concatenated bytes of a list split at its last element.
proof fn lemma_cat_objs_push(list: Seq<(u64, Seq<u8>)>, o: (u64, Seq<u8>))
    ensures
        cat_objs(list.push(o)) == cat_objs(list) + o.1,
{
    assert(list.push(o).drop_last() =~= list);
    assert(list.push(o).last() == o);
}

/// The concatenated bytes of a list split at its first element.
proof fn lemma_cat_objs_cons(list: Seq<(u64, Seq<u8>)>)
    requires
        list.len() > 0,
    ensures
        cat_objs(list) == list.first().1 + cat_objs(list.drop_first()),
    decreases list.len(),
{
    if list.len() == 1 {
        assert(list.drop_last() =~= Seq::<(u64, Seq<u8>)>::empty());
        assert(list.drop_first() =~= Seq::<(u64, Seq<u8>)>::empty());
        assert(cat_objs(list) =~= list.first().1 + cat_objs(list.drop_first()));
    } else {
        lemma_cat_objs_cons(list.drop_last());
        assert(list.drop_last().drop_first() =~= list.drop_first().drop_last());
        assert(list.drop_last().first() == list.first());
        assert(list.drop_first().last() == list.last());
        assert(cat_objs(list) == cat_objs(list.drop_last()) + list.last().1);
        assert(cat_objs(list.drop_first()) == cat_objs(list.drop_first().drop_last())
            + list.drop_first().last().1);
        assert(cat_objs(list) =~= list.first().1 + cat_objs(list.drop_first()));
    }
}

/// Appending one object to a list appends one entry to its
/// cross-reference listing, at the offset where the object starts.
proof fn lemma_xref_list_push(list: Seq<(u64, Seq<u8>)>, o: (u64, Seq<u8>), base: nat)
    ensures
        xref_list(list.push(o), base) == xref_list(list, base) + xref_entry(
            o.0,
            base + cat_objs(list).len(),
        ),
    decreases list.len(),
{
    if list.len() == 0 {
        let single = list.push(o);
        assert(single.drop_first() =~= Seq::<(u64, Seq<u8>)>::empty());
        assert(single.first() == o);
        assert(cat_objs(list).len() == 0);
        assert(xref_list(single, base) == xref_entry(single.first().0, base) + xref_list(
            single.drop_first(),
            base + single.first().1.len(),
        ));
        assert(xref_list(Seq::<(u64, Seq<u8>)>::empty(), base + o.1.len()) == Seq::<u8>::empty());
        assert(xref_entry(o.0, base) + Seq::<u8>::empty() =~= xref_entry(o.0, base));
        assert(xref_list(list, base) == Seq::<u8>::empty());
        assert(Seq::<u8>::empty() + xref_entry(o.0, base) =~= xref_entry(o.0, base));
    } else {
        lemma_xref_list_push(list.drop_first(), o, base + list.first().1.len());
        lemma_cat_objs_cons(list);
        assert(list.push(o).drop_first() =~= list.drop_first().push(o));
        assert(list.push(o).first() == list.first());
        assert(base + list.first().1.len() + cat_objs(list.drop_first()).len() == base + cat_objs(
            list,
        ).len());
        assert(xref_list(list.push(o), base) =~= xref_list(list, base) + xref_entry(
            o.0,
            base + cat_objs(list).len(),
        ));
    }
}

/// The free entry that opens every cross-reference table.
pub open spec fn xref_head() -> Seq<u8> {
    ("xref\n0 1\n0000000000 65535 f \n").spec_bytes()
}

/// The trailer: the size of the reference space, the root and information
/// objects, and where the cross-reference table starts.
pub open spec fn trailer_bytes(d: Document, xref_at: nat) -> Seq<u8> {
    ("trailer\n<< /Size ").spec_bytes() + dec_u64(d.next_id as nat) + (
    " /Root 1 0 R /Info 4 0 R >>\nstartxref\n").spec_bytes() + dec_u64(xref_at) + (
    "\n%%EOF\n").spec_bytes()
}

/// The complete serialized document: header, objects, cross-reference
/// table and trailer.
pub open spec fn serialized_bytes(d: Document) -> Seq<u8> {
    let base = header_bytes().len();
    let objects = cat_objs(obj_list(d));
    header_bytes() + objects + xref_head() + xref_list(obj_list(d), base) + trailer_bytes(
        d,
        base + objects.len(),
    )
}

/// A compressed stream body decodes back to the raw bytes it was made
/// from: what a reader of the emitted grammar recovers from a filtered
/// stream is exactly the accumulated operator bytes.
pub proof fn lemma_stream_body_roundtrip(raw: Seq<u8>)
    ensures
        crate::compress::rle_decode(stream_body(raw, true)) == raw,
        stream_body(raw, false) == raw,
{
    crate::compress::lemma_rle_roundtrip(raw);
}

/// True when every reference the document's annotations, outline entries
/// and open action make to a destination resolves to a registered one.
pub open spec fn refs_resolved(d: Document) -> bool {
    &&& (d.open_action matches Some(id) ==> dest_index(d.dests@, id) < d.dests@.len())
    &&& forall|i: int|
        0 <= i < d.annots@.len() ==> ((#[trigger] d.annots@[i].kind) matches AnnotKind::Link {
            dest_id,
            ..
        } ==> dest_index(d.dests@, dest_id) < d.dests@.len())
    &&& forall|i: int|
        0 <= i < d.outlines@.len() ==> ((#[trigger] d.outlines@[i].dest_id) matches Some(id)
            ==> dest_index(d.dests@, id) < d.dests@.len())
}

/// What characterizes the first top-level position: entries before it
/// have parents, and it either is top-level or is the end of the list.
proof fn lemma_first_top_char(outlines: Seq<OutlineNode>)
    ensures
        0 <= first_top_outline(outlines) <= outlines.len(),
        first_top_outline(outlines) < outlines.len() ==> outlines[first_top_outline(
            outlines,
        )].parent is None,
        forall|j: int|
            0 <= j < first_top_outline(outlines) ==> (#[trigger] outlines[j].parent) is Some,
        first_top_outline(outlines) == outlines.len() ==> forall|j: int|
            0 <= j < outlines.len() ==> (#[trigger] outlines[j].parent) is Some,
    decreases outlines.len(),
{
    if outlines.len() > 0 {
        lemma_first_top_char(outlines.drop_last());
        assert forall|j: int|
            0 <= j < first_top_outline(outlines) implies (#[trigger] outlines[j].parent)
            is Some by {
            if j < outlines.len() - 1 {
                assert(outlines.drop_last()[j] == outlines[j]);
            }
        }
        if first_top_outline(outlines) < outlines.len() - 1 {
            assert(outlines.drop_last()[first_top_outline(outlines)] == outlines[first_top_outline(
                outlines,
            )]);
        }
        if first_top_outline(outlines) == outlines.len() {
            assert forall|j: int| 0 <= j < outlines.len() implies (#[trigger] outlines[j].parent)
                is Some by {
                if j < outlines.len() - 1 {
                    assert(outlines.drop_last()[j] == outlines[j]);
                }
            }
        }
    }
}

/// What characterizes the last top-level position: entries after it have
/// parents, and it either is top-level or is the end of the list.
proof fn lemma_last_top_char(outlines: Seq<OutlineNode>)
    ensures
        0 <= last_top_outline(outlines) <= outlines.len(),
        last_top_outline(outlines) < outlines.len() ==> outlines[last_top_outline(
            outlines,
        )].parent is None,
        forall|j: int|
            last_top_outline(outlines) < j < outlines.len() ==> (#[trigger] outlines[j].parent)
                is Some,
        last_top_outline(outlines) == outlines.len() ==> forall|j: int|
            0 <= j < outlines.len() ==> (#[trigger] outlines[j].parent) is Some,
    decreases outlines.len(),
{
    if outlines.len() > 0 {
        lemma_last_top_char(outlines.drop_last());
        if !(outlines.last().parent is None) {
            assert forall|j: int|
                last_top_outline(outlines) < j < outlines.len() implies (
            #[trigger] outlines[j].parent) is Some by {
                if j < outlines.len() - 1 {
                    assert(outlines.drop_last()[j] == outlines[j]);
                }
            }
            if last_top_outline(outlines) < outlines.len() - 1 {
                assert(outlines.drop_last()[last_top_outline(outlines)] == outlines[
                last_top_outline(outlines)]);
            }
            if last_top_outline(outlines) == outlines.len() {
                assert forall|j: int|
                    0 <= j < outlines.len() implies (#[trigger] outlines[j].parent) is Some by {
                    if j < outlines.len() - 1 {
                        assert(outlines.drop_last()[j] == outlines[j]);
                    }
                }
            }
        }
    }
}

/// Concatenation of byte sequences is associative.
proof fn seq_assoc(x: Seq<u8>, a: Seq<u8>, b: Seq<u8>)
    ensures
        (x + a) + b == x + (a + b),
{
    assert((x + a) + b =~= x + (a + b));
}

/// Append one cross-reference entry recording the object with the given
/// number at the given offset.
fn record_xref(xref: &mut Vec<u8>, id: u64, offset: usize)
    ensures
        final(xref)@ == old(xref)@ + xref_entry(id, offset as nat),
{
    push_u64_dec(xref, id);
    push_str(xref, " 1\n");
    push_u64_pad10(xref, offset as u64);
    push_str(xref, " 00000 n \n");
    proof {
        assert(xref@ =~= old(xref)@ + xref_entry(id, offset as nat));
    }
}

/// Append the opening of the object with the given number.
fn emit_obj_open(out: &mut Vec<u8>, id: u64)
    ensures
        final(out)@ == old(out)@ + obj_open(id),
{
    push_u64_dec(out, id);
    push_str(out, " 0 obj\n");
    proof {
        assert(out@ =~= old(out)@ + obj_open(id));
    }
}

/// Append the closing keyword of an object.
fn emit_obj_close(out: &mut Vec<u8>)
    ensures
        final(out)@ == old(out)@ + obj_close(),
{
    push_str(out, "endobj\n");
}

/// Append an indirect reference to the object with the given number.
fn emit_ref(out: &mut Vec<u8>, id: u64)
    ensures
        final(out)@ == old(out)@ + ref_bytes(id),
{
    push_u64_dec(out, id);
    push_str(out, " 0 R");
    proof {
        assert(out@ =~= old(out)@ + ref_bytes(id));
    }
}

/// Append a string operand: an opening parenthesis, the escaped bytes,
/// and a closing parenthesis is left to the caller's layout.
fn emit_escaped(out: &mut Vec<u8>, s: &[u8])
    ensures
        final(out)@ == old(out)@ + escape_string(s@),
{
    crate::content::push_escaped(out, s);
}

/// Append the catalog object of `d`.
/// Append the page-label entries of `d`.
#[verifier::rlimit(100)]
fn emit_page_labels(out: &mut Vec<u8>, d: &Document)
    ensures
        final(out)@ == old(out)@ + page_labels_bytes(d.page_labels@),
{
    let n = d.page_labels.len();
    let mut i: usize = 0;
    proof {
        assert(page_labels_bytes(d.page_labels@.take(0)) =~= Seq::<u8>::empty());
        assert(out@ =~= old(out)@ + page_labels_bytes(d.page_labels@.take(0)));
    }
    while i < n
        invariant
            i <= n,
            n == d.page_labels@.len(),
            out@ =~= old(out)@ + page_labels_bytes(d.page_labels@.take(i as int)),
        decreases n - i,
    {
        let l = &d.page_labels[i];
        push_u64_dec(out, l.page_num as u64);
        push_str(out, " << /S /");
        match l.style {
            PageNumStyle::Decimal => push_str(out, "D"),
            PageNumStyle::UpperRoman => push_str(out, "R"),
            PageNumStyle::LowerRoman => push_str(out, "r"),
            PageNumStyle::UpperLetters => push_str(out, "A"),
            PageNumStyle::LowerLetters => push_str(out, "a"),
        }
        push_str(out, " /St ");
        push_u64_dec(out, l.first_page as u64);
        push_str(out, " /P (");
        emit_escaped(out, l.prefix.as_slice());
        push_str(out, ") >> ");
        proof {
            assert(d.page_labels@.take(i + 1).drop_last() =~= d.page_labels@.take(i as int));
            assert(d.page_labels@.take(i + 1).last() == d.page_labels@[i as int]);
            assert(out@ =~= old(out)@ + page_labels_bytes(d.page_labels@.take(i + 1)));
        }
        i = i + 1;
    }
    proof {
        assert(d.page_labels@.take(n as int) =~= d.page_labels@);
    }
}

#[verifier::rlimit(100)]
#[verifier::spinoff_prover]
fn emit_catalog(out: &mut Vec<u8>, d: &Document)
    ensures
        final(out)@ == old(out)@ + catalog_obj(*d),
{
    emit_obj_open(out, CATALOG_ID);
    push_str(out, "<< /Type /Catalog /Pages 2 0 R /Outlines 3 0 R /PageMode /");
    match d.page_mode {
        PageMode::UseNone => push_str(out, "UseNone"),
        PageMode::Outline => push_str(out, "UseOutlines"),
        PageMode::Thumbs => push_str(out, "UseThumbs"),
        PageMode::FullScreen => push_str(out, "FullScreen"),
    }
    let ghost c1 = old(out)@ + obj_open(CATALOG_ID) + (
    "<< /Type /Catalog /Pages 2 0 R /Outlines 3 0 R /PageMode /").spec_bytes() + page_mode_bytes(
        d.page_mode,
    );
    proof {
        assert(out@ =~= c1);
    }
    match d.layout {
        Some(l) => {
            push_str(out, " /PageLayout /");
            match l {
                PageLayout::Single => push_str(out, "SinglePage"),
                PageLayout::OneColumn => push_str(out, "OneColumn"),
                PageLayout::TwoColumnLeft => push_str(out, "TwoColumnLeft"),
                PageLayout::TwoColumnRight => push_str(out, "TwoColumnRight"),
            }
        },
        None => (),
    }
    let ghost c2 = c1 + (match d.layout {
        Some(l) => (" /PageLayout /").spec_bytes() + layout_bytes(l),
        None => Seq::<u8>::empty(),
    });
    proof {
        assert(out@ =~= c2);
    }
    match d.open_action {
        Some(id) => {
            push_str(out, " /OpenAction ");
            emit_ref(out, id);
        },
        None => (),
    }
    let ghost c3 = c2 + (match d.open_action {
        Some(id) => (" /OpenAction ").spec_bytes() + ref_bytes(id),
        None => Seq::<u8>::empty(),
    });
    proof {
        assert(out@ =~= c3);
    }
    if d.page_labels.len() > 0 {
        push_str(out, " /PageLabels << /Nums [ ");
        emit_page_labels(out, d);
        push_str(out, "] >>");
    }
    let ghost c4 = c3 + (if d.page_labels@.len() > 0 {
        (" /PageLabels << /Nums [ ").spec_bytes() + page_labels_bytes(d.page_labels@) + (
        "] >>").spec_bytes()
    } else {
        Seq::<u8>::empty()
    });
    proof {
        assert(out@ =~= c4);
    }
    push_str(out, " >>\n");
    emit_obj_close(out);
    proof {
        let x = old(out)@;
        let a1 = obj_open(CATALOG_ID);
        let a2 = ("<< /Type /Catalog /Pages 2 0 R /Outlines 3 0 R /PageMode /").spec_bytes();
        let a3 = page_mode_bytes(d.page_mode);
        let a4 = (match d.layout {
            Some(l) => (" /PageLayout /").spec_bytes() + layout_bytes(l),
            None => Seq::<u8>::empty(),
        });
        let a5 = (match d.open_action {
            Some(id) => (" /OpenAction ").spec_bytes() + ref_bytes(id),
            None => Seq::<u8>::empty(),
        });
        let a6 = (if d.page_labels@.len() > 0 {
            (" /PageLabels << /Nums [ ").spec_bytes() + page_labels_bytes(d.page_labels@) + (
            "] >>").spec_bytes()
        } else {
            Seq::<u8>::empty()
        });
        let a7 = (" >>\n").spec_bytes();
        let a8 = obj_close();
        assert(out@ == ((c4 + a7) + a8));
        assert(c1 == ((x + a1) + a2) + a3) by {
            seq_assoc(x, a1, a2);
            seq_assoc(x, a1 + a2, a3);
            seq_assoc(x + a1, a2, a3);
        }
        seq_assoc(x, a1, a2);
        seq_assoc(x, a1 + a2, a3);
        seq_assoc(x, a1 + a2 + a3, a4);
        seq_assoc(x, a1 + a2 + a3 + a4, a5);
        seq_assoc(x, a1 + a2 + a3 + a4 + a5, a6);
        seq_assoc(x, a1 + a2 + a3 + a4 + a5 + a6, a7);
        seq_assoc(x, a1 + a2 + a3 + a4 + a5 + a6 + a7, a8);
        assert(out@ == x + catalog_obj(*d));
    }
}


/// Append the page-tree root object of `d`.
fn emit_pages_root(out: &mut Vec<u8>, d: &Document)
    ensures
        final(out)@ == old(out)@ + pages_root_obj(*d),
{
    emit_obj_open(out, PAGES_ROOT_ID);
    push_str(out, "<< /Type /Pages /Kids [ ");
    let n = d.pages.len();
    let mut i: usize = 0;
    let ghost mid = out@;
    proof {
        assert(kids_bytes(d.pages@.take(0)) =~= Seq::<u8>::empty());
        assert(out@ =~= mid + kids_bytes(d.pages@.take(0)));
    }
    while i < n
        invariant
            i <= n,
            n == d.pages@.len(),
            out@ =~= mid + kids_bytes(d.pages@.take(i as int)),
        decreases n - i,
    {
        emit_ref(out, d.pages[i].id);
        push_str(out, " ");
        proof {
            assert(d.pages@.take(i + 1).drop_last() =~= d.pages@.take(i as int));
            assert(d.pages@.take(i + 1).last() == d.pages@[i as int]);
            assert(out@ =~= mid + kids_bytes(d.pages@.take(i + 1)));
        }
        i = i + 1;
    }
    proof {
        assert(d.pages@.take(n as int) =~= d.pages@);
    }
    push_str(out, "] /Count ");
    push_u64_dec(out, d.pages.len() as u64);
    push_str(out, " >>\n");
    emit_obj_close(out);
    proof {
        assert(out@ =~= old(out)@ + pages_root_obj(*d));
    }
}

/// Append the outline-root object of `d`.
fn emit_outline_root(out: &mut Vec<u8>, d: &Document)
    ensures
        final(out)@ == old(out)@ + outline_root_obj(*d),
{
    emit_obj_open(out, OUTLINE_ROOT_ID);
    push_str(out, "<< /Type /Outlines /Count ");
    let n = d.outlines.len();
    // count the top-level entries
    let mut count: usize = 0;
    let mut i: usize = 0;
    while i < n
        invariant
            i <= n,
            n == d.outlines@.len(),
            count == top_outline_count(d.outlines@.take(i as int)),
            count <= i,
        decreases n - i,
    {
        proof {
            assert(d.outlines@.take(i + 1).drop_last() =~= d.outlines@.take(i as int));
            assert(d.outlines@.take(i + 1).last() == d.outlines@[i as int]);
        }
        if d.outlines[i].parent.is_none() {
            count = count + 1;
        }
        i = i + 1;
    }
    proof {
        assert(d.outlines@.take(n as int) =~= d.outlines@);
    }
    push_u64_dec(out, count as u64);
    // find the first and last top-level entries
    let mut fto: usize = n;
    let mut j: usize = 0;
    while j < n && fto == n
        invariant
            j <= n,
            n == d.outlines@.len(),
            fto == n || (fto == j && fto < n && d.outlines@[fto as int].parent is None),
            fto == n ==> forall|k: int| 0 <= k < j ==> (#[trigger] d.outlines@[k].parent) is Some,
            fto < n ==> forall|k: int| 0 <= k < fto ==> (#[trigger] d.outlines@[k].parent) is Some,
        decreases n - j + (if fto < n {
            0int
        } else {
            1int
        }),
    {
        if d.outlines[j].parent.is_none() {
            fto = j;
        } else {
            j = j + 1;
        }
    }
    proof {
        lemma_first_top_char(d.outlines@);
        let sf = first_top_outline(d.outlines@);
        if fto < n {
            if sf < fto {
                assert(false);
            }
            if fto < sf {
                assert(false);
            }
        } else {
            if sf < n {
                assert(false);
            }
        }
        assert(fto == sf);
    }
    if fto < n {
        let mut lto: usize = n;
        let mut k: usize = n;
        while k > 0 && lto == n
            invariant
                k <= n,
                n == d.outlines@.len(),
                lto == n || (lto < n && lto + 1 == k && d.outlines@[lto as int].parent is None),
                lto == n ==> forall|m: int| k <= m < n ==> (#[trigger] d.outlines@[m].parent)
                    is Some,
                lto < n ==> forall|m: int| lto < m < n ==> (#[trigger] d.outlines@[m].parent)
                    is Some,
            decreases k + (if lto < n {
                0int
            } else {
                1int
            }),
        {
            if d.outlines[k - 1].parent.is_none() {
                lto = k - 1;
            } else {
                k = k - 1;
            }
        }
        proof {
            lemma_last_top_char(d.outlines@);
            lemma_first_top_char(d.outlines@);
            let sl = last_top_outline(d.outlines@);
            if lto < n {
                if sl < lto {
                    assert(false);
                }
                if lto < sl {
                    assert(false);
                }
            } else {
                assert(d.outlines@[fto as int].parent is None);
                if sl == n {
                    assert(false);
                }
                assert(d.outlines@[sl].parent is None);
                assert(false);
            }
            assert(lto == sl);
        }
        push_str(out, " /First ");
        emit_ref(out, d.outlines[fto].id);
        push_str(out, " /Last ");
        emit_ref(out, d.outlines[lto].id);
    }
    push_str(out, " >>\n");
    emit_obj_close(out);
    proof {
        assert(out@ =~= old(out)@ + outline_root_obj(*d));
    }
}

/// Append the information-dictionary object of `d`.
fn emit_info(out: &mut Vec<u8>, d: &Document)
    ensures
        final(out)@ == old(out)@ + info_obj(*d),
{
    emit_obj_open(out, INFO_ID);
    push_str(out, "<< ");
    let n = d.metadata.len();
    let mut i: usize = 0;
    let ghost mid = out@;
    proof {
        assert(meta_entries_bytes(d.metadata@.take(0)) =~= Seq::<u8>::empty());
        assert(out@ =~= mid + meta_entries_bytes(d.metadata@.take(0)));
    }
    while i < n
        invariant
            i <= n,
            n == d.metadata@.len(),
            out@ =~= mid + meta_entries_bytes(d.metadata@.take(i as int)),
        decreases n - i,
    {
        push_str(out, "/");
        match d.metadata[i].key {
            Metadata::CreationDate => push_str(out, "CreationDate"),
            Metadata::ModDate => push_str(out, "ModDate"),
            Metadata::Author => push_str(out, "Author"),
            Metadata::Creator => push_str(out, "Creator"),
            Metadata::Producer => push_str(out, "Producer"),
            Metadata::Title => push_str(out, "Title"),
            Metadata::Subject => push_str(out, "Subject"),
            Metadata::Keywords => push_str(out, "Keywords"),
            Metadata::Trapped => push_str(out, "Trapped"),
            Metadata::PDFXVersion => push_str(out, "GTS_PDFX"),
        }
        push_str(out, " (");
        emit_escaped(out, d.metadata[i].value.as_slice());
        push_str(out, ") ");
        proof {
            assert(d.metadata@.take(i + 1).drop_last() =~= d.metadata@.take(i as int));
            assert(d.metadata@.take(i + 1).last() == d.metadata@[i as int]);
            assert(out@ =~= mid + meta_entries_bytes(d.metadata@.take(i + 1)));
        }
        i = i + 1;
    }
    proof {
        assert(d.metadata@.take(n as int) =~= d.metadata@);
    }
    push_str(out, ">>\n");
    emit_obj_close(out);
    proof {
        assert(out@ =~= old(out)@ + info_obj(*d));
    }
}

/// Append the font-resource entries of `d`.
fn emit_font_resources(out: &mut Vec<u8>, d: &Document)
    ensures
        final(out)@ == old(out)@ + font_resource_bytes(d.fonts@),
{
    let n = d.fonts.len();
    let mut i: usize = 0;
    proof {
        assert(font_resource_bytes(d.fonts@.take(0)) =~= Seq::<u8>::empty());
        assert(out@ =~= old(out)@ + font_resource_bytes(d.fonts@.take(0)));
    }
    while i < n
        invariant
            i <= n,
            n == d.fonts@.len(),
            out@ =~= old(out)@ + font_resource_bytes(d.fonts@.take(i as int)),
        decreases n - i,
    {
        push_str(out, "/F");
        push_u64_dec(out, d.fonts[i].id);
        push_str(out, " ");
        emit_ref(out, d.fonts[i].id);
        push_str(out, " ");
        proof {
            assert(d.fonts@.take(i + 1).drop_last() =~= d.fonts@.take(i as int));
            assert(d.fonts@.take(i + 1).last() == d.fonts@[i as int]);
            assert(out@ =~= old(out)@ + font_resource_bytes(d.fonts@.take(i + 1)));
        }
        i = i + 1;
    }
    proof {
        assert(d.fonts@.take(n as int) =~= d.fonts@);
    }
}

/// Append the image-resource entries of `d`.
fn emit_image_resources(out: &mut Vec<u8>, d: &Document)
    ensures
        final(out)@ == old(out)@ + image_resource_bytes(d.images@),
{
    let n = d.images.len();
    let mut i: usize = 0;
    proof {
        assert(image_resource_bytes(d.images@.take(0)) =~= Seq::<u8>::empty());
        assert(out@ =~= old(out)@ + image_resource_bytes(d.images@.take(0)));
    }
    while i < n
        invariant
            i <= n,
            n == d.images@.len(),
            out@ =~= old(out)@ + image_resource_bytes(d.images@.take(i as int)),
        decreases n - i,
    {
        push_str(out, "/I");
        push_u64_dec(out, d.images[i].id);
        push_str(out, " ");
        emit_ref(out, d.images[i].id);
        push_str(out, " ");
        proof {
            assert(d.images@.take(i + 1).drop_last() =~= d.images@.take(i as int));
            assert(d.images@.take(i + 1).last() == d.images@[i as int]);
            assert(out@ =~= old(out)@ + image_resource_bytes(d.images@.take(i + 1)));
        }
        i = i + 1;
    }
    proof {
        assert(d.images@.take(n as int) =~= d.images@);
    }
}

/// Append the references to the annotations of the page with the given
/// number.
fn emit_page_annot_refs(out: &mut Vec<u8>, d: &Document, page_id: u64)
    ensures
        final(out)@ == old(out)@ + page_annot_refs(d.annots@, page_id),
{
    let n = d.annots.len();
    let mut i: usize = 0;
    proof {
        assert(page_annot_refs(d.annots@.take(0), page_id) =~= Seq::<u8>::empty());
        assert(out@ =~= old(out)@ + page_annot_refs(d.annots@.take(0), page_id));
    }
    while i < n
        invariant
            i <= n,
            n == d.annots@.len(),
            out@ =~= old(out)@ + page_annot_refs(d.annots@.take(i as int), page_id),
        decreases n - i,
    {
        proof {
            assert(d.annots@.take(i + 1).drop_last() =~= d.annots@.take(i as int));
            assert(d.annots@.take(i + 1).last() == d.annots@[i as int]);
        }
        if d.annots[i].page_id == page_id {
            emit_ref(out, d.annots[i].id);
            push_str(out, " ");
        }
        proof {
            assert(out@ =~= old(out)@ + page_annot_refs(d.annots@.take(i + 1), page_id));
        }
        i = i + 1;
    }
    proof {
        assert(d.annots@.take(n as int) =~= d.annots@);
    }
}

/// Append the object of the page `p`.
fn emit_page(out: &mut Vec<u8>, d: &Document, p: &Page)
    ensures
        final(out)@ == old(out)@ + page_obj(*d, *p),
{
    let ghost x = out@;
    emit_obj_open(out, p.id);
    let ghost acc = obj_open(p.id);
    push_str(out, "<< /Type /Page /Parent 2 0 R /MediaBox [0 0 ");
    proof {
        seq_assoc(x, acc, ("<< /Type /Page /Parent 2 0 R /MediaBox [0 0 ").spec_bytes());
        acc = acc + ("<< /Type /Page /Parent 2 0 R /MediaBox [0 0 ").spec_bytes();
    }
    push_i32_dec(out, p.width);
    proof {
        seq_assoc(x, acc, dec_i32(p.width as int));
        acc = acc + dec_i32(p.width as int);
    }
    push_str(out, " ");
    proof {
        seq_assoc(x, acc, (" ").spec_bytes());
        acc = acc + (" ").spec_bytes();
    }
    push_i32_dec(out, p.height);
    proof {
        seq_assoc(x, acc, dec_i32(p.height as int));
        acc = acc + dec_i32(p.height as int);
    }
    push_str(out, "]");
    proof {
        seq_assoc(x, acc, ("]").spec_bytes());
        acc = acc + ("]").spec_bytes();
    }
    if p.rotate != 0 {
        push_str(out, " /Rotate ");
        push_u64_dec(out, p.rotate as u64);
        proof {
            seq_assoc(x, acc, (" /Rotate ").spec_bytes());
            seq_assoc(x, acc + (" /Rotate ").spec_bytes(), dec_u64(p.rotate as nat));
            seq_assoc(acc, (" /Rotate ").spec_bytes(), dec_u64(p.rotate as nat));
        }
    }
    proof {
        acc = acc + (if p.rotate != 0 {
            (" /Rotate ").spec_bytes() + dec_u64(p.rotate as nat)
        } else {
            Seq::<u8>::empty()
        });
        if p.rotate == 0 {
            assert(acc + Seq::<u8>::empty() =~= acc);
        }
        assert(out@ == x + acc);
    }
    push_str(out, " /Contents ");
    proof {
        seq_assoc(x, acc, (" /Contents ").spec_bytes());
        acc = acc + (" /Contents ").spec_bytes();
    }
    emit_ref(out, p.content_id);
    proof {
        seq_assoc(x, acc, ref_bytes(p.content_id));
        acc = acc + ref_bytes(p.content_id);
    }
    push_str(out, " /Resources << /Font << ");
    proof {
        seq_assoc(x, acc, (" /Resources << /Font << ").spec_bytes());
        acc = acc + (" /Resources << /Font << ").spec_bytes();
    }
    emit_font_resources(out, d);
    proof {
        seq_assoc(x, acc, font_resource_bytes(d.fonts@));
        acc = acc + font_resource_bytes(d.fonts@);
    }
    push_str(out, ">> /XObject << ");
    proof {
        seq_assoc(x, acc, (">> /XObject << ").spec_bytes());
        acc = acc + (">> /XObject << ").spec_bytes();
    }
    emit_image_resources(out, d);
    proof {
        seq_assoc(x, acc, image_resource_bytes(d.images@));
        acc = acc + image_resource_bytes(d.images@);
    }
    push_str(out, ">> >> /Annots [ ");
    proof {
        seq_assoc(x, acc, (">> >> /Annots [ ").spec_bytes());
        acc = acc + (">> >> /Annots [ ").spec_bytes();
    }
    emit_page_annot_refs(out, d, p.id);
    proof {
        seq_assoc(x, acc, page_annot_refs(d.annots@, p.id));
        acc = acc + page_annot_refs(d.annots@, p.id);
    }
    push_str(out, "] >>\n");
    proof {
        seq_assoc(x, acc, ("] >>\n").spec_bytes());
        acc = acc + ("] >>\n").spec_bytes();
    }
    emit_obj_close(out);
    proof {
        seq_assoc(x, acc, obj_close());
        acc = acc + obj_close();
        assert(out@ == x + acc);
        assert(acc == page_obj(*d, *p));
    }
}

/// Append the content-stream object of the page `p`.
#[verifier::rlimit(100)]
fn emit_content(out: &mut Vec<u8>, d: &Document, p: &Page)
    ensures
        final(out)@ == old(out)@ + content_obj(*d, *p),
{
    let body: Vec<u8> = if d.compression.text {
        rle_compress(p.cs.buf.as_slice())
    } else {
        let mut raw: Vec<u8> = Vec::new();
        push_bytes(&mut raw, p.cs.buf.as_slice());
        raw
    };
    proof {
        assert(body@ =~= stream_body(p.cs.buf@, d.compression.text));
    }
    emit_obj_open(out, p.content_id);
    push_str(out, "<< /Length ");
    push_u64_dec(out, body.len() as u64);
    if d.compression.text {
        push_str(out, " /Filter /RunLengthDecode");
    }
    push_str(out, " >>\nstream\n");
    push_bytes(out, body.as_slice());
    push_str(out, "\nendstream\nendobj\n");
    proof {
        assert(out@ =~= old(out)@ + content_obj(*d, *p));
    }
}

/// Append the object of the font `f`.
fn emit_font(out: &mut Vec<u8>, f: &FontRecord)
    ensures
        final(out)@ == old(out)@ + font_obj(*f),
{
    emit_obj_open(out, f.id);
    push_str(out, "<< /Type /Font /Subtype /Type1 /BaseFont /");
    push_bytes(out, f.name.as_slice());
    push_str(out, " /Encoding /");
    push_bytes(out, f.encoding.as_slice());
    push_str(out, " >>\n");
    emit_obj_close(out);
    proof {
        assert(out@ =~= old(out)@ + font_obj(*f));
    }
}

/// Append the object of the destination `dst`.
fn emit_dest(out: &mut Vec<u8>, dst: &Destination)
    ensures
        final(out)@ == old(out)@ + dest_obj(*dst),
{
    emit_obj_open(out, dst.id);
    push_str(out, "[");
    emit_ref(out, dst.page_id);
    push_str(out, " /XYZ ");
    push_i32_dec(out, dst.pos.x);
    push_str(out, " ");
    push_i32_dec(out, dst.pos.y);
    push_str(out, " ");
    push_u64_dec(out, dst.zoom as u64);
    push_str(out, "]\n");
    emit_obj_close(out);
    proof {
        assert(out@ =~= old(out)@ + dest_obj(*dst));
    }
}

/// Append the object of the annotation `a`.
#[verifier::rlimit(100)]
fn emit_annot(out: &mut Vec<u8>, a: &Annotation)
    ensures
        final(out)@ == old(out)@ + annot_obj(*a),
{
    let ghost x = out@;
    emit_obj_open(out, a.id);
    push_str(out, "<< /Type /Annot /Rect [");
    push_i32_dec(out, a.rect.lower_left.x);
    push_str(out, " ");
    push_i32_dec(out, a.rect.lower_left.y);
    push_str(out, " ");
    push_i32_dec(out, a.rect.upper_right.x);
    push_str(out, " ");
    push_i32_dec(out, a.rect.upper_right.y);
    push_str(out, "]");
    let ghost a1 = obj_open(a.id);
    let ghost a2 = ("<< /Type /Annot /Rect [").spec_bytes();
    let ghost a3 = dec_i32(a.rect.lower_left.x as int);
    let ghost a4 = (" ").spec_bytes();
    let ghost a5 = dec_i32(a.rect.lower_left.y as int);
    let ghost a6 = dec_i32(a.rect.upper_right.x as int);
    let ghost a7 = dec_i32(a.rect.upper_right.y as int);
    let ghost a8 = ("]").spec_bytes();
    let ghost acc = a1 + a2 + a3 + a4 + a5 + a4 + a6 + a4 + a7 + a8;
    proof {
        seq_assoc(x, a1, a2);
        seq_assoc(x, a1 + a2, a3);
        seq_assoc(x, a1 + a2 + a3, a4);
        seq_assoc(x, a1 + a2 + a3 + a4, a5);
        seq_assoc(x, a1 + a2 + a3 + a4 + a5, a4);
        seq_assoc(x, a1 + a2 + a3 + a4 + a5 + a4, a6);
        seq_assoc(x, a1 + a2 + a3 + a4 + a5 + a4 + a6, a4);
        seq_assoc(x, a1 + a2 + a3 + a4 + a5 + a4 + a6 + a4, a7);
        seq_assoc(x, a1 + a2 + a3 + a4 + a5 + a4 + a6 + a4 + a7, a8);
        assert(out@ == x + acc);
    }
    match &a.kind {
        AnnotKind::Link { dest_id, highlight, border } => {
            push_str(out, " /Subtype /Link /Dest ");
            emit_ref(out, *dest_id);
            push_str(out, " /H /");
            match highlight {
                HighlightMode::NoHighlight => push_str(out, "N"),
                HighlightMode::InvertBox => push_str(out, "I"),
                HighlightMode::InvertBorder => push_str(out, "O"),
                HighlightMode::DownAppearance => push_str(out, "P"),
            }
            push_str(out, " /Border [0 0 ");
            push_i32_dec(out, border.width);
            if border.dash_on > 0 {
                push_str(out, " [");
                push_u64_dec(out, border.dash_on as u64);
                push_str(out, " ");
                push_u64_dec(out, border.dash_off as u64);
                push_str(out, "]");
            }
            push_str(out, "]");
            proof {
                let b1 = (" /Subtype /Link /Dest ").spec_bytes();
                let b2 = ref_bytes(*dest_id);
                let b3 = (" /H /").spec_bytes();
                let b4 = highlight_bytes(*highlight);
                let b5 = (" /Border [0 0 ").spec_bytes();
                let b6 = dec_i32(border.width as int);
                let b7 = (if border.dash_on > 0 {
                    (" [").spec_bytes() + dec_u64(border.dash_on as nat) + (" ").spec_bytes()
                        + dec_u64(border.dash_off as nat) + ("]").spec_bytes()
                } else {
                    Seq::<u8>::empty()
                });
                let b8 = ("]").spec_bytes();
                if border.dash_on > 0 {
                    assert(out@ =~= x + acc + b1 + b2 + b3 + b4 + b5 + b6 + b7 + b8);
                } else {
                    assert(out@ =~= x + acc + b1 + b2 + b3 + b4 + b5 + b6 + b7 + b8);
                }
                seq_assoc(x, acc, b1);
                seq_assoc(x, acc + b1, b2);
                seq_assoc(x, acc + b1 + b2, b3);
                seq_assoc(x, acc + b1 + b2 + b3, b4);
                seq_assoc(x, acc + b1 + b2 + b3 + b4, b5);
                seq_assoc(x, acc + b1 + b2 + b3 + b4 + b5, b6);
                seq_assoc(x, acc + b1 + b2 + b3 + b4 + b5 + b6, b7);
                seq_assoc(x, acc + b1 + b2 + b3 + b4 + b5 + b6 + b7, b8);
                seq_assoc(acc, b1 + b2 + b3 + b4 + b5 + b6 + b7, b8);
                acc = acc + (b1 + b2 + b3 + b4 + b5 + b6 + b7 + b8);
            }
        },
        AnnotKind::Note { contents } => {
            push_str(out, " /Subtype /Text /Contents (");
            emit_escaped(out, contents.as_slice());
            push_str(out, ")");
            proof {
                let b1 = (" /Subtype /Text /Contents (").spec_bytes();
                let b2 = escape_string(contents@);
                let b3 = (")").spec_bytes();
                seq_assoc(x, acc, b1);
                seq_assoc(x, acc + b1, b2);
                seq_assoc(x, acc + b1 + b2, b3);
                acc = acc + (b1 + b2 + b3);
            }
        },
        AnnotKind::Uri { uri } => {
            push_str(out, " /Subtype /Link /A << /S /URI /URI (");
            emit_escaped(out, uri.as_slice());
            push_str(out, ") >>");
            proof {
                let b1 = (" /Subtype /Link /A << /S /URI /URI (").spec_bytes();
                let b2 = escape_string(uri@);
                let b3 = (") >>").spec_bytes();
                seq_assoc(x, acc, b1);
                seq_assoc(x, acc + b1, b2);
                seq_assoc(x, acc + b1 + b2, b3);
                acc = acc + (b1 + b2 + b3);
            }
        },
    }
    proof {
        assert(out@ == x + acc);
    }
    push_str(out, " >>\n");
    proof {
        seq_assoc(x, acc, (" >>\n").spec_bytes());
        acc = acc + (" >>\n").spec_bytes();
    }
    emit_obj_close(out);
    proof {
        seq_assoc(x, acc, obj_close());
        acc = acc + obj_close();
        assert(out@ == x + acc);
        assert(acc == annot_obj(*a));
    }
}

/// Append the object of the outline entry `node`.
#[verifier::rlimit(100)]
fn emit_outline(out: &mut Vec<u8>, d: &Document, node: &OutlineNode)
    ensures
        final(out)@ == old(out)@ + outline_obj(*d, *node),
{
    emit_obj_open(out, node.id);
    push_str(out, "<< /Title (");
    emit_escaped(out, node.title.as_slice());
    push_str(out, ") /Parent ");
    match node.parent {
        Some(p) => {
            if p < d.outlines.len() {
                emit_ref(out, d.outlines[p].id);
            } else {
                emit_ref(out, OUTLINE_ROOT_ID);
            }
        },
        None => emit_ref(out, OUTLINE_ROOT_ID),
    }
    match node.dest_id {
        Some(id) => {
            push_str(out, " /Dest ");
            emit_ref(out, id);
        },
        None => (),
    }
    push_str(out, " >>\n");
    emit_obj_close(out);
    proof {
        assert(out@ =~= old(out)@ + outline_obj(*d, *node));
    }
}

/// Append the object of the image `rec`.
#[verifier::rlimit(100)]
fn emit_image(out: &mut Vec<u8>, rec: &ImageRecord, compressed: bool)
    ensures
        final(out)@ == old(out)@ + image_obj(*rec, compressed),
{
    let body: Vec<u8> = if compressed {
        rle_compress(rec.data.as_slice())
    } else {
        let mut raw: Vec<u8> = Vec::new();
        push_bytes(&mut raw, rec.data.as_slice());
        raw
    };
    proof {
        assert(body@ =~= stream_body(rec.data@, compressed));
    }
    emit_obj_open(out, rec.id);
    push_str(out, "<< /Type /XObject /Subtype /Image /Width ");
    push_u64_dec(out, rec.width_px as u64);
    push_str(out, " /Height ");
    push_u64_dec(out, rec.height_px as u64);
    push_str(out, " /Length ");
    push_u64_dec(out, body.len() as u64);
    if compressed {
        push_str(out, " /Filter /RunLengthDecode");
    }
    push_str(out, " >>\nstream\n");
    push_bytes(out, body.as_slice());
    push_str(out, "\nendstream\nendobj\n");
    proof {
        assert(out@ =~= old(out)@ + image_obj(*rec, compressed));
    }
}

/// Decide whether every destination reference of `d` resolves.
fn check_refs(d: &Document) -> (r: bool)
    ensures
        r == refs_resolved(*d),
{
    match d.open_action {
        Some(id) => {
            if d.find_dest(id).is_none() {
                return false;
            }
        },
        None => (),
    }
    let n = d.annots.len();
    let mut i: usize = 0;
    while i < n
        invariant
            i <= n,
            n == d.annots@.len(),
            forall|j: int|
                0 <= j < i ==> ((#[trigger] d.annots@[j].kind) matches AnnotKind::Link {
                    dest_id,
                    ..
                } ==> dest_index(d.dests@, dest_id) < d.dests@.len()),
        decreases n - i,
    {
        let bad = match &d.annots[i].kind {
            AnnotKind::Link { dest_id, .. } => d.find_dest(*dest_id).is_none(),
            _ => false,
        };
        if bad {
            return false;
        }
        i = i + 1;
    }
    let m = d.outlines.len();
    let mut k: usize = 0;
    while k < m
        invariant
            k <= m,
            m == d.outlines@.len(),
            forall|j: int|
                0 <= j < k ==> ((#[trigger] d.outlines@[j].dest_id) matches Some(id) ==> dest_index(
                    d.dests@,
                    id,
                ) < d.dests@.len()),
        decreases m - k,
    {
        let bad = match d.outlines[k].dest_id {
            Some(id) => d.find_dest(id).is_none(),
            None => false,
        };
        if bad {
            return false;
        }
        k = k + 1;
    }
    true
}

/// One assembly step: after recording the cross-reference entry at the
/// current end of the output and appending the object bytes, the output
/// and the table describe the extended object list.
proof fn lemma_add_step(
    built: Seq<(u64, Seq<u8>)>,
    id: u64,
    chunk: Seq<u8>,
    pre_out: Seq<u8>,
    pre_xref: Seq<u8>,
    out_new: Seq<u8>,
    xref_new: Seq<u8>,
)
    requires
        pre_out == header_bytes() + cat_objs(built),
        pre_xref == xref_list(built, header_bytes().len()),
        out_new == pre_out + chunk,
        xref_new == pre_xref + xref_entry(id, pre_out.len()),
    ensures
        out_new == header_bytes() + cat_objs(built.push((id, chunk))),
        xref_new == xref_list(built.push((id, chunk)), header_bytes().len()),
{
    lemma_cat_objs_push(built, (id, chunk));
    lemma_xref_list_push(built, (id, chunk), header_bytes().len());
    seq_assoc(header_bytes(), cat_objs(built), chunk);
}

/// Where in the document's tables the object with a given reference
/// number lives.
enum FoundObj {
    /// A page object, at this position of the page list.
    PageAt(usize),
    /// A page's content stream, at this position of the page list.
    ContentAt(usize),
    /// A font object, at this position of the font table.
    FontAt(usize),
    /// A destination object, at this position of the destination table.
    DestAt(usize),
    /// An annotation object, at this position of the annotation table.
    AnnotAt(usize),
    /// An outline-entry object, at this position of the outline list.
    OutlineAt(usize),
    /// An image object, at this position of the image table.
    ImageAt(usize),
}

/// Search the document's tables for the object registered under the
/// given reference number, in the order [`object_bytes_for`] searches.
#[verifier::rlimit(100)]
fn find_object(d: &Document, id: u64) -> (r: Option<FoundObj>)
    ensures
        r is None ==> object_bytes_for(*d, id) is None,
        r matches Some(s) ==> (match s {
            FoundObj::PageAt(i) => i < d.pages@.len() && object_bytes_for(*d, id) == Some(
                page_obj(*d, d.pages@[i as int]),
            ),
            FoundObj::ContentAt(i) => i < d.pages@.len() && object_bytes_for(*d, id) == Some(
                content_obj(*d, d.pages@[i as int]),
            ),
            FoundObj::FontAt(i) => i < d.fonts@.len() && object_bytes_for(*d, id) == Some(
                font_obj(d.fonts@[i as int]),
            ),
            FoundObj::DestAt(i) => i < d.dests@.len() && object_bytes_for(*d, id) == Some(
                dest_obj(d.dests@[i as int]),
            ),
            FoundObj::AnnotAt(i) => i < d.annots@.len() && object_bytes_for(*d, id) == Some(
                annot_obj(d.annots@[i as int]),
            ),
            FoundObj::OutlineAt(i) => i < d.outlines@.len() && object_bytes_for(*d, id) == Some(
                outline_obj(*d, d.outlines@[i as int]),
            ),
            FoundObj::ImageAt(i) => i < d.images@.len() && object_bytes_for(*d, id) == Some(
                image_obj(d.images@[i as int], d.compression.image),
            ),
        }),
{
    let np = d.pages.len();
    let mut i: usize = 0;
    proof {
        assert(d.pages@.skip(0) =~= d.pages@);
    }
    while i < np
        invariant
            i <= np,
            np == d.pages@.len(),
            page_chunk_by_id(*d, d.pages@.skip(i as int), id) == page_chunk_by_id(
                *d,
                d.pages@,
                id,
            ),
        decreases np - i,
    {
        proof {
            assert(d.pages@.skip(i as int).first() == d.pages@[i as int]);
            assert(d.pages@.skip(i as int).drop_first() =~= d.pages@.skip(i as int + 1));
        }
        if d.pages[i].id == id {
            return Some(FoundObj::PageAt(i));
        }
        if d.pages[i].content_id == id {
            return Some(FoundObj::ContentAt(i));
        }
        i = i + 1;
    }
    proof {
        assert(d.pages@.skip(np as int) =~= Seq::<Page>::empty());
    }
    let nf = d.fonts.len();
    let mut i: usize = 0;
    proof {
        assert(d.fonts@.skip(0) =~= d.fonts@);
    }
    while i < nf
        invariant
            i <= nf,
            nf == d.fonts@.len(),
            page_chunk_by_id(*d, d.pages@, id) is None,
            font_chunk_by_id(d.fonts@.skip(i as int), id) == font_chunk_by_id(d.fonts@, id),
        decreases nf - i,
    {
        proof {
            assert(d.fonts@.skip(i as int).first() == d.fonts@[i as int]);
            assert(d.fonts@.skip(i as int).drop_first() =~= d.fonts@.skip(i as int + 1));
        }
        if d.fonts[i].id == id {
            return Some(FoundObj::FontAt(i));
        }
        i = i + 1;
    }
    proof {
        assert(d.fonts@.skip(nf as int) =~= Seq::<FontRecord>::empty());
    }
    let nd = d.dests.len();
    let mut i: usize = 0;
    proof {
        assert(d.dests@.skip(0) =~= d.dests@);
    }
    while i < nd
        invariant
            i <= nd,
            nd == d.dests@.len(),
            page_chunk_by_id(*d, d.pages@, id) is None,
            font_chunk_by_id(d.fonts@, id) is None,
            dest_chunk_by_id(d.dests@.skip(i as int), id) == dest_chunk_by_id(d.dests@, id),
        decreases nd - i,
    {
        proof {
            assert(d.dests@.skip(i as int).first() == d.dests@[i as int]);
            assert(d.dests@.skip(i as int).drop_first() =~= d.dests@.skip(i as int + 1));
        }
        if d.dests[i].id == id {
            return Some(FoundObj::DestAt(i));
        }
        i = i + 1;
    }
    proof {
        assert(d.dests@.skip(nd as int) =~= Seq::<Destination>::empty());
    }
    let na = d.annots.len();
    let mut i: usize = 0;
    proof {
        assert(d.annots@.skip(0) =~= d.annots@);
    }
    while i < na
        invariant
            i <= na,
            na == d.annots@.len(),
            page_chunk_by_id(*d, d.pages@, id) is None,
            font_chunk_by_id(d.fonts@, id) is None,
            dest_chunk_by_id(d.dests@, id) is None,
            annot_chunk_by_id(d.annots@.skip(i as int), id) == annot_chunk_by_id(d.annots@, id),
        decreases na - i,
    {
        proof {
            assert(d.annots@.skip(i as int).first() == d.annots@[i as int]);
            assert(d.annots@.skip(i as int).drop_first() =~= d.annots@.skip(i as int + 1));
        }
        if d.annots[i].id == id {
            return Some(FoundObj::AnnotAt(i));
        }
        i = i + 1;
    }
    proof {
        assert(d.annots@.skip(na as int) =~= Seq::<Annotation>::empty());
    }
    let no = d.outlines.len();
    let mut i: usize = 0;
    proof {
        assert(d.outlines@.skip(0) =~= d.outlines@);
    }
    while i < no
        invariant
            i <= no,
            no == d.outlines@.len(),
            page_chunk_by_id(*d, d.pages@, id) is None,
            font_chunk_by_id(d.fonts@, id) is None,
            dest_chunk_by_id(d.dests@, id) is None,
            annot_chunk_by_id(d.annots@, id) is None,
            outline_chunk_by_id(*d, d.outlines@.skip(i as int), id) == outline_chunk_by_id(
                *d,
                d.outlines@,
                id,
            ),
        decreases no - i,
    {
        proof {
            assert(d.outlines@.skip(i as int).first() == d.outlines@[i as int]);
            assert(d.outlines@.skip(i as int).drop_first() =~= d.outlines@.skip(i as int + 1));
        }
        if d.outlines[i].id == id {
            return Some(FoundObj::OutlineAt(i));
        }
        i = i + 1;
    }
    proof {
        assert(d.outlines@.skip(no as int) =~= Seq::<OutlineNode>::empty());
    }
    let ni = d.images.len();
    let mut i: usize = 0;
    proof {
        assert(d.images@.skip(0) =~= d.images@);
    }
    while i < ni
        invariant
            i <= ni,
            ni == d.images@.len(),
            page_chunk_by_id(*d, d.pages@, id) is None,
            font_chunk_by_id(d.fonts@, id) is None,
            dest_chunk_by_id(d.dests@, id) is None,
            annot_chunk_by_id(d.annots@, id) is None,
            outline_chunk_by_id(*d, d.outlines@, id) is None,
            image_chunk_by_id(d.images@.skip(i as int), d.compression.image, id)
                == image_chunk_by_id(d.images@, d.compression.image, id),
        decreases ni - i,
    {
        proof {
            assert(d.images@.skip(i as int).first() == d.images@[i as int]);
            assert(d.images@.skip(i as int).drop_first() =~= d.images@.skip(i as int + 1));
        }
        if d.images[i].id == id {
            return Some(FoundObj::ImageAt(i));
        }
        i = i + 1;
    }
    proof {
        assert(d.images@.skip(ni as int) =~= Seq::<ImageRecord>::empty());
    }
    None
}

/// Append every object of the document to `out`, the four reserved
/// objects first and then every created object in ascending
/// assigned-number order, recording each object's offset in `xref`.
#[verifier::rlimit(100)]
fn emit_all_objects(out: &mut Vec<u8>, xref: &mut Vec<u8>, d: &Document)
    requires
        doc_wf(*d),
        old(out)@ == header_bytes(),
        old(xref)@ == Seq::<u8>::empty(),
    ensures
        final(out)@ == header_bytes() + cat_objs(obj_list(*d)),
        final(xref)@ == xref_list(obj_list(*d), header_bytes().len()),
{
    let ghost mut built: Seq<(u64, Seq<u8>)> = Seq::<(u64, Seq<u8>)>::empty();
    proof {
        assert(cat_objs(built) == Seq::<u8>::empty());
        assert(out@ =~= header_bytes() + cat_objs(built));
        assert(xref@ =~= xref_list(built, header_bytes().len()));
    }
    // the four reserved objects
    let ghost pre_out = out@;
    let ghost pre_xref = xref@;
    record_xref(xref, CATALOG_ID, out.len());
    emit_catalog(out, d);
    proof {
        lemma_add_step(built, CATALOG_ID, catalog_obj(*d), pre_out, pre_xref, out@, xref@);
        built = built.push((CATALOG_ID, catalog_obj(*d)));
    }
    let ghost pre_out = out@;
    let ghost pre_xref = xref@;
    record_xref(xref, PAGES_ROOT_ID, out.len());
    emit_pages_root(out, d);
    proof {
        lemma_add_step(built, PAGES_ROOT_ID, pages_root_obj(*d), pre_out, pre_xref, out@, xref@);
        built = built.push((PAGES_ROOT_ID, pages_root_obj(*d)));
    }
    let ghost pre_out = out@;
    let ghost pre_xref = xref@;
    record_xref(xref, OUTLINE_ROOT_ID, out.len());
    emit_outline_root(out, d);
    proof {
        lemma_add_step(
            built,
            OUTLINE_ROOT_ID,
            outline_root_obj(*d),
            pre_out,
            pre_xref,
            out@,
            xref@,
        );
        built = built.push((OUTLINE_ROOT_ID, outline_root_obj(*d)));
    }
    let ghost pre_out = out@;
    let ghost pre_xref = xref@;
    record_xref(xref, INFO_ID, out.len());
    emit_info(out, d);
    proof {
        lemma_add_step(built, INFO_ID, info_obj(*d), pre_out, pre_xref, out@, xref@);
        built = built.push((INFO_ID, info_obj(*d)));
    }
    // the created objects, in ascending assigned-number order
    let ghost fixed = built;
    let mut id: u64 = FIRST_FREE_ID;
    proof {
        assert(ids_objs_upto(*d, FIRST_FREE_ID as int) =~= Seq::<(u64, Seq<u8>)>::empty());
        assert(built =~= fixed + ids_objs_upto(*d, FIRST_FREE_ID as int));
    }
    while id < d.next_id
        invariant
            FIRST_FREE_ID <= id <= d.next_id,
            built == fixed + ids_objs_upto(*d, id as int),
            out@ == header_bytes() + cat_objs(built),
            xref@ == xref_list(built, header_bytes().len()),
        decreases d.next_id - id,
    {
        match find_object(d, id) {
            Some(FoundObj::PageAt(i)) => {
                let ghost pre_out = out@;
                let ghost pre_xref = xref@;
                record_xref(xref, id, out.len());
                emit_page(out, d, &d.pages[i]);
                proof {
                    lemma_add_step(
                        built,
                        id,
                        page_obj(*d, d.pages@[i as int]),
                        pre_out,
                        pre_xref,
                        out@,
                        xref@,
                    );
                    built = built.push((id, page_obj(*d, d.pages@[i as int])));
                }
            },
            Some(FoundObj::ContentAt(i)) => {
                let ghost pre_out = out@;
                let ghost pre_xref = xref@;
                record_xref(xref, id, out.len());
                emit_content(out, d, &d.pages[i]);
                proof {
                    lemma_add_step(
                        built,
                        id,
                        content_obj(*d, d.pages@[i as int]),
                        pre_out,
                        pre_xref,
                        out@,
                        xref@,
                    );
                    built = built.push((id, content_obj(*d, d.pages@[i as int])));
                }
            },
            Some(FoundObj::FontAt(i)) => {
                let ghost pre_out = out@;
                let ghost pre_xref = xref@;
                record_xref(xref, id, out.len());
                emit_font(out, &d.fonts[i]);
                proof {
                    lemma_add_step(
                        built,
                        id,
                        font_obj(d.fonts@[i as int]),
                        pre_out,
                        pre_xref,
                        out@,
                        xref@,
                    );
                    built = built.push((id, font_obj(d.fonts@[i as int])));
                }
            },
            Some(FoundObj::DestAt(i)) => {
                let ghost pre_out = out@;
                let ghost pre_xref = xref@;
                record_xref(xref, id, out.len());
                emit_dest(out, &d.dests[i]);
                proof {
                    lemma_add_step(
                        built,
                        id,
                        dest_obj(d.dests@[i as int]),
                        pre_out,
                        pre_xref,
                        out@,
                        xref@,
                    );
                    built = built.push((id, dest_obj(d.dests@[i as int])));
                }
            },
            Some(FoundObj::AnnotAt(i)) => {
                let ghost pre_out = out@;
                let ghost pre_xref = xref@;
                record_xref(xref, id, out.len());
                emit_annot(out, &d.annots[i]);
                proof {
                    lemma_add_step(
                        built,
                        id,
                        annot_obj(d.annots@[i as int]),
                        pre_out,
                        pre_xref,
                        out@,
                        xref@,
                    );
                    built = built.push((id, annot_obj(d.annots@[i as int])));
                }
            },
            Some(FoundObj::OutlineAt(i)) => {
                let ghost pre_out = out@;
                let ghost pre_xref = xref@;
                record_xref(xref, id, out.len());
                emit_outline(out, d, &d.outlines[i]);
                proof {
                    lemma_add_step(
                        built,
                        id,
                        outline_obj(*d, d.outlines@[i as int]),
                        pre_out,
                        pre_xref,
                        out@,
                        xref@,
                    );
                    built = built.push((id, outline_obj(*d, d.outlines@[i as int])));
                }
            },
            Some(FoundObj::ImageAt(i)) => {
                let ghost pre_out = out@;
                let ghost pre_xref = xref@;
                record_xref(xref, id, out.len());
                emit_image(out, &d.images[i], d.compression.image);
                proof {
                    lemma_add_step(
                        built,
                        id,
                        image_obj(d.images@[i as int], d.compression.image),
                        pre_out,
                        pre_xref,
                        out@,
                        xref@,
                    );
                    built = built.push(
                        (id, image_obj(d.images@[i as int], d.compression.image)),
                    );
                }
            },
            None => {},
        }
        proof {
            assert(built =~= fixed + ids_objs_upto(*d, id as int + 1));
        }
        id = id + 1;
    }
    proof {
        assert(built =~= obj_list(*d));
    }
}

/// Assemble the complete byte stream of `d`: header, objects,
/// cross-reference table and trailer. Fails when the document has no
/// pages, or when an annotation, an outline entry or the open action
/// refers to a destination that was never registered — in which case
/// nothing is produced.
#[verifier::rlimit(100)]
pub fn document_bytes(d: &Document) -> (r: Result<Vec<u8>, ErrorKind>)
    requires
        doc_wf(*d),
    ensures
        d.pages@.len() == 0 ==> r == Err::<Vec<u8>, ErrorKind>(ErrorKind::SerializationError),
        d.pages@.len() > 0 && !refs_resolved(*d) ==> r == Err::<Vec<u8>, ErrorKind>(
            ErrorKind::DanglingReference,
        ),
        d.pages@.len() > 0 && refs_resolved(*d) ==> (r matches Ok(v) && v@ == serialized_bytes(*d)),
{
    if d.pages.len() == 0 {
        return Err(ErrorKind::SerializationError);
    }
    if !check_refs(d) {
        return Err(ErrorKind::DanglingReference);
    }
    let mut out: Vec<u8> = Vec::new();
    push_str(&mut out, "%PDF-1.4\n");
    let mut xref: Vec<u8> = Vec::new();
    proof {
        assert(out@ =~= header_bytes());
    }
    emit_all_objects(&mut out, &mut xref, d);
    // the cross-reference table and the trailer
    let xref_at = out.len();
    proof {
        assert(xref_at == header_bytes().len() + cat_objs(obj_list(*d)).len());
    }
    push_str(&mut out, "xref\n0 1\n0000000000 65535 f \n");
    push_bytes(&mut out, xref.as_slice());
    push_str(&mut out, "trailer\n<< /Size ");
    push_u64_dec(&mut out, d.next_id);
    push_str(&mut out, " /Root 1 0 R /Info 4 0 R >>\nstartxref\n");
    push_u64_dec(&mut out, xref_at as u64);
    push_str(&mut out, "\n%%EOF\n");
    proof {
        let x = header_bytes() + cat_objs(obj_list(*d));
        let b1 = xref_head();
        let b2 = xref_list(obj_list(*d), header_bytes().len());
        let b3 = ("trailer\n<< /Size ").spec_bytes();
        let b4 = dec_u64(d.next_id as nat);
        let b5 = (" /Root 1 0 R /Info 4 0 R >>\nstartxref\n").spec_bytes();
        let b6 = dec_u64(xref_at as nat);
        let b7 = ("\n%%EOF\n").spec_bytes();
        seq_assoc(x, b1, b2);
        seq_assoc(x, b1 + b2, b3);
        seq_assoc(x, b1 + b2 + b3, b4);
        seq_assoc(x, b1 + b2 + b3 + b4, b5);
        seq_assoc(x, b1 + b2 + b3 + b4 + b5, b6);
        seq_assoc(x, b1 + b2 + b3 + b4 + b5 + b6, b7);
        assert(out@ == x + (b1 + b2 + b3 + b4 + b5 + b6 + b7));
        assert(trailer_bytes(*d, xref_at as nat) == ((((b3 + b4) + b5) + b6) + b7));
        seq_assoc(b1, b2, trailer_bytes(*d, xref_at as nat));
        assert((b1 + b2 + b3 + b4 + b5 + b6 + b7) =~= b1 + b2 + trailer_bytes(*d, xref_at as nat));
        seq_assoc(x, b1, b2 + trailer_bytes(*d, xref_at as nat));
        assert(out@ =~= serialized_bytes(*d));
    }
    Ok(out)
}

impl Document {
    /// Assemble the document and keep the byte stream for reading; the
    /// read position is rewound. On failure nothing is written: the
    /// previously saved stream stays as it was.
    pub fn save_to_stream(&mut self) -> (r: Result<(), ErrorKind>)
        requires
            doc_wf(*old(self)),
        ensures
            doc_wf(*final(self)),
            old(self).pages@.len() == 0 ==> r == Err::<(), ErrorKind>(ErrorKind::SerializationError)
                && doc_logged(*old(self), *final(self), ErrorKind::SerializationError),
            old(self).pages@.len() > 0 && !refs_resolved(*old(self)) ==> r == Err::<(), ErrorKind>(
                ErrorKind::DanglingReference,
            ) && doc_logged(*old(self), *final(self), ErrorKind::DanglingReference),
            old(self).pages@.len() > 0 && refs_resolved(*old(self)) ==> r is Ok && *final(self)
                == (Document {
                stream: final(self).stream,
                read_pos: 0usize,
                ..*old(self)
            }) && final(self).stream@ == serialized_bytes(*old(self)),
    {
        let bytes = match document_bytes(self) {
            Ok(v) => v,
            Err(k) => {
                self.errors.push(k);
                return Err(k);
            },
        };
        self.stream = bytes;
        self.read_pos = 0;
        Ok(())
    }

    /// Assemble the document and hand the byte stream back without
    /// touching the document. A query: nothing is logged.
    pub fn get_contents(&self) -> (r: Result<Vec<u8>, ErrorKind>)
        requires
            doc_wf(*self),
        ensures
            self.pages@.len() == 0 ==> r == Err::<Vec<u8>, ErrorKind>(
                ErrorKind::SerializationError,
            ),
            self.pages@.len() > 0 && !refs_resolved(*self) ==> r == Err::<Vec<u8>, ErrorKind>(
                ErrorKind::DanglingReference,
            ),
            self.pages@.len() > 0 && refs_resolved(*self) ==> (r matches Ok(v) && v@
                == serialized_bytes(*self)),
    {
        document_bytes(self)
    }
}

} // verus!

