//! Serialization: the byte stream, its cross-reference table, compression,
//! destination resolution, and the stream reading interface.

use pdfgen::compress::{rle_compress, rle_decompress};
use pdfgen::{
    CompressionMode, Destination, Document, ErrorKind, Metadata, PageNumStyle, Point, Rectangle,
    TextOp,
};

fn find(haystack: &[u8], needle: &[u8]) -> Option<usize> {
    if needle.is_empty() || haystack.len() < needle.len() {
        return None;
    }
    (0..=haystack.len() - needle.len()).find(|&i| &haystack[i..i + needle.len()] == needle)
}

fn count(haystack: &[u8], needle: &[u8]) -> usize {
    let mut n = 0;
    let mut at = 0;
    while let Some(i) = find(&haystack[at..], needle) {
        n += 1;
        at += i + needle.len();
    }
    n
}

/// The body of the stream object numbered `id`, read back out of the
/// serialized bytes by a reader of the emitted grammar.
fn read_stream_object(bytes: &[u8], id: u64) -> Vec<u8> {
    let open = format!("{} 0 obj\n", id);
    let at = find(bytes, open.as_bytes()).expect("object not found");
    let rest = &bytes[at..];
    let start = find(rest, b"stream\n").expect("stream keyword not found") + b"stream\n".len();
    let end = find(rest, b"\nendstream").expect("endstream keyword not found");
    rest[start..end].to_vec()
}

#[test]
fn a_saved_document_reads_back_its_page_and_text() {
    let mut doc = Document::new();
    let p = doc.add_page().unwrap();
    doc.pages[p].set_width(200).unwrap();
    doc.pages[p].set_height(200).unwrap();
    let font = doc.font("Helvetica", None).unwrap();
    let ops = vec![
        TextOp::SetFontAndSize(font, 20),
        TextOp::MoveTextPos(50, 150),
        TextOp::ShowText(b"Page:1".to_vec()),
    ];
    doc.pages[p].run_text_mode(&ops).unwrap();
    doc.save_to_stream().unwrap();
    let bytes = doc.stream.clone();
    // the stream parses back to exactly one page of size 200 by 200
    assert!(bytes.starts_with(b"%PDF-1.4\n"));
    assert!(bytes.ends_with(b"%%EOF\n"));
    assert_eq!(count(&bytes, b"/Type /Page /Parent"), 1);
    assert_eq!(count(&bytes, b"/MediaBox [0 0 200 200]"), 1);
    assert_eq!(count(&bytes, b"/Count 1"), 1);
    // with a text-showing operator carrying the string
    let content = read_stream_object(&bytes, doc.pages[p].content_id);
    assert!(find(&content, b"(Page:1) Tj").is_some());
    let tf = format!("/F{} 20 Tf", font.id);
    assert!(find(&content, tf.as_bytes()).is_some());
    // the cross-reference table records every object
    assert!(find(&bytes, b"xref\n0 1\n0000000000 65535 f \n").is_some());
    assert!(find(&bytes, b"startxref\n").is_some());
    assert!(find(&bytes, b"trailer\n<< /Size 8 /Root 1 0 R /Info 4 0 R >>").is_some());
}

#[test]
fn the_recorded_offsets_point_at_their_objects() {
    let mut doc = Document::new();
    let p = doc.add_page().unwrap();
    doc.save_to_stream().unwrap();
    let bytes = doc.stream.clone();
    for id in [1u64, 2, 3, 4, doc.pages[p].id, doc.pages[p].content_id] {
        let entry_head = format!("{} 1\n", id);
        let at = find(&bytes, entry_head.as_bytes()).expect("entry not found");
        let off_text = &bytes[at + entry_head.len()..at + entry_head.len() + 10];
        let offset: usize = String::from_utf8(off_text.to_vec()).unwrap().parse().unwrap();
        let open = format!("{} 0 obj\n", id);
        assert_eq!(find(&bytes[offset..], open.as_bytes()), Some(0));
    }
}

#[test]
fn objects_are_emitted_in_ascending_reference_number_order() {
    // interleave creations across kinds so that creation order grouped by
    // kind would not be number-sorted
    let mut doc = Document::new();
    let a = doc.add_page().unwrap();  // ids 5 and 6
    let _f1 = doc.font("Helvetica", None).unwrap();  // id 7
    let _b = doc.add_page().unwrap();  // ids 8 and 9
    let dst = doc.create_destination(a, Point { x: 0, y: 0 }, 0).unwrap();  // id 10
    let _f2 = doc.font("Courier", None).unwrap();  // id 11
    doc.link_annot(a, Rectangle::default(), &dst).unwrap();  // id 12
    doc.create_outline("Index", None).unwrap();  // id 13
    let _c = doc.add_page().unwrap();  // ids 14 and 15
    doc.save_to_stream().unwrap();
    let bytes = doc.stream.clone();
    let mut previous = None;
    for id in 1..doc.next_id {
        let open = format!("{} 0 obj\n", id);
        let at = find(&bytes, open.as_bytes()).expect("object not found");
        if let Some(prev) = previous {
            assert!(at > prev, "object {} out of order", id);
        }
        previous = Some(at);
    }
}

#[test]
fn saving_an_empty_document_fails() {
    let mut doc = Document::new();
    assert_eq!(doc.save_to_stream(), Err(ErrorKind::SerializationError));
    assert_eq!(doc.errors, vec![ErrorKind::SerializationError]);
    assert_eq!(doc.get_stream_size(), 0);
}

#[test]
fn a_dangling_link_target_fails_the_save_and_writes_nothing() {
    let mut doc = Document::new();
    let p = doc.add_page().unwrap();
    let fake = Destination { id: 444, page_id: doc.pages[p].id, pos: Point { x: 0, y: 0 }, zoom: 0 };
    doc.link_annot(p, Rectangle::default(), &fake).unwrap();
    assert_eq!(doc.save_to_stream(), Err(ErrorKind::DanglingReference));
    assert_eq!(doc.get_stream_size(), 0);
}

#[test]
fn a_registered_destination_resolves_to_its_page() {
    let mut doc = Document::new();
    let index_page = doc.add_page().unwrap();
    let target_page = doc.add_page().unwrap();
    let dst = doc.create_destination(target_page, Point { x: 0, y: 700 }, 0).unwrap();
    doc.link_annot(
        index_page,
        Rectangle {
            lower_left: Point { x: 16, y: 176 },
            upper_right: Point { x: 110, y: 190 },
        },
        &dst,
    )
    .unwrap();
    // no dangling reference: the save succeeds
    doc.save_to_stream().unwrap();
    let bytes = doc.stream.clone();
    // the link names the destination, and the destination names the page
    let link = format!("/Subtype /Link /Dest {} 0 R /H /N /Border [0 0 0]", dst.id);
    assert_eq!(count(&bytes, link.as_bytes()), 1);
    let dest_obj = format!("{} 0 obj\n[{} 0 R /XYZ 0 700 0]", dst.id, doc.pages[target_page].id);
    assert_eq!(count(&bytes, dest_obj.as_bytes()), 1);
}

#[test]
fn enabling_text_compression_twice_equals_enabling_it_once() {
    let build = |twice: bool| -> Vec<u8> {
        let mut doc = Document::new();
        let p = doc.add_page().unwrap();
        let f = doc.font("Helvetica", None).unwrap();
        doc.pages[p].set_font_and_size(&f, 12).unwrap();
        doc.pages[p].begin_text().unwrap();
        doc.pages[p].show_text("aaaa bbbb").unwrap();
        doc.pages[p].end_text().unwrap();
        doc.set_compression_mode(CompressionMode::text()).unwrap();
        if twice {
            doc.set_compression_mode(CompressionMode::text()).unwrap();
        }
        doc.get_contents().unwrap()
    };
    assert_eq!(build(false), build(true));
}

#[test]
fn compressed_content_streams_decode_to_the_operators() {
    let mut doc = Document::new();
    let p = doc.add_page().unwrap();
    doc.pages[p].begin_text().unwrap();
    doc.pages[p].show_text("ssssssssssssssssssss").unwrap();
    doc.pages[p].end_text().unwrap();
    let plain = doc.pages[p].cs.buf.clone();
    doc.set_compression_mode(CompressionMode::text()).unwrap();
    doc.save_to_stream().unwrap();
    assert!(find(&doc.stream, b"/Filter /RunLengthDecode").is_some());
    let body = read_stream_object(&doc.stream, doc.pages[p].content_id);
    assert!(body.len() < plain.len());
    assert_eq!(rle_decompress(&body), plain);
}

#[test]
fn the_run_length_filter_round_trips() {
    let cases: Vec<Vec<u8>> = vec![
        Vec::new(),
        b"a".to_vec(),
        b"aaaaaaa".to_vec(),
        b"abcabc".to_vec(),
        b"aaabbbcccd".to_vec(),
        vec![128; 300],
        (0u16..=255).map(|b| b as u8).collect(),
    ];
    for case in cases {
        let encoded = rle_compress(&case);
        assert_eq!(*encoded.last().unwrap(), 128);
        assert_eq!(rle_decompress(&encoded), case);
    }
}

#[test]
fn compression_modes_encode_their_bits() {
    assert_eq!(CompressionMode::none().bits(), 0);
    assert_eq!(CompressionMode::text().bits(), 1);
    assert_eq!(CompressionMode::image().bits(), 2);
    assert_eq!(CompressionMode::metadata().bits(), 4);
    assert_eq!(CompressionMode::all().bits(), 7);
    assert_eq!(CompressionMode::text().union(CompressionMode::image()).bits(), 3);
    assert_eq!(CompressionMode::all().intersect(CompressionMode::text()).bits(), 1);
    assert_eq!(
        CompressionMode::text().union(CompressionMode::image()).union(CompressionMode::metadata()),
        CompressionMode::all()
    );
}

#[test]
fn file_attributes_overwrite_by_key_and_serialize() {
    let mut doc = Document::new();
    let _p = doc.add_page().unwrap();
    doc.set_file_attr(Metadata::Title, "First").unwrap();
    doc.set_file_attr(Metadata::Author, "Someone").unwrap();
    doc.set_file_attr(Metadata::Title, "Second").unwrap();
    assert_eq!(doc.metadata.len(), 2);
    doc.save_to_stream().unwrap();
    assert_eq!(count(&doc.stream, b"/Title (Second)"), 1);
    assert_eq!(count(&doc.stream, b"/Title (First)"), 0);
    assert_eq!(count(&doc.stream, b"/Author (Someone)"), 1);
}

#[test]
fn page_labels_serialize_into_the_catalog() {
    let mut doc = Document::new();
    let _p = doc.add_page().unwrap();
    doc.add_page_label(0, PageNumStyle::LowerRoman, 1, None).unwrap();
    doc.add_page_label(4, PageNumStyle::Decimal, 2, Some("S-")).unwrap();
    assert_eq!(
        doc.add_page_label(9, PageNumStyle::Decimal, 0, None),
        Err(ErrorKind::InvalidArgument)
    );
    doc.save_to_stream().unwrap();
    assert!(find(
        &doc.stream,
        b"/PageLabels << /Nums [ 0 << /S /r /St 1 /P () >> 4 << /S /D /St 2 /P (S-) >> ] >>"
    )
    .is_some());
}

#[test]
fn the_open_action_and_display_choices_serialize_into_the_catalog() {
    let mut doc = Document::new();
    let p = doc.add_page().unwrap();
    let dst = doc.create_destination(p, Point { x: 0, y: 0 }, 0).unwrap();
    doc.set_open_action(&dst).unwrap();
    doc.set_page_mode(pdfgen::PageMode::FullScreen).unwrap();
    doc.set_page_layout(pdfgen::PageLayout::OneColumn).unwrap();
    doc.save_to_stream().unwrap();
    let needle = format!(
        "/PageMode /FullScreen /PageLayout /OneColumn /OpenAction {} 0 R",
        dst.id
    );
    assert!(find(&doc.stream, needle.as_bytes()).is_some());
}

#[test]
fn fonts_serialize_with_name_and_encoding() {
    let mut doc = Document::new();
    let _p = doc.add_page().unwrap();
    let f = doc.font("Times-Bold", Some("WinAnsiEncoding")).unwrap();
    doc.save_to_stream().unwrap();
    let needle = format!(
        "{} 0 obj\n<< /Type /Font /Subtype /Type1 /BaseFont /Times-Bold /Encoding /WinAnsiEncoding >>",
        f.id
    );
    assert!(find(&doc.stream, needle.as_bytes()).is_some());
}

#[test]
fn images_parse_register_and_serialize() {
    let mut doc = Document::new();
    let p = doc.add_page().unwrap();
    // a PNG header declaring three by two pixels
    let mut png: Vec<u8> = vec![137, 80, 78, 71, 13, 10, 26, 10];
    png.extend_from_slice(&[0, 0, 0, 13]);
    png.extend_from_slice(b"IHDR");
    png.extend_from_slice(&[0, 0, 0, 3, 0, 0, 0, 2]);
    png.extend_from_slice(&[8, 2, 0, 0, 0]);
    let img = doc.load_png_image(&png).unwrap();
    assert_eq!((img.width_px, img.height_px), (3, 2));
    doc.pages[p].draw_image(&img, Point { x: 10, y: 20 }, 30, 20).unwrap();
    assert_eq!(
        doc.pages[p].draw_image(&img, Point { x: 0, y: 0 }, 0, 5),
        Err(ErrorKind::InvalidArgument)
    );
    doc.save_to_stream().unwrap();
    assert!(find(&doc.stream, b"/Type /XObject /Subtype /Image /Width 3 /Height 2").is_some());
    let s = String::from_utf8(doc.pages[p].cs.buf.clone()).unwrap();
    assert_eq!(s, format!("q 30 0 0 20 10 20 cm /I{} Do Q\n", img.id));
    // malformed image data is rejected
    assert_eq!(doc.load_png_image(b"not a png"), Err(ErrorKind::InvalidArgument));
}

#[test]
fn the_saved_stream_reads_back_in_chunks() {
    let mut doc = Document::new();
    let _p = doc.add_page().unwrap();
    doc.save_to_stream().unwrap();
    let total = doc.get_stream_size();
    assert!(total > 0);
    let first = doc.read_from_stream(9);
    assert_eq!(first, b"%PDF-1.4\n".to_vec());
    let rest = doc.read_from_stream(usize::MAX);
    assert_eq!(rest.len(), total - 9);
    assert_eq!(doc.read_from_stream(10), Vec::<u8>::new());
    doc.reset_stream().unwrap();
    let again = doc.read_from_stream(9);
    assert_eq!(again, first);
    let mut whole = first;
    whole.extend_from_slice(&rest);
    assert_eq!(whole, doc.stream);
}

#[test]
fn get_contents_matches_the_saved_stream_and_leaves_the_document_alone() {
    let mut doc = Document::new();
    let _p = doc.add_page().unwrap();
    let contents = doc.get_contents().unwrap();
    assert_eq!(doc.get_stream_size(), 0);
    doc.save_to_stream().unwrap();
    assert_eq!(contents, doc.stream);
}
