//! Text measurement: widths, fitting offsets, word wrap and character
//! boundaries.

use pdfgen::{Document, ErrorKind};

#[test]
fn unbounded_width_returns_whole_length_and_text_width() {
    let mut doc = Document::new();
    let p = doc.add_page().unwrap();
    let f = doc.font("Helvetica", None).unwrap();
    doc.pages[p].set_font_and_size(&f, 10).unwrap();
    // H advances 722 thousandths, e l l o advance 556 each
    let expected = (722 + 4 * 556) * 10;
    assert_eq!(doc.pages[p].text_width("Hello").unwrap(), expected);
    let (off, w) = doc.pages[p].measure_text("Hello", u128::MAX, false).unwrap();
    assert_eq!(off, "Hello".len());
    assert_eq!(w, expected);
}

#[test]
fn fixed_pitch_fonts_advance_six_hundred_per_glyph() {
    let mut doc = Document::new();
    let p = doc.add_page().unwrap();
    let f = doc.font("Courier", None).unwrap();
    doc.pages[p].set_font_and_size(&f, 12).unwrap();
    assert_eq!(doc.pages[p].text_width("abc").unwrap(), 3 * 600 * 12);
}

#[test]
fn measuring_without_a_font_fails() {
    let mut doc = Document::new();
    let p = doc.add_page().unwrap();
    assert_eq!(doc.pages[p].text_width("x"), Err(ErrorKind::UnknownFont));
    assert_eq!(
        doc.pages[p].measure_text("x", u128::MAX, false),
        Err(ErrorKind::UnknownFont)
    );
}

#[test]
fn measure_returns_longest_fitting_prefix() {
    let mut doc = Document::new();
    let p = doc.add_page().unwrap();
    let f = doc.font("Courier", None).unwrap();
    doc.pages[p].set_font_and_size(&f, 1).unwrap();
    // every byte advances 600: a width of 4200 admits exactly 7 bytes
    let (off, w) = doc.pages[p].measure_text("hello world", 4200, false).unwrap();
    assert_eq!(off, 7);
    assert_eq!(w, 4200);
    // one unit less admits only 6
    let (off, _) = doc.pages[p].measure_text("hello world", 4199, false).unwrap();
    assert_eq!(off, 6);
}

#[test]
fn narrowing_the_width_never_increases_the_offset() {
    let mut doc = Document::new();
    let p = doc.add_page().unwrap();
    let f = doc.font("Helvetica", None).unwrap();
    doc.pages[p].set_font_and_size(&f, 3).unwrap();
    let text = "The quick brown fox";
    let mut previous = usize::MAX;
    let mut width = 40000u128;
    while width > 0 {
        let (off, _) = doc.pages[p].measure_text(text, width, false).unwrap();
        assert!(off <= previous);
        previous = off;
        width = width / 2;
    }
}

#[test]
fn word_wrap_pulls_back_to_the_preceding_space() {
    let mut doc = Document::new();
    let p = doc.add_page().unwrap();
    let f = doc.font("Courier", None).unwrap();
    doc.pages[p].set_font_and_size(&f, 1).unwrap();
    // 8 bytes of "hello world" fit; wrapping breaks right after the space
    let (off, _) = doc.pages[p].measure_text("hello world", 8 * 600, true).unwrap();
    assert_eq!(off, 6);
    // when no space precedes, the offset is pulled back to zero
    let (off, _) = doc.pages[p].measure_text("unbreakable", 8 * 600, true).unwrap();
    assert_eq!(off, 0);
    // a text that fits whole is never pulled back
    let (off, _) = doc.pages[p].measure_text("hello world", 11 * 600, true).unwrap();
    assert_eq!(off, 11);
}

#[test]
fn measure_never_splits_a_multibyte_character() {
    let mut doc = Document::new();
    let p = doc.add_page().unwrap();
    let f = doc.font("Courier", None).unwrap();
    doc.pages[p].set_font_and_size(&f, 1).unwrap();
    let text = "h\u{e9}llo";  // the accented e encodes as two bytes
    assert_eq!(text.len(), 6);
    // two bytes fit, but the second is mid-character: pulled back to 1
    let (off, _) = doc.pages[p].measure_text(text, 2 * 600, false).unwrap();
    assert_eq!(off, 1);
    assert!(text.is_char_boundary(off));
    // three bytes fit: the boundary after the accented e
    let (off, _) = doc.pages[p].measure_text(text, 3 * 600, false).unwrap();
    assert_eq!(off, 3);
    assert!(text.is_char_boundary(off));
}

#[test]
fn byte_measurement_keeps_raw_offsets() {
    let mut doc = Document::new();
    let p = doc.add_page().unwrap();
    let f = doc.font("Courier", None).unwrap();
    doc.pages[p].set_font_and_size(&f, 1).unwrap();
    let bytes = "h\u{e9}llo".as_bytes();
    let (off, _) = doc.pages[p].measure_text_bytes(bytes, 2 * 600, false).unwrap();
    assert_eq!(off, 2);
}

#[test]
fn spacing_adds_to_the_advance() {
    let mut doc = Document::new();
    let p = doc.add_page().unwrap();
    let f = doc.font("Courier", None).unwrap();
    doc.pages[p].set_font_and_size(&f, 1).unwrap();
    let base = doc.pages[p].text_width("a b").unwrap();
    doc.pages[p].set_char_space(7).unwrap();
    doc.pages[p].set_word_space(11).unwrap();
    let spaced = doc.pages[p].text_width("a b").unwrap();
    // three glyphs pay the character spacing; the one space pays the word
    // spacing on top
    assert_eq!(spaced, base + 3 * 7 + 11);
}
