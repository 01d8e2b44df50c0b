//! The content-stream state machine: mode gating, operator emission, and
//! the scoped text and path helpers.

use pdfgen::{Document, ErrorKind, PaintKind, PathOp, Point, StreamMode, TextOp};

#[test]
fn text_operator_in_path_mode_fails_and_leaves_the_stream_unchanged() {
    let mut doc = Document::new();
    let p = doc.add_page().unwrap();
    doc.pages[p].move_to(10, 10).unwrap();
    assert_eq!(doc.pages[p].cs.mode, StreamMode::Path);
    let before = doc.pages[p].cs.buf.len();
    let r = doc.pages[p].show_text("hi");
    assert_eq!(r, Err(ErrorKind::WrongMode));
    assert_eq!(doc.pages[p].cs.buf.len(), before);
    assert_eq!(doc.pages[p].cs.mode, StreamMode::Path);
    assert_eq!(doc.pages[p].errors, vec![ErrorKind::WrongMode]);
}

#[test]
fn path_operator_in_text_mode_fails_and_leaves_the_stream_unchanged() {
    let mut doc = Document::new();
    let p = doc.add_page().unwrap();
    doc.pages[p].begin_text().unwrap();
    let before = doc.pages[p].cs.buf.clone();
    assert_eq!(doc.pages[p].move_to(1, 2), Err(ErrorKind::WrongMode));
    assert_eq!(doc.pages[p].line_to(3, 4), Err(ErrorKind::WrongMode));
    assert_eq!(doc.pages[p].cs.buf, before);
}

#[test]
fn text_block_emits_expected_operators() {
    let mut doc = Document::new();
    let p = doc.add_page().unwrap();
    let f = doc.font("Helvetica", None).unwrap();
    doc.pages[p].begin_text().unwrap();
    doc.pages[p].set_font_and_size(&f, 20).unwrap();
    doc.pages[p].move_text_pos(50, 150).unwrap();
    doc.pages[p].show_text("Page:1").unwrap();
    doc.pages[p].end_text().unwrap();
    let s = String::from_utf8(doc.pages[p].cs.buf.clone()).unwrap();
    assert_eq!(s, format!("BT\n/F{} 20 Tf\n50 150 Td\n(Page:1) Tj\nET\n", f.id));
}

#[test]
fn string_operands_are_escaped() {
    let mut doc = Document::new();
    let p = doc.add_page().unwrap();
    doc.pages[p].begin_text().unwrap();
    doc.pages[p].show_text("a(b)\\c").unwrap();
    doc.pages[p].end_text().unwrap();
    let s = String::from_utf8(doc.pages[p].cs.buf.clone()).unwrap();
    assert_eq!(s, "BT\n(a\\(b\\)\\\\c) Tj\nET\n");
}

#[test]
fn graphics_state_depth_is_tracked() {
    let mut doc = Document::new();
    let p = doc.add_page().unwrap();
    assert_eq!(doc.pages[p].grestore(), Err(ErrorKind::InvalidArgument));
    doc.pages[p].gsave().unwrap();
    doc.pages[p].gsave().unwrap();
    assert_eq!(doc.pages[p].cs.gs_depth, 2);
    doc.pages[p].grestore().unwrap();
    doc.pages[p].grestore().unwrap();
    assert_eq!(doc.pages[p].grestore(), Err(ErrorKind::InvalidArgument));
    let s = String::from_utf8(doc.pages[p].cs.buf.clone()).unwrap();
    assert_eq!(s, "q\nq\nQ\nQ\n");
}

#[test]
fn grestore_brings_back_the_saved_graphics_state() {
    let mut doc = Document::new();
    let p = doc.add_page().unwrap();
    let helvetica = doc.font("Helvetica", None).unwrap();
    let courier = doc.font("Courier", None).unwrap();
    doc.pages[p].set_font_and_size(&helvetica, 20).unwrap();
    doc.pages[p].set_text_leading(10).unwrap();
    doc.pages[p].gsave().unwrap();
    // change everything inside the saved block
    doc.pages[p].set_font_and_size(&courier, 30).unwrap();
    doc.pages[p].set_char_space(5).unwrap();
    doc.pages[p].set_word_space(6).unwrap();
    doc.pages[p].set_text_leading(40).unwrap();
    assert_eq!(doc.pages[p].current_font_size(), 30);
    // the restore brings back the state at the save
    doc.pages[p].grestore().unwrap();
    assert_eq!(doc.pages[p].current_font(), Ok(helvetica));
    assert_eq!(doc.pages[p].current_font_size(), 20);
    assert_eq!(doc.pages[p].char_space, 0);
    assert_eq!(doc.pages[p].word_space, 0);
    assert_eq!(doc.pages[p].text_leading(), 10);
    assert_eq!(doc.pages[p].line_width(), 1);
    // measurement uses the restored font and size again
    assert_eq!(doc.pages[p].text_width("m").unwrap(), 556 * 20);
    // with no saved state left, another restore fails and changes nothing
    assert_eq!(doc.pages[p].grestore(), Err(ErrorKind::InvalidArgument));
    assert_eq!(doc.pages[p].current_font_size(), 20);
}

#[test]
fn saved_graphics_states_nest() {
    let mut doc = Document::new();
    let p = doc.add_page().unwrap();
    let f = doc.font("Courier", None).unwrap();
    doc.pages[p].set_font_and_size(&f, 10).unwrap();
    doc.pages[p].gsave().unwrap();
    doc.pages[p].set_font_and_size(&f, 20).unwrap();
    doc.pages[p].gsave().unwrap();
    doc.pages[p].set_font_and_size(&f, 30).unwrap();
    doc.pages[p].grestore().unwrap();
    assert_eq!(doc.pages[p].current_font_size(), 20);
    doc.pages[p].grestore().unwrap();
    assert_eq!(doc.pages[p].current_font_size(), 10);
}

#[test]
fn text_positions_follow_moves_and_leading() {
    let mut doc = Document::new();
    let p = doc.add_page().unwrap();
    doc.pages[p].begin_text().unwrap();
    doc.pages[p].set_text_leading(23).unwrap();
    doc.pages[p].move_text_pos(20, 180).unwrap();
    assert_eq!(doc.pages[p].current_text_pos(), Point { x: 20, y: 180 });
    doc.pages[p].move_to_next_line().unwrap();
    assert_eq!(doc.pages[p].current_text_pos(), Point { x: 20, y: 157 });
    doc.pages[p].move_text_pos(-5, 3).unwrap();
    assert_eq!(doc.pages[p].current_text_pos(), Point { x: 15, y: 160 });
    assert_eq!(doc.pages[p].text_leading(), 23);
    doc.pages[p].end_text().unwrap();
}

#[test]
fn run_text_mode_closes_the_block_on_success() {
    let mut doc = Document::new();
    let p = doc.add_page().unwrap();
    let f = doc.font("Helvetica", None).unwrap();
    let ops = vec![
        TextOp::SetFontAndSize(f, 10),
        TextOp::MoveTextPos(15, 200),
        TextOp::ShowText(b"Link Annotation Demo".to_vec()),
    ];
    doc.pages[p].run_text_mode(&ops).unwrap();
    assert_eq!(doc.pages[p].cs.mode, StreamMode::Idle);
    let s = String::from_utf8(doc.pages[p].cs.buf.clone()).unwrap();
    assert_eq!(
        s,
        format!("BT\n/F{} 10 Tf\n15 200 Td\n(Link Annotation Demo) Tj\nET\n", f.id)
    );
}

#[test]
fn run_text_mode_closes_the_block_on_failure() {
    let mut doc = Document::new();
    let p = doc.add_page().unwrap();
    let f = doc.font("Helvetica", None).unwrap();
    let ops = vec![
        TextOp::MoveTextPos(5, 6),
        TextOp::SetFontAndSize(f, 0),  // rejected: size zero
        TextOp::ShowText(b"never shown".to_vec()),
    ];
    let r = doc.pages[p].run_text_mode(&ops);
    assert_eq!(r, Err(ErrorKind::InvalidArgument));
    assert_eq!(doc.pages[p].cs.mode, StreamMode::Idle);
    let s = String::from_utf8(doc.pages[p].cs.buf.clone()).unwrap();
    // the operators before the rejected one took effect; the block is closed
    assert_eq!(s, "BT\n5 6 Td\nET\n");
    assert_eq!(doc.pages[p].current_text_pos(), Point { x: 5, y: 6 });
    assert_eq!(doc.pages[p].errors, vec![ErrorKind::InvalidArgument]);
}

#[test]
fn run_path_mode_paints_and_returns_to_idle() {
    let mut doc = Document::new();
    let p = doc.add_page().unwrap();
    let ops = vec![PathOp::LineTo(100, 0), PathOp::LineTo(100, 50), PathOp::MoveTo(0, 0)];
    doc.pages[p]
        .run_path_mode(Point { x: 10, y: 20 }, &ops, PaintKind::Stroke)
        .unwrap();
    assert_eq!(doc.pages[p].cs.mode, StreamMode::Idle);
    assert_eq!(doc.pages[p].current_pos(), Point { x: 0, y: 0 });
    let s = String::from_utf8(doc.pages[p].cs.buf.clone()).unwrap();
    assert_eq!(s, "10 20 m\n100 0 l\n100 50 l\n0 0 m\nS\n");
}

#[test]
fn a_rectangle_starts_a_path_and_is_painted() {
    let mut doc = Document::new();
    let p = doc.add_page().unwrap();
    doc.pages[p].rect(10, 20, 100, 50).unwrap();
    assert_eq!(doc.pages[p].cs.mode, StreamMode::Path);
    doc.pages[p].end_path(PaintKind::FillStroke).unwrap();
    let s = String::from_utf8(doc.pages[p].cs.buf.clone()).unwrap();
    assert_eq!(s, "10 20 100 50 re\nB\n");
    doc.pages[p].begin_text().unwrap();
    assert_eq!(doc.pages[p].rect(0, 0, 1, 1), Err(ErrorKind::WrongMode));
}

#[test]
fn clear_dash_and_leading_are_allowed_outside_a_path() {
    let mut doc = Document::new();
    let p = doc.add_page().unwrap();
    doc.pages[p].clear_dash().unwrap();
    doc.pages[p].set_text_leading(12).unwrap();
    doc.pages[p].move_to(0, 0).unwrap();
    assert_eq!(doc.pages[p].clear_dash(), Err(ErrorKind::WrongMode));
    doc.pages[p].end_path(PaintKind::Discard).unwrap();
    let s = String::from_utf8(doc.pages[p].cs.buf.clone()).unwrap();
    assert_eq!(s, "[] 0 d\n12 TL\n0 0 m\nn\n");
}

#[test]
fn current_font_reports_the_selection() {
    let mut doc = Document::new();
    let p = doc.add_page().unwrap();
    assert_eq!(doc.pages[p].current_font(), Err(ErrorKind::UnknownFont));
    assert_eq!(doc.pages[p].current_font_size(), 0);
    let f = doc.font("Times-Roman", None).unwrap();
    doc.pages[p].set_font_and_size(&f, 14).unwrap();
    assert_eq!(doc.pages[p].current_font(), Ok(f));
    assert_eq!(doc.pages[p].current_font_size(), 14);
    assert_eq!(doc.pages[p].set_font_and_size(&f, 0), Err(ErrorKind::InvalidArgument));
    assert_eq!(doc.pages[p].current_font_size(), 14);
}

#[test]
fn line_width_and_fill_color_report_defaults() {
    let mut doc = Document::new();
    let p = doc.add_page().unwrap();
    assert_eq!(doc.pages[p].line_width(), 1);
    assert_eq!(doc.pages[p].rgb_fill(), pdfgen::Color { red: 0, green: 0, blue: 0 });
}
