//! Page creation, sizing and rotation.

use pdfgen::{Document, ErrorKind, PageDirection, PageSize};

#[test]
fn page_size_round_trips() {
    let mut doc = Document::new();
    let p = doc.add_page().unwrap();
    doc.pages[p].set_width(300).unwrap();
    doc.pages[p].set_height(400).unwrap();
    assert_eq!(doc.pages[p].width(), 300);
    assert_eq!(doc.pages[p].height(), 400);
}

#[test]
fn page_size_round_trips_for_many_pairs() {
    let mut doc = Document::new();
    let p = doc.add_page().unwrap();
    let pairs = [(1, 1), (200, 200), (612, 792), (14400, 14400), (i32::MAX, 7)];
    for (w, h) in pairs {
        doc.pages[p].set_width(w).unwrap();
        doc.pages[p].set_height(h).unwrap();
        assert_eq!(doc.pages[p].width(), w);
        assert_eq!(doc.pages[p].height(), h);
    }
}

#[test]
fn nonpositive_width_is_rejected_and_logged() {
    let mut doc = Document::new();
    let p = doc.add_page().unwrap();
    doc.pages[p].set_width(250).unwrap();
    let r = doc.pages[p].set_width(0);
    assert_eq!(r, Err(ErrorKind::InvalidArgument));
    let r = doc.pages[p].set_width(-10);
    assert_eq!(r, Err(ErrorKind::InvalidArgument));
    assert_eq!(doc.pages[p].width(), 250);
    assert_eq!(
        doc.pages[p].errors,
        vec![ErrorKind::InvalidArgument, ErrorKind::InvalidArgument]
    );
}

#[test]
fn default_page_is_letter_sized() {
    let mut doc = Document::new();
    let p = doc.add_page().unwrap();
    assert_eq!(doc.pages[p].width(), 612);
    assert_eq!(doc.pages[p].height(), 792);
}

#[test]
fn preset_sizes_and_directions() {
    let mut doc = Document::new();
    let p = doc.add_page().unwrap();
    doc.pages[p].set_size(PageSize::A4, PageDirection::Portrait).unwrap();
    assert_eq!((doc.pages[p].width(), doc.pages[p].height()), (595, 842));
    doc.pages[p].set_size(PageSize::A4, PageDirection::Landscape).unwrap();
    assert_eq!((doc.pages[p].width(), doc.pages[p].height()), (842, 595));
    doc.pages[p].set_size(PageSize::Letter, PageDirection::Portrait).unwrap();
    assert_eq!((doc.pages[p].width(), doc.pages[p].height()), (612, 792));
    doc.pages[p].set_size(PageSize::Comm10, PageDirection::Portrait).unwrap();
    assert_eq!((doc.pages[p].width(), doc.pages[p].height()), (297, 684));
}

#[test]
fn rotation_must_be_a_multiple_of_ninety() {
    let mut doc = Document::new();
    let p = doc.add_page().unwrap();
    doc.pages[p].set_rotate(90).unwrap();
    assert_eq!(doc.pages[p].rotate, 90);
    doc.pages[p].set_rotate(450).unwrap();
    assert_eq!(doc.pages[p].rotate, 90);
    assert_eq!(doc.pages[p].set_rotate(45), Err(ErrorKind::InvalidArgument));
    assert_eq!(doc.pages[p].rotate, 90);
}

#[test]
fn reference_numbers_are_monotonic_and_never_reused() {
    let mut doc = Document::new();
    let a = doc.add_page().unwrap();
    let b = doc.add_page().unwrap();
    assert_eq!(doc.pages[a].id, 5);
    assert_eq!(doc.pages[a].content_id, 6);
    assert_eq!(doc.pages[b].id, 7);
    assert_eq!(doc.pages[b].content_id, 8);
    let f = doc.font("Helvetica", None).unwrap();
    assert_eq!(f.id, 9);
    let d = doc.create_destination(a, pdfgen::Point { x: 0, y: 0 }, 0).unwrap();
    assert_eq!(d.id, 10);
}

#[test]
fn current_page_follows_creation() {
    let mut doc = Document::new();
    assert_eq!(doc.current_page(), Err(ErrorKind::InvalidArgument));
    let a = doc.add_page().unwrap();
    assert_eq!(doc.current_page(), Ok(a));
    let b = doc.add_page().unwrap();
    assert_eq!(doc.current_page(), Ok(b));
}

#[test]
fn insert_page_places_a_fresh_page_before_the_target() {
    let mut doc = Document::new();
    let a = doc.add_page().unwrap();
    let _b = doc.add_page().unwrap();
    let a_id = doc.pages[a].id;
    let inserted = doc.insert_page(1).unwrap();
    assert_eq!(inserted, 1);
    assert_eq!(doc.pages.len(), 3);
    assert_eq!(doc.pages[0].id, a_id);
    assert_eq!(doc.current_page(), Ok(1));
    assert_eq!(doc.insert_page(7), Err(ErrorKind::InvalidArgument));
}

#[test]
fn page_modes_and_layouts() {
    let mut doc = Document::new();
    assert_eq!(doc.page_mode(), Ok(pdfgen::PageMode::UseNone));
    doc.set_page_mode(pdfgen::PageMode::Outline).unwrap();
    assert_eq!(doc.page_mode(), Ok(pdfgen::PageMode::Outline));
    assert_eq!(doc.page_layout(), Err(ErrorKind::InvalidArgument));
    doc.set_page_layout(pdfgen::PageLayout::TwoColumnLeft).unwrap();
    assert_eq!(doc.page_layout(), Ok(pdfgen::PageLayout::TwoColumnLeft));
}
