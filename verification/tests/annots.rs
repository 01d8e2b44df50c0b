//! Annotations and destinations: rectangle normalization, link
//! attributes, and dangling-reference detection.

use pdfgen::{
    AnnotKind, BorderStyle, Corner, Destination, Document, ErrorKind, HighlightMode, LinkBorder,
    Point, Rect, Rectangle, RectangleBuilder,
};

#[test]
fn link_rectangles_normalize_regardless_of_corner_order() {
    let mut doc = Document::new();
    let p = doc.add_page().unwrap();
    let dst = doc.create_destination(p, Point { x: 0, y: 0 }, 0).unwrap();
    let swapped = Rectangle {
        lower_left: Point { x: 100, y: 90 },
        upper_right: Point { x: 20, y: 10 },
    };
    let link = doc.link_annot(p, swapped, &dst).unwrap();
    let rect = doc.annots[link.annot_index].rect;
    assert_eq!(rect.lower_left, Point { x: 20, y: 10 });
    assert_eq!(rect.upper_right, Point { x: 100, y: 90 });
    // mixed corners normalize per axis
    let mixed = Rectangle {
        lower_left: Point { x: 100, y: 10 },
        upper_right: Point { x: 20, y: 90 },
    };
    let link = doc.link_annot(p, mixed, &dst).unwrap();
    let rect = doc.annots[link.annot_index].rect;
    assert!(rect.lower_left.x <= rect.upper_right.x);
    assert!(rect.lower_left.y <= rect.upper_right.y);
    assert_eq!(rect.lower_left, Point { x: 20, y: 10 });
    assert_eq!(rect.upper_right, Point { x: 100, y: 90 });
}

#[test]
fn rectangle_builder_lays_the_extent_out_from_each_corner() {
    let p = Point { x: 100, y: 200 };
    let r = RectangleBuilder::new(p).set_width(30).set_height(40).build();
    assert_eq!(r.lower_left, Point { x: 100, y: 200 });
    assert_eq!(r.upper_right, Point { x: 130, y: 240 });
    let r = RectangleBuilder::new(p)
        .starting_corner(Corner::UpperRight)
        .set_width(30)
        .set_height(40)
        .build();
    assert_eq!(r.lower_left, Point { x: 70, y: 160 });
    assert_eq!(r.upper_right, Point { x: 100, y: 200 });
    let r = RectangleBuilder::new(p)
        .starting_corner(Corner::LowerRight)
        .set_width(30)
        .set_height(40)
        .build();
    assert_eq!(r.lower_left, Point { x: 70, y: 200 });
    assert_eq!(r.upper_right, Point { x: 100, y: 240 });
    let r = RectangleBuilder::new(p)
        .starting_corner(Corner::UpperLeft)
        .set_width(30)
        .set_height(40)
        .build();
    assert_eq!(r.lower_left, Point { x: 100, y: 160 });
    assert_eq!(r.upper_right, Point { x: 130, y: 200 });
}

#[test]
fn links_start_with_no_highlight_and_no_border() {
    let mut doc = Document::new();
    let p = doc.add_page().unwrap();
    let dst = doc.create_destination(p, Point { x: 0, y: 0 }, 0).unwrap();
    let link = doc
        .link_annot(p, Rectangle::default(), &dst)
        .unwrap();
    match &doc.annots[link.annot_index].kind {
        AnnotKind::Link { dest_id, highlight, border } => {
            assert_eq!(*dest_id, dst.id);
            assert_eq!(*highlight, HighlightMode::NoHighlight);
            assert_eq!(*border, BorderStyle { width: 0, dash_on: 0, dash_off: 0 });
        }
        _ => panic!("expected a link annotation"),
    }
}

#[test]
fn link_attributes_can_be_set_through_the_handle() {
    let mut doc = Document::new();
    let p = doc.add_page().unwrap();
    let dst = doc.create_destination(p, Point { x: 5, y: 6 }, 1000).unwrap();
    let link = doc.link_annot(p, Rectangle::default(), &dst).unwrap();
    link.set_highlight_mode(&mut doc, HighlightMode::InvertBox).unwrap();
    link.set_border_style(&mut doc, BorderStyle::from(LinkBorder::Dashed)).unwrap();
    match &doc.annots[link.annot_index].kind {
        AnnotKind::Link { highlight, border, .. } => {
            assert_eq!(*highlight, HighlightMode::InvertBox);
            assert_eq!(*border, BorderStyle { width: 1, dash_on: 3, dash_off: 2 });
        }
        _ => panic!("expected a link annotation"),
    }
    // a stale handle is refused
    let stale = pdfgen::Link { annot_index: 7, id: 1234 };
    assert_eq!(
        stale.set_highlight_mode(&mut doc, HighlightMode::InvertBorder),
        Err(ErrorKind::DanglingReference)
    );
}

#[test]
fn border_choices_resolve_to_styles() {
    assert_eq!(
        BorderStyle::from(LinkBorder::NoBorder),
        BorderStyle { width: 0, dash_on: 0, dash_off: 0 }
    );
    let custom = BorderStyle { width: 2, dash_on: 0, dash_off: 0 };
    assert_eq!(BorderStyle::from(LinkBorder::Custom(custom)), custom);
    assert_eq!(BorderStyle::default(), BorderStyle { width: 0, dash_on: 0, dash_off: 0 });
}

#[test]
fn text_annotations_keep_their_contents() {
    let mut doc = Document::new();
    let p = doc.add_page().unwrap();
    doc.text_annot(p, Rectangle::default(), b"a note").unwrap();
    match &doc.annots[0].kind {
        AnnotKind::Note { contents } => assert_eq!(contents, b"a note"),
        _ => panic!("expected a note"),
    }
}

#[test]
fn uri_links_keep_their_address() {
    let mut doc = Document::new();
    let p = doc.add_page().unwrap();
    doc.uri_link(
        p,
        Rect { left: 1, top: 9, right: 7, bottom: 2 },
        "http://libharu.org",
    )
    .unwrap();
    match &doc.annots[0].kind {
        AnnotKind::Uri { uri } => assert_eq!(uri, b"http://libharu.org"),
        _ => panic!("expected an external link"),
    }
    assert_eq!(doc.annots[0].rect.lower_left, Point { x: 1, y: 2 });
    assert_eq!(doc.annots[0].rect.upper_right, Point { x: 7, y: 9 });
}

#[test]
fn destinations_record_page_position_and_zoom() {
    let mut doc = Document::new();
    let a = doc.add_page().unwrap();
    let b = doc.add_page().unwrap();
    let dst = doc.create_destination(b, Point { x: 30, y: 40 }, 2000).unwrap();
    assert_eq!(dst.page_id, doc.pages[b].id);
    assert_eq!(dst.pos, Point { x: 30, y: 40 });
    assert_eq!(dst.zoom, 2000);
    assert_eq!(
        doc.create_destination(5, Point { x: 0, y: 0 }, 0),
        Err(ErrorKind::InvalidArgument)
    );
    let _ = a;
}

#[test]
fn the_open_action_requires_a_registered_destination() {
    let mut doc = Document::new();
    let p = doc.add_page().unwrap();
    let fake = Destination { id: 999, page_id: doc.pages[p].id, pos: Point { x: 0, y: 0 }, zoom: 0 };
    assert_eq!(doc.set_open_action(&fake), Err(ErrorKind::DanglingReference));
    let real = doc.create_destination(p, Point { x: 0, y: 0 }, 0).unwrap();
    doc.set_open_action(&real).unwrap();
    assert_eq!(doc.open_action, Some(real.id));
}

#[test]
fn annotations_on_missing_pages_are_rejected() {
    let mut doc = Document::new();
    let p = doc.add_page().unwrap();
    let dst = doc.create_destination(p, Point { x: 0, y: 0 }, 0).unwrap();
    assert_eq!(
        doc.link_annot(3, Rectangle::default(), &dst),
        Err(ErrorKind::InvalidArgument)
    );
    assert_eq!(
        doc.text_annot(3, Rectangle::default(), b"x"),
        Err(ErrorKind::InvalidArgument)
    );
}

#[test]
fn colors_validate_their_channels() {
    assert!(pdfgen::Color::new(0, 500, 1000).is_ok());
    assert_eq!(pdfgen::Color::new(0, 0, 1001), Err(ErrorKind::InvalidArgument));
    assert!(pdfgen::CmykColor::new(1000, 0, 0, 1000).is_ok());
    assert_eq!(
        pdfgen::CmykColor::new(0, 2000, 0, 0),
        Err(ErrorKind::InvalidArgument)
    );
}
