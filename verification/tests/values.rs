//! The plain value types: points, rectangles, colors and error kinds.

use pdfgen::{CmykColor, Color, ErrorKind, Point, Rect, Rectangle};

#[test]
fn points_convert_and_set() {
    let mut p = Point::from((3, 4));
    assert_eq!(p, Point { x: 3, y: 4 });
    p.set(Point { x: -1, y: 9 });
    assert_eq!(p, Point { x: -1, y: 9 });
    assert_eq!(Point::default(), Point { x: 0, y: 0 });
}

#[test]
fn rects_convert_from_tuples() {
    let r = Rect::from((1, 2, 3, 4));
    assert_eq!(r, Rect { left: 1, top: 2, right: 3, bottom: 4 });
    let degenerate = Rect::from((5, 6));
    assert_eq!(degenerate, Rect { left: 5, top: 6, right: 5, bottom: 6 });
}

#[test]
fn normalization_is_stable_on_normalized_rectangles() {
    let r = Rectangle {
        lower_left: Point { x: 1, y: 2 },
        upper_right: Point { x: 3, y: 4 },
    };
    assert_eq!(r.normalize(), r);
    assert_eq!(r.normalize().normalize(), r.normalize());
}

#[test]
fn error_kinds_carry_distinct_codes() {
    let kinds = [
        ErrorKind::InvalidArgument,
        ErrorKind::WrongMode,
        ErrorKind::UnknownFont,
        ErrorKind::UnknownEncoding,
        ErrorKind::FontLoadError,
        ErrorKind::DanglingReference,
        ErrorKind::SerializationError,
        ErrorKind::IoError,
    ];
    for (i, a) in kinds.iter().enumerate() {
        for (j, b) in kinds.iter().enumerate() {
            assert_eq!(a.code() == b.code(), i == j);
        }
    }
}

#[test]
fn default_colors_are_black() {
    assert_eq!(Color::default(), Color { red: 0, green: 0, blue: 0 });
    let c = CmykColor::new(1, 2, 3, 4).unwrap();
    assert_eq!(c, CmykColor { cyan: 1, magenta: 2, yellow: 3, keyplate: 4 });
}
