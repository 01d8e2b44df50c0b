//! The outline tree: parents, top-level entries, and destinations.

use pdfgen::{Document, ErrorKind, Outline, Point};

fn find(haystack: &[u8], needle: &[u8]) -> Option<usize> {
    if needle.is_empty() || haystack.len() < needle.len() {
        return None;
    }
    (0..=haystack.len() - needle.len()).find(|&i| &haystack[i..i + needle.len()] == needle)
}

fn count(haystack: &[u8], needle: &[u8]) -> usize {
    let mut n = 0;
    let mut at = 0;
    while let Some(i) = find(&haystack[at..], needle) {
        n += 1;
        at += i + needle.len();
    }
    n
}

#[test]
fn a_child_outline_resolves_to_its_parent() {
    let mut doc = Document::new();
    let _p = doc.add_page().unwrap();
    let root = doc.create_outline("Index", None).unwrap();
    let child = doc.create_outline("Page1", Some(&root)).unwrap();
    assert_eq!(doc.outlines[child.index].parent, Some(root.index));
    assert_eq!(doc.outlines[root.index].id, root.id);
    // the serialized child names the root as its parent
    doc.save_to_stream().unwrap();
    let needle = format!("<< /Title (Page1) /Parent {} 0 R >>", root.id);
    assert!(find(&doc.stream, needle.as_bytes()).is_some());
}

#[test]
fn the_outline_root_counts_only_top_level_entries() {
    let mut doc = Document::new();
    let _p = doc.add_page().unwrap();
    let root = doc.create_outline("Index", None).unwrap();
    let _child = doc.create_outline("Page1", Some(&root)).unwrap();
    doc.save_to_stream().unwrap();
    let needle = format!(
        "<< /Type /Outlines /Count 1 /First {} 0 R /Last {} 0 R >>",
        root.id, root.id
    );
    assert_eq!(count(&doc.stream, needle.as_bytes()), 1);
}

#[test]
fn several_top_level_entries_are_linked_first_to_last() {
    let mut doc = Document::new();
    let _p = doc.add_page().unwrap();
    let a = doc.create_outline("A", None).unwrap();
    let _a1 = doc.create_outline("A1", Some(&a)).unwrap();
    let b = doc.create_outline_bytes(b"B", None).unwrap();
    doc.save_to_stream().unwrap();
    let needle = format!(
        "<< /Type /Outlines /Count 2 /First {} 0 R /Last {} 0 R >>",
        a.id, b.id
    );
    assert_eq!(count(&doc.stream, needle.as_bytes()), 1);
}

#[test]
fn outline_parents_must_exist() {
    let mut doc = Document::new();
    let stale = Outline { index: 3, id: 77 };
    assert_eq!(
        doc.create_outline("orphan", Some(&stale)),
        Err(ErrorKind::DanglingReference)
    );
    assert_eq!(doc.outlines.len(), 0);
}

#[test]
fn outline_destinations_are_attached_and_serialized() {
    let mut doc = Document::new();
    let p = doc.add_page().unwrap();
    let entry = doc.create_outline("Jump", None).unwrap();
    let dst = doc.create_destination(p, Point { x: 3, y: 4 }, 0).unwrap();
    doc.set_outline_destination(&entry, &dst).unwrap();
    assert_eq!(doc.outlines[entry.index].dest_id, Some(dst.id));
    doc.save_to_stream().unwrap();
    let needle = format!("(Jump) /Parent 3 0 R /Dest {} 0 R", dst.id);
    assert!(find(&doc.stream, needle.as_bytes()).is_some());
}

#[test]
fn outline_titles_are_escaped() {
    let mut doc = Document::new();
    let _p = doc.add_page().unwrap();
    doc.create_outline("a(b)", None).unwrap();
    doc.save_to_stream().unwrap();
    assert!(find(&doc.stream, b"/Title (a\\(b\\))").is_some());
}
