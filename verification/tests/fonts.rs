//! The font and encoding registry, the regional bundles, and loading of
//! external font programs.

use pdfgen::{Document, ErrorKind, WidthClass};

#[test]
fn standard_fonts_are_always_known() {
    let mut doc = Document::new();
    let f = doc.font("Helvetica", None).unwrap();
    assert_eq!(f.widths, WidthClass::Proportional);
    let c = doc.font("Courier-Bold", None).unwrap();
    assert_eq!(c.widths, WidthClass::Fixed);
    assert!(doc.font("Times-BoldItalic", None).is_ok());
    assert!(doc.font("ZapfDingbats", None).is_ok());
}

#[test]
fn unknown_names_are_rejected_with_their_own_kinds() {
    let mut doc = Document::new();
    assert_eq!(doc.font("Comic Sans", None), Err(ErrorKind::UnknownFont));
    assert_eq!(
        doc.font("Helvetica", Some("MadeUpEncoding")),
        Err(ErrorKind::UnknownEncoding)
    );
    assert_eq!(
        doc.errors,
        vec![ErrorKind::UnknownFont, ErrorKind::UnknownEncoding]
    );
}

#[test]
fn a_font_handle_reads_its_name_back() {
    let mut doc = Document::new();
    let f = doc.font("Helvetica", None).unwrap();
    assert_eq!(f.name(&doc).unwrap(), b"Helvetica".to_vec());
    let stale = pdfgen::Font { id: 99, index: 4, widths: WidthClass::Fixed };
    assert!(matches!(stale.name(&doc), Err(ErrorKind::DanglingReference)));
}

#[test]
fn a_font_is_registered_once_per_name_and_encoding() {
    let mut doc = Document::new();
    let a = doc.font("Helvetica", None).unwrap();
    let b = doc.font("Helvetica", None).unwrap();
    assert_eq!(a.id, b.id);
    assert_eq!(doc.fonts.len(), 1);
    let c = doc.font("Helvetica", Some("WinAnsiEncoding")).unwrap();
    assert!(c.id != a.id);
    assert_eq!(doc.fonts.len(), 2);
}

#[test]
fn regional_font_bundles_extend_the_registry_idempotently() {
    let mut doc = Document::new();
    assert_eq!(doc.font("MS-Mincho", None), Err(ErrorKind::UnknownFont));
    doc.use_jpfonts().unwrap();
    doc.use_jpfonts().unwrap();
    assert!(doc.font("MS-Mincho", None).is_ok());
    assert!(doc.font("MS-PGothic,BoldItalic", None).is_ok());
    doc.use_krfonts().unwrap();
    assert!(doc.font("BatangChe", None).is_ok());
    doc.use_cnsfonts().unwrap();
    assert!(doc.font("SimSun,Bold", None).is_ok());
    doc.use_cntfonts().unwrap();
    assert!(doc.font("MingLiU", None).is_ok());
}

#[test]
fn regional_encoding_bundles_extend_the_registry() {
    let mut doc = Document::new();
    doc.use_jpfonts().unwrap();
    assert_eq!(
        doc.font("MS-Mincho", Some("90ms-RKSJ-H")),
        Err(ErrorKind::UnknownEncoding)
    );
    doc.use_jpencodings().unwrap();
    assert!(doc.font("MS-Mincho", Some("90ms-RKSJ-H")).is_ok());
    doc.use_krencodings().unwrap();
    assert!(doc.find_encoder("KSCms-UHC-HW-V").is_ok());
    doc.use_cnsencodings().unwrap();
    assert!(doc.find_encoder("GBK-EUC-H").is_ok());
    doc.use_cntencodings().unwrap();
    assert!(doc.find_encoder("ETen-B5-V").is_ok());
    doc.use_utfencodings().unwrap();
    assert!(doc.find_encoder("UTF-8").is_ok());
}

#[test]
fn the_current_encoder_can_be_changed_to_a_known_encoding() {
    let mut doc = Document::new();
    assert_eq!(doc.current_encoder().unwrap().name, b"StandardEncoding".to_vec());
    assert_eq!(
        doc.set_current_encoder("UTF-8"),
        Err(ErrorKind::UnknownEncoding)
    );
    doc.use_utfencodings().unwrap();
    doc.set_current_encoder("UTF-8").unwrap();
    assert_eq!(doc.current_encoder().unwrap().name, b"UTF-8".to_vec());
    assert!(matches!(doc.find_encoder("NoSuch"), Err(ErrorKind::UnknownEncoding)));
}

fn minimal_sfnt() -> Vec<u8> {
    // magic 1.0, one table, and one sixteen-byte directory record
    let mut data = vec![0x00, 0x01, 0x00, 0x00, 0x00, 0x01, 0, 0, 0, 0, 0, 0];
    data.extend_from_slice(&[0u8; 16]);
    data
}

#[test]
fn font_programs_register_under_generated_names() {
    let mut doc = Document::new();
    let name = doc.load_ttf_font(&minimal_sfnt(), true).unwrap();
    assert_eq!(name, b"X0".to_vec());
    let name_str = String::from_utf8(name).unwrap();
    let f = doc.font(&name_str, None).unwrap();
    assert_eq!(f.widths, WidthClass::Proportional);
    let second = doc.load_ttf_font(&minimal_sfnt(), false).unwrap();
    assert_eq!(second, b"X1".to_vec());
    assert_eq!(doc.loaded_fonts.len(), 2);
    assert!(doc.loaded_fonts[0].embedding);
    assert!(!doc.loaded_fonts[1].embedding);
}

#[test]
fn malformed_font_programs_are_rejected() {
    let mut doc = Document::new();
    assert_eq!(doc.load_ttf_font(&[], true), Err(ErrorKind::FontLoadError));
    assert_eq!(
        doc.load_ttf_font(&[1, 2, 3, 4, 5, 6, 7, 8, 9, 10, 11, 12], true),
        Err(ErrorKind::FontLoadError)
    );
    // a correct magic number with a truncated table directory
    let truncated = vec![0x00, 0x01, 0x00, 0x00, 0x00, 0x02, 0, 0, 0, 0, 0, 0];
    assert_eq!(doc.load_ttf_font(&truncated, true), Err(ErrorKind::FontLoadError));
    assert_eq!(doc.errors.len(), 3);
}

#[test]
fn collections_register_the_font_at_the_given_position() {
    let mut doc = Document::new();
    let mut data = Vec::new();
    data.extend_from_slice(b"ttcf");
    data.extend_from_slice(&[0x00, 0x01, 0x00, 0x00]);  // version
    data.extend_from_slice(&[0x00, 0x00, 0x00, 0x01]);  // one font
    data.extend_from_slice(&[0x00, 0x00, 0x00, 0x10]);  // at offset sixteen
    data.extend_from_slice(&minimal_sfnt());
    let name = doc.load_ttf_font_from_ttc(&data, 0, false).unwrap();
    assert_eq!(name, b"X0".to_vec());
    // an index past the declared count is rejected
    assert_eq!(
        doc.load_ttf_font_from_ttc(&data, 1, false),
        Err(ErrorKind::FontLoadError)
    );
}
