//! The font and encoding registry.
//!
//! Fonts are identified by name and encoding. Fourteen standard font names
//! are always known; regional bundles add further names once enabled; font
//! programs loaded from bytes register their own names. The advance widths
//! the engine measures with come from a built-in metrics table.

use vstd::prelude::*;
use vstd::string::StringSliceAdditionalSpecFns;

verus! {

/// How the advance widths of a font's glyphs are determined.
#[derive(Clone, Copy, Debug, PartialEq, Eq, Structural)]
pub enum WidthClass {
    /// Every glyph advances 600 thousandths of an em (typewriter fonts).
    Fixed,
    /// Widths vary by character class.
    Proportional,
}

/// The advance width of the glyph for byte `b`, in thousandths of an em.
pub open spec fn spec_glyph_width(w: WidthClass, b: u8) -> u16 {
    match w {
        WidthClass::Fixed => 600,
        WidthClass::Proportional => {
            if b == 32 {
                278
            } else if 65 <= b <= 90 {
                722
            } else if 97 <= b <= 122 {
                556
            } else if 48 <= b <= 57 {
                556
            } else {
                500
            }
        },
    }
}

/// The advance width of the glyph for byte `b`, in thousandths of an em.
pub fn glyph_width(w: WidthClass, b: u8) -> (r: u16)
    ensures
        r == spec_glyph_width(w, b),
        r <= 1000,
{
    match w {
        WidthClass::Fixed => 600,
        WidthClass::Proportional => {
            if b == 32 {
                278
            } else if 65 <= b && b <= 90 {
                722
            } else if 97 <= b && b <= 122 {
                556
            } else if 48 <= b && b <= 57 {
                556
            } else {
                500
            }
        },
    }
}

/// A font handle: a reference into the owning document's font table.
///
/// Handles are plain values; the width class is carried along so that text
/// can be measured without going back to the document.
#[derive(Clone, Copy, Debug, PartialEq, Eq, Structural)]
pub struct Font {
    /// The object reference number the font was registered under.
    pub id: u64,
    /// The position of the font's record in the document's font table.
    pub index: usize,
    /// How the font's glyph widths are determined.
    pub widths: WidthClass,
}

/// True when two byte slices hold the same bytes.
pub fn bytes_eq(a: &[u8], b: &[u8]) -> (r: bool)
    ensures
        r == (a@ == b@),
{
    if a.len() != b.len() {
        proof {
            assert(a@ !~= b@);
        }
        return false;
    }
    let n = a.len();
    let mut i: usize = 0;
    while i < n
        invariant
            i <= n,
            n == a@.len(),
            n == b@.len(),
            forall|k: int| 0 <= k < i ==> a@[k] == b@[k],
        decreases n - i,
    {
        if a[i] != b[i] {
            proof {
                assert(a@ !~= b@);
            }
            return false;
        }
        i = i + 1;
    }
    proof {
        assert(a@ =~= b@);
    }
    true
}

/// True when `s` equals the UTF-8 bytes of the string slice `t`.
fn str_bytes_eq(s: &[u8], t: &str) -> (r: bool)
    ensures
        r == (s@ == t.spec_bytes()),
{
    bytes_eq(s, t.as_bytes())
}

/// The fourteen standard font names that every document knows.
pub open spec fn is_base14_name(s: Seq<u8>) -> bool {
    ||| s == ("Courier").spec_bytes()
    ||| s == ("Courier-Bold").spec_bytes()
    ||| s == ("Courier-Oblique").spec_bytes()
    ||| s == ("Courier-BoldOblique").spec_bytes()
    ||| s == ("Helvetica").spec_bytes()
    ||| s == ("Helvetica-Bold").spec_bytes()
    ||| s == ("Helvetica-Oblique").spec_bytes()
    ||| s == ("Helvetica-BoldOblique").spec_bytes()
    ||| s == ("Times-Roman").spec_bytes()
    ||| s == ("Times-Bold").spec_bytes()
    ||| s == ("Times-Italic").spec_bytes()
    ||| s == ("Times-BoldItalic").spec_bytes()
    ||| s == ("Symbol").spec_bytes()
    ||| s == ("ZapfDingbats").spec_bytes()
}

/// Decide membership in the fourteen standard font names.
pub fn check_base14_name(s: &[u8]) -> (r: bool)
    ensures
        r == is_base14_name(s@),
{
    str_bytes_eq(s, "Courier") || str_bytes_eq(s, "Courier-Bold") || str_bytes_eq(
        s,
        "Courier-Oblique",
    ) || str_bytes_eq(s, "Courier-BoldOblique") || str_bytes_eq(s, "Helvetica") || str_bytes_eq(
        s,
        "Helvetica-Bold",
    ) || str_bytes_eq(s, "Helvetica-Oblique") || str_bytes_eq(s, "Helvetica-BoldOblique")
        || str_bytes_eq(s, "Times-Roman") || str_bytes_eq(s, "Times-Bold") || str_bytes_eq(
        s,
        "Times-Italic",
    ) || str_bytes_eq(s, "Times-BoldItalic") || str_bytes_eq(s, "Symbol") || str_bytes_eq(
        s,
        "ZapfDingbats",
    )
}

/// Fixed-pitch standard fonts: the Courier family.
pub open spec fn is_fixed_pitch_name(s: Seq<u8>) -> bool {
    ||| s == ("Courier").spec_bytes()
    ||| s == ("Courier-Bold").spec_bytes()
    ||| s == ("Courier-Oblique").spec_bytes()
    ||| s == ("Courier-BoldOblique").spec_bytes()
}

/// Decide membership in the fixed-pitch standard font names.
pub fn check_fixed_pitch_name(s: &[u8]) -> (r: bool)
    ensures
        r == is_fixed_pitch_name(s@),
{
    str_bytes_eq(s, "Courier") || str_bytes_eq(s, "Courier-Bold") || str_bytes_eq(
        s,
        "Courier-Oblique",
    ) || str_bytes_eq(s, "Courier-BoldOblique")
}

/// The Japanese font names made available by the Japanese font bundle.
pub open spec fn is_jp_font_name(s: Seq<u8>) -> bool {
    ||| s == ("MS-Mincho").spec_bytes()
    ||| s == ("MS-Mincho,Bold").spec_bytes()
    ||| s == ("MS-Mincho,Italic").spec_bytes()
    ||| s == ("MS-Mincho,BoldItalic").spec_bytes()
    ||| s == ("MS-Gothic").spec_bytes()
    ||| s == ("MS-Gothic,Bold").spec_bytes()
    ||| s == ("MS-Gothic,Italic").spec_bytes()
    ||| s == ("MS-Gothic,BoldItalic").spec_bytes()
    ||| s == ("MS-PMincho").spec_bytes()
    ||| s == ("MS-PMincho,Bold").spec_bytes()
    ||| s == ("MS-PMincho,Italic").spec_bytes()
    ||| s == ("MS-PMincho,BoldItalic").spec_bytes()
    ||| s == ("MS-PGothic").spec_bytes()
    ||| s == ("MS-PGothic,Bold").spec_bytes()
    ||| s == ("MS-PGothic,Italic").spec_bytes()
    ||| s == ("MS-PGothic,BoldItalic").spec_bytes()
}

/// Decide membership in the Japanese bundle's font names.
pub fn check_jp_font_name(s: &[u8]) -> (r: bool)
    ensures
        r == is_jp_font_name(s@),
{
    str_bytes_eq(s, "MS-Mincho") || str_bytes_eq(s, "MS-Mincho,Bold") || str_bytes_eq(
        s,
        "MS-Mincho,Italic",
    ) || str_bytes_eq(s, "MS-Mincho,BoldItalic") || str_bytes_eq(s, "MS-Gothic") || str_bytes_eq(
        s,
        "MS-Gothic,Bold",
    ) || str_bytes_eq(s, "MS-Gothic,Italic") || str_bytes_eq(s, "MS-Gothic,BoldItalic")
        || str_bytes_eq(s, "MS-PMincho") || str_bytes_eq(s, "MS-PMincho,Bold") || str_bytes_eq(
        s,
        "MS-PMincho,Italic",
    ) || str_bytes_eq(s, "MS-PMincho,BoldItalic") || str_bytes_eq(s, "MS-PGothic") || str_bytes_eq(
        s,
        "MS-PGothic,Bold",
    ) || str_bytes_eq(s, "MS-PGothic,Italic") || str_bytes_eq(s, "MS-PGothic,BoldItalic")
}

/// The Korean font names made available by the Korean font bundle.
pub open spec fn is_kr_font_name(s: Seq<u8>) -> bool {
    ||| s == ("DotumChe").spec_bytes()
    ||| s == ("DotumChe,Bold").spec_bytes()
    ||| s == ("DotumChe,Italic").spec_bytes()
    ||| s == ("DotumChe,BoldItalic").spec_bytes()
    ||| s == ("Dotum").spec_bytes()
    ||| s == ("Dotum,Bold").spec_bytes()
    ||| s == ("Dotum,Italic").spec_bytes()
    ||| s == ("Dotum,BoldItalic").spec_bytes()
    ||| s == ("BatangChe").spec_bytes()
    ||| s == ("BatangChe,Bold").spec_bytes()
    ||| s == ("BatangChe,Italic").spec_bytes()
    ||| s == ("BatangChe,BoldItalic").spec_bytes()
    ||| s == ("Batang").spec_bytes()
    ||| s == ("Batang,Bold").spec_bytes()
    ||| s == ("Batang,Italic").spec_bytes()
    ||| s == ("Batang,BoldItalic").spec_bytes()
}

/// Decide membership in the Korean bundle's font names.
pub fn check_kr_font_name(s: &[u8]) -> (r: bool)
    ensures
        r == is_kr_font_name(s@),
{
    str_bytes_eq(s, "DotumChe") || str_bytes_eq(s, "DotumChe,Bold") || str_bytes_eq(
        s,
        "DotumChe,Italic",
    ) || str_bytes_eq(s, "DotumChe,BoldItalic") || str_bytes_eq(s, "Dotum") || str_bytes_eq(
        s,
        "Dotum,Bold",
    ) || str_bytes_eq(s, "Dotum,Italic") || str_bytes_eq(s, "Dotum,BoldItalic") || str_bytes_eq(
        s,
        "BatangChe",
    ) || str_bytes_eq(s, "BatangChe,Bold") || str_bytes_eq(s, "BatangChe,Italic") || str_bytes_eq(
        s,
        "BatangChe,BoldItalic",
    ) || str_bytes_eq(s, "Batang") || str_bytes_eq(s, "Batang,Bold") || str_bytes_eq(
        s,
        "Batang,Italic",
    ) || str_bytes_eq(s, "Batang,BoldItalic")
}

/// The simplified-Chinese font names made available by that bundle.
pub open spec fn is_cns_font_name(s: Seq<u8>) -> bool {
    ||| s == ("SimSun").spec_bytes()
    ||| s == ("SimSun,Bold").spec_bytes()
    ||| s == ("SimSun,Italic").spec_bytes()
    ||| s == ("SimSun,BoldItalic").spec_bytes()
    ||| s == ("SimHei").spec_bytes()
    ||| s == ("SimHei,Bold").spec_bytes()
    ||| s == ("SimHei,Italic").spec_bytes()
    ||| s == ("SimHei,BoldItalic").spec_bytes()
}

/// Decide membership in the simplified-Chinese bundle's font names.
pub fn check_cns_font_name(s: &[u8]) -> (r: bool)
    ensures
        r == is_cns_font_name(s@),
{
    str_bytes_eq(s, "SimSun") || str_bytes_eq(s, "SimSun,Bold") || str_bytes_eq(s, "SimSun,Italic")
        || str_bytes_eq(s, "SimSun,BoldItalic") || str_bytes_eq(s, "SimHei") || str_bytes_eq(
        s,
        "SimHei,Bold",
    ) || str_bytes_eq(s, "SimHei,Italic") || str_bytes_eq(s, "SimHei,BoldItalic")
}

/// The traditional-Chinese font names made available by that bundle.
pub open spec fn is_cnt_font_name(s: Seq<u8>) -> bool {
    ||| s == ("MingLiU").spec_bytes()
    ||| s == ("MingLiU,Bold").spec_bytes()
    ||| s == ("MingLiU,Italic").spec_bytes()
    ||| s == ("MingLiU,BoldItalic").spec_bytes()
}

/// Decide membership in the traditional-Chinese bundle's font names.
pub fn check_cnt_font_name(s: &[u8]) -> (r: bool)
    ensures
        r == is_cnt_font_name(s@),
{
    str_bytes_eq(s, "MingLiU") || str_bytes_eq(s, "MingLiU,Bold") || str_bytes_eq(
        s,
        "MingLiU,Italic",
    ) || str_bytes_eq(s, "MingLiU,BoldItalic")
}

/// The single-byte encoding names that every document knows.
pub open spec fn is_base_encoding_name(s: Seq<u8>) -> bool {
    ||| s == ("StandardEncoding").spec_bytes()
    ||| s == ("MacRomanEncoding").spec_bytes()
    ||| s == ("WinAnsiEncoding").spec_bytes()
    ||| s == ("FontSpecific").spec_bytes()
}

/// Decide membership in the always-known encoding names.
pub fn check_base_encoding_name(s: &[u8]) -> (r: bool)
    ensures
        r == is_base_encoding_name(s@),
{
    str_bytes_eq(s, "StandardEncoding") || str_bytes_eq(s, "MacRomanEncoding") || str_bytes_eq(
        s,
        "WinAnsiEncoding",
    ) || str_bytes_eq(s, "FontSpecific")
}

/// The encoding names made available by the Japanese encoding bundle.
pub open spec fn is_jp_encoding_name(s: Seq<u8>) -> bool {
    ||| s == ("90ms-RKSJ-H").spec_bytes()
    ||| s == ("90ms-RKSJ-V").spec_bytes()
    ||| s == ("90msp-RKSJ-H").spec_bytes()
    ||| s == ("EUC-H").spec_bytes()
    ||| s == ("EUC-V").spec_bytes()
}

/// Decide membership in the Japanese bundle's encoding names.
pub fn check_jp_encoding_name(s: &[u8]) -> (r: bool)
    ensures
        r == is_jp_encoding_name(s@),
{
    str_bytes_eq(s, "90ms-RKSJ-H") || str_bytes_eq(s, "90ms-RKSJ-V") || str_bytes_eq(
        s,
        "90msp-RKSJ-H",
    ) || str_bytes_eq(s, "EUC-H") || str_bytes_eq(s, "EUC-V")
}

/// The encoding names made available by the Korean encoding bundle.
pub open spec fn is_kr_encoding_name(s: Seq<u8>) -> bool {
    ||| s == ("KSC-EUC-H").spec_bytes()
    ||| s == ("KSC-EUC-V").spec_bytes()
    ||| s == ("KSCms-UHC-H").spec_bytes()
    ||| s == ("KSCms-UHC-HW-H").spec_bytes()
    ||| s == ("KSCms-UHC-HW-V").spec_bytes()
}

/// Decide membership in the Korean bundle's encoding names.
pub fn check_kr_encoding_name(s: &[u8]) -> (r: bool)
    ensures
        r == is_kr_encoding_name(s@),
{
    str_bytes_eq(s, "KSC-EUC-H") || str_bytes_eq(s, "KSC-EUC-V") || str_bytes_eq(s, "KSCms-UHC-H")
        || str_bytes_eq(s, "KSCms-UHC-HW-H") || str_bytes_eq(s, "KSCms-UHC-HW-V")
}

/// The encoding names made available by the simplified-Chinese bundle.
pub open spec fn is_cns_encoding_name(s: Seq<u8>) -> bool {
    ||| s == ("GB-EUC-H").spec_bytes()
    ||| s == ("GB-EUC-V").spec_bytes()
    ||| s == ("GBK-EUC-H").spec_bytes()
    ||| s == ("GBK-EUC-V").spec_bytes()
}

/// Decide membership in the simplified-Chinese bundle's encoding names.
pub fn check_cns_encoding_name(s: &[u8]) -> (r: bool)
    ensures
        r == is_cns_encoding_name(s@),
{
    str_bytes_eq(s, "GB-EUC-H") || str_bytes_eq(s, "GB-EUC-V") || str_bytes_eq(s, "GBK-EUC-H")
        || str_bytes_eq(s, "GBK-EUC-V")
}

/// The encoding names made available by the traditional-Chinese bundle.
pub open spec fn is_cnt_encoding_name(s: Seq<u8>) -> bool {
    ||| s == ("ETen-B5-H").spec_bytes()
    ||| s == ("ETen-B5-V").spec_bytes()
}

/// Decide membership in the traditional-Chinese bundle's encoding names.
pub fn check_cnt_encoding_name(s: &[u8]) -> (r: bool)
    ensures
        r == is_cnt_encoding_name(s@),
{
    str_bytes_eq(s, "ETen-B5-H") || str_bytes_eq(s, "ETen-B5-V")
}

/// The encoding names made available by the Unicode encoding bundle.
pub open spec fn is_utf_encoding_name(s: Seq<u8>) -> bool {
    s == ("UTF-8").spec_bytes()
}

/// Decide membership in the Unicode bundle's encoding names.
pub fn check_utf_encoding_name(s: &[u8]) -> (r: bool)
    ensures
        r == is_utf_encoding_name(s@),
{
    str_bytes_eq(s, "UTF-8")
}

} // verus!
