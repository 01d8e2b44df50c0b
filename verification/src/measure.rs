//! Text measurement: how many bytes of a string fit within a target width.
//!
//! The advance of a byte is its glyph width times the font size, plus the
//! character spacing, plus the word spacing when the byte is a space. The
//! measured offset is the longest prefix whose cumulative advance stays
//! within the target width; word wrapping pulls the offset back to the
//! position right after the preceding space; the offset is finally moved
//! back to the nearest character boundary at or before itself, so that a
//! multi-byte character is never split.

use vstd::prelude::*;
use vstd::utf8::is_continuation_byte;

use crate::font::{glyph_width, spec_glyph_width, WidthClass};

verus! {

/// The advance of the glyph for byte `b`, in width units: thousandths of an
/// em times the font size, plus spacing.
pub open spec fn spec_glyph_advance(w: WidthClass, size: u32, cspace: u32, wspace: u32, b: u8) -> nat {
    (spec_glyph_width(w, b) * size + cspace + if b == 32 {
        wspace as int
    } else {
        0
    }) as nat
}

/// The cumulative advance of the whole byte sequence `s`.
pub open spec fn text_advance(w: WidthClass, size: u32, cspace: u32, wspace: u32, s: Seq<u8>) -> nat
    decreases s.len(),
{
    if s.len() == 0 {
        0
    } else {
        text_advance(w, size, cspace, wspace, s.drop_last()) + spec_glyph_advance(
            w,
            size,
            cspace,
            wspace,
            s.last(),
        )
    }
}

/// No single glyph advances more than 2^43 width units.
pub proof fn lemma_glyph_advance_bound(w: WidthClass, size: u32, cspace: u32, wspace: u32, b: u8)
    ensures
        spec_glyph_advance(w, size, cspace, wspace, b) < 0x80000000000,
{
    assert(spec_glyph_width(w, b) <= 1000);
    assert(spec_glyph_width(w, b) * size <= 1000 * 0xffffffff) by (nonlinear_arith)
        requires
            spec_glyph_width(w, b) <= 1000,
            size <= 0xffffffff,
    ;
}

/// The cumulative advance of `s` is below its length times 2^43.
pub proof fn lemma_text_advance_bound(w: WidthClass, size: u32, cspace: u32, wspace: u32, s: Seq<u8>)
    ensures
        text_advance(w, size, cspace, wspace, s) <= s.len() * 0x80000000000,
    decreases s.len(),
{
    if s.len() > 0 {
        lemma_text_advance_bound(w, size, cspace, wspace, s.drop_last());
        lemma_glyph_advance_bound(w, size, cspace, wspace, s.last());
        assert((s.len() - 1) * 0x80000000000 + 0x80000000000 == s.len() * 0x80000000000)
            by (nonlinear_arith);
    }
}

/// The advance of a prefix never exceeds the advance of a longer prefix.
pub proof fn lemma_text_advance_monotonic(
    w: WidthClass,
    size: u32,
    cspace: u32,
    wspace: u32,
    s: Seq<u8>,
    i: int,
    j: int,
)
    requires
        0 <= i <= j <= s.len(),
    ensures
        text_advance(w, size, cspace, wspace, s.take(i)) <= text_advance(
            w,
            size,
            cspace,
            wspace,
            s.take(j),
        ),
    decreases j - i,
{
    if i < j {
        lemma_text_advance_monotonic(w, size, cspace, wspace, s, i, j - 1);
        assert(s.take(j).drop_last() =~= s.take(j - 1));
        assert(text_advance(w, size, cspace, wspace, s.take(j)) == text_advance(
            w,
            size,
            cspace,
            wspace,
            s.take(j - 1),
        ) + spec_glyph_advance(w, size, cspace, wspace, s.take(j).last()));
    }
}

/// The length of the longest prefix of `s` whose cumulative advance does
/// not exceed `width`.
pub open spec fn fit_len(
    w: WidthClass,
    size: u32,
    cspace: u32,
    wspace: u32,
    s: Seq<u8>,
    width: nat,
) -> nat
    decreases s.len(),
{
    if s.len() == 0 {
        0
    } else if text_advance(w, size, cspace, wspace, s) <= width {
        s.len()
    } else {
        fit_len(w, size, cspace, wspace, s.drop_last(), width)
    }
}

/// What characterizes `fit_len`: the prefix of that length fits, and one
/// byte more would not.
pub proof fn lemma_fit_len_characterization(
    w: WidthClass,
    size: u32,
    cspace: u32,
    wspace: u32,
    s: Seq<u8>,
    width: nat,
)
    ensures
        fit_len(w, size, cspace, wspace, s, width) <= s.len(),
        text_advance(
            w,
            size,
            cspace,
            wspace,
            s.take(fit_len(w, size, cspace, wspace, s, width) as int),
        ) <= width,
        fit_len(w, size, cspace, wspace, s, width) < s.len() ==> text_advance(
            w,
            size,
            cspace,
            wspace,
            s.take(fit_len(w, size, cspace, wspace, s, width) as int + 1),
        ) > width,
    decreases s.len(),
{
    let k = fit_len(w, size, cspace, wspace, s, width);
    if s.len() == 0 {
        assert(s.take(0) =~= s);
    } else if text_advance(w, size, cspace, wspace, s) <= width {
        assert(s.take(s.len() as int) =~= s);
    } else {
        lemma_fit_len_characterization(w, size, cspace, wspace, s.drop_last(), width);
        let t = s.drop_last();
        assert(k == fit_len(w, size, cspace, wspace, t, width));
        assert(k <= t.len());
        assert(t.take(k as int) =~= s.take(k as int));
        if k < t.len() {
            assert(t.take(k as int + 1) =~= s.take(k as int + 1));
        } else {
            assert(k + 1 == s.len());
            assert(s.take(k as int + 1) =~= s);
        }
    }
}

/// `fit_len` never shrinks when the target width grows.
pub proof fn lemma_fit_len_monotonic(
    w: WidthClass,
    size: u32,
    cspace: u32,
    wspace: u32,
    s: Seq<u8>,
    w1: nat,
    w2: nat,
)
    requires
        w1 <= w2,
    ensures
        fit_len(w, size, cspace, wspace, s, w1) <= fit_len(w, size, cspace, wspace, s, w2),
    decreases s.len(),
{
    if s.len() > 0 && text_advance(w, size, cspace, wspace, s) > w2 {
        lemma_fit_len_monotonic(w, size, cspace, wspace, s.drop_last(), w1, w2);
    } else if s.len() > 0 && text_advance(w, size, cspace, wspace, s) > w1 {
        lemma_fit_len_characterization(w, size, cspace, wspace, s.drop_last(), w1);
    }
}

/// True when `b` is an ASCII white-space byte: space, tab, or line break.
pub open spec fn is_space_byte(b: u8) -> bool {
    b == 32 || b == 9 || b == 10 || b == 13 || b == 12
}

/// Decide whether `b` is an ASCII white-space byte.
pub fn check_space_byte(b: u8) -> (r: bool)
    ensures
        r == is_space_byte(b),
{
    b == 32 || b == 9 || b == 10 || b == 13 || b == 12
}

/// The position right after the last white-space byte within the first `k`
/// bytes of `s`, or zero when there is none.
pub open spec fn wrap_offset(s: Seq<u8>, k: nat) -> nat
    recommends
        k <= s.len(),
    decreases k,
{
    if k == 0 {
        0
    } else if is_space_byte(s[k - 1]) {
        k
    } else {
        wrap_offset(s, (k - 1) as nat)
    }
}

/// The wrap position never exceeds its argument and never shrinks when the
/// argument grows.
pub proof fn lemma_wrap_offset_monotonic(s: Seq<u8>, k1: nat, k2: nat)
    requires
        k1 <= k2,
    ensures
        wrap_offset(s, k1) <= k1,
        wrap_offset(s, k1) <= wrap_offset(s, k2),
    decreases k2,
{
    if k1 > 0 {
        lemma_wrap_offset_monotonic(s, (k1 - 1) as nat, (k1 - 1) as nat);
    }
    if k1 < k2 {
        lemma_wrap_offset_monotonic(s, k1, (k2 - 1) as nat);
    }
}

/// The nearest position at or before `k` that does not point into the
/// middle of a multi-byte character: either the end of `s`, or a byte that
/// is not a UTF-8 continuation byte, or zero.
pub open spec fn boundary_offset(s: Seq<u8>, k: nat) -> nat
    recommends
        k <= s.len(),
    decreases k,
{
    if k == 0 {
        0
    } else if k >= s.len() {
        k
    } else if !is_continuation_byte(s[k as int]) {
        k
    } else {
        boundary_offset(s, (k - 1) as nat)
    }
}

/// The boundary position never exceeds its argument and never shrinks when
/// the argument grows, as long as both stay within the sequence.
pub proof fn lemma_boundary_offset_monotonic(s: Seq<u8>, k1: nat, k2: nat)
    requires
        k1 <= k2 <= s.len(),
    ensures
        boundary_offset(s, k1) <= k1,
        boundary_offset(s, k1) <= boundary_offset(s, k2),
    decreases k2,
{
    if k1 > 0 {
        lemma_boundary_offset_monotonic(s, (k1 - 1) as nat, (k1 - 1) as nat);
    }
    if k1 < k2 {
        lemma_boundary_offset_monotonic(s, k1, (k2 - 1) as nat);
    }
}

/// The boundary position lands at the end of the sequence, at zero, or on a
/// byte that does not continue a multi-byte character.
pub proof fn lemma_boundary_offset_is_boundary(s: Seq<u8>, k: nat)
    requires
        k <= s.len(),
    ensures
        boundary_offset(s, k) <= k,
        boundary_offset(s, k) == s.len() || boundary_offset(s, k) == 0 || !is_continuation_byte(
            s[boundary_offset(s, k) as int],
        ),
    decreases k,
{
    if k > 0 && k < s.len() && is_continuation_byte(s[k as int]) {
        lemma_boundary_offset_is_boundary(s, (k - 1) as nat);
    }
}

/// The byte offset that measuring returns: the fitting prefix, pulled back
/// to a word boundary when wrapping is on and the text did not fit whole,
/// then — when `char_adjust` is on — pulled back to a character boundary.
pub open spec fn measured_offset(
    w: WidthClass,
    size: u32,
    cspace: u32,
    wspace: u32,
    s: Seq<u8>,
    width: nat,
    wordwrap: bool,
    char_adjust: bool,
) -> nat {
    let k = fit_len(w, size, cspace, wspace, s, width);
    let pulled = if wordwrap && k < s.len() {
        wrap_offset(s, k)
    } else {
        k
    };
    if char_adjust {
        boundary_offset(s, pulled)
    } else {
        pulled
    }
}

/// When the whole text fits — in particular for an unbounded target width —
/// measuring returns the full byte length and the full advance.
pub proof fn lemma_measure_whole_text(
    w: WidthClass,
    size: u32,
    cspace: u32,
    wspace: u32,
    s: Seq<u8>,
    width: nat,
    wordwrap: bool,
    char_adjust: bool,
)
    requires
        text_advance(w, size, cspace, wspace, s) <= width,
    ensures
        measured_offset(w, size, cspace, wspace, s, width, wordwrap, char_adjust) == s.len(),
        text_advance(
            w,
            size,
            cspace,
            wspace,
            s.take(measured_offset(w, size, cspace, wspace, s, width, wordwrap, char_adjust) as int),
        ) == text_advance(w, size, cspace, wspace, s),
{
    assert(fit_len(w, size, cspace, wspace, s, width) == s.len());
    assert(boundary_offset(s, s.len()) == s.len());
    assert(s.take(s.len() as int) =~= s);
}

/// An unbounded target width always admits the whole text: any byte
/// sequence that fits in memory has an advance below 2^128.
pub proof fn lemma_unbounded_width_fits(
    w: WidthClass,
    size: u32,
    cspace: u32,
    wspace: u32,
    s: Seq<u8>,
)
    requires
        s.len() <= usize::MAX,
    ensures
        text_advance(w, size, cspace, wspace, s) <= u128::MAX,
{
    lemma_text_advance_bound(w, size, cspace, wspace, s);
    assert(s.len() * 0x80000000000 <= 0xffffffffffffffff * 0x80000000000) by (nonlinear_arith)
        requires
            s.len() <= 0xffffffffffffffff,
    ;
}

/// Narrowing the target width never moves the measured offset forward.
pub proof fn lemma_measure_monotonic(
    w: WidthClass,
    size: u32,
    cspace: u32,
    wspace: u32,
    s: Seq<u8>,
    w1: nat,
    w2: nat,
    wordwrap: bool,
    char_adjust: bool,
)
    requires
        w1 <= w2,
    ensures
        measured_offset(w, size, cspace, wspace, s, w1, wordwrap, char_adjust) <= measured_offset(
            w,
            size,
            cspace,
            wspace,
            s,
            w2,
            wordwrap,
            char_adjust,
        ),
{
    let k1 = fit_len(w, size, cspace, wspace, s, w1);
    let k2 = fit_len(w, size, cspace, wspace, s, w2);
    lemma_fit_len_monotonic(w, size, cspace, wspace, s, w1, w2);
    lemma_fit_len_characterization(w, size, cspace, wspace, s, w1);
    lemma_fit_len_characterization(w, size, cspace, wspace, s, w2);
    let p1 = if wordwrap && k1 < s.len() {
        wrap_offset(s, k1)
    } else {
        k1
    };
    let p2 = if wordwrap && k2 < s.len() {
        wrap_offset(s, k2)
    } else {
        k2
    };
    lemma_wrap_offset_monotonic(s, k1, k2);
    lemma_wrap_offset_monotonic(s, k2, k2);
    assert(p1 <= p2);
    assert(p1 <= s.len() && p2 <= s.len());
    lemma_boundary_offset_monotonic(s, p1, p2);
}

/// The measured offset of a valid UTF-8 byte sequence is a character
/// boundary: it never splits a multi-byte character.
pub proof fn lemma_measure_char_boundary(
    w: WidthClass,
    size: u32,
    cspace: u32,
    wspace: u32,
    s: Seq<u8>,
    width: nat,
    wordwrap: bool,
)
    requires
        vstd::utf8::valid_utf8(s),
    ensures
        vstd::utf8::is_char_boundary(
            s,
            measured_offset(w, size, cspace, wspace, s, width, wordwrap, true) as int,
        ),
{
    let k = fit_len(w, size, cspace, wspace, s, width);
    lemma_fit_len_characterization(w, size, cspace, wspace, s, width);
    let pulled = if wordwrap && k < s.len() {
        wrap_offset(s, k)
    } else {
        k
    };
    lemma_wrap_offset_monotonic(s, k, k);
    let m = boundary_offset(s, pulled);
    lemma_boundary_offset_is_boundary(s, pulled);
    broadcast use vstd::utf8::is_char_boundary_start_end_of_seq;

    if m != 0 && m != s.len() {
        vstd::utf8::is_char_boundary_iff_not_is_continuation_byte(s, m as int);
    }
}

/// Measure how many bytes of `s` fit within `width` width units, and the
/// advance of the prefix that is kept.
///
/// Returns the measured byte offset and the cumulative advance of the bytes
/// before it. `u128::MAX` serves as an unbounded width: no sequence that
/// fits in memory can exceed it.
pub fn measure_bytes(
    w: WidthClass,
    size: u32,
    cspace: u32,
    wspace: u32,
    s: &[u8],
    width: u128,
    wordwrap: bool,
    char_adjust: bool,
) -> (r: (usize, u128))
    ensures
        r.0 == measured_offset(w, size, cspace, wspace, s@, width as nat, wordwrap, char_adjust),
        r.1 == text_advance(w, size, cspace, wspace, s@.take(r.0 as int)),
{
    let n = s.len();
    let mut i: usize = 0;
    let mut acc: u128 = 0;
    let mut fit: usize = n;
    let mut found = false;
    proof {
        assert(s@.take(0) =~= Seq::<u8>::empty());
    }
    while i < n && !found
        invariant
            i <= n,
            n == s@.len(),
            acc == text_advance(w, size, cspace, wspace, s@.take(i as int)),
            acc <= width,
            forall|j: int|
                0 <= j <= i ==> #[trigger] text_advance(w, size, cspace, wspace, s@.take(j))
                    <= width,
            !found ==> fit == n,
            found ==> fit == i && i < n && text_advance(
                w,
                size,
                cspace,
                wspace,
                s@.take(i + 1),
            ) > width,
        decreases n - i + (if found {
            0int
        } else {
            1int
        }),
    {
        let gw = glyph_width(w, s[i]);
        proof {
            assert((gw as int) * (size as int) <= 1000 * 0xffffffff) by (nonlinear_arith)
                requires
                    gw <= 1000,
                    size <= 0xffffffff,
            ;
        }
        let adv: u128 = (gw as u128) * (size as u128) + (cspace as u128) + (
        if s[i] == 32 {
            wspace as u128
        } else {
            0u128
        });
        proof {
            lemma_glyph_advance_bound(w, size, cspace, wspace, s@[i as int]);
            assert(adv == spec_glyph_advance(w, size, cspace, wspace, s@[i as int]));
            assert(s@.take(i + 1).drop_last() =~= s@.take(i as int));
            assert(s@.take(i + 1).last() == s@[i as int]);
        }
        if adv <= width - acc {
            acc = acc + adv;
            i = i + 1;
        } else {
            fit = i;
            found = true;
        }
    }
    proof {
        let k = fit_len(w, size, cspace, wspace, s@, width as nat);
        lemma_fit_len_characterization(w, size, cspace, wspace, s@, width as nat);
        if found {
            // the scan stopped exactly where one more byte stops fitting
            if k < fit {
                assert(text_advance(w, size, cspace, wspace, s@.take(k as int + 1)) <= width);
                assert(false);
            }
            if fit < k {
                lemma_text_advance_monotonic(w, size, cspace, wspace, s@, fit + 1, k as int);
                assert(false);
            }
            assert(fit == k);
        } else {
            assert(s@.take(n as int) =~= s@);
            assert(text_advance(w, size, cspace, wspace, s@) <= width);
            assert(fit == k);
        }
    }
    // pull the offset back to the preceding word break, then to a character
    // boundary
    let ghost pulled = if wordwrap && fit < n {
        wrap_offset(s@, fit as nat)
    } else {
        fit as nat
    };
    let mut off: usize = fit;
    if wordwrap && fit < n {
        while off > 0 && !check_space_byte(s[off - 1])
            invariant
                off <= fit <= n,
                n == s@.len(),
                fit < n,
                wordwrap,
                pulled == wrap_offset(s@, fit as nat),
                wrap_offset(s@, fit as nat) == wrap_offset(s@, off as nat),
            decreases off,
        {
            off = off - 1;
        }
        proof {
            assert(wrap_offset(s@, off as nat) == off as nat);
            assert(off == pulled);
        }
    }
    proof {
        assert(off == pulled);
        lemma_wrap_offset_monotonic(s@, fit as nat, fit as nat);
        assert(pulled <= fit);
    }
    let mut bnd: usize = off;
    if char_adjust {
        while bnd > 0 && bnd < n && s[bnd] >= 128 && s[bnd] <= 191
            invariant
                bnd <= off <= n,
                n == s@.len(),
                boundary_offset(s@, off as nat) == boundary_offset(s@, bnd as nat),
            decreases bnd,
        {
            bnd = bnd - 1;
        }
        proof {
            assert(boundary_offset(s@, bnd as nat) == bnd as nat);
        }
    }
    let ghost m = measured_offset(w, size, cspace, wspace, s@, width as nat, wordwrap, char_adjust);
    proof {
        assert(bnd == m);
    }
    // re-measure the advance of the kept prefix
    let mut acc2: u128 = 0;
    let mut j: usize = 0;
    proof {
        lemma_boundary_offset_monotonic(s@, bnd as nat, bnd as nat);
        lemma_text_advance_monotonic(w, size, cspace, wspace, s@, bnd as int, fit as int);
        assert(text_advance(w, size, cspace, wspace, s@.take(bnd as int)) <= width);
    }
    while j < bnd
        invariant
            j <= bnd <= n,
            n == s@.len(),
            acc2 == text_advance(w, size, cspace, wspace, s@.take(j as int)),
            text_advance(w, size, cspace, wspace, s@.take(bnd as int)) <= u128::MAX,
        decreases bnd - j,
    {
        let gw = glyph_width(w, s[j]);
        proof {
            assert((gw as int) * (size as int) <= 1000 * 0xffffffff) by (nonlinear_arith)
                requires
                    gw <= 1000,
                    size <= 0xffffffff,
            ;
        }
        let adv: u128 = (gw as u128) * (size as u128) + (cspace as u128) + (
        if s[j] == 32 {
            wspace as u128
        } else {
            0u128
        });
        proof {
            lemma_glyph_advance_bound(w, size, cspace, wspace, s@[j as int]);
            assert(adv == spec_glyph_advance(w, size, cspace, wspace, s@[j as int]));
            assert(s@.take(j + 1).drop_last() =~= s@.take(j as int));
            assert(s@.take(j + 1).last() == s@[j as int]);
            lemma_text_advance_monotonic(w, size, cspace, wspace, s@, j + 1, bnd as int);
        }
        acc2 = acc2 + adv;
        j = j + 1;
    }
    (bnd, acc2)
}

} // verus!
