//! Compression-mode flags and the run-length stream filter.
//!
//! The mode is a set of three independent toggles whose numeric encoding is
//! part of the file format: none = 0, text = 1, image = 2, metadata = 4,
//! all = 7. Streams selected by the mode are written through the run-length
//! filter, a byte-exact codec proved to round-trip.

use vstd::prelude::*;

verus! {

/// Which classes of stream are compressed when the document is serialized.
#[derive(Clone, Copy, Debug, Default, PartialEq, Eq, Structural)]
pub struct CompressionMode {
    /// Compress the content stream of each page.
    pub text: bool,
    /// Compress the streams of the image objects.
    pub image: bool,
    /// Compress the remaining stream data.
    pub metadata: bool,
}

impl CompressionMode {
    /// Nothing is compressed.
    pub fn none() -> (m: CompressionMode)
        ensures
            m == (CompressionMode { text: false, image: false, metadata: false }),
    {
        CompressionMode { text: false, image: false, metadata: false }
    }

    /// Only page content streams are compressed.
    pub fn text() -> (m: CompressionMode)
        ensures
            m == (CompressionMode { text: true, image: false, metadata: false }),
    {
        CompressionMode { text: true, image: false, metadata: false }
    }

    /// Only image streams are compressed.
    pub fn image() -> (m: CompressionMode)
        ensures
            m == (CompressionMode { text: false, image: true, metadata: false }),
    {
        CompressionMode { text: false, image: true, metadata: false }
    }

    /// Only the remaining stream data is compressed.
    pub fn metadata() -> (m: CompressionMode)
        ensures
            m == (CompressionMode { text: false, image: false, metadata: true }),
    {
        CompressionMode { text: false, image: false, metadata: true }
    }

    /// Every stream is compressed; the union of the three toggles.
    pub fn all() -> (m: CompressionMode)
        ensures
            m == (CompressionMode { text: true, image: true, metadata: true }),
    {
        CompressionMode { text: true, image: true, metadata: true }
    }

    /// The union of two modes, as a specification-level map.
    pub open spec fn spec_union(self, other: CompressionMode) -> CompressionMode {
        CompressionMode {
            text: self.text || other.text,
            image: self.image || other.image,
            metadata: self.metadata || other.metadata,
        }
    }

    /// The set union of two modes.
    pub fn union(self, other: CompressionMode) -> (m: CompressionMode)
        ensures
            m == self.spec_union(other),
    {
        CompressionMode {
            text: self.text || other.text,
            image: self.image || other.image,
            metadata: self.metadata || other.metadata,
        }
    }

    /// The intersection of two modes, as a specification-level map.
    pub open spec fn spec_intersect(self, other: CompressionMode) -> CompressionMode {
        CompressionMode {
            text: self.text && other.text,
            image: self.image && other.image,
            metadata: self.metadata && other.metadata,
        }
    }

    /// The set intersection of two modes.
    pub fn intersect(self, other: CompressionMode) -> (m: CompressionMode)
        ensures
            m == self.spec_intersect(other),
    {
        CompressionMode {
            text: self.text && other.text,
            image: self.image && other.image,
            metadata: self.metadata && other.metadata,
        }
    }

    /// The numeric encoding of a mode, as a specification-level map.
    pub open spec fn spec_bits(self) -> u32 {
        ((if self.text {
            1u32
        } else {
            0u32
        }) + (if self.image {
            2u32
        } else {
            0u32
        }) + (if self.metadata {
            4u32
        } else {
            0u32
        })) as u32
    }

    /// The numeric encoding of the mode: text = 1, image = 2, metadata = 4.
    pub fn bits(self) -> (b: u32)
        ensures
            b == self.spec_bits(),
            b <= 7,
    {
        (if self.text {
            1u32
        } else {
            0u32
        }) + (if self.image {
            2u32
        } else {
            0u32
        }) + (if self.metadata {
            4u32
        } else {
            0u32
        })
    }
}

/// The union of modes is idempotent and keeps the numeric encoding of its
/// operands' bits: taking the union with the same mode twice changes nothing
/// beyond the first union.
pub proof fn lemma_union_idempotent(a: CompressionMode, b: CompressionMode)
    ensures
        a.spec_union(b).spec_union(b) == a.spec_union(b),
        a.spec_union(a) == a,
{
}

/// Length of the maximal prefix of `s` whose bytes all equal `s[0]`.
pub open spec fn run_len(s: Seq<u8>) -> nat
    decreases s.len(),
{
    if s.len() == 0 {
        0
    } else if s.len() >= 2 && s[1] == s[0] {
        1 + run_len(s.skip(1))
    } else {
        1
    }
}

/// Every byte within the first `run_len(s)` bytes of `s` equals `s[0]`.
proof fn lemma_run_len_prefix(s: Seq<u8>)
    ensures
        run_len(s) <= s.len(),
        forall|i: int| 0 <= i < run_len(s) ==> #[trigger] s[i] == s[0],
    decreases s.len(),
{
    if s.len() >= 2 && s[1] == s[0] {
        lemma_run_len_prefix(s.skip(1));
        assert forall|i: int| 0 <= i < run_len(s) implies #[trigger] s[i] == s[0] by {
            if i >= 1 {
                assert(s.skip(1)[i - 1] == s[i]);
            }
        }
    }
}

/// The run stops right after `run_len(s)` bytes: the next byte differs.
proof fn lemma_run_len_stop(s: Seq<u8>)
    ensures
        run_len(s) < s.len() ==> s[run_len(s) as int] != s[0],
    decreases s.len(),
{
    if s.len() >= 2 && s[1] == s[0] {
        lemma_run_len_stop(s.skip(1));
        if run_len(s) < s.len() {
            assert(s.skip(1)[run_len(s) - 1] == s[run_len(s) as int]);
        }
    }
}

/// The body of the run-length encoding of `s`, without the trailing
/// end-of-data byte. A repeated byte `b` occurring `r` times (2 to 128) is
/// written as the pair `(257 - r, b)`; a byte that does not start a run is
/// written as the pair `(0, b)`.
pub open spec fn rle_encode(s: Seq<u8>) -> Seq<u8>
    decreases s.len(),
{
    if s.len() == 0 {
        Seq::<u8>::empty()
    } else {
        let r = if run_len(s) <= 128 {
            run_len(s)
        } else {
            128nat
        };
        if 2 <= r <= s.len() {
            seq![(257 - r) as u8, s[0]] + rle_encode(s.skip(r as int))
        } else {
            seq![0u8, s[0]] + rle_encode(s.skip(1))
        }
    }
}

/// The end-of-data marker of the run-length filter.
pub const RLE_EOD: u8 = 128;

/// What the run-length filter decodes a byte stream to. Decoding stops at
/// the end-of-data byte 128; a length byte 0 to 127 copies that many bytes
/// plus one literally; a length byte 129 to 255 repeats the following byte
/// 257 minus the length byte times. A count that overruns the input takes
/// what is there.
pub open spec fn rle_decode(s: Seq<u8>) -> Seq<u8>
    decreases s.len(),
{
    if s.len() == 0 {
        Seq::<u8>::empty()
    } else if s[0] == RLE_EOD {
        Seq::<u8>::empty()
    } else if s[0] < RLE_EOD {
        let take = if s[0] + 1 <= s.len() - 1 {
            (s[0] + 1) as int
        } else {
            s.len() - 1
        };
        s.subrange(1, 1 + take) + rle_decode(s.skip(1 + take))
    } else {
        if s.len() >= 2 {
            Seq::<u8>::new((257 - s[0]) as nat, |i: int| s[1]) + rle_decode(s.skip(2))
        } else {
            Seq::<u8>::empty()
        }
    }
}

/// Decoding inverts encoding: the encoded form of any byte sequence,
/// followed by the end-of-data byte, decodes to exactly that sequence.
pub proof fn lemma_rle_roundtrip(s: Seq<u8>)
    ensures
        rle_decode(rle_encode(s) + seq![RLE_EOD]) == s,
    decreases s.len(),
{
    if s.len() == 0 {
        assert(rle_encode(s) + seq![RLE_EOD] =~= seq![RLE_EOD]);
        assert(rle_decode(seq![RLE_EOD]) =~= Seq::<u8>::empty());
    } else {
        lemma_run_len_prefix(s);
        let r = if run_len(s) <= 128 {
            run_len(s)
        } else {
            128nat
        };
        let enc = rle_encode(s) + seq![RLE_EOD];
        if r >= 2 {
            let tail = rle_encode(s.skip(r as int)) + seq![RLE_EOD];
            assert(enc =~= seq![(257 - r) as u8, s[0]] + tail);
            assert(enc[0] == (257 - r) as u8);
            assert(257 - r >= 129);
            assert(enc[0] > RLE_EOD);
            assert(enc.len() >= 2);
            assert(enc[1] == s[0]);
            lemma_rle_roundtrip(s.skip(r as int));
            assert(enc.skip(2) =~= tail);
            assert(rle_decode(enc) == Seq::<u8>::new((257 - enc[0]) as nat, |i: int| enc[1])
                + rle_decode(enc.skip(2)));
            assert((257 - enc[0]) as nat == r);
            assert(Seq::<u8>::new(r, |i: int| s[0]) =~= s.take(r as int));
            assert(s.take(r as int) + s.skip(r as int) =~= s);
            assert(rle_decode(enc) =~= s);
        } else {
            let tail = rle_encode(s.skip(1)) + seq![RLE_EOD];
            assert(enc =~= seq![0u8, s[0]] + tail);
            assert(enc[0] == 0u8);
            lemma_rle_roundtrip(s.skip(1));
            assert(enc.subrange(1, 2) =~= seq![s[0]]);
            assert(enc.skip(2) =~= tail);
            assert(seq![s[0]] + s.skip(1) =~= s);
            assert(rle_decode(enc) =~= s);
        }
    }
}

/// Encode `s` through the run-length filter, end-of-data byte included.
pub fn rle_compress(s: &[u8]) -> (out: Vec<u8>)
    ensures
        out@ == rle_encode(s@) + seq![RLE_EOD],
{
    let mut out: Vec<u8> = Vec::new();
    let n = s.len();
    let mut i: usize = 0;
    proof {
        assert(s@.skip(0) =~= s@);
    }
    while i < n
        invariant
            i <= n,
            n == s@.len(),
            rle_encode(s@) =~= out@ + rle_encode(s@.skip(i as int)),
        decreases n - i,
    {
        // measure the run of equal bytes starting at i, capped at 128
        let b = s[i];
        let mut r: usize = 1;
        while i + r < n && r < 128 && s[i + r] == b
            invariant
                1 <= r <= 128,
                i < n,
                i + r <= n,
                n == s@.len(),
                b == s@[i as int],
                forall|k: int| 0 <= k < r ==> #[trigger] s@[i + k] == b,
            decreases n - r,
        {
            r = r + 1;
        }
        proof {
            let rest = s@.skip(i as int);
            lemma_run_len_prefix(rest);
            lemma_run_len_stop(rest);
            let cap = if run_len(rest) <= 128 {
                run_len(rest)
            } else {
                128nat
            };
            assert(rest[0] == b);
            assert forall|k: int| 0 <= k < r implies #[trigger] rest[k] == b by {
                assert(rest[k] == s@[i + k]);
            }
            // the exec scan found exactly the capped run length
            assert(r == cap) by {
                if r < cap {
                    assert(rest[r as int] == b);
                    assert(s@[i + r] == b);
                    assert(false);
                }
                if cap < r {
                    assert(cap < 128);
                    assert(cap == run_len(rest));
                    assert(run_len(rest) < rest.len() ==> rest[run_len(rest) as int] != b);
                    if cap < rest.len() {
                        assert(rest[cap as int] == b);
                        assert(false);
                    }
                }
            }
        }
        if r >= 2 {
            out.push((257 - r) as u8);
            out.push(b);
        } else {
            out.push(0);
            out.push(b);
        }
        proof {
            let rest = s@.skip(i as int);
            assert(rest.skip(r as int) =~= s@.skip(i + r));
        }
        i = i + r;
    }
    proof {
        assert(s@.skip(n as int) =~= Seq::<u8>::empty());
    }
    out.push(RLE_EOD);
    out
}

/// Decode a run-length stream; the inverse of [`rle_compress`] on its range.
#[verifier::rlimit(100)]
pub fn rle_decompress(s: &[u8]) -> (out: Vec<u8>)
    ensures
        out@ == rle_decode(s@),
{
    let mut out: Vec<u8> = Vec::new();
    let n = s.len();
    let mut i: usize = 0;
    let mut done = false;
    proof {
        assert(s@.skip(0) =~= s@);
    }
    while !done && i < n
        invariant
            i <= n,
            n == s@.len(),
            rle_decode(s@) =~= out@ + if done {
                Seq::<u8>::empty()
            } else {
                rle_decode(s@.skip(i as int))
            },
        decreases n - i + (if done {
            0int
        } else {
            1int
        }),
    {
        let ghost rest = s@.skip(i as int);
        let c = s[i];
        assert(rest[0] == c);
        if c == RLE_EOD {
            done = true;
            proof {
                assert(rle_decode(rest) =~= Seq::<u8>::empty());
            }
        } else if c < RLE_EOD {
            let avail = n - i - 1;
            let want = (c as usize) + 1;
            let take = if want <= avail {
                want
            } else {
                avail
            };
            let ghost pre = out@;
            let mut k: usize = 0;
            while k < take
                invariant
                    k <= take,
                    i < n,
                    i + 1 + take <= n,
                    n == s@.len(),
                    out@ =~= pre + s@.subrange(i + 1, i + 1 + k),
                decreases take - k,
            {
                out.push(s[i + 1 + k]);
                proof {
                    assert(s@.subrange(i + 1, i + 1 + k + 1) =~= s@.subrange(i + 1, i + 1 + k).push(
                        s@[i + 1 + k],
                    ));
                }
                k = k + 1;
            }
            proof {
                assert(rest.subrange(1, 1 + take) =~= s@.subrange(i + 1, i + 1 + take));
                assert(rest.skip(1 + take) =~= s@.skip(i + 1 + take));
                assert(rle_decode(rest) == rest.subrange(1, 1 + take as int) + rle_decode(
                    rest.skip(1 + take as int),
                ));
            }
            i = i + 1 + take;
        } else {
            if i + 1 < n {
                let b = s[i + 1];
                assert(rest.len() >= 2 && rest[1] == b);
                let reps = 257 - (c as usize);
                let ghost pre = out@;
                let mut k: usize = 0;
                while k < reps
                    invariant
                        k <= reps,
                        out@ =~= pre + Seq::<u8>::new(k as nat, |j: int| b),
                    decreases reps - k,
                {
                    out.push(b);
                    proof {
                        assert(Seq::<u8>::new((k + 1) as nat, |j: int| b) =~= Seq::<u8>::new(
                            k as nat,
                            |j: int| b,
                        ).push(b));
                    }
                    k = k + 1;
                }
                proof {
                    assert(rest.skip(2) =~= s@.skip(i + 2));
                    assert(rle_decode(rest) == Seq::<u8>::new((257 - c) as nat, |j: int| b)
                        + rle_decode(rest.skip(2)));
                }
                i = i + 2;
            } else {
                proof {
                    assert(rest.len() == 1);
                    assert(rle_decode(rest) =~= Seq::<u8>::empty());
                }
                i = n;
            }
        }
    }
    proof {
        if !done {
            assert(s@.skip(n as int) =~= Seq::<u8>::empty());
        }
    }
    out
}

} // verus!
