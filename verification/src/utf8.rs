//! UTF-8 boundary scanning: find the longest prefix of a byte buffer that
//! ends on a complete UTF-8 code point boundary, so that a buffer can be
//! split for delivery without tearing a multi-byte character in two.

use vstd::prelude::*;

verus! {

/// A UTF-8 continuation byte: bit pattern `10xxxxxx`.
pub open spec fn is_cont(b: u8) -> bool {
    0x80 <= b < 0xC0
}

/// Sequence length announced by a leading byte, by the standard UTF-8
/// leading-byte ranges. Bytes that cannot lead a multi-byte sequence
/// (ASCII and stray continuation bytes) count as length 1.
pub open spec fn lead_len(b: u8) -> int {
    if b < 0xC0 {
        1
    } else if b < 0xE0 {
        2
    } else if b < 0xF0 {
        3
    } else {
        4
    }
}

/// Start of the last (possibly incomplete) sequence in a non-empty buffer:
/// the largest index holding a non-continuation byte, or 0 when every byte
/// is a continuation byte.
pub open spec fn last_lead_index(s: Seq<u8>) -> int
    decreases s.len(),
{
    if s.len() == 0 {
        0
    } else if !is_cont(s[s.len() - 1]) {
        s.len() - 1
    } else if s.len() == 1 {
        0
    } else {
        last_lead_index(s.drop_last())
    }
}

/// The offset returned by the boundary scanner: the length of the longest
/// prefix that contains no truncated trailing multi-byte sequence.
pub open spec fn boundary_of(s: Seq<u8>) -> int {
    if s.len() == 0 {
        0
    } else if s[s.len() - 1] < 0x80 {
        s.len() as int
    } else {
        let i = last_lead_index(s);
        if s.len() - i >= lead_len(s[i]) {
            s.len() as int
        } else {
            i
        }
    }
}

proof fn lemma_last_lead_index_range(s: Seq<u8>)
    requires
        s.len() > 0,
    ensures
        0 <= last_lead_index(s) < s.len(),
    decreases s.len(),
{
    if is_cont(s[s.len() - 1]) && s.len() > 1 {
        lemma_last_lead_index_range(s.drop_last());
    }
}

/// The scan that walks backward over continuation bytes lands exactly on
/// `last_lead_index`: once everything after `i` is a continuation byte and
/// `i` itself is not (or `i` is 0), `i` is that index.
proof fn lemma_last_lead_index_at(s: Seq<u8>, i: int)
    requires
        s.len() > 0,
        0 <= i < s.len(),
        forall|j: int| i < j < s.len() ==> is_cont(s[j]),
        i == 0 || !is_cont(s[i]),
    ensures
        last_lead_index(s) == i,
    decreases s.len(),
{
    if i == s.len() - 1 {
        if i == 0 && is_cont(s[0]) {
        }
    } else {
        assert(is_cont(s[s.len() - 1]));
        lemma_last_lead_index_at(s.drop_last(), i);
    }
}

/// A byte that can begin a UTF-8 code point encoding: ASCII, or a
/// multi-byte leading byte in the standard ranges (0xC2..=0xF4).
pub open spec fn is_lead(b: u8) -> bool {
    b < 0x80 || 0xC2 <= b < 0xF5
}

/// Structural UTF-8 completeness: the buffer is a concatenation of
/// correctly framed code point encodings, each a leading byte followed by
/// exactly the number of continuation bytes it announces. Code-point-level
/// constraints (surrogates, overlong forms beyond 0xC0/0xC1, values above
/// U+10FFFF) are outside the scanner's concern and are not modeled.
pub open spec fn complete_utf8(s: Seq<u8>) -> bool
    decreases s.len(),
{
    s.len() == 0 || {
        &&& is_lead(s[0])
        &&& lead_len(s[0]) <= s.len()
        &&& (forall|j: int| 0 < j < lead_len(s[0]) ==> is_cont(s[j]))
        &&& complete_utf8(s.skip(lead_len(s[0])))
    }
}

/// A proper prefix of a single multi-byte code point encoding (possibly
/// empty): a leading byte followed by too few continuation bytes.
pub open spec fn partial_char(p: Seq<u8>) -> bool {
    &&& (p.len() > 0 ==> is_lead(p[0]) && p.len() < lead_len(p[0]))
    &&& (forall|j: int| 0 < j < p.len() ==> is_cont(p[j]))
}

/// Scan a buffer backward for the longest prefix that ends on a complete
/// UTF-8 code point boundary. Returns the full length when nothing at the
/// tail is truncated; otherwise the offset of the leading byte of the
/// incomplete final sequence.
pub fn utf8_boundary(data: &[u8]) -> (k: usize)
    ensures
        k == boundary_of(data@),
        0 <= k <= data@.len(),
{
    let len = data.len();
    if len == 0 {
        return 0;
    }
    if data[len - 1] < 0x80 {
        return len;
    }
    let mut i = len - 1;
    while i > 0 && 0x80 <= data[i] && data[i] < 0xC0
        invariant
            0 <= i < len,
            len == data@.len(),
            forall|j: int| i < j < len ==> is_cont(data@[j]),
        decreases i,
    {
        i = i - 1;
    }
    proof {
        lemma_last_lead_index_at(data@, i as int);
    }
    let leading = data[i];
    let expected: usize = if leading < 0xC0 {
        1
    } else if leading < 0xE0 {
        2
    } else if leading < 0xF0 {
        3
    } else {
        4
    };
    if len - i >= expected {
        len
    } else {
        i
    }
}

/// The backward scan is oblivious to anything left of a non-continuation
/// byte: prepending `x` to a buffer `w` whose first byte is not a
/// continuation byte shifts the scan result by `x.len()`.
proof fn lemma_last_lead_index_shift(x: Seq<u8>, w: Seq<u8>)
    requires
        w.len() > 0,
        !is_cont(w[0]),
    ensures
        last_lead_index(x + w) == x.len() + last_lead_index(w),
    decreases w.len(),
{
    let s = x + w;
    assert(s.len() == x.len() + w.len());
    assert(s[s.len() - 1] == w[w.len() - 1]);
    if !is_cont(w[w.len() - 1]) {
        assert(last_lead_index(w) == w.len() - 1);
    } else {
        assert(w.len() > 1);
        assert(s.drop_last() =~= x + w.drop_last());
        lemma_last_lead_index_shift(x, w.drop_last());
    }
}

/// And so is the boundary: the offset in `x + w` is `x.len()` plus the
/// offset in `w`, whenever `w` starts with a non-continuation byte.
proof fn lemma_boundary_shift(x: Seq<u8>, w: Seq<u8>)
    requires
        w.len() > 0,
        !is_cont(w[0]),
    ensures
        boundary_of(x + w) == x.len() + boundary_of(w),
{
    let s = x + w;
    lemma_last_lead_index_shift(x, w);
    lemma_last_lead_index_range(w);
    assert(s[s.len() - 1] == w[w.len() - 1]);
    let iw = last_lead_index(w);
    assert(s[x.len() + iw] == w[iw]);
}

/// Splitting at the scanner's offset loses no byte and, for any buffer that
/// is a complete UTF-8 stream followed by at most one truncated code point,
/// the offset falls exactly at the end of the complete part: the prefix is
/// complete UTF-8 and the suffix is the truncated tail, ready to be joined
/// with the bytes that arrive next.
pub proof fn lemma_boundary_of_stream(v: Seq<u8>, p: Seq<u8>)
    requires
        complete_utf8(v),
        partial_char(p),
    ensures
        boundary_of(v + p) == v.len(),
        (v + p).take(v.len() as int) == v,
        (v + p).skip(v.len() as int) == p,
    decreases v.len(),
{
    assert((v + p).take(v.len() as int) =~= v);
    assert((v + p).skip(v.len() as int) =~= p);
    if v.len() == 0 {
        assert(v + p =~= p);
        if p.len() == 0 {
        } else {
            assert(is_lead(p[0]) && p.len() < lead_len(p[0]));
            assert(lead_len(p[0]) >= 2);
            assert(p[0] >= 0xC2);
            assert(!is_cont(p[0]));
            if p.len() == 1 {
                assert(last_lead_index(p) == 0);
            } else {
                lemma_last_lead_index_at(p, 0);
            }
            assert(boundary_of(p) == 0);
        }
    } else {
        let ll = lead_len(v[0]);
        let c = v.take(ll);
        let rest = v.skip(ll);
        let w = rest + p;
        assert(complete_utf8(rest));
        lemma_boundary_of_stream(rest, p);
        if w.len() == 0 {
            // The whole buffer is the single encoding `c` (plus nothing).
            assert(v + p =~= v);
            assert(rest.len() == 0 && p.len() == 0);
            assert(v.len() == ll);
            if v[0] < 0x80 {
                assert(boundary_of(v) == v.len());
            } else {
                assert(forall|j: int| 0 < j < v.len() ==> is_cont(v[j]));
                assert(!is_cont(v[0]));
                if v.len() == 1 {
                    assert(last_lead_index(v) == 0);
                } else {
                    lemma_last_lead_index_at(v, 0);
                }
                assert(boundary_of(v) == v.len());
            }
        } else {
            if rest.len() > 0 {
                assert(is_lead(rest[0]));
                assert(w[0] == rest[0]);
            } else {
                assert(w =~= p);
                assert(is_lead(p[0]));
            }
            assert(!is_cont(w[0]));
            assert(v + p =~= c + w);
            lemma_boundary_shift(c, w);
            assert(boundary_of(v + p) == c.len() + boundary_of(w));
            assert(boundary_of(w) == rest.len());
        }
    }
}

/// A buffer of pure ASCII bytes is never truncated: the scanner returns
/// its full length.
pub proof fn lemma_boundary_ascii(s: Seq<u8>)
    requires
        forall|i: int| 0 <= i < s.len() ==> s[i] < 0x80,
    ensures
        boundary_of(s) == s.len(),
{
}

/// A buffer ending mid-way through a multi-byte sequence is cut just
/// before that sequence's leading byte: no byte of the truncated sequence
/// is inside the prefix.
pub proof fn lemma_boundary_excludes_truncated(v: Seq<u8>, p: Seq<u8>)
    requires
        complete_utf8(v),
        partial_char(p),
        p.len() > 0,
    ensures
        boundary_of(v + p) == v.len(),
        boundary_of(v + p) < v.len() + p.len(),
{
    lemma_boundary_of_stream(v, p);
}

/// The scanner either accepts the whole buffer or holds back at most the
/// three bytes a truncated four-byte sequence can leave behind, so an
/// unconsumed tail never grows without bound.
pub proof fn lemma_boundary_leftover_bound(s: Seq<u8>)
    ensures
        0 <= boundary_of(s) <= s.len(),
        boundary_of(s) == s.len() || s.len() - boundary_of(s) <= 3,
{
    if s.len() > 0 && !(s[s.len() - 1] < 0x80) {
        lemma_last_lead_index_range(s);
    }
}

} // verus!
