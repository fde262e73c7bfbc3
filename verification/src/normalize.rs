//! The path normalizer: maps a raw request path to a bounded-cardinality
//! metric label value. Paths under `/api/` with more than three `/`-separated
//! segments whose final segment looks like an identifier (an unsigned 64-bit
//! decimal numeral, or longer than ten bytes) have that segment replaced by
//! the literal `:id`; every other path is returned unchanged.
//!
//! The model works on the UTF-8 bytes of the path, matching the byte-level
//! splitting, length and parsing rules of the normalizer.

use vstd::prelude::*;
use vstd::string::{StrSliceExecFns, StringExecFns, StringSliceAdditionalSpecFns};
use vstd::utf8::{
    encode_scalar, encode_utf8, encode_utf8_decode_utf8, encode_utf8_valid_utf8, is_ascii_chars,
    is_ascii_chars_encode_utf8, is_char_boundary_iff_not_is_continuation_byte, is_continuation_byte,
    valid_utf8,
};

verus! {

/// The byte value of `/`.
pub const SLASH: u8 = 47;

/// The byte value of `+`, accepted as a sign by unsigned decimal parsing.
pub const PLUS: u8 = 43;

/// How many `/` bytes the path holds.
pub open spec fn slash_count(p: Seq<u8>) -> nat
    decreases p.len(),
{
    if p.len() == 0 {
        0
    } else {
        slash_count(p.drop_last()) + (if p.last() == SLASH {
            1nat
        } else {
            0nat
        })
    }
}

/// Splitting on `/` yields one more segment than there are `/` bytes
/// (the empty leading segment of an absolute path included).
pub open spec fn segment_count(p: Seq<u8>) -> nat {
    slash_count(p) + 1
}

/// Index of the last `/` byte of the path, or -1 when it has none.
pub open spec fn last_slash_index(p: Seq<u8>) -> int
    decreases p.len(),
{
    if p.len() == 0 {
        -1
    } else if p.last() == SLASH {
        p.len() - 1
    } else {
        last_slash_index(p.drop_last())
    }
}

/// The final `/`-separated segment: everything after the last `/` byte,
/// or the whole path when it has no `/`.
pub open spec fn last_segment(p: Seq<u8>) -> Seq<u8> {
    p.subrange(last_slash_index(p) + 1, p.len() as int)
}

/// Whether the path begins with `/api/` (bytes 47 97 112 105 47).
pub open spec fn starts_with_api(p: Seq<u8>) -> bool {
    p.len() >= 5 && p[0] == SLASH && p[1] == 97 && p[2] == 112 && p[3] == 105 && p[4] == SLASH
}

/// Whether the byte is an ASCII decimal digit.
pub open spec fn is_digit(b: u8) -> bool {
    48 <= b <= 57
}

/// Whether every byte of the sequence is an ASCII decimal digit.
pub open spec fn all_digits(s: Seq<u8>) -> bool {
    forall|i: int| 0 <= i < s.len() ==> is_digit(#[trigger] s[i])
}

/// The numeric value of a sequence of ASCII decimal digits.
pub open spec fn digits_value(s: Seq<u8>) -> nat
    recommends
        all_digits(s),
    decreases s.len(),
{
    if s.len() == 0 {
        0
    } else {
        digits_value(s.drop_last()) * 10 + (s.last() - 48) as nat
    }
}

/// Whether the segment parses as an unsigned 64-bit decimal integer: an
/// optional `+` sign, then at least one decimal digit, with a value of at
/// most `u64::MAX`.
pub open spec fn is_u64_numeral(s: Seq<u8>) -> bool {
    let d = if s.len() > 0 && s[0] == PLUS {
        s.drop_first()
    } else {
        s
    };
    d.len() > 0 && all_digits(d) && digits_value(d) <= u64::MAX
}

/// Whether the final segment counts as an identifier: a decimal numeral, or
/// longer than ten bytes.
pub open spec fn is_identifier_segment(s: Seq<u8>) -> bool {
    is_u64_numeral(s) || s.len() > 10
}

/// The bytes of the replacement suffix `/:id`.
pub open spec fn id_suffix() -> Seq<u8> {
    seq![47u8, 58u8, 105u8, 100u8]
}

/// The normalized form of a path: under `/api/`, with more than three
/// segments and an identifier-shaped final segment, that segment becomes
/// `:id`; otherwise the path itself.
pub open spec fn spec_normalize(p: Seq<u8>) -> Seq<u8> {
    if starts_with_api(p) && segment_count(p) > 3 && is_identifier_segment(last_segment(p)) {
        p.take(last_slash_index(p)) + id_suffix()
    } else {
        p
    }
}

/// Powers of ten.
pub open spec fn pow10(n: nat) -> nat
    decreases n,
{
    if n == 0 {
        1
    } else {
        10 * pow10((n - 1) as nat)
    }
}

/// A sequence of n decimal digits has a value below 10^n.
proof fn lemma_digits_value_bound(s: Seq<u8>)
    requires
        all_digits(s),
    ensures
        digits_value(s) < pow10(s.len()),
    decreases s.len(),
{
    if s.len() > 0 {
        assert(all_digits(s.drop_last()));
        lemma_digits_value_bound(s.drop_last());
        assert((s.last() - 48) as nat <= 9);
    }
}

proof fn lemma_pow10_monotonic(a: nat, b: nat)
    requires
        a <= b,
    ensures
        pow10(a) <= pow10(b),
    decreases b,
{
    if a < b {
        lemma_pow10_monotonic(a, (b - 1) as nat);
    }
}

/// A numeral of at most ten digits always fits in a u64.
proof fn lemma_short_digits_fit_u64(s: Seq<u8>)
    requires
        all_digits(s),
        s.len() <= 10,
    ensures
        digits_value(s) <= u64::MAX,
{
    lemma_digits_value_bound(s);
    lemma_pow10_monotonic(s.len(), 10);
    assert(pow10(10) == 10000000000) by {
        reveal_with_fuel(pow10, 11);
    }
}

/// Slash counts add up across concatenation.
proof fn lemma_slash_count_concat(a: Seq<u8>, b: Seq<u8>)
    ensures
        slash_count(a + b) == slash_count(a) + slash_count(b),
    decreases b.len(),
{
    if b.len() == 0 {
        assert(a + b =~= a);
    } else {
        assert((a + b).drop_last() =~= a + b.drop_last());
        assert((a + b).last() == b.last());
        lemma_slash_count_concat(a, b.drop_last());
    }
}

/// When the right part of a concatenation holds a slash, the last slash of
/// the whole lies inside the right part.
proof fn lemma_last_slash_concat(a: Seq<u8>, b: Seq<u8>)
    requires
        last_slash_index(b) >= 0,
    ensures
        last_slash_index(a + b) == a.len() + last_slash_index(b),
    decreases b.len(),
{
    assert(b.len() > 0);
    if b.last() == SLASH {
        assert((a + b).last() == b.last());
    } else {
        assert((a + b).drop_last() =~= a + b.drop_last());
        assert((a + b).last() == b.last());
        lemma_last_slash_concat(a, b.drop_last());
    }
}

/// Where the last slash stands and what follows it.
proof fn lemma_last_slash_properties(p: Seq<u8>)
    ensures
        -1 <= last_slash_index(p) < p.len(),
        last_slash_index(p) >= 0 ==> p[last_slash_index(p)] == SLASH,
        forall|j: int| last_slash_index(p) < j < p.len() ==> p[j] != SLASH,
        (last_slash_index(p) == -1) <==> (slash_count(p) == 0),
    decreases p.len(),
{
    if p.len() > 0 {
        lemma_last_slash_properties(p.drop_last());
        if p.last() != SLASH {
            let q = p.drop_last();
            assert forall|j: int| last_slash_index(p) < j < p.len() implies p[j] != SLASH by {
                if j < p.len() - 1 {
                    assert(p[j] == q[j]);
                }
            }
        }
    }
}

/// UTF-8 encoding distributes over concatenation of character sequences.
pub proof fn lemma_encode_utf8_concat(a: Seq<char>, b: Seq<char>)
    ensures
        encode_utf8(a + b) == encode_utf8(a) + encode_utf8(b),
    decreases a.len(),
{
    if a.len() == 0 {
        assert(a + b =~= b);
        assert(encode_utf8(a) + encode_utf8(b) =~= encode_utf8(b));
    } else {
        assert((a + b).drop_first() =~= a.drop_first() + b);
        assert((a + b)[0] == a[0]);
        lemma_encode_utf8_concat(a.drop_first(), b);
        assert(encode_scalar(a[0] as u32) + (encode_utf8(a.drop_first()) + encode_utf8(b)) =~= (
        encode_scalar(a[0] as u32) + encode_utf8(a.drop_first())) + encode_utf8(b));
    }
}

/// Equal UTF-8 encodings come from equal character sequences.
pub proof fn lemma_encode_utf8_injective(a: Seq<char>, b: Seq<char>)
    requires
        encode_utf8(a) == encode_utf8(b),
    ensures
        a == b,
{
    encode_utf8_decode_utf8(a);
    encode_utf8_decode_utf8(b);
}

/// The bytes of the literal `/:id`.
proof fn lemma_id_suffix_bytes()
    ensures
        "/:id".spec_bytes() == id_suffix(),
        is_ascii_chars("/:id"@),
{
    reveal_strlit("/:id");
    assert(is_ascii_chars("/:id"@));
    is_ascii_chars_encode_utf8("/:id"@);
    assert(encode_utf8("/:id"@) =~= id_suffix());
}

/// Maps a raw request path to a metric label value of bounded cardinality.
///
/// Paths outside `/api/`, paths of at most three `/`-separated segments, and
/// paths whose final segment is neither a decimal numeral nor longer than ten
/// bytes come back unchanged; otherwise the final segment is replaced by the
/// literal `:id`.
pub fn normalize_path(path: &str) -> (r: String)
    ensures
        encode_utf8(r@) == spec_normalize(path.spec_bytes()),
        spec_normalize(path.spec_bytes()) == path.spec_bytes() ==> r@ == path@,
{
    let ghost p: Seq<u8> = path.spec_bytes();
    let b: &[u8] = path.as_bytes();
    let n: usize = b.len();

    // Step 1: only paths under /api/ are ever rewritten.
    if n < 5 || b[0] != SLASH || b[1] != 97 || b[2] != 112 || b[3] != 105 || b[4] != SLASH {
        assert(!starts_with_api(p));
        return path.to_owned();
    }

    // Step 2: count the slashes and find the last one.
    let mut slashes: usize = 0;
    let mut last: usize = 0;
    let mut i: usize = 0;
    while i < n
        invariant
            i <= n == p.len(),
            b@ == p,
            slashes <= i,
            slashes == slash_count(p.take(i as int)),
            slashes > 0 ==> last < i && last as int == last_slash_index(p.take(i as int)),
            slashes == 0 ==> last_slash_index(p.take(i as int)) == -1,
        decreases n - i,
    {
        proof {
            assert(p.take(i + 1 as int).drop_last() =~= p.take(i as int));
        }
        if b[i] == SLASH {
            slashes = slashes + 1;
            last = i;
        }
        i = i + 1;
    }
    proof {
        assert(p.take(n as int) =~= p);
    }

    // A segment count of at most three means at most two slashes.
    if slashes < 3 {
        assert(segment_count(p) <= 3);
        return path.to_owned();
    }
    proof {
        lemma_last_slash_properties(p);
    }
    assert(last as int == last_slash_index(p));
    assert(last < n);

    // Step 3: is the final segment an identifier?
    let ghost seg: Seq<u8> = last_segment(p);
    let start: usize = last + 1;
    let seg_len: usize = n - start;
    assert(seg =~= p.subrange(start as int, n as int));

    let identifier: bool;
    if seg_len > 10 {
        identifier = true;
    } else {
        // At most ten digits never overflow a u64, so only the shape matters:
        // an optional + sign, then at least one decimal digit.
        let dstart: usize = if seg_len >= 1 && b[start] == PLUS {
            start + 1
        } else {
            start
        };
        let ghost d: Seq<u8> = p.subrange(dstart as int, n as int);
        proof {
            if seg.len() > 0 && seg[0] == PLUS {
                assert(d =~= seg.drop_first());
            } else {
                assert(d =~= seg);
            }
        }
        if dstart == n {
            identifier = false;
        } else {
            let mut digits_ok: bool = true;
            let mut j: usize = dstart;
            while j < n
                invariant
                    dstart <= j <= n == p.len(),
                    b@ == p,
                    digits_ok <==> all_digits(p.subrange(dstart as int, j as int)),
                decreases n - j,
            {
                proof {
                    assert(p.subrange(dstart as int, j + 1 as int).drop_last() =~= p.subrange(
                        dstart as int,
                        j as int,
                    ));
                    assert(p.subrange(dstart as int, j + 1 as int).last() == p[j as int]);
                }
                if b[j] < 48 || b[j] > 57 {
                    digits_ok = false;
                    proof {
                        assert(!is_digit(p.subrange(dstart as int, j + 1 as int).last()));
                    }
                } else {
                    proof {
                        let pre = p.subrange(dstart as int, j as int);
                        let ext = p.subrange(dstart as int, j + 1 as int);
                        if all_digits(pre) {
                            assert(forall|k: int|
                                0 <= k < ext.len() - 1 ==> ext[k] == #[trigger] pre[k]);
                            assert(all_digits(ext));
                        }
                    }
                }
                j = j + 1;
            }
            identifier = digits_ok;
            proof {
                if digits_ok {
                    lemma_short_digits_fit_u64(d);
                    assert(is_u64_numeral(seg));
                } else {
                    assert(!is_u64_numeral(seg));
                }
            }
        }
    }
    assert(identifier == is_identifier_segment(seg));

    if !identifier {
        return path.to_owned();
    }

    // Step 4: replace the final segment with :id.
    proof {
        encode_utf8_valid_utf8(path@);
        assert(valid_utf8(p));
        is_char_boundary_iff_not_is_continuation_byte(p, last as int);
        assert(!is_continuation_byte(p[last as int]));
    }
    let pair = path.split_at(last);
    let prefix: &str = pair.0;
    let mut out: String = prefix.to_owned();
    out.append("/:id");
    proof {
        lemma_encode_utf8_concat(prefix@, "/:id"@);
        lemma_id_suffix_bytes();
        assert(prefix.spec_bytes() =~= p.take(last as int));
        assert(encode_utf8(out@) =~= p.take(last as int) + id_suffix());
        if spec_normalize(p) == p {
            lemma_encode_utf8_injective(out@, path@);
        }
    }
    out
}

/// Normalizing a second time changes nothing: the normalizer is idempotent.
pub proof fn lemma_normalize_idempotent(p: Seq<u8>)
    ensures
        spec_normalize(spec_normalize(p)) == spec_normalize(p),
{
    if starts_with_api(p) && segment_count(p) > 3 && is_identifier_segment(last_segment(p)) {
        lemma_last_slash_properties(p);
        let i = last_slash_index(p);
        let head = p.take(i);
        let q = head + id_suffix();
        assert(spec_normalize(p) == q);

        // The last slash of the rewritten path is the one in front of :id.
        assert(last_slash_index(id_suffix()) == 0) by {
            let s = id_suffix();
            let s3 = seq![47u8, 58u8, 105u8];
            let s2 = seq![47u8, 58u8];
            let s1 = seq![47u8];
            assert(s.drop_last() =~= s3);
            assert(s3.drop_last() =~= s2);
            assert(s2.drop_last() =~= s1);
            assert(last_slash_index(s1) == 0);
            assert(last_slash_index(s2) == 0);
            assert(last_slash_index(s3) == 0);
        }
        lemma_last_slash_concat(head, id_suffix());
        assert(last_slash_index(q) == head.len());

        // Its final segment is :id, which is no identifier.
        let tail = last_segment(q);
        assert(tail =~= seq![58u8, 105u8, 100u8]);
        assert(!is_u64_numeral(tail)) by {
            if tail.len() > 0 && tail[0] == PLUS {
            } else {
                assert(!is_digit(tail[0]));
            }
        }
        assert(!is_identifier_segment(tail));
        assert(spec_normalize(q) == q);
    }
}

/// A path outside `/api/` is returned unchanged.
pub proof fn lemma_normalize_non_api_unchanged(p: Seq<u8>)
    requires
        !starts_with_api(p),
    ensures
        spec_normalize(p) == p,
{
}

/// A path of at most three segments is returned unchanged.
pub proof fn lemma_normalize_few_segments_unchanged(p: Seq<u8>)
    requires
        segment_count(p) <= 3,
    ensures
        spec_normalize(p) == p,
{
}

} // verus!
