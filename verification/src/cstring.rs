//! C string routines the WebAssembly runtime exports to the C side.
use vstd::prelude::*;
use vstd::string::StringSliceAdditionalSpecFns;

verus! {

/// Whether the comparison of `a` and `b` stops at index 0: a terminator on
/// either side, or two bytes that differ.
pub open spec fn stops_here(a: Seq<u8>, b: Seq<u8>) -> bool {
    a[0] == 0 || b[0] == 0 || a[0] != b[0]
}

/// Both buffers are long enough for the byte-wise comparison to reach the
/// position where it stops.
pub open spec fn comparison_in_bounds(a: Seq<u8>, b: Seq<u8>) -> bool
    decreases a.len(),
{
    a.len() > 0 && b.len() > 0 && (stops_here(a, b) || comparison_in_bounds(
        a.drop_first(),
        b.drop_first(),
    ))
}

/// The value `strcmp` returns: 0 for equal strings, -1 when `a` is a proper
/// prefix of `b`, 1 when `b` is a proper prefix of `a`, and otherwise the
/// difference of the first pair of bytes that differ.
pub open spec fn c_strcmp(a: Seq<u8>, b: Seq<u8>) -> int
    decreases a.len(),
{
    if a.len() == 0 || b.len() == 0 {
        0
    } else if a[0] == 0 && b[0] == 0 {
        0
    } else if a[0] == 0 {
        -1
    } else if b[0] == 0 {
        1
    } else if a[0] != b[0] {
        a[0] - b[0]
    } else {
        c_strcmp(a.drop_first(), b.drop_first())
    }
}

/// The bytes of `s` from index `i` on.
pub open spec fn tail(s: Seq<u8>, i: usize) -> Seq<u8> {
    s.skip(i as int)
}

/// The bytes of `s` after index `i`.
pub open spec fn tail_after(s: Seq<u8>, i: usize) -> Seq<u8> {
    s.skip(i as int + 1)
}

/// Difference of two bytes, as a signed value.
fn byte_difference(c1: u8, c2: u8) -> (r: i32)
    ensures
        r == c1 - c2,
{
    c1 as i32 - c2 as i32
}

/// Compares two NUL-terminated byte strings.
pub fn strcmp(s1: &[u8], s2: &[u8]) -> (r: i32)
    requires
        comparison_in_bounds(s1@, s2@),
    ensures
        r == c_strcmp(s1@, s2@),
{
    let mut i: usize = 0;
    assert(tail(s1@, 0) =~= s1@);
    assert(tail(s2@, 0) =~= s2@);
    loop
        invariant
            i <= s1.len(),
            i <= s2.len(),
            comparison_in_bounds(tail(s1@, i), tail(s2@, i)),
            c_strcmp(s1@, s2@) == c_strcmp(tail(s1@, i), tail(s2@, i)),
        decreases s1.len() - i,
    {
        let c1 = s1[i];
        let c2 = s2[i];
        if c1 == 0 && c2 == 0 {
            return 0;
        } else if c1 == 0 {
            return -1;
        } else if c2 == 0 {
            return 1;
        } else if c1 != c2 {
            return byte_difference(c1, c2);
        }
        assert(tail(s1@, i).drop_first() =~= tail_after(s1@, i));
        assert(tail(s2@, i).drop_first() =~= tail_after(s2@, i));
        i = i + 1;
    }
}

/// Swapping the operands of `strcmp` negates the result.
pub proof fn lemma_strcmp_antisymmetric(a: Seq<u8>, b: Seq<u8>)
    ensures
        c_strcmp(a, b) == -c_strcmp(b, a),
    decreases a.len(),
{
    if a.len() > 0 && b.len() > 0 && a[0] != 0 && b[0] != 0 && a[0] == b[0] {
        lemma_strcmp_antisymmetric(a.drop_first(), b.drop_first());
    }
}

/// A NUL-terminated string compares equal to itself.
pub proof fn lemma_strcmp_reflexive(a: Seq<u8>)
    requires
        comparison_in_bounds(a, a),
    ensures
        c_strcmp(a, a) == 0,
    decreases a.len(),
{
    if a[0] != 0 {
        lemma_strcmp_reflexive(a.drop_first());
    }
}

/// What `strcmp` answers, by the first position `i` where the two strings
/// stop agreeing (every earlier byte is the same nonzero byte in both): the
/// strings are equal, and the answer 0, when both end there; a string that
/// ends there is the smaller (-1) or the larger (1) when only it or only
/// the other ends; otherwise the answer is the difference of the two raw
/// bytes at `i`.
pub proof fn lemma_strcmp_first_difference(a: Seq<u8>, b: Seq<u8>, i: int)
    requires
        0 <= i < a.len(),
        i < b.len(),
        forall|j: int| 0 <= j < i ==> a[j] == b[j] && a[j] != 0,
    ensures
        a[i] == 0 && b[i] == 0 ==> c_strcmp(a, b) == 0,
        a[i] == 0 && b[i] != 0 ==> c_strcmp(a, b) == -1,
        a[i] != 0 && b[i] == 0 ==> c_strcmp(a, b) == 1,
        a[i] != 0 && b[i] != 0 && a[i] != b[i] ==> c_strcmp(a, b) == a[i] - b[i],
        a[i] == b[i] && a[i] != 0 ==> c_strcmp(a, b) == c_strcmp(a.skip(i + 1), b.skip(i + 1)),
    decreases i,
{
    if i > 0 {
        assert(a[0] == b[0] && a[0] != 0);
        lemma_strcmp_first_difference(a.drop_first(), b.drop_first(), i - 1);
        assert(a.drop_first().skip(i) =~= a.skip(i + 1));
        assert(b.drop_first().skip(i) =~= b.skip(i + 1));
    } else {
        assert(a.drop_first() =~= a.skip(1));
        assert(b.drop_first() =~= b.skip(1));
    }
}

/// Two strings compare equal exactly when they hold the same bytes up to
/// and including the first NUL: `strcmp` gives 0 at the first position where
/// both end, and a nonzero answer at the first position where they differ.
pub proof fn lemma_strcmp_zero_iff_equal(a: Seq<u8>, b: Seq<u8>, i: int)
    requires
        0 <= i < a.len(),
        i < b.len(),
        forall|j: int| 0 <= j < i ==> a[j] == b[j] && a[j] != 0,
        a[i] == 0 || b[i] == 0 || a[i] != b[i],
    ensures
        c_strcmp(a, b) == 0 <==> (a[i] == 0 && b[i] == 0),
{
    lemma_strcmp_first_difference(a, b, i);
}

/// The bytes `vsnprintf` copies into a buffer of `bufsz` bytes, given the text
/// that formatting produced and the byte count the formatter reported, and
/// the value it returns: the copy covers the first `min(reported, bufsz - 1)`
/// bytes of the text. The terminating NUL of the truncated text is not part
/// of the copy: the runtime copies exactly the returned number of bytes.
pub fn vsnprintf_copy(formatted: &str, reported: i32, bufsz: usize) -> (r: (Vec<u8>, i32))
    requires
        1 <= bufsz <= i32::MAX,
        0 <= reported <= formatted.spec_bytes().len(),
        bufsz - 1 < formatted.spec_bytes().len() ==> vstd::utf8::is_char_boundary(
            formatted.spec_bytes(),
            bufsz - 1,
        ),
    ensures
        r.1 == (if reported <= bufsz - 1 {
            reported as int
        } else {
            bufsz - 1
        }),
        r.0@ == formatted.spec_bytes().take(r.1 as int),
{
    let limit: i32 = (bufsz - 1) as i32;
    let written: i32 = if reported < limit {
        reported
    } else {
        limit
    };
    let bytes = formatted.as_bytes();
    let mut out: Vec<u8> = Vec::new();
    let n: usize = written as usize;
    let mut k: usize = 0;
    while k < n
        invariant
            n == written,
            n <= bytes@.len(),
            bytes@ == formatted.spec_bytes(),
            k <= n,
            out@ == bytes@.take(k as int),
        decreases n - k,
    {
        out.push(bytes[k]);
        assert(bytes@.take(k + 1) =~= bytes@.take(k as int).push(bytes@[k as int]));
        k = k + 1;
    }
    (out, written)
}

/// Calls `core::str::from_utf8`, which accepts exactly the valid UTF-8
/// byte sequences and decodes them.
#[verifier::external_body]
pub(crate) fn utf8_to_string(bytes: &[u8]) -> (r: Option<String>)
    ensures
        r is Some <==> vstd::utf8::valid_utf8(bytes@),
        r matches Some(s) ==> s@ == vstd::utf8::decode_utf8(bytes@),
{
    match core::str::from_utf8(bytes) {
        Ok(s) => Some(s.to_string()),
        Err(_) => None,
    }
}

} // verus!
