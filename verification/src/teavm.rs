//! Strings exchanged with Java programs compiled by TeaVM: Java keeps them
//! as arrays of UTF-16 code units in the module's linear memory.
use vstd::prelude::*;
use vstd::string::StringSliceAdditionalSpecFns;
use crate::cstring::utf8_to_string;
use crate::module::{c_string, c_string_bytes};

verus! {

/// A UTF-16 leading (high) surrogate.
pub open spec fn is_high_surrogate(u: u16) -> bool {
    0xD800 <= u && u <= 0xDBFF
}

/// A UTF-16 trailing (low) surrogate.
pub open spec fn is_low_surrogate(u: u16) -> bool {
    0xDC00 <= u && u <= 0xDFFF
}

/// The character a surrogate pair encodes.
pub open spec fn pair_char(hi: u16, lo: u16) -> char {
    (0x10000 + (hi - 0xD800) * 0x400 + (lo - 0xDC00)) as char
}

/// U+FFFD, which stands for each unit that is not part of a valid encoding.
pub open spec fn replacement_char() -> char {
    '\u{FFFD}'
}

/// Lossy decoding of UTF-16: a surrogate pair becomes the character it
/// encodes, a unit outside the surrogate range becomes the character with
/// that code, and every other surrogate becomes U+FFFD.
pub open spec fn utf16_lossy(u: Seq<u16>) -> Seq<char>
    decreases u.len(),
{
    if u.len() == 0 {
        Seq::empty()
    } else if u.len() >= 2 && is_high_surrogate(u[0]) && is_low_surrogate(u[1]) {
        seq![pair_char(u[0], u[1])] + utf16_lossy(u.skip(2))
    } else if is_high_surrogate(u[0]) || is_low_surrogate(u[0]) {
        seq![replacement_char()] + utf16_lossy(u.skip(1))
    } else {
        seq![u[0] as char] + utf16_lossy(u.skip(1))
    }
}

/// Calls `String::from_utf16_lossy`, which decodes UTF-16, replacing each
/// unpaired surrogate with U+FFFD, as `utf16_lossy` states.
#[verifier::external_body]
fn decode_utf16_lossy(units: &[u16]) -> (s: String)
    ensures
        s@ == utf16_lossy(units@),
{
    String::from_utf16_lossy(units)
}

/// The code units of `bytes` read two at a time, low byte first.
pub open spec fn units_le(bytes: Seq<u8>) -> Seq<u16> {
    Seq::new(bytes.len() / 2, |i: int| (bytes[2 * i] + 256 * bytes[2 * i + 1]) as u16)
}

/// The code units of `bytes` read two at a time, high byte first.
pub open spec fn units_be(bytes: Seq<u8>) -> Seq<u16> {
    Seq::new(bytes.len() / 2, |i: int| (256 * bytes[2 * i] + bytes[2 * i + 1]) as u16)
}

/// Calls `bytemuck::try_cast_slice` to view bytes as UTF-16 code units:
/// the memory is reinterpreted, so each unit is a pair of bytes read in the
/// machine's byte order, which is one of the two. It fails when the byte
/// count is odd and when the bytes are not aligned for `u16`; the latter
/// depends on their address and is not stated.
#[verifier::external_body]
fn cast_to_units(bytes: &[u8]) -> (r: Option<Vec<u16>>)
    ensures
        bytes@.len() % 2 == 1 ==> r is None,
        r matches Some(units) ==> bytes@.len() % 2 == 0 && (units@ == units_le(bytes@) || units@
            == units_be(bytes@)),
{
    match bytemuck::try_cast_slice::<u8, u16>(bytes) {
        Ok(units) => Some(units.to_vec()),
        Err(_) => None,
    }
}

/// Decodes a Java string's UTF-16 code units into a Rust string, replacing
/// unpaired surrogates with U+FFFD.
pub fn java_string_from_units(units: &[u16]) -> (s: String)
    ensures
        s@ == utf16_lossy(units@),
{
    decode_utf16_lossy(units)
}

/// The bytes of the `len` code units stored at `addr`.
pub open spec fn unit_bytes(memory: Seq<u8>, addr: int, len: int) -> Seq<u8> {
    memory.subrange(addr, addr + 2 * len)
}

/// The string Java stores as the bytes `b`, in one of the two byte orders.
pub open spec fn stored_string(b: Seq<u8>, s: Seq<char>) -> bool {
    s == utf16_lossy(units_le(b)) || s == utf16_lossy(units_be(b))
}

/// Some two-byte unit of the `len` units at `addr` is all zero bytes.
pub open spec fn has_zero_unit(memory: Seq<u8>, addr: int, len: int) -> bool {
    exists|i: int| 0 <= i < len && #[trigger] memory[addr + 2 * i] == 0 && memory[addr + 2 * i + 1]
        == 0
}

/// The C string a Java string becomes: the UTF-8 encoding of its lossy
/// decoding and a NUL, or nothing when the decoded text holds a NUL.
pub open spec fn java_c_string(units: Seq<u16>) -> Option<Seq<u8>> {
    c_string(vstd::utf8::encode_utf8(utf16_lossy(units)))
}

/// What `get_string` returns once the memory was read as code units:
/// the lossy decoding of the units, or `None` when they could not be read.
pub fn java_string_from_cast(units: Option<Vec<u16>>) -> (r: Option<String>)
    ensures
        r is Some <==> units is Some,
        r matches Some(s) ==> s@ == utf16_lossy(units.unwrap()@),
{
    match units {
        Some(units) => Some(decode_utf16_lossy(units.as_slice())),
        None => None,
    }
}

/// What `get_cstring` returns once the memory was read as code units: the
/// decoded text as a C string, or `None` when the units could not be read
/// or the text holds a NUL.
pub fn java_cstring_from_cast(units: Option<Vec<u16>>) -> (r: Option<Vec<u8>>)
    ensures
        r is Some <==> (units matches Some(u) && java_c_string(u@) is Some),
        r matches Some(b) ==> java_c_string(units.unwrap()@) == Some(b@),
{
    match units {
        Some(units) => {
            let s = decode_utf16_lossy(units.as_slice());
            let text: &str = s.as_str();
            proof {
                assert(text.spec_bytes() == vstd::utf8::encode_utf8(s@));
            }
            c_string_bytes(text)
        },
        None => None,
    }
}

/// Copies the Java string of `len` UTF-16 units stored at `array_addr` out
/// of linear memory, decoding it lossily. `None` when the units are not
/// aligned in memory for `u16`.
pub fn get_string(memory: &[u8], array_addr: usize, len: usize) -> (r: Option<String>)
    requires
        array_addr + 2 * len <= memory@.len(),
    ensures
        r matches Some(s) ==> stored_string(unit_bytes(memory@, array_addr as int, len as int), s@),
{
    proof {
        assert(memory.len() == memory@.len());
    }
    let bytes = 2 * len;
    let array = &memory[array_addr..array_addr + bytes];
    assert(array@ =~= unit_bytes(memory@, array_addr as int, len as int));
    java_string_from_cast(cast_to_units(array))
}

/// Copies the Java string of `len` UTF-16 units stored at `array_addr` out
/// of linear memory as a C string: its UTF-8 encoding and a NUL. The string
/// must hold no NUL character, that is, no code unit may be zero; `None`
/// when the units are not aligned in memory for `u16`.
pub fn get_cstring(memory: &[u8], array_addr: usize, len: usize) -> (r: Option<Vec<u8>>)
    requires
        array_addr + 2 * len <= memory@.len(),
        !has_zero_unit(memory@, array_addr as int, len as int),
    ensures
        r matches Some(bytes) ==> exists|s: Seq<char>|
            #![trigger c_string(vstd::utf8::encode_utf8(s))]
            stored_string(unit_bytes(memory@, array_addr as int, len as int), s) && c_string(
                vstd::utf8::encode_utf8(s),
            ) == Some(bytes@),
{
    proof {
        assert(memory.len() == memory@.len());
    }
    let bytes = 2 * len;
    let array = &memory[array_addr..array_addr + bytes];
    let ghost b = unit_bytes(memory@, array_addr as int, len as int);
    assert(array@ =~= b);
    java_cstring_from_cast(cast_to_units(array))
}

/// A decoded string holds a NUL character exactly when one of its code
/// units is zero.
pub proof fn lemma_nul_iff_zero_unit(u: Seq<u16>)
    ensures
        utf16_lossy(u).contains('\0') <==> u.contains(0u16),
    decreases u.len(),
{
    if u.len() == 0 {
        assert(!Seq::<char>::empty().contains('\0'));
    } else if u.len() >= 2 && is_high_surrogate(u[0]) && is_low_surrogate(u[1]) {
        lemma_nul_iff_zero_unit(u.skip(2));
        let head = seq![pair_char(u[0], u[1])];
        assert(pair_char(u[0], u[1]) != '\0');
        lemma_contains_concat(head, utf16_lossy(u.skip(2)), '\0');
        lemma_contains_split(u, 2, 0u16);
        assert(!u.take(2).contains(0u16)) by {
            if u.take(2).contains(0u16) {
                let i = choose|i: int| 0 <= i < 2 && u.take(2)[i] == 0u16;
                assert(u[i] == 0u16);
            }
        }
        assert(!head.contains('\0')) by {
            if head.contains('\0') {
                let i = choose|i: int| 0 <= i < 1 && head[i] == '\0';
            }
        }
    } else {
        lemma_nul_iff_zero_unit(u.skip(1));
        let c = if is_high_surrogate(u[0]) || is_low_surrogate(u[0]) {
            replacement_char()
        } else {
            u[0] as char
        };
        assert(c == '\0' <==> u[0] == 0);
        lemma_contains_concat(seq![c], utf16_lossy(u.skip(1)), '\0');
        lemma_contains_split(u, 1, 0u16);
        assert(u.take(1).contains(0u16) <==> u[0] == 0) by {
            if u.take(1).contains(0u16) {
                let i = choose|i: int| 0 <= i < 1 && u.take(1)[i] == 0u16;
            }
            if u[0] == 0 {
                assert(u.take(1)[0] == 0u16);
            }
        }
        assert(seq![c].contains('\0') <==> c == '\0') by {
            if seq![c].contains('\0') {
                let i = choose|i: int| 0 <= i < 1 && seq![c][i] == '\0';
            }
            if c == '\0' {
                assert(seq![c][0] == '\0');
            }
        }
    }
}

proof fn lemma_contains_concat<A>(a: Seq<A>, b: Seq<A>, x: A)
    ensures
        (a + b).contains(x) <==> a.contains(x) || b.contains(x),
{
    if (a + b).contains(x) {
        let i = choose|i: int| 0 <= i < (a + b).len() && (a + b)[i] == x;
        if i < a.len() {
            assert(a[i] == x);
        } else {
            assert(b[i - a.len()] == x);
        }
    }
    if a.contains(x) {
        let i = choose|i: int| 0 <= i < a.len() && a[i] == x;
        assert((a + b)[i] == x);
    }
    if b.contains(x) {
        let i = choose|i: int| 0 <= i < b.len() && b[i] == x;
        assert((a + b)[i + a.len()] == x);
    }
}

proof fn lemma_contains_split<A>(s: Seq<A>, k: int, x: A)
    requires
        0 <= k <= s.len(),
    ensures
        s.contains(x) <==> s.take(k).contains(x) || s.skip(k).contains(x),
{
    assert(s =~= s.take(k) + s.skip(k));
    lemma_contains_concat(s.take(k), s.skip(k), x);
}


/// The UTF-16 code units of one character: the character's code when it
/// fits in 16 bits, else its surrogate pair.
pub open spec fn char_units(c: char) -> Seq<u16> {
    let v = c as u32;
    if v < 0x10000 {
        seq![v as u16]
    } else {
        seq![(0xD800 + (v - 0x10000) / 0x400) as u16, (0xDC00 + (v - 0x10000) % 0x400) as u16]
    }
}

/// The UTF-16 encoding of a string.
pub open spec fn utf16_encode(s: Seq<char>) -> Seq<u16>
    decreases s.len(),
{
    if s.len() == 0 {
        Seq::empty()
    } else {
        char_units(s[0]) + utf16_encode(s.skip(1))
    }
}

fn push_char_units(units: &mut Vec<u16>, c: char)
    ensures
        final(units)@ == old(units)@ + char_units(c),
{
    let v: u32 = c as u32;
    if v < 0x10000 {
        units.push(v as u16);
        proof {
            assert(final(units)@ =~= old(units)@ + char_units(c));
        }
    } else {
        proof {
            vstd::utf8::char_is_scalar(c);
        }
        let w: u32 = v - 0x10000;
        units.push((0xD800 + w / 0x400) as u16);
        units.push((0xDC00 + w % 0x400) as u16);
        proof {
            assert(final(units)@ =~= old(units)@ + char_units(c));
        }
    }
}

proof fn lemma_utf16_encode_push(s: Seq<char>, c: char)
    ensures
        utf16_encode(s.push(c)) == utf16_encode(s) + char_units(c),
    decreases s.len(),
{
    if s.len() == 0 {
        assert(s.push(c).skip(1) =~= Seq::<char>::empty());
        assert(utf16_encode(s.push(c)) =~= char_units(c) + utf16_encode(Seq::<char>::empty()));
        assert(utf16_encode(s) + char_units(c) =~= char_units(c));
        assert(utf16_encode(Seq::<char>::empty()) =~= Seq::<u16>::empty());
    } else {
        assert(s.push(c).skip(1) =~= s.skip(1).push(c));
        lemma_utf16_encode_push(s.skip(1), c);
        assert(s.push(c)[0] == s[0]);
        assert(utf16_encode(s.push(c)) =~= char_units(s[0]) + (utf16_encode(s.skip(1)) + char_units(
            c,
        )));
    }
}

/// The UTF-16 code units TeaVM stores for a Java string holding `s`, as the
/// runtime writes them for each program argument.
pub fn java_string_units(s: &str) -> (units: Vec<u16>)
    ensures
        units@ == utf16_encode(s@),
        units@.len() <= s.spec_bytes().len(),
{
    let n = s.unicode_len();
    let mut units: Vec<u16> = Vec::new();
    let mut i: usize = 0;
    assert(s@.take(0) =~= Seq::<char>::empty());
    while i < n
        invariant
            n == s@.len(),
            i <= n,
            units@ == utf16_encode(s@.take(i as int)),
        decreases n - i,
    {
        let c = s.get_char(i);
        push_char_units(&mut units, c);
        proof {
            assert(s@.take(i + 1) =~= s@.take(i as int).push(c));
            lemma_utf16_encode_push(s@.take(i as int), c);
        }
        i = i + 1;
    }
    assert(s@.take(n as int) =~= s@);
    proof {
        lemma_utf16_no_longer_than_utf8(s@);
    }
    units
}

/// Decoding the UTF-16 encoding of a string gives the string back: what
/// the runtime writes into Java memory for an argument is read back
/// unchanged.
pub proof fn lemma_utf16_roundtrip(s: Seq<char>)
    ensures
        utf16_lossy(utf16_encode(s)) == s,
    decreases s.len(),
{
    if s.len() > 0 {
        let c = s[0];
        let rest = utf16_encode(s.skip(1));
        let u = utf16_encode(s);
        lemma_utf16_roundtrip(s.skip(1));
        vstd::utf8::char_is_scalar(c);
        let v = c as u32;
        vstd::utf8::char_u32_cast(c, v);
        if v < 0x10000 {
            let unit = v as u16;
            assert(u =~= seq![unit] + rest);
            assert(u.skip(1) =~= rest);
            assert(!is_high_surrogate(unit) && !is_low_surrogate(unit));
            assert(unit as int == v as int);
            assert((unit as char) == (v as char));
            assert(utf16_lossy(u) =~= seq![c] + utf16_lossy(rest));
            assert(s =~= seq![c] + s.skip(1));
        } else {
            let w: int = v - 0x10000;
            assert(0 <= w < 0x100000);
            let q: int = w / 0x400;
            let r: int = w % 0x400;
            assert(q * 0x400 + r == w && 0 <= q < 0x400 && 0 <= r < 0x400) by (nonlinear_arith)
                requires
                    0 <= w < 0x100000,
                    q == w / 0x400,
                    r == w % 0x400,
            ;
            let hi = (0xD800 + q) as u16;
            let lo = (0xDC00 + r) as u16;
            assert(hi == 0xD800 + q && lo == 0xDC00 + r);
            assert(u =~= seq![hi, lo] + rest);
            assert(u.skip(2) =~= rest);
            assert(is_high_surrogate(hi) && is_low_surrogate(lo));
            assert(0x10000 + (hi - 0xD800) * 0x400 + (lo - 0xDC00) == v as int);
            assert(pair_char(hi, lo) == c);
            assert(utf16_lossy(u) =~= seq![c] + utf16_lossy(rest));
            assert(s =~= seq![c] + s.skip(1));
        }
    }
}

/// A string takes no more UTF-16 code units than UTF-8 bytes: the Java
/// string the runtime allocates with one unit per byte of an argument has
/// room for all of the argument's units.
pub proof fn lemma_utf16_no_longer_than_utf8(s: Seq<char>)
    ensures
        utf16_encode(s).len() <= vstd::utf8::encode_utf8(s).len(),
    decreases s.len(),
{
    if s.len() > 0 {
        lemma_utf16_no_longer_than_utf8(s.skip(1));
        assert(s.drop_first() =~= s.skip(1));
        vstd::utf8::char_is_scalar(s[0]);
    }
}

/// The text a Java program prints through `putwcharsOut` or
/// `putwcharsErr`: the `count` bytes at `chars` in linear memory, decoded as
/// UTF-8. `None` when they are not valid UTF-8.
pub fn teavm_output_text(memory: &[u8], chars: u32, count: u32) -> (r: Option<String>)
    requires
        chars + count <= u32::MAX,
        chars + count <= memory@.len(),
    ensures
        r is Some <==> vstd::utf8::valid_utf8(memory@.subrange(chars as int, chars + count)),
        r matches Some(s) ==> s@ == vstd::utf8::decode_utf8(
            memory@.subrange(chars as int, chars + count),
        ),
{
    let start: usize = chars as usize;
    let end: usize = (chars + count) as usize;
    utf8_to_string(&memory[start..end])
}

} // verus!
