//! Byte-level text helpers.
//!
//! The wire format of the protocol is ASCII almost everywhere, so the
//! crate mostly computes on bytes and converts to `String` at the edge.
//! The lemmas here connect ASCII byte sequences with the character
//! sequences they decode to.

use vstd::prelude::*;
use vstd::string::StringSliceAdditionalSpecFns;
use vstd::utf8::*;

verus! {

/// The characters of an ASCII byte sequence, one per byte.
pub open spec fn ascii_chars(bytes: Seq<u8>) -> Seq<char> {
    Seq::new(bytes.len(), |i: int| bytes[i] as char)
}

/// True when every byte of the sequence is in the ASCII range.
pub open spec fn all_ascii(bytes: Seq<u8>) -> bool {
    forall|i: int| 0 <= i < bytes.len() ==> #[trigger] bytes[i] < 0x80
}

/// An all-ASCII byte sequence is valid UTF-8 and decodes byte for byte.
pub proof fn lemma_ascii_decode(bytes: Seq<u8>)
    requires
        all_ascii(bytes),
    ensures
        valid_utf8(bytes),
        decode_utf8(bytes) == ascii_chars(bytes),
    decreases bytes.len(),
{
    if bytes.len() == 0 {
        assert(decode_utf8(bytes) =~= ascii_chars(bytes));
    } else {
        let b0 = bytes[0];
        assert(b0 & 0x7F == b0) by (bit_vector)
            requires
                b0 < 0x80,
        ;
        assert(decode_first_codepoint(bytes) == b0 as u32);
        assert(valid_first_scalar(bytes));
        let rest = pop_first_scalar(bytes);
        assert(rest =~= bytes.drop_first());
        lemma_ascii_decode(rest);
        let c = b0 as char;
        assert(c as u32 == b0 as u32);
        char_u32_cast(c, b0 as u32);
        assert(decode_utf8(bytes) =~= ascii_chars(bytes));
    }
}

/// Characters whose UTF-8 encoding is all-ASCII are themselves ASCII
/// characters, and the encoding is byte-for-byte.
pub proof fn lemma_encode_ascii(s: Seq<char>)
    requires
        all_ascii(encode_utf8(s)),
    ensures
        is_ascii_chars(s),
        encode_utf8(s).len() == s.len(),
        forall|i: int| 0 <= i < s.len() ==> #[trigger] encode_utf8(s)[i] == s[i] as u8,
    decreases s.len(),
{
    if s.len() > 0 {
        char_is_scalar(s[0]);
        let c = s[0] as u32;
        let enc = encode_scalar(c);
        assert(encode_utf8(s)[0] == enc[0]);
        if !has_width_1_encoding(c) {
            let lead = enc[0];
            if has_width_2_encoding(c) {
                let x = (c >> 6) & 0x1F;
                assert((0xC0u8 | x as u8) >= 0x80) by (bit_vector);
            } else if has_width_3_encoding(c) {
                let x = (c >> 12) & 0x0F;
                assert((0xE0u8 | x as u8) >= 0x80) by (bit_vector);
            } else {
                let x = (c >> 18) & 0x7;
                assert((0xF0u8 | x as u8) >= 0x80) by (bit_vector);
            }
            assert(false);
        }
        assert(c < 0x80);
        let rest = s.drop_first();
        assert(encode_utf8(s) =~= enc + encode_utf8(rest));
        assert forall|i: int| 0 <= i < encode_utf8(rest).len() implies #[trigger] encode_utf8(
            rest,
        )[i] < 0x80 by {
            assert(encode_utf8(rest)[i] == encode_utf8(s)[i + 1]);
        }
        lemma_encode_ascii(rest);
        assert forall|i: int| 0 <= i < s.len() implies '\0' <= #[trigger] s[i] <= '\u{7f}' by {
            if i == 0 {
                char_u32_cast(s[0], c);
                assert(s[0] as u32 <= 0x7f);
                assert('\u{7f}' as u32 == 0x7f);
                assert('\0' as u32 == 0);
            } else {
                assert(s[i] == rest[i - 1]);
                assert('\0' <= rest[i - 1] <= '\u{7f}');
            }
        }
        is_ascii_chars_encode_utf8(s);
    } else {
        assert(is_ascii_chars(s));
    }
}

/// ASCII characters encode byte-for-byte; the byte view of an ASCII
/// string is exactly its characters.
pub proof fn lemma_ascii_encode(s: Seq<char>)
    requires
        is_ascii_chars(s),
    ensures
        encode_utf8(s).len() == s.len(),
        forall|i: int| 0 <= i < s.len() ==> #[trigger] encode_utf8(s)[i] == s[i] as u8,
        all_ascii(encode_utf8(s)),
{
    is_ascii_chars_encode_utf8(s);
    is_ascii_chars_nat_bound(s);
    assert forall|i: int| 0 <= i < encode_utf8(s).len() implies #[trigger] encode_utf8(s)[i]
        < 0x80 by {
        assert(encode_utf8(s)[i] == s[i] as u8);
        assert(s[i] as nat <= 127);
    }
}

/// Decodes UTF-8 bytes to a `String`.
///
/// Relies on `core::str::from_utf8`: it succeeds exactly on valid
/// UTF-8 input and decodes it, as its documentation states.  The
/// borrowed text is handed back as an owned `String`.
#[verifier::external_body]
pub fn string_from_utf8(bytes: &[u8]) -> (r: Option<String>)
    ensures
        r matches Some(s) ==> valid_utf8(bytes@) && s@ == decode_utf8(bytes@),
        r is None ==> !valid_utf8(bytes@),
{
    core::str::from_utf8(bytes).ok().map(|s| s.to_owned())
}

/// The text the lossy UTF-8 rendering gives for the given bytes.
pub uninterp spec fn lossy_text_of(bytes: Seq<u8>) -> Seq<char>;

/// Renders bytes as text, substituting the replacement character for
/// invalid sequences.
///
/// Relies on `String::from_utf8_lossy`: valid UTF-8 input is decoded
/// unchanged, as its documentation states.
#[verifier::external_body]
pub fn lossy_text(bytes: &[u8]) -> (r: String)
    ensures
        r@ == lossy_text_of(bytes@),
        valid_utf8(bytes@) ==> r@ == decode_utf8(bytes@),
{
    String::from_utf8_lossy(bytes).into_owned()
}

/// Builds a `String` from an all-ASCII byte sequence.
pub fn ascii_to_string(bytes: &[u8]) -> (r: String)
    requires
        all_ascii(bytes@),
    ensures
        r@ == ascii_chars(bytes@),
{
    proof {
        lemma_ascii_decode(bytes@);
    }
    match string_from_utf8(bytes) {
        Some(s) => s,
        None => String::new(),
    }
}

/// Compares two byte slices.
pub fn bytes_eq(a: &[u8], b: &[u8]) -> (r: bool)
    ensures
        r == (a@ == b@),
{
    if a.len() != b.len() {
        return false;
    }
    let mut k: usize = 0;
    while k < a.len()
        invariant
            k <= a@.len(),
            a@.len() == b@.len(),
            forall|i: int| 0 <= i < k ==> a@[i] == b@[i],
        decreases a@.len() - k,
    {
        if *vstd::slice::slice_index_get(a, k) != *vstd::slice::slice_index_get(b, k) {
            return false;
        }
        k = k + 1;
    }
    proof {
        assert(a@ =~= b@);
    }
    true
}

/// Compares two strings by their bytes.
pub fn str_eq(a: &str, b: &str) -> (r: bool)
    ensures
        r == (a@ == b@),
{
    let r = bytes_eq(a.as_bytes(), b.as_bytes());
    proof {
        if a.spec_bytes() == b.spec_bytes() {
            vstd::utf8::encode_utf8_decode_utf8(a@);
            vstd::utf8::encode_utf8_decode_utf8(b@);
        }
    }
    r
}

/// Compares a byte vector with the bytes of a string.
pub fn vec_eq_str(v: &Vec<u8>, s: &str) -> (r: bool)
    ensures
        r == (v@ == s.spec_bytes()),
{
    bytes_eq(v.as_slice(), s.as_bytes())
}

/// Lowercases one ASCII byte.
pub open spec fn ascii_lower_byte(b: u8) -> u8 {
    if 0x41 <= b <= 0x5A {
        (b + 0x20) as u8
    } else {
        b
    }
}

/// True for the ASCII whitespace bytes.
pub open spec fn is_ascii_ws(b: u8) -> bool {
    b == 0x20 || b == 0x09 || b == 0x0A || b == 0x0D
}

/// The index of the first non-whitespace byte.
pub open spec fn spec_trim_start(s: Seq<u8>, i: int) -> int
    decreases s.len() - i,
{
    if 0 <= i < s.len() && is_ascii_ws(s[i]) {
        spec_trim_start(s, i + 1)
    } else {
        i
    }
}

/// The index just after the last non-whitespace byte at or before `i`.
pub open spec fn spec_trim_end(s: Seq<u8>, i: int) -> int
    decreases i,
{
    if 0 < i <= s.len() && is_ascii_ws(s[i - 1]) {
        spec_trim_end(s, i - 1)
    } else {
        i
    }
}

/// The sequence with ASCII whitespace removed from both ends.
pub open spec fn spec_trim(s: Seq<u8>) -> Seq<u8> {
    let a = spec_trim_start(s, 0);
    let b = spec_trim_end(s, s.len() as int);
    if a <= b {
        s.subrange(a, b)
    } else {
        Seq::empty()
    }
}

proof fn lemma_trim_start_bounds(s: Seq<u8>, i: int)
    requires
        0 <= i <= s.len(),
    ensures
        i <= spec_trim_start(s, i) <= s.len(),
    decreases s.len() - i,
{
    if i < s.len() && is_ascii_ws(s[i]) {
        lemma_trim_start_bounds(s, i + 1);
    }
}

proof fn lemma_trim_end_bounds(s: Seq<u8>, i: int)
    requires
        0 <= i <= s.len(),
    ensures
        0 <= spec_trim_end(s, i) <= i,
    decreases i,
{
    if 0 < i && is_ascii_ws(s[i - 1]) {
        lemma_trim_end_bounds(s, i - 1);
    }
}

/// True when the byte sequence, trimmed of ASCII whitespace and
/// lowercased ASCII-wise, equals the bytes of `t`.
pub open spec fn eq_trim_lower(s: Seq<u8>, t: Seq<u8>) -> bool {
    spec_trim(s).map_values(|b: u8| ascii_lower_byte(b)) == t
}

/// Checks whether `s`, trimmed and ASCII-lowercased, equals `t`.
pub fn matches_trim_lower(s: &[u8], t: &[u8]) -> (r: bool)
    ensures
        r == eq_trim_lower(s@, t@),
{
    let mut a: usize = 0;
    while a < s.len() && (s[a] == 0x20 || s[a] == 0x09 || s[a] == 0x0A || s[a] == 0x0D)
        invariant
            a <= s@.len(),
            spec_trim_start(s@, 0) == spec_trim_start(s@, a as int),
        decreases s@.len() - a,
    {
        a = a + 1;
    }
    let mut b: usize = s.len();
    while b > a && (s[b - 1] == 0x20 || s[b - 1] == 0x09 || s[b - 1] == 0x0A || s[b - 1] == 0x0D)
        invariant
            a <= b <= s@.len(),
            a as int == spec_trim_start(s@, 0),
            spec_trim_end(s@, s@.len() as int) == spec_trim_end(s@, b as int),
        decreases b,
    {
        b = b - 1;
    }
    let ghost trimmed = spec_trim(s@);
    proof {
        lemma_trim_start_bounds(s@, 0);
        lemma_trim_end_bounds(s@, s@.len() as int);
        if b > a {
            assert(spec_trim_end(s@, b as int) == b as int);
            assert(trimmed =~= s@.subrange(a as int, b as int));
        } else {
            lemma_trim_end_bounds(s@, a as int);
            assert(trimmed =~= s@.subrange(a as int, a as int));
        }
    }
    let n = b - a;
    if n != t.len() {
        proof {
            assert(trimmed.len() == n as int);
            assert(trimmed.map_values(|x: u8| ascii_lower_byte(x)).len() == trimmed.len());
        }
        return false;
    }
    let mut k: usize = 0;
    while k < n
        invariant
            k <= n,
            a + n == b,
            b <= s@.len(),
            n == t@.len(),
            trimmed == spec_trim(s@),
            trimmed =~= s@.subrange(a as int, b as int),
            forall|i: int|
                0 <= i < k ==> ascii_lower_byte(trimmed[i]) == t@[i],
        decreases n - k,
    {
        let c = s[a + k];
        let lowered = if 0x41 <= c && c <= 0x5A {
            c + 0x20
        } else {
            c
        };
        if lowered != t[k] {
            proof {
                assert(trimmed[k as int] == s@[a + k]);
                assert(ascii_lower_byte(trimmed[k as int]) != t@[k as int]);
                assert(trimmed.map_values(|x: u8| ascii_lower_byte(x))[k as int] != t@[
                    k as int]);
            }
            return false;
        }
        k = k + 1;
    }
    proof {
        assert(trimmed.map_values(|x: u8| ascii_lower_byte(x)) =~= t@);
    }
    true
}


/// True when the byte sequence, ASCII-lowercased, equals `t`.
pub open spec fn eq_lower(s: Seq<u8>, t: Seq<u8>) -> bool {
    s.map_values(|b: u8| ascii_lower_byte(b)) == t
}

/// Checks whether `s`, ASCII-lowercased, equals `t`.
pub fn matches_lower(s: &[u8], t: &[u8]) -> (r: bool)
    ensures
        r == eq_lower(s@, t@),
{
    if s.len() != t.len() {
        proof {
            assert(s@.map_values(|b: u8| ascii_lower_byte(b)).len() == s@.len());
        }
        return false;
    }
    let mut k: usize = 0;
    while k < s.len()
        invariant
            k <= s@.len(),
            s@.len() == t@.len(),
            forall|i: int| 0 <= i < k ==> ascii_lower_byte(#[trigger] s@[i]) == t@[i],
        decreases s@.len() - k,
    {
        let c = *vstd::slice::slice_index_get(s, k);
        let lowered = if 0x41 <= c && c <= 0x5A {
            c + 0x20
        } else {
            c
        };
        if lowered != *vstd::slice::slice_index_get(t, k) {
            proof {
                assert(s@.map_values(|b: u8| ascii_lower_byte(b))[k as int] != t@[k as int]);
            }
            return false;
        }
        k = k + 1;
    }
    proof {
        assert(s@.map_values(|b: u8| ascii_lower_byte(b)) =~= t@);
    }
    true
}


/// The ASCII-lowercased form of a byte sequence.
pub open spec fn ascii_lower_bytes(s: Seq<u8>) -> Seq<u8> {
    s.map_values(|b: u8| ascii_lower_byte(b))
}

/// ASCII-lowercasing bytes preserves UTF-8 validity: only bytes below
/// 0x80 change, and each such byte is a whole character.
pub proof fn lemma_lower_preserves_utf8(b: Seq<u8>)
    requires
        valid_utf8(b),
    ensures
        valid_utf8(ascii_lower_bytes(b)),
    decreases b.len(),
{
    if b.len() == 0 {
        assert(ascii_lower_bytes(b) =~= Seq::<u8>::empty());
    } else {
        let m = ascii_lower_bytes(b);
        assert(m.len() == b.len());
        assert(forall|i: int| 0 <= i < b.len() ==> m[i] == ascii_lower_byte(#[trigger] b[i]));
        let rest = pop_first_scalar(b);
        if is_leading_byte_width_1(b[0]) {
            assert(is_leading_byte_width_1(m[0]));
            assert(valid_first_scalar(m));
            assert(length_of_first_scalar(m) == 1);
            assert(pop_first_scalar(m) =~= ascii_lower_bytes(rest));
        } else if is_leading_byte_width_2(b[0]) {
            assert(m[0] == b[0] && m[1] == b[1]);
            assert(valid_first_scalar(m));
            assert(length_of_first_scalar(m) == 2);
            assert(pop_first_scalar(m) =~= ascii_lower_bytes(rest));
        } else if is_leading_byte_width_3(b[0]) {
            assert(m[0] == b[0] && m[1] == b[1] && m[2] == b[2]);
            assert(valid_first_scalar(m));
            assert(length_of_first_scalar(m) == 3);
            assert(pop_first_scalar(m) =~= ascii_lower_bytes(rest));
        } else {
            assert(m[0] == b[0] && m[1] == b[1] && m[2] == b[2] && m[3] == b[3]);
            assert(valid_first_scalar(m));
            assert(length_of_first_scalar(m) == 4);
            assert(pop_first_scalar(m) =~= ascii_lower_bytes(rest));
        }
        lemma_lower_preserves_utf8(rest);
    }
}

/// ASCII-lowercases a string: bytes in the uppercase ASCII range are
/// shifted down, every other byte (multi-byte characters included) is
/// kept as it is.
pub fn ascii_lowercase(s: &str) -> (r: String)
    ensures
        encode_utf8(r@) == ascii_lower_bytes(s.spec_bytes()),
{
    let bytes = s.as_bytes();
    let mut out: Vec<u8> = Vec::new();
    let mut k: usize = 0;
    proof {
        assert(out@ =~= ascii_lower_bytes(bytes@.take(0)));
    }
    while k < bytes.len()
        invariant
            k <= bytes@.len(),
            out@ == ascii_lower_bytes(bytes@.take(k as int)),
        decreases bytes@.len() - k,
    {
        let b = *vstd::slice::slice_index_get(bytes, k);
        if 0x41 <= b && b <= 0x5A {
            out.push(b + 0x20);
        } else {
            out.push(b);
        }
        proof {
            assert(out@ =~= ascii_lower_bytes(bytes@.take(k + 1)));
        }
        k = k + 1;
    }
    proof {
        assert(bytes@.take(bytes@.len() as int) =~= bytes@);
        encode_utf8_valid_utf8(s@);
        lemma_lower_preserves_utf8(s.spec_bytes());
    }
    let ghost lowered = ascii_lower_bytes(s.spec_bytes());
    match string_from_utf8(out.as_slice()) {
        Some(r) => {
            proof {
                decode_utf8_encode_utf8(lowered);
            }
            r
        },
        None => {
            proof {
                assert(false);
            }
            String::new()
        },
    }
}

} // verus!
