//! The JSON subset the protocol speaks.
//!
//! The server frames every payload this crate cares about as a JSON
//! object of scalars (strings, integers, booleans, null) and nested
//! values.  The parser here decodes exactly that subset: scalar members
//! are decoded to values, while a nested array or object is kept as its
//! raw text span, to be re-parsed by the caller that knows its shape.
//! String escapes include `\uXXXX` (with surrogate pairs; a lone
//! surrogate is rejected); non-integer numbers are not part of the
//! subset and are rejected.
//!
//! The serializer emits the same subset, escaping quotes, backslashes
//! and control characters, and writing a raw span verbatim.

use vstd::prelude::*;
use vstd::string::StringSliceAdditionalSpecFns;

verus! {

/// One decoded JSON value: a scalar, or the raw text of a nested
/// array or object.
#[derive(Debug)]
pub enum JsonValue {
    Null,
    Bool(bool),
    Int(i64),
    /// Decoded string contents, as UTF-8 bytes.
    Str(Vec<u8>),
    /// The verbatim text of a nested array or object.
    Raw(Vec<u8>),
}

/// The mathematical model of a [`JsonValue`].
pub enum SpecValue {
    Null,
    Bool(bool),
    Int(int),
    Str(Seq<u8>),
    Raw(Seq<u8>),
}

impl View for JsonValue {
    type V = SpecValue;

    open spec fn view(&self) -> SpecValue {
        match *self {
            JsonValue::Null => SpecValue::Null,
            JsonValue::Bool(b) => SpecValue::Bool(b),
            JsonValue::Int(n) => SpecValue::Int(n as int),
            JsonValue::Str(ref v) => SpecValue::Str(v@),
            JsonValue::Raw(ref v) => SpecValue::Raw(v@),
        }
    }
}

/// The members of a JSON object, in source order.
pub type SpecMembers = Seq<(Seq<u8>, SpecValue)>;

pub open spec fn is_json_ws(b: u8) -> bool {
    b == 0x20 || b == 0x09 || b == 0x0A || b == 0x0D
}

pub open spec fn is_digit(b: u8) -> bool {
    0x30 <= b <= 0x39
}

/// The index of the first non-whitespace byte at or after `i`.
pub open spec fn spec_skip_ws(s: Seq<u8>, i: int) -> int
    decreases s.len() - i,
{
    if 0 <= i < s.len() && is_json_ws(s[i]) {
        spec_skip_ws(s, i + 1)
    } else {
        i
    }
}

pub proof fn lemma_skip_ws_bounds(s: Seq<u8>, i: int)
    requires
        0 <= i <= s.len(),
    ensures
        i <= spec_skip_ws(s, i) <= s.len(),
    decreases s.len() - i,
{
    if i < s.len() && is_json_ws(s[i]) {
        lemma_skip_ws_bounds(s, i + 1);
    }
}

/// The value of one hex digit, upper or lower case.
pub open spec fn spec_hex_val(b: u8) -> Option<int> {
    if 0x30 <= b <= 0x39 {
        Some((b - 0x30) as int)
    } else if 0x41 <= b <= 0x46 {
        Some((b - 0x41 + 10) as int)
    } else if 0x61 <= b <= 0x66 {
        Some((b - 0x61 + 10) as int)
    } else {
        None
    }
}

/// The value of four hex digits starting at `i`.
pub open spec fn spec_hex4(s: Seq<u8>, i: int) -> Option<int> {
    if 0 <= i && i + 4 <= s.len() {
        match (spec_hex_val(s[i]), spec_hex_val(s[i + 1]), spec_hex_val(s[i + 2]), spec_hex_val(
            s[i + 3],
        )) {
            (Some(a), Some(b), Some(c), Some(d)) => Some(a * 4096 + b * 256 + c * 16 + d),
            _ => None,
        }
    } else {
        None
    }
}

/// Decodes the contents of a string literal, starting just after the
/// opening quote, with `acc` holding the bytes decoded so far.
/// Returns the decoded bytes and the index just after the closing
/// quote.
pub open spec fn spec_parse_string_rec(s: Seq<u8>, i: int, acc: Seq<u8>) -> Option<(Seq<u8>, int)>
    decreases s.len() - i,
{
    if i < 0 || i >= s.len() {
        None
    } else if s[i] == 0x22 {  // '"'
        Some((acc, i + 1))
    } else if s[i] == 0x5C {  // '\'
        if i + 1 >= s.len() {
            None
        } else {
            let e = s[i + 1];
            if e == 0x22 || e == 0x5C || e == 0x2F {  // \" \\ \/
                spec_parse_string_rec(s, i + 2, acc.push(e))
            } else if e == 0x62 {  // \b
                spec_parse_string_rec(s, i + 2, acc.push(0x08))
            } else if e == 0x66 {  // \f
                spec_parse_string_rec(s, i + 2, acc.push(0x0C))
            } else if e == 0x6E {  // \n
                spec_parse_string_rec(s, i + 2, acc.push(0x0A))
            } else if e == 0x72 {  // \r
                spec_parse_string_rec(s, i + 2, acc.push(0x0D))
            } else if e == 0x74 {  // \t
                spec_parse_string_rec(s, i + 2, acc.push(0x09))
            } else if e == 0x75 {  // \uXXXX
                match spec_hex4(s, i + 2) {
                    Some(cp) => {
                        if 0xD800 <= cp <= 0xDBFF {
                            // A high surrogate: a low surrogate escape
                            // must follow, and the pair is one scalar.
                            if i + 12 <= s.len() && s[i + 6] == 0x5C && s[i + 7] == 0x75 {
                                match spec_hex4(s, i + 8) {
                                    Some(lo) => {
                                        if 0xDC00 <= lo <= 0xDFFF {
                                            spec_parse_string_rec(
                                                s,
                                                i + 12,
                                                acc + vstd::utf8::encode_scalar(
                                                    (0x10000 + (cp - 0xD800) * 0x400 + (lo
                                                        - 0xDC00)) as u32,
                                                ),
                                            )
                                        } else {
                                            None
                                        }
                                    },
                                    None => None,
                                }
                            } else {
                                None
                            }
                        } else if 0xDC00 <= cp <= 0xDFFF {
                            None
                        } else {
                            spec_parse_string_rec(
                                s,
                                i + 6,
                                acc + vstd::utf8::encode_scalar(cp as u32),
                            )
                        }
                    },
                    None => None,
                }
            } else {
                None
            }
        }
    } else if s[i] < 0x20 {
        None
    } else {
        spec_parse_string_rec(s, i + 1, acc.push(s[i]))
    }
}

pub proof fn lemma_parse_string_bounds(s: Seq<u8>, i: int, acc: Seq<u8>)
    requires
        0 <= i,
        spec_parse_string_rec(s, i, acc) is Some,
    ensures
        i < spec_parse_string_rec(s, i, acc)->Some_0.1 <= s.len(),
    decreases s.len() - i,
{
    if s[i] == 0x22 {
    } else if s[i] == 0x5C {
        let e = s[i + 1];
        if e == 0x22 || e == 0x5C || e == 0x2F {
            lemma_parse_string_bounds(s, i + 2, acc.push(e));
        } else if e == 0x62 {
            lemma_parse_string_bounds(s, i + 2, acc.push(0x08));
        } else if e == 0x66 {
            lemma_parse_string_bounds(s, i + 2, acc.push(0x0C));
        } else if e == 0x6E {
            lemma_parse_string_bounds(s, i + 2, acc.push(0x0A));
        } else if e == 0x72 {
            lemma_parse_string_bounds(s, i + 2, acc.push(0x0D));
        } else if e == 0x74 {
            lemma_parse_string_bounds(s, i + 2, acc.push(0x09));
        } else {
            let cp = spec_hex4(s, i + 2)->Some_0;
            if 0xD800 <= cp <= 0xDBFF {
                let lo = spec_hex4(s, i + 8)->Some_0;
                lemma_parse_string_bounds(
                    s,
                    i + 12,
                    acc + vstd::utf8::encode_scalar(
                        (0x10000 + (cp - 0xD800) * 0x400 + (lo - 0xDC00)) as u32,
                    ),
                );
            } else {
                lemma_parse_string_bounds(s, i + 6, acc + vstd::utf8::encode_scalar(cp as u32));
            }
        }
    } else {
        lemma_parse_string_bounds(s, i + 1, acc.push(s[i]));
    }
}

/// Scans past one bracketed value (array or object), starting at its
/// opening bracket.  `depth` counts brackets not yet closed, `in_str`
/// and `esc` track string literals so brackets inside them do not
/// count.  Returns the index just after the matching closing bracket.
pub open spec fn spec_scan_value(s: Seq<u8>, i: int, depth: int, in_str: bool, esc: bool) -> Option<
    int,
>
    decreases s.len() - i,
{
    if i < 0 || i >= s.len() {
        None
    } else {
        let b = s[i];
        if in_str {
            if esc {
                spec_scan_value(s, i + 1, depth, true, false)
            } else if b == 0x5C {
                spec_scan_value(s, i + 1, depth, true, true)
            } else if b == 0x22 {
                spec_scan_value(s, i + 1, depth, false, false)
            } else {
                spec_scan_value(s, i + 1, depth, true, false)
            }
        } else if b == 0x7B || b == 0x5B {  // '{' '['
            spec_scan_value(s, i + 1, depth + 1, false, false)
        } else if b == 0x7D || b == 0x5D {  // '}' ']'
            if depth == 1 {
                Some(i + 1)
            } else if depth <= 0 {
                None
            } else {
                spec_scan_value(s, i + 1, depth - 1, false, false)
            }
        } else if b == 0x22 {
            spec_scan_value(s, i + 1, depth, true, false)
        } else {
            spec_scan_value(s, i + 1, depth, false, false)
        }
    }
}

pub proof fn lemma_scan_value_bounds(s: Seq<u8>, i: int, depth: int, in_str: bool, esc: bool)
    requires
        0 <= i,
        spec_scan_value(s, i, depth, in_str, esc) is Some,
    ensures
        i < spec_scan_value(s, i, depth, in_str, esc)->Some_0 <= s.len(),
    decreases s.len() - i,
{
    let b = s[i];
    if in_str {
        if esc {
            lemma_scan_value_bounds(s, i + 1, depth, true, false);
        } else if b == 0x5C {
            lemma_scan_value_bounds(s, i + 1, depth, true, true);
        } else if b == 0x22 {
            lemma_scan_value_bounds(s, i + 1, depth, false, false);
        } else {
            lemma_scan_value_bounds(s, i + 1, depth, true, false);
        }
    } else if b == 0x7B || b == 0x5B {
        lemma_scan_value_bounds(s, i + 1, depth + 1, false, false);
    } else if b == 0x7D || b == 0x5D {
        if depth == 1 {
        } else {
            lemma_scan_value_bounds(s, i + 1, depth - 1, false, false);
        }
    } else if b == 0x22 {
        lemma_scan_value_bounds(s, i + 1, depth, true, false);
    } else {
        lemma_scan_value_bounds(s, i + 1, depth, false, false);
    }
}

/// Decodes the digits of an integer literal starting at `i`, with the
/// value accumulated so far in `acc`.  Fails when the magnitude leaves
/// the machine range.
pub open spec fn spec_parse_digits_rec(s: Seq<u8>, i: int, acc: int) -> Option<(int, int)>
    decreases s.len() - i,
{
    if 0 <= i < s.len() && is_digit(s[i]) {
        let acc2 = acc * 10 + (s[i] - 0x30);
        if acc2 > 0x7FFF_FFFF_FFFF_FFFF {
            None
        } else {
            spec_parse_digits_rec(s, i + 1, acc2)
        }
    } else {
        Some((acc, i))
    }
}

pub proof fn lemma_parse_digits_bounds(s: Seq<u8>, i: int, acc: int)
    requires
        0 <= i,
        spec_parse_digits_rec(s, i, acc) is Some,
    ensures
        i <= spec_parse_digits_rec(s, i, acc)->Some_0.1 <= vstd::math::max(i, s.len() as int),
    decreases s.len() - i,
{
    if 0 <= i < s.len() && is_digit(s[i]) {
        let acc2 = acc * 10 + (s[i] - 0x30);
        if acc2 <= 0x7FFF_FFFF_FFFF_FFFF {
            lemma_parse_digits_bounds(s, i + 1, acc2);
        }
    }
}

/// Parses an integer literal (an optional minus sign and digits)
/// starting exactly at `i`.
pub open spec fn spec_parse_int(s: Seq<u8>, i: int) -> Option<(int, int)> {
    if 0 <= i < s.len() && s[i] == 0x2D {  // '-'
        if i + 1 < s.len() && is_digit(s[i + 1]) {
            match spec_parse_digits_rec(s, i + 1, 0) {
                Some((n, j)) => Some((-n, j)),
                None => None,
            }
        } else {
            None
        }
    } else if 0 <= i < s.len() && is_digit(s[i]) {
        spec_parse_digits_rec(s, i, 0)
    } else {
        None
    }
}

pub proof fn lemma_parse_int_bounds(s: Seq<u8>, i: int)
    requires
        0 <= i,
        spec_parse_int(s, i) is Some,
    ensures
        i < spec_parse_int(s, i)->Some_0.1 <= s.len(),
{
    if s[i] == 0x2D {
        lemma_parse_digits_bounds(s, i + 1, 0);
    } else {
        let acc2 = 0 * 10 + (s[i] - 0x30);
        if acc2 <= 0x7FFF_FFFF_FFFF_FFFF {
            lemma_parse_digits_bounds(s, i + 1, acc2);
        }
    }
}

/// Parses one value starting at `i` (leading whitespace allowed):
/// a string, integer, boolean or null decoded as a scalar, or a
/// nested array or object kept as its raw span.
pub open spec fn spec_parse_value(s: Seq<u8>, i: int) -> Option<(SpecValue, int)> {
    let j = spec_skip_ws(s, i);
    if j < 0 || j >= s.len() {
        None
    } else {
        let b = s[j];
        if b == 0x22 {  // '"'
            match spec_parse_string_rec(s, j + 1, Seq::empty()) {
                Some((v, k)) => Some((SpecValue::Str(v), k)),
                None => None,
            }
        } else if b == 0x7B || b == 0x5B {  // '{' '['
            match spec_scan_value(s, j, 0, false, false) {
                Some(k) => Some((SpecValue::Raw(s.subrange(j, k)), k)),
                None => None,
            }
        } else if b == 0x74 {  // "true"
            if j + 4 <= s.len() && s[j + 1] == 0x72 && s[j + 2] == 0x75 && s[j + 3] == 0x65 {
                Some((SpecValue::Bool(true), j + 4))
            } else {
                None
            }
        } else if b == 0x66 {  // "false"
            if j + 5 <= s.len() && s[j + 1] == 0x61 && s[j + 2] == 0x6C && s[j + 3] == 0x73 && s[j
                + 4] == 0x65 {
                Some((SpecValue::Bool(false), j + 5))
            } else {
                None
            }
        } else if b == 0x6E {  // "null"
            if j + 4 <= s.len() && s[j + 1] == 0x75 && s[j + 2] == 0x6C && s[j + 3] == 0x6C {
                Some((SpecValue::Null, j + 4))
            } else {
                None
            }
        } else if b == 0x2D || is_digit(b) {
            match spec_parse_int(s, j) {
                Some((n, k)) => Some((SpecValue::Int(n), k)),
                None => None,
            }
        } else {
            None
        }
    }
}

pub proof fn lemma_parse_value_bounds(s: Seq<u8>, i: int)
    requires
        0 <= i,
        spec_parse_value(s, i) is Some,
    ensures
        i < spec_parse_value(s, i)->Some_0.1 <= s.len(),
{
    let j = spec_skip_ws(s, i);
    if i <= s.len() {
        lemma_skip_ws_bounds(s, i);
    }
    let b = s[j];
    if b == 0x22 {
        lemma_parse_string_bounds(s, j + 1, Seq::empty());
    } else if b == 0x7B || b == 0x5B {
        lemma_scan_value_bounds(s, j, 0, false, false);
    } else if b == 0x2D || is_digit(b) {
        if !(b == 0x74 || b == 0x66 || b == 0x6E) {
            lemma_parse_int_bounds(s, j);
        }
    }
}

/// Parses the members of an object, starting just after the opening
/// brace or after a separating comma, with the members seen so far in
/// `acc`.  Returns all members and the index just after the closing
/// brace.
pub open spec fn spec_parse_members_rec(s: Seq<u8>, i: int, acc: SpecMembers) -> Option<
    (SpecMembers, int),
>
    decreases s.len() - i,
    when 0 <= i
{
    let j = spec_skip_ws(s, i);
    if j < s.len() && s[j] == 0x7D && acc.len() == 0 {  // '}' of an empty object
        Some((acc, j + 1))
    } else if j < s.len() && s[j] == 0x22 {  // '"' opening a key
        match spec_parse_string_rec(s, j + 1, Seq::empty()) {
            Some((key, k1)) => {
                let k2 = spec_skip_ws(s, k1);
                if k2 < s.len() && s[k2] == 0x3A {  // ':'
                    match spec_parse_value(s, k2 + 1) {
                        Some((v, k3)) => {
                            let k4 = spec_skip_ws(s, k3);
                            if k4 < s.len() && s[k4] == 0x2C {  // ','
                                proof {
                                    if i <= s.len() {
                                        lemma_skip_ws_bounds(s, i);
                                    }
                                    lemma_parse_string_bounds(s, j + 1, Seq::empty());
                                    lemma_skip_ws_bounds(s, k1);
                                    lemma_parse_value_bounds(s, k2 + 1);
                                    lemma_skip_ws_bounds(s, k3);
                                }
                                spec_parse_members_rec(s, k4 + 1, acc.push((key, v)))
                            } else if k4 < s.len() && s[k4] == 0x7D {  // '}'
                                Some((acc.push((key, v)), k4 + 1))
                            } else {
                                None
                            }
                        },
                        None => None,
                    }
                } else {
                    None
                }
            },
            None => None,
        }
    } else {
        None
    }
}

/// Parses the elements of an array, starting just after the opening
/// bracket or after a separating comma.
pub open spec fn spec_parse_elems_rec(s: Seq<u8>, i: int, acc: Seq<SpecValue>) -> Option<
    (Seq<SpecValue>, int),
>
    decreases s.len() - i,
    when 0 <= i
{
    let j = spec_skip_ws(s, i);
    if j < s.len() && s[j] == 0x5D && acc.len() == 0 {  // ']' of an empty array
        Some((acc, j + 1))
    } else {
        match spec_parse_value(s, i) {
            Some((v, k3)) => {
                let k4 = spec_skip_ws(s, k3);
                if k4 < s.len() && s[k4] == 0x2C {  // ','
                    proof {
                        lemma_parse_value_bounds(s, i);
                        lemma_skip_ws_bounds(s, k3);
                    }
                    spec_parse_elems_rec(s, k4 + 1, acc.push(v))
                } else if k4 < s.len() && s[k4] == 0x5D {  // ']'
                    Some((acc.push(v), k4 + 1))
                } else {
                    None
                }
            },
            None => None,
        }
    }
}

/// Parses an object starting at `i` (leading whitespace allowed).
pub open spec fn spec_parse_object(s: Seq<u8>, i: int) -> Option<(SpecMembers, int)> {
    let j = spec_skip_ws(s, i);
    if 0 <= j < s.len() && s[j] == 0x7B {
        spec_parse_members_rec(s, j + 1, Seq::empty())
    } else {
        None
    }
}

/// Parses an array starting at `i` (leading whitespace allowed).
pub open spec fn spec_parse_array(s: Seq<u8>, i: int) -> Option<(Seq<SpecValue>, int)> {
    let j = spec_skip_ws(s, i);
    if 0 <= j < s.len() && s[j] == 0x5B {
        spec_parse_elems_rec(s, j + 1, Seq::empty())
    } else {
        None
    }
}

/// A whole document that is one object, with nothing but whitespace
/// after it.
pub open spec fn spec_object_document(s: Seq<u8>) -> Option<SpecMembers> {
    match spec_parse_object(s, 0) {
        Some((m, k)) => {
            if spec_skip_ws(s, k) == s.len() {
                Some(m)
            } else {
                None
            }
        },
        None => None,
    }
}

/// A whole document that is one value, with nothing but whitespace
/// after it.
pub open spec fn spec_value_document(s: Seq<u8>) -> Option<SpecValue> {
    match spec_parse_value(s, 0) {
        Some((v, k)) => {
            if spec_skip_ws(s, k) == s.len() {
                Some(v)
            } else {
                None
            }
        },
        None => None,
    }
}

/// The model of a member list: each key with its value's model.
pub open spec fn members_view(m: Seq<(Vec<u8>, JsonValue)>) -> SpecMembers {
    Seq::new(m.len(), |k: int| (m[k].0@, m[k].1@))
}

/// The model of an element list.
pub open spec fn elems_view(m: Seq<JsonValue>) -> Seq<SpecValue> {
    Seq::new(m.len(), |k: int| m[k]@)
}

/// The index of the first non-whitespace byte at or after `i`.
pub fn skip_ws(s: &Vec<u8>, i: usize) -> (r: usize)
    requires
        i <= s.len(),
    ensures
        r as int == spec_skip_ws(s@, i as int),
        i <= r <= s@.len(),
{
    let mut p = i;
    while p < s.len() && (s[p] == 0x20 || s[p] == 0x09 || s[p] == 0x0A || s[p] == 0x0D)
        invariant
            i <= p <= s.len(),
            spec_skip_ws(s@, i as int) == spec_skip_ws(s@, p as int),
        decreases s.len() - p,
    {
        p = p + 1;
    }
    p
}

/// Reads four hex digits starting at `i`.
fn hex4(s: &Vec<u8>, i: usize) -> (r: Option<u32>)
    requires
        i <= s.len(),
    ensures
        (match r {
            Some(v) => Some(v as int),
            None => None::<int>,
        }) == spec_hex4(s@, i as int),
        r matches Some(v) ==> v <= 0xFFFF,
{
    if s.len() - i < 4 {
        return None;
    }
    let mut value: u32 = 0;
    let mut k: usize = 0;
    while k < 4
        invariant
            k <= 4,
            i + 4 <= s@.len(),
            s@.len() <= usize::MAX,
            value <= 0xFFFF,
            k == 0 ==> value == 0,
            k >= 1 ==> (spec_hex_val(s@[i as int]) matches Some(a0) && (k == 1 ==> value == a0)),
            k >= 2 ==> (spec_hex_val(s@[i + 1]) matches Some(a1) && (k == 2 ==> value as int
                == spec_hex_val(s@[i as int])->Some_0 * 16 + a1)),
            k >= 3 ==> (spec_hex_val(s@[i + 2]) matches Some(a2) && (k == 3 ==> value as int
                == spec_hex_val(s@[i as int])->Some_0 * 256 + spec_hex_val(s@[i + 1])->Some_0 * 16
                + a2)),
            k >= 4 ==> (spec_hex_val(s@[i + 3]) matches Some(a3) && value as int == spec_hex_val(
                s@[i as int],
            )->Some_0 * 4096 + spec_hex_val(s@[i + 1])->Some_0 * 256 + spec_hex_val(
                s@[i + 2],
            )->Some_0 * 16 + a3),
        decreases 4 - k,
    {
        let b = s[i + k];
        let d: u32;
        if 0x30 <= b && b <= 0x39 {
            d = (b - 0x30) as u32;
        } else if 0x41 <= b && b <= 0x46 {
            d = (b - 0x41 + 10) as u32;
        } else if 0x61 <= b && b <= 0x66 {
            d = (b - 0x61 + 10) as u32;
        } else {
            proof {
                assert(spec_hex_val(s@[i + k]) is None);
            }
            return None;
        }
        value = value * 16 + d;
        k = k + 1;
    }
    Some(value)
}

/// Appends the UTF-8 encoding of one scalar value.
fn push_utf8(out: &mut Vec<u8>, cp: u32)
    requires
        cp <= 0x10FFFF,
        !(0xD800 <= cp <= 0xDFFF),
    ensures
        final(out)@ == old(out)@ + vstd::utf8::encode_scalar(cp),
{
    if cp <= 0x7F {
        out.push((cp & 0x7F) as u8);
    } else if cp <= 0x7FF {
        out.push(0xC0 | ((cp >> 6) & 0x1F) as u8);
        out.push(0x80 | (cp & 0x3F) as u8);
    } else if cp <= 0xFFFF {
        out.push(0xE0 | ((cp >> 12) & 0x0F) as u8);
        out.push(0x80 | ((cp >> 6) & 0x3F) as u8);
        out.push(0x80 | (cp & 0x3F) as u8);
    } else {
        out.push(0xF0 | ((cp >> 18) & 0x7) as u8);
        out.push(0x80 | ((cp >> 12) & 0x3F) as u8);
        out.push(0x80 | ((cp >> 6) & 0x3F) as u8);
        out.push(0x80 | (cp & 0x3F) as u8);
    }
    proof {
        assert(out@ =~= old(out)@ + vstd::utf8::encode_scalar(cp));
    }
}

/// Decodes a string literal's contents, starting just after the
/// opening quote; returns the bytes and the index after the closing
/// quote.
pub fn parse_string_body(s: &Vec<u8>, i: usize) -> (r: Option<(Vec<u8>, usize)>)
    requires
        i <= s.len(),
    ensures
        match r {
            Some(p) => spec_parse_string_rec(s@, i as int, Seq::empty()) == Some(
                (p.0@, p.1 as int),
            ) && i < p.1 <= s.len(),
            None => spec_parse_string_rec(s@, i as int, Seq::empty()) is None,
        },
{
    let mut acc: Vec<u8> = Vec::new();
    let mut p = i;
    loop
        invariant
            i <= p <= s.len(),
            spec_parse_string_rec(s@, i as int, Seq::empty()) == spec_parse_string_rec(
                s@,
                p as int,
                acc@,
            ),
        decreases s.len() - p,
    {
        if p >= s.len() {
            return None;
        }
        let b = s[p];
        if b == 0x22 {
            return Some((acc, p + 1));
        }
        if b == 0x5C {
            if p + 1 >= s.len() {
                return None;
            }
            let e = s[p + 1];
            if e == 0x75 {
                let cp = match hex4(s, p + 2) {
                    Some(v) => v,
                    None => {
                        return None;
                    },
                };
                if 0xD800 <= cp && cp <= 0xDBFF {
                    if s.len() - p < 12 {
                        return None;
                    }
                    if !(s[p + 6] == 0x5C && s[p + 7] == 0x75) {
                        return None;
                    }
                    let lo = match hex4(s, p + 8) {
                        Some(v) => v,
                        None => {
                            return None;
                        },
                    };
                    if !(0xDC00 <= lo && lo <= 0xDFFF) {
                        return None;
                    }
                    let combined: u32 = 0x10000 + (cp - 0xD800) * 0x400 + (lo - 0xDC00);
                    push_utf8(&mut acc, combined);
                    p = p + 12;
                } else if 0xDC00 <= cp && cp <= 0xDFFF {
                    return None;
                } else {
                    push_utf8(&mut acc, cp);
                    p = p + 6;
                }
                continue;
            }
            let decoded: u8;
            if e == 0x22 || e == 0x5C || e == 0x2F {
                decoded = e;
            } else if e == 0x62 {
                decoded = 0x08;
            } else if e == 0x66 {
                decoded = 0x0C;
            } else if e == 0x6E {
                decoded = 0x0A;
            } else if e == 0x72 {
                decoded = 0x0D;
            } else if e == 0x74 {
                decoded = 0x09;
            } else {
                return None;
            }
            acc.push(decoded);
            p = p + 2;
        } else if b < 0x20 {
            return None;
        } else {
            acc.push(b);
            p = p + 1;
        }
    }
}

/// Scans past one bracketed value starting at its opening bracket;
/// returns the index just after the matching closing bracket.
pub fn scan_value(s: &Vec<u8>, i: usize) -> (r: Option<usize>)
    requires
        i <= s.len(),
    ensures
        match r {
            Some(k) => spec_scan_value(s@, i as int, 0, false, false) == Some(k as int) && i < k
                <= s.len(),
            None => spec_scan_value(s@, i as int, 0, false, false) is None,
        },
{
    let mut p = i;
    let mut depth: usize = 0;
    let mut in_str = false;
    let mut esc = false;
    loop
        invariant
            i <= p <= s.len(),
            depth <= p - i,
            !in_str ==> !esc,
            spec_scan_value(s@, i as int, 0, false, false) == spec_scan_value(
                s@,
                p as int,
                depth as int,
                in_str,
                esc,
            ),
        decreases s.len() - p,
    {
        if p >= s.len() {
            return None;
        }
        let b = s[p];
        if in_str {
            if esc {
                esc = false;
            } else if b == 0x5C {
                esc = true;
            } else if b == 0x22 {
                in_str = false;
            }
            p = p + 1;
        } else if b == 0x7B || b == 0x5B {
            depth = depth + 1;
            p = p + 1;
        } else if b == 0x7D || b == 0x5D {
            if depth == 1 {
                return Some(p + 1);
            }
            if depth == 0 {
                return None;
            }
            depth = depth - 1;
            p = p + 1;
        } else if b == 0x22 {
            in_str = true;
            p = p + 1;
        } else {
            p = p + 1;
        }
    }
}

/// Decodes a run of digits starting at `i`, which must hold a digit.
fn parse_digits(s: &Vec<u8>, i: usize) -> (r: Option<(i64, usize)>)
    requires
        i < s.len(),
        is_digit(s@[i as int]),
    ensures
        match r {
            Some(p) => spec_parse_digits_rec(s@, i as int, 0) == Some((p.0 as int, p.1 as int))
                && i < p.1 <= s.len() && p.0 >= 0,
            None => spec_parse_digits_rec(s@, i as int, 0) is None,
        },
{
    let mut acc: i64 = (s[i] - 0x30) as i64;
    let mut p = i + 1;
    loop
        invariant
            i < p <= s.len(),
            0 <= acc,
            spec_parse_digits_rec(s@, i as int, 0) == spec_parse_digits_rec(
                s@,
                p as int,
                acc as int,
            ),
        decreases s.len() - p,
    {
        if p >= s.len() || !(0x30 <= s[p] && s[p] <= 0x39) {
            return Some((acc, p));
        }
        let d = (s[p] - 0x30) as i64;
        let acc10 = match acc.checked_mul(10) {
            Some(v) => v,
            None => {
                return None;
            },
        };
        let acc2 = match acc10.checked_add(d) {
            Some(v) => v,
            None => {
                return None;
            },
        };
        acc = acc2;
        p = p + 1;
    }
}

/// Parses an integer literal starting exactly at `i`.
pub fn parse_int_at(s: &Vec<u8>, i: usize) -> (r: Option<(i64, usize)>)
    requires
        i <= s.len(),
    ensures
        match r {
            Some(p) => spec_parse_int(s@, i as int) == Some((p.0 as int, p.1 as int)) && i < p.1
                <= s.len(),
            None => spec_parse_int(s@, i as int) is None,
        },
{
    if i < s.len() && s[i] == 0x2D {
        if i + 1 < s.len() && 0x30 <= s[i + 1] && s[i + 1] <= 0x39 {
            match parse_digits(s, i + 1) {
                Some((n, j)) => Some((-n, j)),
                None => None,
            }
        } else {
            None
        }
    } else if i < s.len() && 0x30 <= s[i] && s[i] <= 0x39 {
        parse_digits(s, i)
    } else {
        None
    }
}

/// Parses one value starting at `i` (leading whitespace allowed).
pub fn parse_value_at(s: &Vec<u8>, i: usize) -> (r: Option<(JsonValue, usize)>)
    requires
        i <= s.len(),
    ensures
        match r {
            Some(p) => spec_parse_value(s@, i as int) == Some((p.0@, p.1 as int)) && i < p.1
                <= s.len(),
            None => spec_parse_value(s@, i as int) is None,
        },
{
    let j = skip_ws(s, i);
    if j >= s.len() {
        return None;
    }
    let b = s[j];
    if b == 0x22 {
        match parse_string_body(s, j + 1) {
            Some((v, k)) => Some((JsonValue::Str(v), k)),
            None => None,
        }
    } else if b == 0x7B || b == 0x5B {
        match scan_value(s, j) {
            Some(k) => {
                let raw = vstd::slice::slice_to_vec(
                    vstd::slice::slice_subrange(s.as_slice(), j, k),
                );
                Some((JsonValue::Raw(raw), k))
            },
            None => None,
        }
    } else if b == 0x74 {
        if s.len() - j >= 4 && s[j + 1] == 0x72 && s[j + 2] == 0x75 && s[j + 3] == 0x65 {
            Some((JsonValue::Bool(true), j + 4))
        } else {
            None
        }
    } else if b == 0x66 {
        if s.len() - j >= 5 && s[j + 1] == 0x61 && s[j + 2] == 0x6C && s[j + 3] == 0x73 && s[j + 4]
            == 0x65 {
            Some((JsonValue::Bool(false), j + 5))
        } else {
            None
        }
    } else if b == 0x6E {
        if s.len() - j >= 4 && s[j + 1] == 0x75 && s[j + 2] == 0x6C && s[j + 3] == 0x6C {
            Some((JsonValue::Null, j + 4))
        } else {
            None
        }
    } else if b == 0x2D || (0x30 <= b && b <= 0x39) {
        match parse_int_at(s, j) {
            Some((n, k)) => Some((JsonValue::Int(n), k)),
            None => None,
        }
    } else {
        None
    }
}

/// Parses the members of an object, starting just after the opening
/// brace.
pub fn parse_members(s: &Vec<u8>, i: usize) -> (r: Option<(Vec<(Vec<u8>, JsonValue)>, usize)>)
    requires
        i <= s.len(),
    ensures
        match r {
            Some(p) => spec_parse_members_rec(s@, i as int, Seq::empty()) == Some(
                (members_view(p.0@), p.1 as int),
            ) && p.1 <= s.len(),
            None => spec_parse_members_rec(s@, i as int, Seq::empty()) is None,
        },
{
    let mut acc: Vec<(Vec<u8>, JsonValue)> = Vec::new();
    let mut p = i;
    proof {
        assert(members_view(acc@) =~= Seq::empty());
    }
    loop
        invariant
            i <= p <= s.len(),
            spec_parse_members_rec(s@, i as int, Seq::empty()) == spec_parse_members_rec(
                s@,
                p as int,
                members_view(acc@),
            ),
        decreases s.len() - p,
    {
        let j = skip_ws(s, p);
        if j < s.len() && s[j] == 0x7D && acc.len() == 0 {
            return Some((acc, j + 1));
        }
        if !(j < s.len() && s[j] == 0x22) {
            return None;
        }
        let (key, k1) = match parse_string_body(s, j + 1) {
            Some(kv) => kv,
            None => {
                return None;
            },
        };
        let k2 = skip_ws(s, k1);
        if !(k2 < s.len() && s[k2] == 0x3A) {
            return None;
        }
        let (v, k3) = match parse_value_at(s, k2 + 1) {
            Some(vv) => vv,
            None => {
                return None;
            },
        };
        let k4 = skip_ws(s, k3);
        if k4 < s.len() && s[k4] == 0x2C {
            let ghost prev = acc@;
            acc.push((key, v));
            proof {
                assert(members_view(acc@) =~= members_view(prev).push((key@, v@)));
            }
            p = k4 + 1;
        } else if k4 < s.len() && s[k4] == 0x7D {
            let ghost prev = acc@;
            acc.push((key, v));
            proof {
                assert(members_view(acc@) =~= members_view(prev).push((key@, v@)));
            }
            return Some((acc, k4 + 1));
        } else {
            return None;
        }
    }
}

/// Parses the elements of an array, starting just after the opening
/// bracket.
pub fn parse_elems(s: &Vec<u8>, i: usize) -> (r: Option<(Vec<JsonValue>, usize)>)
    requires
        i <= s.len(),
    ensures
        match r {
            Some(p) => spec_parse_elems_rec(s@, i as int, Seq::empty()) == Some(
                (elems_view(p.0@), p.1 as int),
            ) && p.1 <= s.len(),
            None => spec_parse_elems_rec(s@, i as int, Seq::empty()) is None,
        },
{
    let mut acc: Vec<JsonValue> = Vec::new();
    let mut p = i;
    proof {
        assert(elems_view(acc@) =~= Seq::empty());
    }
    loop
        invariant
            i <= p <= s.len(),
            spec_parse_elems_rec(s@, i as int, Seq::empty()) == spec_parse_elems_rec(
                s@,
                p as int,
                elems_view(acc@),
            ),
        decreases s.len() - p,
    {
        let j = skip_ws(s, p);
        if j < s.len() && s[j] == 0x5D && acc.len() == 0 {
            return Some((acc, j + 1));
        }
        let (v, k3) = match parse_value_at(s, p) {
            Some(vv) => vv,
            None => {
                return None;
            },
        };
        let k4 = skip_ws(s, k3);
        if k4 < s.len() && s[k4] == 0x2C {
            let ghost prev = acc@;
            acc.push(v);
            proof {
                assert(elems_view(acc@) =~= elems_view(prev).push(v@));
            }
            p = k4 + 1;
        } else if k4 < s.len() && s[k4] == 0x5D {
            let ghost prev = acc@;
            acc.push(v);
            proof {
                assert(elems_view(acc@) =~= elems_view(prev).push(v@));
            }
            return Some((acc, k4 + 1));
        } else {
            return None;
        }
    }
}

/// Parses an object starting at `i` (leading whitespace allowed).
pub fn parse_object_at(s: &Vec<u8>, i: usize) -> (r: Option<(Vec<(Vec<u8>, JsonValue)>, usize)>)
    requires
        i <= s.len(),
    ensures
        match r {
            Some(p) => spec_parse_object(s@, i as int) == Some((members_view(p.0@), p.1 as int))
                && p.1 <= s.len(),
            None => spec_parse_object(s@, i as int) is None,
        },
{
    let j = skip_ws(s, i);
    if j < s.len() && s[j] == 0x7B {
        parse_members(s, j + 1)
    } else {
        None
    }
}

/// Parses an array starting at `i` (leading whitespace allowed).
pub fn parse_array_at(s: &Vec<u8>, i: usize) -> (r: Option<(Vec<JsonValue>, usize)>)
    requires
        i <= s.len(),
    ensures
        match r {
            Some(p) => spec_parse_array(s@, i as int) == Some((elems_view(p.0@), p.1 as int))
                && p.1 <= s.len(),
            None => spec_parse_array(s@, i as int) is None,
        },
{
    let j = skip_ws(s, i);
    if j < s.len() && s[j] == 0x5B {
        parse_elems(s, j + 1)
    } else {
        None
    }
}

/// Parses a whole document that must be one object.
pub fn parse_object_document(s: &Vec<u8>) -> (r: Option<Vec<(Vec<u8>, JsonValue)>>)
    ensures
        match r {
            Some(m) => spec_object_document(s@) == Some(members_view(m@)),
            None => spec_object_document(s@) is None,
        },
{
    match parse_object_at(s, 0) {
        Some((m, k)) => {
            let t = skip_ws(s, k);
            if t == s.len() {
                Some(m)
            } else {
                None
            }
        },
        None => None,
    }
}

/// Parses a whole document that must be one value.
pub fn parse_value_document(s: &Vec<u8>) -> (r: Option<JsonValue>)
    ensures
        match r {
            Some(v) => spec_value_document(s@) == Some(v@),
            None => spec_value_document(s@) is None,
        },
{
    match parse_value_at(s, 0) {
        Some((v, k)) => {
            let t = skip_ws(s, k);
            if t == s.len() {
                Some(v)
            } else {
                None
            }
        },
        None => None,
    }
}

/// The decimal digits of a positive integer, most significant first.
pub open spec fn spec_digits(n: int) -> Seq<u8>
    decreases n,
{
    if n <= 0 {
        Seq::empty()
    } else {
        spec_digits(n / 10).push((0x30 + n % 10) as u8)
    }
}

/// The decimal rendering of an integer.
pub open spec fn spec_int_bytes(n: int) -> Seq<u8> {
    if n == 0 {
        seq![0x30]
    } else if n < 0 {
        seq![0x2D] + spec_digits(-n)
    } else {
        spec_digits(n)
    }
}

/// The lowercase hex digit for a value below 16.
pub open spec fn spec_hex_digit(n: u8) -> u8 {
    if n < 10 {
        (0x30 + n) as u8
    } else {
        (0x57 + n) as u8
    }
}

/// How one byte of string content is written: the named short escapes,
/// a `\u00XX` escape for other control bytes, the byte itself
/// otherwise.
pub open spec fn spec_escape_byte(b: u8) -> Seq<u8> {
    if b == 0x22 {
        seq![0x5C, 0x22]
    } else if b == 0x5C {
        seq![0x5C, 0x5C]
    } else if b == 0x08 {
        seq![0x5C, 0x62]
    } else if b == 0x0C {
        seq![0x5C, 0x66]
    } else if b == 0x0A {
        seq![0x5C, 0x6E]
    } else if b == 0x0D {
        seq![0x5C, 0x72]
    } else if b == 0x09 {
        seq![0x5C, 0x74]
    } else if b < 0x20 {
        seq![0x5C, 0x75, 0x30, 0x30, spec_hex_digit(b / 16), spec_hex_digit(b % 16)]
    } else {
        seq![b]
    }
}

/// The escaped form of string contents.
pub open spec fn spec_escape(bytes: Seq<u8>) -> Seq<u8>
    decreases bytes.len(),
{
    if bytes.len() == 0 {
        Seq::empty()
    } else {
        spec_escape_byte(bytes[0]) + spec_escape(bytes.drop_first())
    }
}

/// A quoted, escaped string literal.
pub open spec fn spec_string_literal(bytes: Seq<u8>) -> Seq<u8> {
    seq![0x22] + spec_escape(bytes) + seq![0x22]
}

/// The serialized form of one value.
pub open spec fn spec_ser_value(v: SpecValue) -> Seq<u8> {
    match v {
        SpecValue::Null => seq![0x6E, 0x75, 0x6C, 0x6C],
        SpecValue::Bool(true) => seq![0x74, 0x72, 0x75, 0x65],
        SpecValue::Bool(false) => seq![0x66, 0x61, 0x6C, 0x73, 0x65],
        SpecValue::Int(n) => spec_int_bytes(n),
        SpecValue::Str(s) => spec_string_literal(s),
        SpecValue::Raw(r) => r,
    }
}

/// The serialized members of an object, comma separated.
pub open spec fn spec_ser_members(m: SpecMembers) -> Seq<u8>
    decreases m.len(),
{
    if m.len() == 0 {
        Seq::empty()
    } else if m.len() == 1 {
        spec_string_literal(m[0].0) + seq![0x3A] + spec_ser_value(m[0].1)
    } else {
        spec_ser_members(m.drop_last()) + seq![0x2C] + spec_string_literal(m.last().0)
            + seq![0x3A] + spec_ser_value(m.last().1)
    }
}

/// A serialized object.
pub open spec fn spec_ser_object(m: SpecMembers) -> Seq<u8> {
    seq![0x7B] + spec_ser_members(m) + seq![0x7D]
}

/// Escaping distributes over appending one byte.
pub proof fn lemma_escape_push(a: Seq<u8>, b: u8)
    ensures
        spec_escape(a.push(b)) == spec_escape(a) + spec_escape_byte(b),
    decreases a.len(),
{
    if a.len() == 0 {
        assert(a.push(b).drop_first() =~= a);
        assert(spec_escape(a.push(b)) =~= spec_escape(a) + spec_escape_byte(b));
    } else {
        assert(a.push(b).drop_first() =~= a.drop_first().push(b));
        lemma_escape_push(a.drop_first(), b);
        assert(spec_escape(a.push(b)) =~= spec_escape(a) + spec_escape_byte(b));
    }
}

/// Appends the bytes of a slice.
pub fn write_bytes(out: &mut Vec<u8>, s: &[u8])
    ensures
        final(out)@ == old(out)@ + s@,
{
    let mut k: usize = 0;
    while k < s.len()
        invariant
            k <= s@.len(),
            out@ == old(out)@ + s@.take(k as int),
        decreases s@.len() - k,
    {
        let b = *vstd::slice::slice_index_get(s, k);
        out.push(b);
        proof {
            assert(s@.take(k + 1) =~= s@.take(k as int).push(s@[k as int]));
            assert(old(out)@ + s@.take(k + 1) =~= (old(out)@ + s@.take(k as int)).push(
                s@[k as int],
            ));
        }
        k = k + 1;
    }
    proof {
        assert(s@.take(s@.len() as int) =~= s@);
    }
}

/// Appends one byte of string content in escaped form.
fn write_escaped_byte(out: &mut Vec<u8>, b: u8)
    ensures
        final(out)@ == old(out)@ + spec_escape_byte(b),
{
    if b == 0x22 || b == 0x5C {
        out.push(0x5C);
        out.push(b);
    } else if b == 0x08 {
        out.push(0x5C);
        out.push(0x62);
    } else if b == 0x0C {
        out.push(0x5C);
        out.push(0x66);
    } else if b == 0x0A {
        out.push(0x5C);
        out.push(0x6E);
    } else if b == 0x0D {
        out.push(0x5C);
        out.push(0x72);
    } else if b == 0x09 {
        out.push(0x5C);
        out.push(0x74);
    } else if b < 0x20 {
        out.push(0x5C);
        out.push(0x75);
        out.push(0x30);
        out.push(0x30);
        let hi = b / 16;
        let lo = b % 16;
        out.push(if hi < 10 { 0x30 + hi } else { 0x57 + hi });
        out.push(if lo < 10 { 0x30 + lo } else { 0x57 + lo });
    } else {
        out.push(b);
    }
    proof {
        assert(out@ =~= old(out)@ + spec_escape_byte(b));
    }
}

/// Appends a quoted, escaped string literal.
pub fn write_string_literal(out: &mut Vec<u8>, s: &[u8])
    ensures
        final(out)@ == old(out)@ + spec_string_literal(s@),
{
    out.push(0x22);
    let mut k: usize = 0;
    while k < s.len()
        invariant
            k <= s@.len(),
            out@ == old(out)@ + seq![0x22u8] + spec_escape(s@.take(k as int)),
        decreases s@.len() - k,
    {
        let b = *vstd::slice::slice_index_get(s, k);
        write_escaped_byte(out, b);
        proof {
            assert(s@.take(k + 1) =~= s@.take(k as int).push(s@[k as int]));
            lemma_escape_push(s@.take(k as int), s@[k as int]);
            assert(old(out)@ + seq![0x22u8] + spec_escape(s@.take(k + 1)) =~= (old(out)@
                + seq![0x22u8] + spec_escape(s@.take(k as int))) + spec_escape_byte(
                s@[k as int],
            ));
        }
        k = k + 1;
    }
    out.push(0x22);
    proof {
        assert(s@.take(s@.len() as int) =~= s@);
        assert(out@ =~= old(out)@ + spec_string_literal(s@));
    }
}

/// Appends the decimal digits of a positive number.
fn write_digits(out: &mut Vec<u8>, m: u64)
    ensures
        final(out)@ == old(out)@ + spec_digits(m as int),
    decreases m,
{
    if m == 0 {
        proof {
            assert(out@ =~= old(out)@ + spec_digits(0));
        }
    } else {
        write_digits(out, m / 10);
        out.push(0x30 + (m % 10) as u8);
        proof {
            assert(out@ =~= old(out)@ + spec_digits(m as int));
        }
    }
}

/// Appends the decimal rendering of an integer.
pub fn write_int(out: &mut Vec<u8>, n: i64)
    ensures
        final(out)@ == old(out)@ + spec_int_bytes(n as int),
{
    if n == 0 {
        out.push(0x30);
        proof {
            assert(out@ =~= old(out)@ + spec_int_bytes(0));
        }
    } else if n < 0 {
        out.push(0x2D);
        let m: u64 = if n == i64::MIN {
            9223372036854775808
        } else {
            (-n) as u64
        };
        proof {
            assert(m as int == -(n as int));
        }
        write_digits(out, m);
        proof {
            assert(out@ =~= old(out)@ + spec_int_bytes(n as int));
        }
    } else {
        write_digits(out, n as u64);
    }
}

/// Appends the serialized form of one value.
pub fn write_value(out: &mut Vec<u8>, v: &JsonValue)
    ensures
        final(out)@ == old(out)@ + spec_ser_value(v@),
{
    match v {
        JsonValue::Null => {
            out.push(0x6E);
            out.push(0x75);
            out.push(0x6C);
            out.push(0x6C);
            proof {
                assert(out@ =~= old(out)@ + spec_ser_value(v@));
            }
        },
        JsonValue::Bool(t) => {
            if *t {
                out.push(0x74);
                out.push(0x72);
                out.push(0x75);
                out.push(0x65);
            } else {
                out.push(0x66);
                out.push(0x61);
                out.push(0x6C);
                out.push(0x73);
                out.push(0x65);
            }
            proof {
                assert(out@ =~= old(out)@ + spec_ser_value(v@));
            }
        },
        JsonValue::Int(n) => {
            write_int(out, *n);
        },
        JsonValue::Str(s) => {
            write_string_literal(out, s.as_slice());
        },
        JsonValue::Raw(r) => {
            write_bytes(out, r.as_slice());
        },
    }
}

/// Appends one object member, with its separating comma unless it is
/// the first.
pub fn write_member(out: &mut Vec<u8>, first: bool, key: &[u8], v: &JsonValue)
    ensures
        final(out)@ == old(out)@ + (if first {
            Seq::<u8>::empty()
        } else {
            seq![0x2Cu8]
        }) + spec_string_literal(key@) + seq![0x3Au8] + spec_ser_value(v@),
{
    if !first {
        out.push(0x2C);
    }
    write_string_literal(out, key);
    out.push(0x3A);
    write_value(out, v);
    proof {
        assert(out@ =~= old(out)@ + (if first {
            Seq::<u8>::empty()
        } else {
            seq![0x2Cu8]
        }) + spec_string_literal(key@) + seq![0x3Au8] + spec_ser_value(v@));
    }
}


/// The value of the first member with the given key.
pub open spec fn spec_obj_get(m: SpecMembers, key: Seq<u8>) -> Option<SpecValue>
    decreases m.len(),
{
    if m.len() == 0 {
        None
    } else if m[0].0 == key {
        Some(m[0].1)
    } else {
        spec_obj_get(m.drop_first(), key)
    }
}

/// Finds the first member with the given key.
pub fn obj_find<'a>(m: &'a Vec<(Vec<u8>, JsonValue)>, key: &str) -> (r: Option<&'a JsonValue>)
    ensures
        (match r {
            Some(v) => Some(v@),
            None => None::<SpecValue>,
        }) == spec_obj_get(members_view(m@), key.spec_bytes()),
{
    let mut k: usize = 0;
    proof {
        assert(members_view(m@).skip(0) =~= members_view(m@));
    }
    while k < m.len()
        invariant
            k <= m@.len(),
            spec_obj_get(members_view(m@), key.spec_bytes()) == spec_obj_get(
                members_view(m@).skip(k as int),
                key.spec_bytes(),
            ),
        decreases m@.len() - k,
    {
        let hit = crate::text::vec_eq_str(&m[k].0, key);
        proof {
            let mm = members_view(m@);
            assert(mm.skip(k as int)[0] == mm[k as int]);
            assert(mm.skip(k as int).drop_first() =~= mm.skip(k + 1));
        }
        if hit {
            return Some(&m[k].1);
        }
        k = k + 1;
    }
    proof {
        assert(members_view(m@).skip(m@.len() as int) =~= Seq::<(Seq<u8>, SpecValue)>::empty());
    }
    None
}


/// Writes one JSON object member by member, carrying the members
/// written so far as its ghost model.
pub struct JsonObjWriter {
    out: Vec<u8>,
    first: bool,
    members: Ghost<SpecMembers>,
}

impl JsonObjWriter {
    /// The output written so far is the opening brace and the members.
    pub closed spec fn wf(&self) -> bool {
        &&& self.out@ == seq![0x7Bu8] + spec_ser_members(self.members@)
        &&& (self.first <==> self.members@.len() == 0)
    }

    /// The members written so far.
    pub closed spec fn members(&self) -> SpecMembers {
        self.members@
    }

    /// An object with no members yet.
    pub fn new() -> (r: Self)
        ensures
            r.wf(),
            r.members() == Seq::<(Seq<u8>, SpecValue)>::empty(),
    {
        let mut out: Vec<u8> = Vec::new();
        out.push(0x7B);
        let r = JsonObjWriter { out, first: true, members: Ghost(Seq::empty()) };
        proof {
            assert(r.out@ =~= seq![0x7Bu8] + spec_ser_members(r.members@));
        }
        r
    }

    /// Appending one member extends the model by one entry.
    proof fn lemma_member_step(m: SpecMembers, key: Seq<u8>, v: SpecValue)
        ensures
            spec_ser_members(m.push((key, v))) == spec_ser_members(m) + (if m.len() == 0 {
                Seq::<u8>::empty()
            } else {
                seq![0x2Cu8]
            }) + spec_string_literal(key) + seq![0x3Au8] + spec_ser_value(v),
    {
        let m2 = m.push((key, v));
        assert(m2.drop_last() =~= m);
        assert(m2.last() == (key, v));
        if m.len() == 0 {
            assert(spec_ser_members(m2) =~= spec_ser_members(m) + Seq::<u8>::empty()
                + spec_string_literal(key) + seq![0x3Au8] + spec_ser_value(v));
        } else {
            assert(spec_ser_members(m2) =~= spec_ser_members(m) + seq![0x2Cu8]
                + spec_string_literal(key) + seq![0x3Au8] + spec_ser_value(v));
        }
    }

    /// Writes one member with the given value.
    pub fn add(&mut self, key: &str, v: &JsonValue)
        requires
            old(self).wf(),
        ensures
            final(self).wf(),
            final(self).members() == old(self).members().push((key.spec_bytes(), v@)),
    {
        let ghost m0 = self.members@;
        write_member(&mut self.out, self.first, key.as_bytes(), v);
        self.first = false;
        proof {
            self.members@ = m0.push((key.spec_bytes(), v@));
            Self::lemma_member_step(m0, key.spec_bytes(), v@);
            assert(self.out@ =~= seq![0x7Bu8] + spec_ser_members(self.members@));
        }
    }

    /// Writes one boolean member.
    pub fn add_bool(&mut self, key: &str, b: bool)
        requires
            old(self).wf(),
        ensures
            final(self).wf(),
            final(self).members() == old(self).members().push(
                (key.spec_bytes(), SpecValue::Bool(b)),
            ),
    {
        self.add(key, &JsonValue::Bool(b));
    }

    /// Writes one integer member.
    pub fn add_int(&mut self, key: &str, n: i64)
        requires
            old(self).wf(),
        ensures
            final(self).wf(),
            final(self).members() == old(self).members().push(
                (key.spec_bytes(), SpecValue::Int(n as int)),
            ),
    {
        self.add(key, &JsonValue::Int(n));
    }

    /// Writes one string member.
    pub fn add_str(&mut self, key: &str, s: &str)
        requires
            old(self).wf(),
        ensures
            final(self).wf(),
            final(self).members() == old(self).members().push(
                (key.spec_bytes(), SpecValue::Str(s.spec_bytes())),
            ),
    {
        let ghost m0 = self.members@;
        if !self.first {
            self.out.push(0x2C);
        }
        write_string_literal(&mut self.out, key.as_bytes());
        self.out.push(0x3A);
        write_string_literal(&mut self.out, s.as_bytes());
        self.first = false;
        proof {
            self.members@ = m0.push((key.spec_bytes(), SpecValue::Str(s.spec_bytes())));
            Self::lemma_member_step(m0, key.spec_bytes(), SpecValue::Str(s.spec_bytes()));
            assert(self.out@ =~= seq![0x7Bu8] + spec_ser_members(self.members@));
        }
    }

    /// Writes one member whose value is raw JSON text, verbatim.
    pub fn add_raw(&mut self, key: &str, raw: &[u8])
        requires
            old(self).wf(),
        ensures
            final(self).wf(),
            final(self).members() == old(self).members().push(
                (key.spec_bytes(), SpecValue::Raw(raw@)),
            ),
    {
        let ghost m0 = self.members@;
        if !self.first {
            self.out.push(0x2C);
        }
        write_string_literal(&mut self.out, key.as_bytes());
        self.out.push(0x3A);
        write_bytes(&mut self.out, raw);
        self.first = false;
        proof {
            self.members@ = m0.push((key.spec_bytes(), SpecValue::Raw(raw@)));
            Self::lemma_member_step(m0, key.spec_bytes(), SpecValue::Raw(raw@));
            assert(self.out@ =~= seq![0x7Bu8] + spec_ser_members(self.members@));
        }
    }

    /// Closes the object and hands the bytes out.
    pub fn finish(self) -> (r: Vec<u8>)
        requires
            self.wf(),
        ensures
            r@ == spec_ser_object(self.members()),
    {
        let mut out = self.out;
        out.push(0x7D);
        proof {
            assert(out@ =~= spec_ser_object(self.members@));
        }
        out
    }
}


/// One boolean member.
pub open spec fn bool_member(key: Seq<char>, b: bool) -> SpecMembers {
    seq![(vstd::utf8::encode_utf8(key), SpecValue::Bool(b))]
}

/// One integer member.
pub open spec fn int_member(key: Seq<char>, n: int) -> SpecMembers {
    seq![(vstd::utf8::encode_utf8(key), SpecValue::Int(n))]
}

/// One string member.
pub open spec fn str_member(key: Seq<char>, s: Seq<char>) -> SpecMembers {
    seq![(vstd::utf8::encode_utf8(key), SpecValue::Str(vstd::utf8::encode_utf8(s)))]
}

/// An optional raw member: nothing when the value is absent.
pub open spec fn opt_raw_member(key: Seq<char>, v: Option<Seq<u8>>) -> SpecMembers {
    match v {
        Some(b) => seq![(vstd::utf8::encode_utf8(key), SpecValue::Raw(b))],
        None => Seq::empty(),
    }
}

/// An optional string member: nothing when the value is absent.
pub open spec fn opt_str_member(key: Seq<char>, v: Option<Seq<char>>) -> SpecMembers {
    match v {
        Some(s) => seq![(vstd::utf8::encode_utf8(key), SpecValue::Str(vstd::utf8::encode_utf8(s)))],
        None => Seq::empty(),
    }
}

/// An optional integer member: nothing when the value is absent.
pub open spec fn opt_int_member(key: Seq<char>, v: Option<int>) -> SpecMembers {
    match v {
        Some(n) => seq![(vstd::utf8::encode_utf8(key), SpecValue::Int(n))],
        None => Seq::empty(),
    }
}

/// The model of an optional byte vector.
pub open spec fn opt_bytes_view(v: &Option<Vec<u8>>) -> Option<Seq<u8>> {
    match v {
        Some(b) => Some(b@),
        None => None,
    }
}

/// The model of an optional string.
pub open spec fn opt_string_view(v: &Option<String>) -> Option<Seq<char>> {
    match v {
        Some(s) => Some(s@),
        None => None,
    }
}

/// The model of an optional count.
pub open spec fn opt_usize_view(v: &Option<usize>) -> Option<int> {
    match v {
        Some(n) => Some(*n as int),
        None => None,
    }
}

impl JsonObjWriter {
    /// Writes one raw member when the value is present.
    pub fn add_opt_raw(&mut self, key: &str, v: &Option<Vec<u8>>)
        requires
            old(self).wf(),
        ensures
            final(self).wf(),
            final(self).members() == old(self).members() + opt_raw_member(key@, opt_bytes_view(v)),
    {
        let ghost m0 = self.members();
        match v {
            Some(b) => {
                self.add_raw(key, b.as_slice());
            },
            None => {},
        }
        proof {
            assert(self.members() =~= m0 + opt_raw_member(key@, opt_bytes_view(v)));
        }
    }

    /// Writes one string member when the value is present.
    pub fn add_opt_str(&mut self, key: &str, v: &Option<String>)
        requires
            old(self).wf(),
        ensures
            final(self).wf(),
            final(self).members() == old(self).members() + opt_str_member(
                key@,
                opt_string_view(v),
            ),
    {
        let ghost m0 = self.members();
        match v {
            Some(s) => {
                self.add_str(key, s.as_str());
            },
            None => {},
        }
        proof {
            assert(self.members() =~= m0 + opt_str_member(key@, opt_string_view(v)));
        }
    }

    /// Writes one count member when the value is present.
    pub fn add_opt_count(&mut self, key: &str, v: &Option<usize>)
        requires
            old(self).wf(),
            v matches Some(n) ==> n <= 0x7FFF_FFFF_FFFF_FFFF,
        ensures
            final(self).wf(),
            final(self).members() == old(self).members() + opt_int_member(
                key@,
                opt_usize_view(v),
            ),
    {
        let ghost m0 = self.members();
        match v {
            Some(n) => {
                self.add_int(key, *n as i64);
            },
            None => {},
        }
        proof {
            assert(self.members() =~= m0 + opt_int_member(key@, opt_usize_view(v)));
        }
    }
}


// ---------------------------------------------------------------------
// The codec round trip: the parser reads the serializer's output back.
// ---------------------------------------------------------------------
/// The value a digit run denotes, read left to right onto `acc` —
/// exactly the accumulation the parser performs.
pub open spec fn spec_digits_value(acc: int, ds: Seq<u8>) -> int
    decreases ds.len(),
{
    if ds.len() == 0 {
        acc
    } else {
        spec_digits_value(acc * 10 + (ds[0] - 0x30), ds.drop_first())
    }
}

/// Reading one more digit multiplies the value by ten and adds it.
proof fn lemma_digits_value_push(acc: int, ds: Seq<u8>, d: u8)
    ensures
        spec_digits_value(acc, ds.push(d)) == spec_digits_value(acc, ds) * 10 + (d - 0x30),
    decreases ds.len(),
{
    reveal_with_fuel(spec_digits_value, 3);
    if ds.len() == 0 {
        assert(ds.push(d).drop_first() =~= Seq::<u8>::empty());
        assert(ds.push(d)[0] == d);
    } else {
        assert(ds.push(d).drop_first() =~= ds.drop_first().push(d));
        assert(ds.push(d)[0] == ds[0]);
        lemma_digits_value_push(acc * 10 + (ds[0] - 0x30), ds.drop_first(), d);
    }
}

/// A rendered number is digit bytes, at least one for a positive
/// number.
pub(crate) proof fn lemma_digits_are_digits(n: int)
    requires
        n >= 0,
    ensures
        forall|i: int| 0 <= i < spec_digits(n).len() ==> is_digit(#[trigger] spec_digits(n)[i]),
        n >= 1 ==> spec_digits(n).len() >= 1,
    decreases n,
{
    if n > 0 {
        lemma_digits_are_digits(n / 10);
        assert forall|i: int| 0 <= i < spec_digits(n).len() implies is_digit(
            #[trigger] spec_digits(n)[i],
        ) by {
            if i < spec_digits(n / 10).len() {
                assert(spec_digits(n)[i] == spec_digits(n / 10)[i]);
            }
        }
    }
}

/// Reading a number's own digits yields the number back.
proof fn lemma_digits_value_of(n: int)
    requires
        n >= 0,
    ensures
        spec_digits_value(0, spec_digits(n)) == n,
    decreases n,
{
    if n == 0 {
    } else {
        lemma_digits_value_of(n / 10);
        lemma_digits_value_push(0, spec_digits(n / 10), (0x30 + n % 10) as u8);
    }
}

/// The accumulated value never shrinks while digits are read.
proof fn lemma_digits_value_monotone(acc: int, ds: Seq<u8>)
    requires
        acc >= 0,
        forall|i: int| 0 <= i < ds.len() ==> is_digit(#[trigger] ds[i]),
    ensures
        acc <= spec_digits_value(acc, ds),
    decreases ds.len(),
{
    if ds.len() > 0 {
        assert(is_digit(ds[0]));
        lemma_digits_value_monotone(acc * 10 + (ds[0] - 0x30), ds.drop_first());
    }
}

/// What stands at `i` in `s` is readable index by index from the
/// suffix it equals.
proof fn lemma_skip_shift(s: Seq<u8>, i: int, t: Seq<u8>)
    requires
        0 <= i <= s.len(),
        s.skip(i) == t,
    ensures
        s.len() - i == t.len(),
        forall|k: int| 0 <= k < t.len() ==> s[i + k] == #[trigger] t[k],
{
    assert(s.skip(i).len() == s.len() - i);
    assert forall|k: int| 0 <= k < t.len() implies s[i + k] == #[trigger] t[k] by {
        assert(s.skip(i)[k] == s[i + k]);
    }
}

/// The parser reads a digit run placed at `i` to its accumulated
/// value, stopping exactly where the run ends.
proof fn lemma_parse_digit_seq(s: Seq<u8>, i: int, ds: Seq<u8>, rest: Seq<u8>, acc: int)
    requires
        0 <= i <= s.len(),
        s.skip(i) == ds + rest,
        forall|k: int| 0 <= k < ds.len() ==> is_digit(#[trigger] ds[k]),
        rest.len() == 0 || !is_digit(rest[0]),
        0 <= acc,
        spec_digits_value(acc, ds) <= 0x7FFF_FFFF_FFFF_FFFF,
    ensures
        spec_parse_digits_rec(s, i, acc) == Some((spec_digits_value(acc, ds), i + ds.len())),
    decreases ds.len(),
{
    lemma_skip_shift(s, i, ds + rest);
    if ds.len() == 0 {
        if i < s.len() {
            assert(s[i] == (ds + rest)[0]);
            assert(s[i] == rest[0]);
        }
    } else {
        assert(s[i] == (ds + rest)[0]);
        assert(s[i] == ds[0]);
        assert(is_digit(s[i]));
        let acc2 = acc * 10 + (s[i] - 0x30);
        lemma_digits_value_monotone(acc2, ds.drop_first());
        assert(spec_digits_value(acc, ds) == spec_digits_value(acc2, ds.drop_first()));
        assert(s.skip(i + 1) =~= ds.drop_first() + rest) by {
            assert forall|k: int| 0 <= k < s.len() - i - 1 implies s.skip(i + 1)[k] == (
            ds.drop_first() + rest)[k] by {
                assert(s.skip(i + 1)[k] == s[i + 1 + k]);
                assert(s[i + 1 + k] == (ds + rest)[k + 1]);
            }
        }
        lemma_parse_digit_seq(s, i + 1, ds.drop_first(), rest, acc2);
    }
}

/// The parser reads a rendered integer placed at `i` back to the
/// integer, stopping exactly where the rendering ends.
pub(crate) proof fn lemma_parse_int_of(s: Seq<u8>, i: int, n: int, rest: Seq<u8>)
    requires
        0 <= i <= s.len(),
        s.skip(i) == spec_int_bytes(n) + rest,
        rest.len() == 0 || !is_digit(rest[0]),
        -0x7FFF_FFFF_FFFF_FFFF <= n <= 0x7FFF_FFFF_FFFF_FFFF,
    ensures
        spec_parse_int(s, i) == Some((n, i + spec_int_bytes(n).len())),
{
    lemma_skip_shift(s, i, spec_int_bytes(n) + rest);
    reveal_with_fuel(spec_digits_value, 3);
    if n == 0 {
        assert(s[i] == (spec_int_bytes(0) + rest)[0]);
        assert(s[i] == 0x30);
        assert(seq![0x30u8] + rest =~= spec_int_bytes(0) + rest);
        lemma_parse_digit_seq(s, i, seq![0x30u8], rest, 0);
        assert(spec_digits_value(0, seq![0x30u8]) == 0) by {
            assert(seq![0x30u8].drop_first() =~= Seq::<u8>::empty());
        }
    } else if n > 0 {
        lemma_digits_are_digits(n);
        lemma_digits_value_of(n);
        assert(s[i] == (spec_int_bytes(n) + rest)[0]);
        assert(s[i] == spec_digits(n)[0]);
        assert(is_digit(s[i]));
        assert(s[i] != 0x2D);
        lemma_parse_digit_seq(s, i, spec_digits(n), rest, 0);
    } else {
        let m = -n;
        lemma_digits_are_digits(m);
        lemma_digits_value_of(m);
        assert(s[i] == (spec_int_bytes(n) + rest)[0]);
        assert(s[i] == 0x2D);
        assert(spec_digits(m).len() >= 1);
        assert(i + 1 < s.len());
        assert(s[i + 1] == (spec_int_bytes(n) + rest)[1]);
        assert(s[i + 1] == spec_digits(m)[0]);
        assert(is_digit(s[i + 1]));
        assert(s.skip(i + 1) =~= spec_digits(m) + rest) by {
            assert forall|k: int| 0 <= k < s.len() - i - 1 implies s.skip(i + 1)[k] == (
            spec_digits(m) + rest)[k] by {
                assert(s.skip(i + 1)[k] == s[i + 1 + k]);
                assert(s[i + 1 + k] == (spec_int_bytes(n) + rest)[k + 1]);
            }
        }
        lemma_parse_digit_seq(s, i + 1, spec_digits(m), rest, 0);
    }
}


/// A lowercase hex digit reads back to its value.
proof fn lemma_hex_digit_val(n: u8)
    requires
        n < 16,
    ensures
        spec_hex_val(spec_hex_digit(n)) == Some(n as int),
{
}

/// The parser reads an escaped string placed at `i` (with its closing
/// quote) back to the original bytes, appended to what was already
/// decoded.
proof fn lemma_parse_escaped(s: Seq<u8>, i: int, b: Seq<u8>, rest: Seq<u8>, acc: Seq<u8>)
    requires
        0 <= i <= s.len(),
        s.skip(i) == spec_escape(b) + seq![0x22u8] + rest,
    ensures
        spec_parse_string_rec(s, i, acc) == Some((acc + b, i + spec_escape(b).len() + 1)),
    decreases b.len(),
{
    lemma_skip_shift(s, i, spec_escape(b) + seq![0x22u8] + rest);
    if b.len() == 0 {
        assert(s[i] == (spec_escape(b) + seq![0x22u8] + rest)[0]);
        assert(s[i] == 0x22);
        assert(acc + b =~= acc);
    } else {
        let b0 = b[0];
        let b2 = b.drop_first();
        let eb = spec_escape_byte(b0);
        assert(spec_escape(b) == eb + spec_escape(b2));
        let tail = spec_escape(b2) + seq![0x22u8] + rest;
        assert(s.skip(i + eb.len()) =~= tail) by {
            assert forall|k: int| 0 <= k < s.len() - i - eb.len() implies s.skip(i + eb.len())[k]
                == tail[k] by {
                assert(s.skip(i + eb.len())[k] == s[i + eb.len() + k]);
                assert(s[i + eb.len() + k] == (spec_escape(b) + seq![0x22u8] + rest)[eb.len()
                    + k]);
                assert((spec_escape(b) + seq![0x22u8] + rest)[eb.len() + k] == tail[k]);
            }
        }
        assert forall|k: int| 0 <= k < eb.len() implies s[i + k] == #[trigger] eb[k] by {
            assert(s[i + k] == (spec_escape(b) + seq![0x22u8] + rest)[k]);
            assert((spec_escape(b) + seq![0x22u8] + rest)[k] == eb[k]);
        }
        if b0 == 0x22 || b0 == 0x5C {
            assert(s[i] == 0x5C && s[i + 1] == b0);
            lemma_parse_escaped(s, i + 2, b2, rest, acc.push(b0));
            assert(acc.push(b0) + b2 =~= acc + b);
        } else if b0 == 0x08 || b0 == 0x0C || b0 == 0x0A || b0 == 0x0D || b0 == 0x09 {
            assert(s[i] == 0x5C);
            lemma_parse_escaped(s, i + 2, b2, rest, acc.push(b0));
            assert(acc.push(b0) + b2 =~= acc + b);
        } else if b0 < 0x20 {
            assert(s[i] == 0x5C && s[i + 1] == 0x75);
            assert(s[i + 2] == 0x30 && s[i + 3] == 0x30);
            assert(s[i + 4] == spec_hex_digit(b0 / 16));
            assert(s[i + 5] == spec_hex_digit(b0 % 16));
            lemma_hex_digit_val(b0 / 16);
            lemma_hex_digit_val(b0 % 16);
            assert(spec_hex_val(0x30) == Some(0int));
            assert(i + 6 <= s.len());
            assert(spec_hex4(s, i + 2) == Some((b0 / 16) * 16 + (b0 % 16) as int));
            assert((b0 / 16) * 16 + (b0 % 16) as int == b0 as int);
            let cp = b0 as int;
            assert(!(0xD800 <= cp <= 0xDBFF) && !(0xDC00 <= cp <= 0xDFFF));
            assert(vstd::utf8::encode_scalar(cp as u32) =~= seq![b0]) by {
                assert(vstd::utf8::has_width_1_encoding(cp as u32));
                assert(vstd::utf8::leading_byte_width_1(cp as u32) == b0) by {
                    let v = cp as u32;
                    assert(v & 0x7F == v) by (bit_vector)
                        requires
                            v < 0x20,
                    ;
                }
            }
            lemma_parse_escaped(s, i + 6, b2, rest, acc + seq![b0]);
            assert(acc + seq![b0] + b2 =~= acc + b);
        } else {
            assert(eb =~= seq![b0]);
            assert(s[i + 0] == eb[0]);
            assert(s[i] == b0);
            assert(s[i] != 0x22 && s[i] != 0x5C && !(s[i] < 0x20));
            lemma_parse_escaped(s, i + 1, b2, rest, acc.push(b0));
            assert(acc.push(b0) + b2 =~= acc + b);
        }
    }
}

/// The parser reads a serialized string literal placed at `i` back to
/// its contents.
pub(crate) proof fn lemma_parse_string_literal(s: Seq<u8>, i: int, b: Seq<u8>, rest: Seq<u8>)
    requires
        0 <= i <= s.len(),
        s.skip(i) == spec_string_literal(b) + rest,
    ensures
        spec_parse_string_rec(s, i + 1, Seq::empty()) == Some(
            (b, i + spec_string_literal(b).len()),
        ),
{
    lemma_skip_shift(s, i, spec_string_literal(b) + rest);
    assert(s.skip(i + 1) =~= spec_escape(b) + seq![0x22u8] + rest) by {
        assert forall|k: int| 0 <= k < s.len() - i - 1 implies s.skip(i + 1)[k] == (spec_escape(b)
            + seq![0x22u8] + rest)[k] by {
            assert(s.skip(i + 1)[k] == s[i + 1 + k]);
            assert(s[i + 1 + k] == (spec_string_literal(b) + rest)[k + 1]);
        }
    }
    lemma_parse_escaped(s, i + 1, b, rest, Seq::empty());
    assert(Seq::empty() + b =~= b);
}


/// The serialization of members read left to right: the first member,
/// then each further member behind its comma.
pub open spec fn spec_ser_members_from(m: SpecMembers) -> Seq<u8> {
    if m.len() == 0 {
        Seq::empty()
    } else {
        spec_string_literal(m[0].0) + seq![0x3Au8] + spec_ser_value(m[0].1)
            + spec_ser_members_tail(m.drop_first())
    }
}

/// The further members, each behind its comma.
pub open spec fn spec_ser_members_tail(m: SpecMembers) -> Seq<u8>
    decreases m.len(),
{
    if m.len() == 0 {
        Seq::empty()
    } else {
        seq![0x2Cu8] + spec_string_literal(m[0].0) + seq![0x3Au8] + spec_ser_value(m[0].1)
            + spec_ser_members_tail(m.drop_first())
    }
}

/// Appending a member appends its comma-led serialization.
proof fn lemma_ser_members_tail_push(m: SpecMembers, x: (Seq<u8>, SpecValue))
    ensures
        spec_ser_members_tail(m.push(x)) == spec_ser_members_tail(m) + seq![0x2Cu8]
            + spec_string_literal(x.0) + seq![0x3Au8] + spec_ser_value(x.1),
    decreases m.len(),
{
    reveal_with_fuel(spec_ser_members_tail, 3);
    if m.len() == 0 {
        assert(m.push(x).drop_first() =~= Seq::<(Seq<u8>, SpecValue)>::empty());
        assert(m.push(x)[0] == x);
        assert(spec_ser_members_tail(m.push(x)) =~= spec_ser_members_tail(m) + seq![0x2Cu8]
            + spec_string_literal(x.0) + seq![0x3Au8] + spec_ser_value(x.1));
    } else {
        assert(m.push(x).drop_first() =~= m.drop_first().push(x));
        assert(m.push(x)[0] == m[0]);
        lemma_ser_members_tail_push(m.drop_first(), x);
        assert(spec_ser_members_tail(m.push(x)) == seq![0x2Cu8] + spec_string_literal(m[0].0)
            + seq![0x3Au8] + spec_ser_value(m[0].1) + spec_ser_members_tail(
            m.drop_first().push(x),
        ));
        assert(spec_ser_members_tail(m) == seq![0x2Cu8] + spec_string_literal(m[0].0)
            + seq![0x3Au8] + spec_ser_value(m[0].1) + spec_ser_members_tail(m.drop_first()));
        assert(spec_ser_members_tail(m.push(x)) =~= spec_ser_members_tail(m) + seq![0x2Cu8]
            + spec_string_literal(x.0) + seq![0x3Au8] + spec_ser_value(x.1));
    }
}

/// The two readings of a member list's serialization agree.
proof fn lemma_ser_members_forward(m: SpecMembers)
    ensures
        spec_ser_members(m) == spec_ser_members_from(m),
    decreases m.len(),
{
    if m.len() == 0 {
        assert(spec_ser_members(m) =~= spec_ser_members_from(m));
    } else if m.len() == 1 {
        assert(m.drop_first() =~= Seq::<(Seq<u8>, SpecValue)>::empty());
        assert(spec_ser_members(m) =~= spec_ser_members_from(m));
    } else {
        lemma_ser_members_forward(m.drop_last());
        assert(m.drop_last()[0] == m[0]);
        assert(m.drop_last().len() >= 1);
        lemma_ser_members_tail_push(m.drop_last().drop_first(), m.last());
        assert(m.drop_last().drop_first().push(m.last()) =~= m.drop_first());
        assert(spec_ser_members(m) =~= spec_ser_members_from(m));
    }
}

/// True when every member's value is a scalar the codec round-trips:
/// not a raw span, and an integer within the wire's signed range.
pub open spec fn scalar_members(m: SpecMembers) -> bool {
    forall|k: int|
        0 <= k < m.len() ==> !((#[trigger] m[k].1) is Raw) && (m[k].1 matches SpecValue::Int(n)
            ==> -0x7FFF_FFFF_FFFF_FFFF <= n <= 0x7FFF_FFFF_FFFF_FFFF)
}

/// The parser reads a serialized scalar value placed at `i` back to
/// the value, stopping exactly where its rendering ends.
proof fn lemma_parse_value_of(s: Seq<u8>, i: int, v: SpecValue, rest: Seq<u8>)
    requires
        0 <= i <= s.len(),
        s.skip(i) == spec_ser_value(v) + rest,
        !(v is Raw),
        v matches SpecValue::Int(n) ==> -0x7FFF_FFFF_FFFF_FFFF <= n <= 0x7FFF_FFFF_FFFF_FFFF,
        rest.len() == 0 || !is_digit(rest[0]),
    ensures
        spec_parse_value(s, i) == Some((v, i + spec_ser_value(v).len())),
{
    lemma_skip_shift(s, i, spec_ser_value(v) + rest);
    match v {
        SpecValue::Null => {
            assert(s[i + 0] == (spec_ser_value(v) + rest)[0]);
            assert(s[i + 1] == (spec_ser_value(v) + rest)[1]);
            assert(s[i + 2] == (spec_ser_value(v) + rest)[2]);
            assert(s[i + 3] == (spec_ser_value(v) + rest)[3]);
            assert(spec_skip_ws(s, i) == i);
        },
        SpecValue::Bool(t) => {
            assert(s[i + 0] == (spec_ser_value(v) + rest)[0]);
            assert(s[i + 1] == (spec_ser_value(v) + rest)[1]);
            assert(s[i + 2] == (spec_ser_value(v) + rest)[2]);
            assert(s[i + 3] == (spec_ser_value(v) + rest)[3]);
            if !t {
                assert(s[i + 4] == (spec_ser_value(v) + rest)[4]);
            }
            assert(spec_skip_ws(s, i) == i);
        },
        SpecValue::Int(n) => {
            if n > 0 {
                lemma_digits_are_digits(n);
            } else if n < 0 {
                lemma_digits_are_digits(-n);
            }
            assert(s[i + 0] == (spec_ser_value(v) + rest)[0]);
            assert(s[i] == spec_int_bytes(n)[0]);
            assert(s[i] == 0x2D || is_digit(s[i]));
            assert(spec_skip_ws(s, i) == i);
            assert(s.skip(i) =~= spec_int_bytes(n) + rest);
            lemma_parse_int_of(s, i, n, rest);
        },
        SpecValue::Str(b) => {
            assert(s[i + 0] == (spec_ser_value(v) + rest)[0]);
            assert(s[i] == 0x22);
            assert(spec_skip_ws(s, i) == i);
            assert(s.skip(i) =~= spec_string_literal(b) + rest);
            lemma_parse_string_literal(s, i, b, rest);
        },
        SpecValue::Raw(_) => {
        },
    }
}

/// The parser reads the members standing at `i` (with their closing
/// brace) back onto what it has, stopping just after the brace.
#[verifier::rlimit(100)]
#[verifier::spinoff_prover]
proof fn lemma_parse_members_of(s: Seq<u8>, i: int, m: SpecMembers, rest: Seq<u8>, acc: SpecMembers)
    requires
        0 <= i <= s.len(),
        s.skip(i) == spec_ser_members_from(m) + seq![0x7Du8] + rest,
        scalar_members(m),
        acc.len() == 0 || m.len() >= 1,
    ensures
        spec_parse_members_rec(s, i, acc) == Some(
            (acc + m, i + spec_ser_members_from(m).len() + 1),
        ),
    decreases m.len(),
{
    lemma_skip_shift(s, i, spec_ser_members_from(m) + seq![0x7Du8] + rest);
    if m.len() == 0 {
        assert(s[i + 0] == (spec_ser_members_from(m) + seq![0x7Du8] + rest)[0]);
        assert(s[i] == 0x7D);
        assert(spec_skip_ws(s, i) == i);
        assert(acc + m =~= acc);
    } else {
        let key = m[0].0;
        let val = m[0].1;
        let lit = spec_string_literal(key);
        let vb = spec_ser_value(val);
        let tail = spec_ser_members_tail(m.drop_first());
        assert(spec_ser_members_from(m) == lit + seq![0x3Au8] + vb + tail);
        assert(s[i + 0] == (spec_ser_members_from(m) + seq![0x7Du8] + rest)[0]);
        assert(s[i] == 0x22);
        assert(spec_skip_ws(s, i) == i);
        // The key reads back.
        assert(s.skip(i) =~= lit + (seq![0x3Au8] + vb + tail + seq![0x7Du8] + rest));
        lemma_parse_string_literal(s, i, key, seq![0x3Au8] + vb + tail + seq![0x7Du8] + rest);
        let k1 = i + lit.len();
        assert(s[i + lit.len()] == (spec_ser_members_from(m) + seq![0x7Du8] + rest)[lit.len() as int]);
        assert(s[k1] == 0x3A);
        assert(spec_skip_ws(s, k1) == k1);
        // The value reads back.
        assert(s.skip(k1 + 1) =~= vb + (tail + seq![0x7Du8] + rest)) by {
            assert forall|t: int| 0 <= t < s.len() - k1 - 1 implies s.skip(k1 + 1)[t] == (vb + (
            tail + seq![0x7Du8] + rest))[t] by {
                assert(s.skip(k1 + 1)[t] == s[k1 + 1 + t]);
                assert(s[k1 + 1 + t] == (spec_ser_members_from(m) + seq![0x7Du8] + rest)[lit.len()
                    + 1 + t]);
            }
        }
        assert((tail + seq![0x7Du8] + rest).len() > 0);
        assert(!is_digit((tail + seq![0x7Du8] + rest)[0])) by {
            if m.drop_first().len() == 0 {
                assert((tail + seq![0x7Du8] + rest)[0] == 0x7D);
            } else {
                assert((tail + seq![0x7Du8] + rest)[0] == 0x2C);
            }
        }
        assert(!(val is Raw) && (val matches SpecValue::Int(n) ==> -0x7FFF_FFFF_FFFF_FFFF <= n
            <= 0x7FFF_FFFF_FFFF_FFFF)) by {
            assert(m[0].1 == val);
        }
        lemma_parse_value_of(s, k1 + 1, val, tail + seq![0x7Du8] + rest);
        let k3 = k1 + 1 + vb.len();
        assert(s[k3] == (spec_ser_members_from(m) + seq![0x7Du8] + rest)[lit.len() + 1
            + vb.len() as int]);
        if m.drop_first().len() == 0 {
            assert(tail =~= Seq::<u8>::empty());
            assert(s[k3] == 0x7D);
            assert(spec_skip_ws(s, k3) == k3);
            assert(acc.push((key, val)) =~= acc + m) by {
                assert(m =~= seq![(key, val)]);
            }
        } else {
            assert(tail == seq![0x2Cu8] + spec_ser_members_from(m.drop_first())) by {
                assert(m.drop_first()[0] == m[1]);
            }
            assert(s[k3] == 0x2C);
            assert(spec_skip_ws(s, k3) == k3);
            assert(s.skip(k3 + 1) =~= spec_ser_members_from(m.drop_first()) + seq![0x7Du8]
                + rest) by {
                assert forall|t: int|
                    0 <= t < s.len() - k3 - 1 implies s.skip(k3 + 1)[t] == (spec_ser_members_from(
                    m.drop_first(),
                ) + seq![0x7Du8] + rest)[t] by {
                    assert(s.skip(k3 + 1)[t] == s[k3 + 1 + t]);
                    assert(s[k3 + 1 + t] == (spec_ser_members_from(m) + seq![0x7Du8]
                        + rest)[lit.len() + 1 + vb.len() + 1 + t]);
                    assert((spec_ser_members_from(m) + seq![0x7Du8] + rest)[lit.len() + 1
                        + vb.len() + 1 + t] == (tail + seq![0x7Du8] + rest)[1 + t]);
                }
            }
            assert(scalar_members(m.drop_first())) by {
                assert(forall|k: int|
                    0 <= k < m.drop_first().len() ==> (#[trigger] m.drop_first()[k]) == m[k
                        + 1]);
            }
            lemma_parse_members_of(s, k3 + 1, m.drop_first(), rest, acc.push((key, val)));
            assert(acc.push((key, val)) + m.drop_first() =~= acc + m);
        }
    }
}

/// The parser reads a serialized object document back to its members.
pub proof fn lemma_object_document_round_trip(m: SpecMembers)
    requires
        scalar_members(m),
    ensures
        spec_object_document(spec_ser_object(m)) == Some(m),
{
    let s = spec_ser_object(m);
    lemma_ser_members_forward(m);
    assert(s == seq![0x7Bu8] + spec_ser_members_from(m) + seq![0x7Du8]);
    assert(s[0] == 0x7B);
    assert(spec_skip_ws(s, 0) == 0);
    assert(s.skip(1) =~= spec_ser_members_from(m) + seq![0x7Du8] + Seq::<u8>::empty()) by {
        assert forall|t: int| 0 <= t < s.len() - 1 implies s.skip(1)[t] == (spec_ser_members_from(
            m,
        ) + seq![0x7Du8] + Seq::<u8>::empty())[t] by {
            assert(s.skip(1)[t] == s[1 + t]);
            assert(s[1 + t] == (seq![0x7Bu8] + spec_ser_members_from(m) + seq![0x7Du8])[1 + t]);
        }
    }
    lemma_parse_members_of(s, 1, m, Seq::empty(), Seq::empty());
    assert(Seq::empty() + m =~= m);
    assert(spec_skip_ws(s, s.len() as int) == s.len());
}

} // verus!
