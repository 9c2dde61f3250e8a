//! Byte-level building blocks of the decoder: decimal digit strings,
//! hexadecimal payloads, whitespace trimming and UTF-8 conversion.
//!
//! The wire is a text protocol, so everything here works on the raw bytes
//! of one line.

use vstd::prelude::*;
use vstd::slice::slice_subrange;
use vstd::utf8::decode_utf8;
use vstd::utf8::valid_utf8;

use crate::error::DecodeError;
use crate::error::ErrorModel;

verus! {

/// ASCII decimal digit.
pub open spec fn is_dec_digit(b: u8) -> bool {
    48 <= b <= 57
}

/// A non-empty run of ASCII decimal digits.
pub open spec fn is_dec_digits(s: Seq<u8>) -> bool {
    s.len() > 0 && forall|i: int| 0 <= i < s.len() ==> is_dec_digit(#[trigger] s[i])
}

/// The numeric value of a digit string, most significant digit first.
pub open spec fn dec_value(s: Seq<u8>) -> nat
    decreases s.len(),
{
    if s.len() == 0 {
        0
    } else {
        dec_value(s.drop_last()) * 10 + (s.last() - 48) as nat
    }
}

/// The value of a digit string is at least the value of any of its prefixes.
pub proof fn lemma_dec_value_prefix(s: Seq<u8>, i: int)
    requires
        0 <= i <= s.len(),
    ensures
        dec_value(s.take(i)) <= dec_value(s),
    decreases s.len() - i,
{
    if i < s.len() {
        assert(s.take(i + 1).drop_last() =~= s.take(i));
        assert(s.take(i + 1).last() == s[i]);
        assert(dec_value(s.take(i + 1)) == dec_value(s.take(i)) * 10 + (s[i] - 48) as nat);
        lemma_dec_value_prefix(s, i + 1);
    } else {
        assert(s.take(i) =~= s);
    }
}

/// Parses a run of decimal digits as a `u64`, rejecting empty input,
/// non-digits and overflow.
pub fn parse_u64(s: &[u8]) -> (r: Option<u64>)
    ensures
        r is Some <==> is_dec_digits(s@) && dec_value(s@) <= u64::MAX,
        r is Some ==> r == Some(dec_value(s@) as u64),
{
    if s.len() == 0 {
        return None;
    }
    let mut acc: u64 = 0;
    let mut i: usize = 0;
    while i < s.len()
        invariant
            0 <= i <= s@.len(),
            forall|j: int| 0 <= j < i ==> is_dec_digit(#[trigger] s@[j]),
            acc == dec_value(s@.take(i as int)),
        decreases s@.len() - i,
    {
        let b = s[i];
        if b < 48 || b > 57 {
            return None;
        }
        let d: u64 = (b - 48) as u64;
        proof {
            assert(s@.take(i + 1).drop_last() =~= s@.take(i as int));
            assert(s@.take(i + 1).last() == s@[i as int]);
        }
        if acc > (u64::MAX - d) / 10 {
            proof {
                assert(acc * 10 + d > u64::MAX) by (nonlinear_arith)
                    requires
                        acc > (u64::MAX - d) / 10,
                        d <= 9,
                ;
                assert(dec_value(s@.take(i + 1)) > u64::MAX);
                lemma_dec_value_prefix(s@, i + 1);
            }
            return None;
        }
        proof {
            assert(acc * 10 + d <= u64::MAX) by (nonlinear_arith)
                requires
                    acc <= (u64::MAX - d) / 10,
                    d <= 9,
            ;
        }
        acc = acc * 10 + d;
        i = i + 1;
    }
    proof {
        assert(s@.take(s@.len() as int) =~= s@);
    }
    Some(acc)
}

/// The views of a sequence of byte vectors.
pub open spec fn byte_views(v: Seq<Vec<u8>>) -> Seq<Seq<u8>> {
    Seq::new(v.len(), |i: int| v[i]@)
}

/// The index of the first occurrence of `b` in `s`, if any.
pub open spec fn find_first(s: Seq<u8>, b: u8) -> Option<int>
    decreases s.len(),
{
    if s.len() == 0 {
        None
    } else if s[0] == b {
        Some(0)
    } else {
        match find_first(s.drop_first(), b) {
            Some(i) => Some(i + 1),
            None => None,
        }
    }
}

/// `find_first` returns the first occurrence: the byte is there, and none
/// before it.
pub proof fn lemma_find_first(s: Seq<u8>, b: u8)
    ensures
        match find_first(s, b) {
            Some(i) => 0 <= i < s.len() && s[i] == b && forall|j: int|
                0 <= j < i ==> s[j] != b,
            None => forall|j: int| 0 <= j < s.len() ==> s[j] != b,
        },
    decreases s.len(),
{
    if s.len() > 0 && s[0] != b {
        lemma_find_first(s.drop_first(), b);
        assert(forall|j: int| 1 <= j < s.len() ==> s[j] == s.drop_first()[j - 1]);
    }
}

/// Finds the first occurrence of `b` in `s`.
pub fn find_byte(s: &[u8], b: u8) -> (r: Option<usize>)
    ensures
        match r {
            Some(i) => find_first(s@, b) == Some(i as int),
            None => find_first(s@, b) is None,
        },
{
    let mut i: usize = 0;
    while i < s.len()
        invariant
            0 <= i <= s@.len(),
            forall|j: int| 0 <= j < i ==> s@[j] != b,
        decreases s@.len() - i,
    {
        if s[i] == b {
            proof {
                lemma_find_first(s@, b);
            }
            return Some(i);
        }
        i = i + 1;
    }
    proof {
        lemma_find_first(s@, b);
    }
    None
}

/// ASCII whitespace, as line terminators and padding carry it.
pub open spec fn is_ws(b: u8) -> bool {
    b == 32 || b == 9 || b == 10 || b == 11 || b == 12 || b == 13
}

/// The byte string with its trailing whitespace removed.
pub open spec fn trim_end_ws(s: Seq<u8>) -> Seq<u8>
    decreases s.len(),
{
    if s.len() > 0 && is_ws(s.last()) {
        trim_end_ws(s.drop_last())
    } else {
        s
    }
}

fn is_ws_byte(b: u8) -> (r: bool)
    ensures
        r == is_ws(b),
{
    b == 32 || b == 9 || b == 10 || b == 11 || b == 12 || b == 13
}

/// Removes trailing ASCII whitespace.
pub fn trim_end<'a>(s: &'a [u8]) -> (r: &'a [u8])
    ensures
        r@ == trim_end_ws(s@),
{
    let mut end: usize = s.len();
    proof {
        assert(s@.take(end as int) =~= s@);
    }
    while end > 0 && is_ws_byte(s[end - 1])
        invariant
            0 <= end <= s@.len(),
            trim_end_ws(s@) == trim_end_ws(s@.take(end as int)),
        decreases end,
    {
        proof {
            assert(s@.take(end as int).drop_last() =~= s@.take(end - 1));
            assert(s@.take(end as int).last() == s@[end - 1]);
        }
        end = end - 1;
    }
    proof {
        if end > 0 {
            assert(s@.take(end as int).last() == s@[end - 1]);
        }
        assert(trim_end_ws(s@.take(end as int)) == s@.take(end as int));
    }
    slice_subrange(s, 0, end)
}

/// The byte string with every leading `b` removed.
pub open spec fn strip_leading(s: Seq<u8>, b: u8) -> Seq<u8>
    decreases s.len(),
{
    if s.len() > 0 && s[0] == b {
        strip_leading(s.drop_first(), b)
    } else {
        s
    }
}

/// The byte string with every trailing `b` removed.
pub open spec fn strip_trailing(s: Seq<u8>, b: u8) -> Seq<u8>
    decreases s.len(),
{
    if s.len() > 0 && s.last() == b {
        strip_trailing(s.drop_last(), b)
    } else {
        s
    }
}

/// Removes every leading `b`, then every trailing `b`.
pub fn strip_ends<'a>(s: &'a [u8], lead: u8, trail: u8) -> (r: &'a [u8])
    ensures
        r@ == strip_trailing(strip_leading(s@, lead), trail),
{
    let mut start: usize = 0;
    proof {
        assert(s@.skip(0) =~= s@);
    }
    while start < s.len() && s[start] == lead
        invariant
            0 <= start <= s@.len(),
            strip_leading(s@, lead) == strip_leading(s@.skip(start as int), lead),
        decreases s@.len() - start,
    {
        proof {
            assert(s@.skip(start as int).drop_first() =~= s@.skip(start + 1));
            assert(s@.skip(start as int)[0] == s@[start as int]);
        }
        start = start + 1;
    }
    proof {
        if start < s@.len() {
            assert(s@.skip(start as int)[0] == s@[start as int]);
        }
        assert(strip_leading(s@.skip(start as int), lead) == s@.skip(start as int));
    }
    let mut end: usize = s.len();
    while end > start && s[end - 1] == trail
        invariant
            start <= end <= s@.len(),
            strip_leading(s@, lead) == s@.skip(start as int),
            strip_trailing(s@.skip(start as int), trail) == strip_trailing(
                s@.subrange(start as int, end as int),
                trail,
            ),
        decreases end,
    {
        proof {
            assert(s@.subrange(start as int, end as int).drop_last() =~= s@.subrange(
                start as int,
                end - 1,
            ));
            assert(s@.subrange(start as int, end as int).last() == s@[end - 1]);
        }
        end = end - 1;
    }
    proof {
        if end > start {
            assert(s@.subrange(start as int, end as int).last() == s@[end - 1]);
        }
        assert(strip_trailing(s@.subrange(start as int, end as int), trail) == s@.subrange(
            start as int,
            end as int,
        ));
    }
    slice_subrange(s, start, end)
}

/// ASCII hexadecimal digit, either case.
pub open spec fn is_hex_digit(b: u8) -> bool {
    48 <= b <= 57 || 65 <= b <= 70 || 97 <= b <= 102
}

/// The value of one hexadecimal digit.
pub open spec fn hex_val(b: u8) -> nat {
    if 48 <= b <= 57 {
        (b - 48) as nat
    } else if 65 <= b <= 70 {
        (b - 55) as nat
    } else {
        (b - 87) as nat
    }
}

/// Every byte is a hexadecimal digit.
pub open spec fn all_hex_digits(s: Seq<u8>) -> bool {
    forall|i: int| 0 <= i < s.len() ==> is_hex_digit(#[trigger] s[i])
}

/// The bytes encoded by a hexadecimal string, two digits per byte.
pub open spec fn hex_decode(s: Seq<u8>) -> Seq<u8>
    decreases s.len(),
{
    if s.len() < 2 {
        Seq::empty()
    } else {
        seq![(hex_val(s[0]) * 16 + hex_val(s[1])) as u8] + hex_decode(s.skip(2))
    }
}

/// Decodes a hexadecimal payload to its bytes: the length must be even and
/// every byte a hexadecimal digit, each failure with its own error.
pub fn hex_decode_bytes(s: &[u8]) -> (r: Result<Vec<u8>, DecodeError>)
    ensures
        r is Ok <==> s@.len() % 2 == 0 && all_hex_digits(s@),
        r matches Ok(v) ==> v@ == hex_decode(s@),
        s@.len() % 2 != 0 ==> (r matches Err(e) && e.deep_view() == (ErrorModel::OddHexLength {
            text: s@,
        })),
        s@.len() % 2 == 0 && !all_hex_digits(s@) ==> (r matches Err(e) && e.deep_view() == (
        ErrorModel::BadHexDigit { text: s@ })),
{
    if s.len() % 2 != 0 {
        return Err(DecodeError::OddHexLength { text: slice_to_vec(s) });
    }
    let mut out: Vec<u8> = Vec::new();
    let mut i: usize = 0;
    while i < s.len()
        invariant
            0 <= i <= s@.len(),
            i % 2 == 0,
            s@.len() % 2 == 0,
            forall|j: int| 0 <= j < i ==> is_hex_digit(#[trigger] s@[j]),
            out@ == hex_decode(s@.take(i as int)),
        decreases s@.len() - i,
    {
        let hi = s[i];
        let lo = s[i + 1];
        if !is_hex_digit_byte(hi) || !is_hex_digit_byte(lo) {
            return Err(DecodeError::BadHexDigit { text: slice_to_vec(s) });
        }
        let b: u8 = hex_val_byte(hi) * 16 + hex_val_byte(lo);
        out.push(b);
        proof {
            lemma_hex_decode_take_two(s@, i as int);
        }
        i = i + 2;
    }
    proof {
        assert(s@.take(s@.len() as int) =~= s@);
    }
    Ok(out)
}

/// Decoding two more digits appends one byte.
proof fn lemma_hex_decode_take_two(s: Seq<u8>, i: int)
    requires
        0 <= i,
        i % 2 == 0,
        i + 2 <= s.len(),
    ensures
        hex_decode(s.take(i + 2)) == hex_decode(s.take(i)).push(
            (hex_val(s[i]) * 16 + hex_val(s[i + 1])) as u8,
        ),
    decreases i,
{
    if i == 0 {
        assert(s.take(2).skip(2) =~= s.take(0));
        assert(hex_decode(s.take(0)) =~= Seq::<u8>::empty());
        assert(s.take(2)[0] == s[0] && s.take(2)[1] == s[1]);
        assert(hex_decode(s.take(2)) =~= hex_decode(s.take(0)).push(
            (hex_val(s[0]) * 16 + hex_val(s[1])) as u8,
        ));
    } else {
        lemma_hex_decode_take_two(s.skip(2), i - 2);
        let b0 = (hex_val(s[0]) * 16 + hex_val(s[1])) as u8;
        let bi = (hex_val(s[i]) * 16 + hex_val(s[i + 1])) as u8;
        assert(s.take(i + 2).skip(2) =~= s.skip(2).take(i));
        assert(s.take(i).skip(2) =~= s.skip(2).take(i - 2));
        assert(s.take(i + 2)[0] == s[0] && s.take(i + 2)[1] == s[1]);
        assert(s.take(i)[0] == s[0] && s.take(i)[1] == s[1]);
        assert(s.skip(2)[i - 2] == s[i] && s.skip(2)[i - 1] == s[i + 1]);
        assert(hex_decode(s.take(i + 2)) == seq![b0] + hex_decode(s.skip(2).take(i)));
        assert(hex_decode(s.take(i)) == seq![b0] + hex_decode(s.skip(2).take(i - 2)));
        assert(seq![b0] + hex_decode(s.skip(2).take(i - 2)).push(bi) =~= (seq![b0] + hex_decode(
            s.skip(2).take(i - 2),
        )).push(bi));
    }
}

fn is_hex_digit_byte(b: u8) -> (r: bool)
    ensures
        r == is_hex_digit(b),
{
    48 <= b && b <= 57 || 65 <= b && b <= 70 || 97 <= b && b <= 102
}

fn hex_val_byte(b: u8) -> (r: u8)
    requires
        is_hex_digit(b),
    ensures
        r == hex_val(b),
        r < 16,
{
    if 48 <= b && b <= 57 {
        b - 48
    } else if 65 <= b && b <= 70 {
        b - 55
    } else {
        b - 87
    }
}

/// Copies a byte slice into an owned vector.
pub fn slice_to_vec(s: &[u8]) -> (r: Vec<u8>)
    ensures
        r@ == s@,
{
    let mut out: Vec<u8> = Vec::new();
    let mut i: usize = 0;
    while i < s.len()
        invariant
            0 <= i <= s@.len(),
            out@ == s@.take(i as int),
        decreases s@.len() - i,
    {
        out.push(s[i]);
        proof {
            assert(s@.take(i + 1) =~= s@.take(i as int).push(s@[i as int]));
        }
        i = i + 1;
    }
    proof {
        assert(s@.take(s@.len() as int) =~= s@);
    }
    out
}

/// Whether two byte strings are equal.
pub fn bytes_eq(a: &[u8], b: &[u8]) -> (r: bool)
    ensures
        r == (a@ == b@),
{
    if a.len() != b.len() {
        return false;
    }
    let mut i: usize = 0;
    while i < a.len()
        invariant
            0 <= i <= a@.len(),
            a@.len() == b@.len(),
            forall|j: int| 0 <= j < i ==> a@[j] == b@[j],
        decreases a@.len() - i,
    {
        if a[i] != b[i] {
            return false;
        }
        i = i + 1;
    }
    proof {
        assert(a@ =~= b@);
    }
    true
}

/// Relies on `String::from_utf8`: it returns `Ok` exactly when the bytes are
/// valid UTF-8, and the returned string is their decoding.
#[verifier::external_body]
pub(crate) fn utf8_string(bytes: Vec<u8>) -> (r: Option<String>)
    ensures
        r is Some <==> valid_utf8(bytes@),
        r matches Some(s) ==> s@ == decode_utf8(bytes@),
{
    String::from_utf8(bytes).ok()
}

} // verus!
