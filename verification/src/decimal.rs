//! Decimal numbers, kept exactly as the wire carries them.
//!
//! A measurement value on the wire is a digit string with an optional
//! fractional part, such as "006024.008". The library keeps it exact as an
//! integer mantissa and a decimal scale: the value is `mantissa / 10^scale`,
//! here 6024008 over three decimal places.

use vstd::prelude::*;

use crate::error::DecodeError;
use crate::error::ErrorModel;
use crate::text::dec_value;
use crate::text::find_byte;
use crate::text::find_first;
use crate::text::is_dec_digits;
use crate::text::lemma_find_first;
use crate::text::parse_u64;
use crate::text::slice_to_vec;

verus! {

/// An unsigned decimal number `mantissa / 10^scale`.
#[derive(Debug, Clone, Copy, PartialEq, Eq, Structural)]
pub struct Decimal {
    /// All digits of the number, the dot removed.
    pub mantissa: u64,
    /// How many of the mantissa's trailing digits are fractional.
    pub scale: u32,
}

/// The integer and fractional digit parts of a decimal literal, split at the
/// first dot. Without a dot the fractional part is empty.
pub open spec fn decimal_parts(s: Seq<u8>) -> (Seq<u8>, Seq<u8>) {
    match find_first(s, 46) {
        Some(i) => (s.take(i), s.skip(i + 1)),
        None => (s, Seq::<u8>::empty()),
    }
}

/// A well-formed decimal literal whose value the library can hold: a
/// non-empty run of digits, optionally a dot and one more non-empty run,
/// with the combined digits fitting a `u64` mantissa.
pub open spec fn decimal_ok(s: Seq<u8>) -> bool {
    let (ip, fp) = decimal_parts(s);
    &&& is_dec_digits(ip)
    &&& (find_first(s, 46) is Some ==> is_dec_digits(fp))
    &&& dec_value(ip + fp) <= u64::MAX
    &&& fp.len() <= u32::MAX
}

/// The decimal a well-formed literal denotes.
pub open spec fn decimal_of(s: Seq<u8>) -> Decimal {
    let (ip, fp) = decimal_parts(s);
    Decimal { mantissa: dec_value(ip + fp) as u64, scale: fp.len() as u32 }
}

/// Parses a decimal literal; anything not of the form digits or
/// digits-dot-digits, or too large to hold, is a [`DecodeError::BadNumber`].
pub fn parse_decimal(s: &[u8]) -> (r: Result<Decimal, DecodeError>)
    ensures
        r is Ok <==> decimal_ok(s@),
        r matches Ok(d) ==> d == decimal_of(s@),
        r matches Err(e) ==> e.deep_view() == (ErrorModel::BadNumber { text: s@ }),
{
    match find_byte(s, 46) {
        None => {
            proof {
                assert(s@ + Seq::<u8>::empty() =~= s@);
            }
            match parse_u64(s) {
                Some(v) => Ok(Decimal { mantissa: v, scale: 0 }),
                None => Err(DecodeError::BadNumber { text: slice_to_vec(s) }),
            }
        },
        Some(i) => {
            let n = s.len();
            proof {
                lemma_find_first(s@, 46);
                assert(i < n);
            }
            let ip = vstd::slice::slice_subrange(s, 0, i);
            let fp = vstd::slice::slice_subrange(s, i + 1, n);
            if fp.len() > (u32::MAX as usize) {
                return Err(DecodeError::BadNumber { text: slice_to_vec(s) });
            }
            let mut buf = slice_to_vec(ip);
            let mut j: usize = 0;
            while j < fp.len()
                invariant
                    0 <= j <= fp@.len(),
                    buf@ == ip@ + fp@.take(j as int),
                decreases fp@.len() - j,
            {
                buf.push(fp[j]);
                proof {
                    assert(ip@ + fp@.take(j + 1) =~= (ip@ + fp@.take(j as int)).push(
                        fp@[j as int],
                    ));
                }
                j = j + 1;
            }
            proof {
                assert(ip@ + fp@.take(fp@.len() as int) =~= ip@ + fp@);
            }
            if ip.len() == 0 || fp.len() == 0 {
                return Err(DecodeError::BadNumber { text: slice_to_vec(s) });
            }
            match parse_u64(buf.as_slice()) {
                Some(v) => {
                    proof {
                        lemma_digits_split(ip@, fp@);
                    }
                    Ok(Decimal { mantissa: v, scale: fp.len() as u32 })
                },
                None => {
                    proof {
                        lemma_digits_split(ip@, fp@);
                    }
                    Err(DecodeError::BadNumber { text: slice_to_vec(s) })
                },
            }
        },
    }
}

/// Two non-empty digit runs concatenate to a digit run, and conversely.
proof fn lemma_digits_split(a: Seq<u8>, b: Seq<u8>)
    requires
        a.len() > 0,
        b.len() > 0,
    ensures
        is_dec_digits(a + b) <==> is_dec_digits(a) && is_dec_digits(b),
{
    if is_dec_digits(a + b) {
        assert(forall|i: int| 0 <= i < a.len() ==> a[i] == (a + b)[i]);
        assert(forall|i: int| 0 <= i < b.len() ==> b[i] == (a + b)[a.len() + i]);
    }
    if is_dec_digits(a) && is_dec_digits(b) {
        assert(forall|i: int|
            0 <= i < (a + b).len() ==> {
                if i < a.len() {
                    (a + b)[i] == a[i]
                } else {
                    (a + b)[i] == b[i - a.len()]
                }
            });
    }
}

} // verus!
