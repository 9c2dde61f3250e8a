//! CRC-16/ARC: the checksum that guards each telegram frame.
//!
//! The variant is the reflected 16-bit CRC with polynomial 0xA001 (the
//! bit-reversed form of 0x8005), initial value 0 and no final xor. Its
//! reference check value is 0xBB3D over the ASCII bytes of "123456789".

use vstd::prelude::*;

verus! {

/// One shift round: drop the low bit, xor the polynomial in when that bit
/// was set.
pub open spec fn crc_round(c: u16) -> u16 {
    if c & 1 == 1 {
        (c >> 1) ^ 0xA001
    } else {
        c >> 1
    }
}

/// `n` successive shift rounds.
pub open spec fn crc_rounds(c: u16, n: nat) -> u16
    decreases n,
{
    if n == 0 {
        c
    } else {
        crc_rounds(crc_round(c), (n - 1) as nat)
    }
}

/// Folding one byte into the running checksum: xor it into the low byte,
/// then eight shift rounds.
pub open spec fn crc_step(c: u16, b: u8) -> u16 {
    crc_rounds(c ^ (b as u16), 8)
}

/// Folding a whole byte sequence into the running checksum, first byte first.
pub open spec fn crc_fold(c: u16, s: Seq<u8>) -> u16
    decreases s.len(),
{
    if s.len() == 0 {
        c
    } else {
        crc_fold(crc_step(c, s[0]), s.drop_first())
    }
}

/// The CRC-16/ARC checksum of a byte sequence.
pub open spec fn crc16_arc(s: Seq<u8>) -> u16 {
    crc_fold(0, s)
}

/// Folding a concatenation is folding the parts in order.
pub proof fn lemma_crc_fold_concat(c: u16, a: Seq<u8>, b: Seq<u8>)
    ensures
        crc_fold(c, a + b) == crc_fold(crc_fold(c, a), b),
    decreases a.len(),
{
    if a.len() == 0 {
        assert(a + b =~= b);
    } else {
        assert((a + b).drop_first() =~= a.drop_first() + b);
        lemma_crc_fold_concat(crc_step(c, a[0]), a.drop_first(), b);
    }
}

/// Folding one more byte extends the fold by one step.
pub proof fn lemma_crc_fold_push(c: u16, s: Seq<u8>, b: u8)
    ensures
        crc_fold(c, s.push(b)) == crc_step(crc_fold(c, s), b),
{
    assert(s.push(b) =~= s + seq![b]);
    lemma_crc_fold_concat(c, s, seq![b]);
    let t = crc_fold(c, s);
    assert(crc_fold(t, seq![b]) == crc_fold(crc_step(t, b), seq![b].drop_first()));
    assert(seq![b].drop_first() =~= Seq::<u8>::empty());
    assert(crc_fold(crc_step(t, b), Seq::<u8>::empty()) == crc_step(t, b));
}

/// Running CRC-16/ARC accumulator.
pub struct Crc16 {
    state: u16,
}

impl View for Crc16 {
    type V = u16;

    closed spec fn view(&self) -> u16 {
        self.state
    }
}

impl Crc16 {
    /// A fresh accumulator, at the initial value 0.
    pub fn new() -> (r: Self)
        ensures
            r@ == 0u16,
    {
        Crc16 { state: 0 }
    }

    /// Folds `data` into the running checksum.
    #[verifier::loop_isolation(false)]
    pub fn update(&mut self, data: &[u8])
        ensures
            final(self)@ == crc_fold(old(self)@, data@),
    {
        let mut i: usize = 0;
        while i < data.len()
            invariant
                i <= data.len(),
                self@ == crc_fold(old(self)@, data@.take(i as int)),
            decreases data.len() - i,
        {
            let b = data[i];
            let ghost pre = self.state;
            let mut c: u16 = self.state ^ (b as u16);
            let ghost c0 = c;
            let mut k: usize = 0;
            while k < 8
                invariant
                    k <= 8,
                    c == crc_rounds(c0, k as nat),
                decreases 8 - k,
            {
                proof {
                    lemma_crc_rounds_unfold(c0, k as nat);
                }
                if c & 1 == 1 {
                    c = (c >> 1) ^ 0xA001;
                } else {
                    c = c >> 1;
                }
                k = k + 1;
            }
            self.state = c;
            proof {
                assert(self@ == crc_step(pre, b));
                lemma_crc_fold_push(old(self)@, data@.take(i as int), b);
                assert(data@.take(i as int).push(b) =~= data@.take(i + 1 as int));
            }
            i = i + 1;
        }
        proof {
            assert(data@.take(data@.len() as int) =~= data@);
        }
    }

    /// The checksum of everything folded in so far.
    pub fn get(&self) -> (r: u16)
        ensures
            r == self@,
    {
        self.state
    }
}

/// One more round on top of `n` rounds is `n + 1` rounds.
proof fn lemma_crc_rounds_unfold(c: u16, n: nat)
    ensures
        crc_rounds(c, n + 1) == crc_round(crc_rounds(c, n)),
    decreases n,
{
    assert(crc_rounds(c, n + 1) == crc_rounds(crc_round(c), n));
    if n == 0 {
        assert(crc_rounds(crc_round(c), 0) == crc_round(c));
        assert(crc_rounds(c, 0) == c);
    } else {
        lemma_crc_rounds_unfold(crc_round(c), (n - 1) as nat);
        assert(crc_rounds(c, n) == crc_rounds(crc_round(c), (n - 1) as nat));
    }
}

/// The ASCII code of `n`'s uppercase hexadecimal digit, for `n < 16`.
pub open spec fn hex_digit(n: u8) -> u8 {
    if n < 10 {
        (n + 48) as u8
    } else {
        (n + 55) as u8
    }
}

/// The four uppercase hexadecimal digits of `c`, most significant first:
/// the form in which the frame terminator carries the checksum.
pub open spec fn hex4(c: u16) -> Seq<u8> {
    seq![
        hex_digit(((c >> 12) & 0xF) as u8),
        hex_digit(((c >> 8) & 0xF) as u8),
        hex_digit(((c >> 4) & 0xF) as u8),
        hex_digit((c & 0xF) as u8),
    ]
}

fn hex_digit_byte(n: u8) -> (r: u8)
    requires
        n < 16,
    ensures
        r == hex_digit(n),
{
    if n < 10 {
        n + 48
    } else {
        n + 55
    }
}

/// Formats `c` as its four uppercase hexadecimal digits.
pub fn hex4_bytes(c: u16) -> (r: Vec<u8>)
    ensures
        r@ == hex4(c),
{
    assert((c >> 12) & 0xF < 16 && (c >> 8) & 0xF < 16 && (c >> 4) & 0xF < 16 && c & 0xF < 16)
        by (bit_vector);
    let mut r: Vec<u8> = Vec::new();
    r.push(hex_digit_byte(((c >> 12) & 0xF) as u8));
    r.push(hex_digit_byte(((c >> 8) & 0xF) as u8));
    r.push(hex_digit_byte(((c >> 4) & 0xF) as u8));
    r.push(hex_digit_byte((c & 0xF) as u8));
    proof {
        assert(r@ =~= hex4(c));
    }
    r
}

} // verus!
