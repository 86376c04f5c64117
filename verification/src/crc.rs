//! CRC-16 over the frame bytes: CCITT polynomial 0x1021, most significant
//! bit first, initial value zero.  Besides the checksum itself, this module
//! proves the property the framing layer relies on: flipping a single bit
//! of a byte sequence always changes its CRC, so a one-bit corruption can
//! never pass validation.

use vstd::prelude::*;

verus! {

/// One shift-register step: shift left, and fold in the polynomial when the
/// outgoing high bit differs from the incoming message bit (`b` is 0 or 1).
pub open spec fn crc_step(c: u16, b: u16) -> u16 {
    ((c << 1) ^ (((((c >> 15) ^ b) & 1) * 0x1021) as u16)) as u16
}

/// Message bit `j` of byte `x`, most significant bit first, as 0 or 1.
pub open spec fn bit_of(x: u8, j: int) -> u16 {
    (((x as u16) >> ((7 - j) as u16)) & 1) as u16
}

/// The register after feeding bits `j..8` of byte `x`, starting from `c`.
pub open spec fn crc_bits(c: u16, x: u8, j: int) -> u16
    decreases 8 - j,
{
    if j >= 8 {
        c
    } else {
        crc_bits(crc_step(c, bit_of(x, j)), x, j + 1)
    }
}

/// The register after feeding all eight bits of byte `x`, starting from `c`.
pub open spec fn crc_byte(c: u16, x: u8) -> u16 {
    crc_bits(c, x, 0)
}

/// The register after feeding every byte of `s`, starting from `c`.
pub open spec fn crc_seq(c: u16, s: Seq<u8>) -> u16
    decreases s.len(),
{
    if s.len() == 0 {
        c
    } else {
        crc_byte(crc_seq(c, s.drop_last()), s.last())
    }
}

/// The CRC-16 of a byte sequence.
pub open spec fn crc16_spec(s: Seq<u8>) -> u16 {
    crc_seq(0, s)
}

/// Computes the CRC-16 of a byte slice.
pub fn crc16(data: &[u8]) -> (r: u16)
    ensures
        r == crc16_spec(data@),
{
    let mut c: u16 = 0;
    let mut i: usize = 0;
    while i < data.len()
        invariant
            i <= data@.len(),
            c == crc_seq(0, data@.take(i as int)),
        decreases data@.len() - i,
    {
        let x: u8 = data[i];
        let ghost c0 = c;
        let mut k: usize = 0;
        while k < 8
            invariant
                k <= 8,
                crc_bits(c, x, k as int) == crc_byte(c0, x),
            decreases 8 - k,
        {
            let sh: u16 = (7 - k) as u16;
            let b: u16 = ((x as u16) >> sh) & 1;
            assert(b == bit_of(x, k as int));
            let sel: u16 = ((c >> 15) ^ b) & 1;
            proof {
                assert(sel <= 1) by (bit_vector)
                    requires
                        sel == ((c >> 15) ^ b) & 1,
                ;
            }
            c = (c << 1) ^ (sel * 0x1021);
            k = k + 1;
        }
        proof {
            assert(c == crc_byte(c0, x));
            assert(data@.take(i + 1).drop_last() =~= data@.take(i as int));
            assert(data@.take(i + 1).last() == x);
        }
        i = i + 1;
    }
    proof {
        assert(data@.take(data@.len() as int) =~= data@);
    }
    c
}

/// Feeding a concatenation is feeding one part after the other.
pub proof fn lemma_crc_seq_concat(c: u16, a: Seq<u8>, b: Seq<u8>)
    ensures
        crc_seq(c, a + b) == crc_seq(crc_seq(c, a), b),
    decreases b.len(),
{
    if b.len() == 0 {
        assert(a + b =~= a);
    } else {
        lemma_crc_seq_concat(c, a, b.drop_last());
        assert((a + b).drop_last() =~= a + b.drop_last());
        assert((a + b).last() == b.last());
    }
}

/// Pointwise exclusive or of two byte sequences of equal length.
pub open spec fn xor_seq(s1: Seq<u8>, s2: Seq<u8>) -> Seq<u8> {
    Seq::new(s1.len(), |i: int| (s1[i] ^ s2[i]) as u8)
}

proof fn lemma_step_linear(c1: u16, c2: u16, b1: u16, b2: u16)
    ensures
        crc_step((c1 ^ c2) as u16, (b1 ^ b2) as u16) == (crc_step(c1, b1) ^ crc_step(c2, b2)),
{
    assert((((c1 ^ c2) << 1) ^ ((((((c1 ^ c2) >> 15) ^ (b1 ^ b2)) & 1) * 0x1021) as u16)) == (((c1
        << 1) ^ (((((c1 >> 15) ^ b1) & 1) * 0x1021) as u16)) ^ ((c2 << 1) ^ (((((c2 >> 15) ^ b2)
        & 1) * 0x1021) as u16)))) by (bit_vector);
}

proof fn lemma_bit_of_xor(x1: u8, x2: u8, j: int)
    requires
        0 <= j < 8,
    ensures
        bit_of((x1 ^ x2) as u8, j) == (bit_of(x1, j) ^ bit_of(x2, j)),
{
    let sh: u16 = (7 - j) as u16;
    assert(((((x1 ^ x2) as u16) >> sh) & 1) == ((((x1 as u16) >> sh) & 1) ^ (((x2 as u16) >> sh)
        & 1))) by (bit_vector)
        requires
            sh <= 7,
    ;
}

proof fn lemma_bits_linear(c1: u16, c2: u16, x1: u8, x2: u8, j: int)
    requires
        0 <= j <= 8,
    ensures
        crc_bits((c1 ^ c2) as u16, (x1 ^ x2) as u8, j) == (crc_bits(c1, x1, j) ^ crc_bits(
            c2,
            x2,
            j,
        )),
    decreases 8 - j,
{
    if j < 8 {
        lemma_bit_of_xor(x1, x2, j);
        lemma_step_linear(c1, c2, bit_of(x1, j), bit_of(x2, j));
        lemma_bits_linear(crc_step(c1, bit_of(x1, j)), crc_step(c2, bit_of(x2, j)), x1, x2, j + 1);
    }
}

proof fn lemma_seq_linear(c1: u16, c2: u16, s1: Seq<u8>, s2: Seq<u8>)
    requires
        s1.len() == s2.len(),
    ensures
        crc_seq((c1 ^ c2) as u16, xor_seq(s1, s2)) == (crc_seq(c1, s1) ^ crc_seq(c2, s2)),
    decreases s1.len(),
{
    if s1.len() == 0 {
    } else {
        assert(xor_seq(s1, s2).drop_last() =~= xor_seq(s1.drop_last(), s2.drop_last()));
        lemma_seq_linear(c1, c2, s1.drop_last(), s2.drop_last());
        lemma_bits_linear(crc_seq(c1, s1.drop_last()), crc_seq(c2, s2.drop_last()), s1.last(),
            s2.last(), 0);
    }
}

proof fn lemma_step_zero_bit_keeps(c: u16)
    ensures
        c == 0 ==> crc_step(c, 0) == 0,
        c != 0 ==> crc_step(c, 0) != 0,
{
    assert(((0u16 << 1) ^ ((((0u16 >> 15) ^ 0) & 1) * 0x1021) as u16) == 0) by (bit_vector);
    assert(c != 0 ==> ((c << 1) ^ (((((c >> 15) ^ 0) & 1) * 0x1021) as u16)) != 0)
        by (bit_vector);
}

proof fn lemma_bits_zero_run_from_zero(x: u8, j: int, m: int)
    requires
        0 <= j <= m <= 8,
        forall|p: int| j <= p < m ==> bit_of(x, p) == 0,
    ensures
        crc_bits(0, x, j) == crc_bits(0, x, m),
    decreases m - j,
{
    if j < m {
        lemma_step_zero_bit_keeps(0);
        assert(crc_step(0, bit_of(x, j)) == 0);
        lemma_bits_zero_run_from_zero(x, j + 1, m);
    }
}

proof fn lemma_bits_zero_run_nonzero(c: u16, x: u8, j: int)
    requires
        c != 0,
        0 <= j <= 8,
        forall|p: int| j <= p < 8 ==> bit_of(x, p) == 0,
    ensures
        crc_bits(c, x, j) != 0,
    decreases 8 - j,
{
    if j < 8 {
        lemma_step_zero_bit_keeps(c);
        assert(crc_step(c, bit_of(x, j)) != 0);
        lemma_bits_zero_run_nonzero(crc_step(c, bit_of(x, j)), x, j + 1);
    }
}

proof fn lemma_bit_of_single(k: u16, j: int)
    requires
        k < 8,
        0 <= j < 8,
    ensures
        bit_of((1u8 << k) as u8, j) == (if j == 7 - k { 1u16 } else { 0u16 }),
{
    let sh: u16 = (7 - j) as u16;
    assert(((((1u8 << k) as u16) >> sh) & 1) == (if sh == k {
        1u16
    } else {
        0u16
    })) by (bit_vector)
        requires
            k < 8 && sh <= 7,
    ;
}

/// Feeding a byte with exactly one set bit into a zero register leaves a
/// nonzero register.
proof fn lemma_byte_single_nonzero(k: u16)
    requires
        k < 8,
    ensures
        crc_byte(0, (1u8 << k) as u8) != 0,
{
    let x: u8 = (1u8 << k) as u8;
    let j = 7 - k as int;
    assert forall|p: int| 0 <= p < j implies bit_of(x, p) == 0 by {
        lemma_bit_of_single(k, p);
    }
    lemma_bits_zero_run_from_zero(x, 0, j);
    assert(bit_of(x, j) == 1) by {
        lemma_bit_of_single(k, j);
    }
    assert(crc_step(0, 1) == 0x1021) by {
        assert(((0u16 << 1) ^ ((((0u16 >> 15) ^ 1) & 1) * 0x1021) as u16) == 0x1021)
            by (bit_vector);
    }
    assert(crc_bits(0, x, j) == crc_bits(0x1021, x, j + 1));
    assert forall|p: int| j + 1 <= p < 8 implies bit_of(x, p) == 0 by {
        lemma_bit_of_single(k, p);
    }
    lemma_bits_zero_run_nonzero(0x1021, x, j + 1);
}

/// The all-zero byte sequence of a given length.
pub open spec fn zero_seq(n: int) -> Seq<u8> {
    Seq::new(n as nat, |i: int| 0u8)
}

proof fn lemma_crc_seq_zeros(c: u16, n: int)
    requires
        n >= 0,
    ensures
        c == 0 ==> crc_seq(c, zero_seq(n)) == 0,
        c != 0 ==> crc_seq(c, zero_seq(n)) != 0,
    decreases n,
{
    if n > 0 {
        assert(zero_seq(n).drop_last() =~= zero_seq(n - 1));
        lemma_crc_seq_zeros(c, n - 1);
        let c2 = crc_seq(c, zero_seq(n - 1));
        assert forall|p: int| 0 <= p < 8 implies bit_of(0u8, p) == 0 by {
            let sh: u16 = (7 - p) as u16;
            assert((((0u8 as u16) >> sh) & 1) == 0) by (bit_vector);
        }
        if c == 0 {
            lemma_bits_zero_run_from_zero(0u8, 0, 8);
        } else {
            lemma_bits_zero_run_nonzero(c2, 0u8, 0);
        }
    }
}

/// Flipping any single bit of a byte sequence changes its CRC-16: a frame
/// corrupted in one bit can never carry a matching CRC.
pub proof fn lemma_crc_single_bit_flip(s: Seq<u8>, i: int, k: u16)
    requires
        0 <= i < s.len(),
        k < 8,
    ensures
        crc16_spec(s.update(i, (s[i] ^ (1u8 << k)) as u8)) != crc16_spec(s),
{
    let x: u8 = (1u8 << k) as u8;
    let n = s.len() as int;
    let e = Seq::new(n as nat, |j: int| if j == i { x } else { 0u8 });
    let s2 = s.update(i, (s[i] ^ x) as u8);
    assert(x != 0) by {
        assert((1u8 << k) != 0) by (bit_vector)
            requires
                k < 8,
        ;
    }
    // The corrupted sequence is the pointwise xor of the original with e.
    assert(forall|a: u8| (a ^ 0) == a) by (bit_vector);
    assert(s2 =~= xor_seq(s, e));
    // The CRC of e alone, from a zero register, is nonzero.
    assert(e.take(i) =~= zero_seq(i));
    lemma_crc_seq_zeros(0, i);
    assert(e.take(i + 1).drop_last() =~= e.take(i));
    assert(e.take(i + 1).last() == x);
    assert(crc_seq(0, e.take(i + 1)) == crc_byte(0, x));
    lemma_byte_single_nonzero(k);
    assert(e.skip(i + 1) =~= zero_seq(n - i - 1));
    lemma_crc_seq_zeros(crc_byte(0, x), n - i - 1);
    lemma_crc_seq_concat(0, e.take(i + 1), e.skip(i + 1));
    assert(e.take(i + 1) + e.skip(i + 1) =~= e);
    let v = crc_seq(0, e);
    assert(v != 0);
    // Linearity: the CRC of the corrupted sequence is the original xor v.
    lemma_seq_linear(0, 0, s, e);
    assert((0u16 ^ 0u16) == 0) by (bit_vector);
    assert(crc16_spec(s2) == (crc16_spec(s) ^ v));
    assert(forall|a: u16, b: u16| b != 0 ==> (a ^ b) != a) by (bit_vector);
}

} // verus!
