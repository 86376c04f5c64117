//! Big-endian byte accessors and small buffer utilities shared by every
//! layer and codec: all multi-byte integers on the wire are big-endian.

use vstd::prelude::*;

verus! {

/// The 16-bit big-endian value held by two bytes.
pub open spec fn be16(b0: u8, b1: u8) -> u16 {
    (((b0 as u16) << 8) | (b1 as u16)) as u16
}

/// The 32-bit big-endian value held by four bytes, widened to 64 bits.
pub open spec fn be32(b0: u8, b1: u8, b2: u8, b3: u8) -> u64 {
    (((b0 as u64) << 24) | ((b1 as u64) << 16) | ((b2 as u64) << 8) | (b3 as u64)) as u64
}

/// Reads a 16-bit big-endian value from the first two bytes of a slice.
pub fn get_short(ptr: &[u8]) -> (r: u16)
    requires
        ptr@.len() >= 2,
    ensures
        r == be16(ptr@[0], ptr@[1]),
{
    ((ptr[0] as u16) << 8) | (ptr[1] as u16)
}

/// Writes a 16-bit big-endian value at the given offset.
pub fn set_short(buf: &mut Vec<u8>, offset: usize, val: u16)
    requires
        offset + 2 <= old(buf)@.len(),
    ensures
        final(buf)@.len() == old(buf)@.len(),
        final(buf)@[offset as int] == ((val >> 8) & 0xff) as u8,
        final(buf)@[offset + 1] == (val & 0xff) as u8,
        forall|i: int|
            0 <= i < old(buf)@.len() && i != offset && i != offset + 1 ==> final(buf)@[i]
                == old(buf)@[i],
        be16(final(buf)@[offset as int], final(buf)@[offset + 1]) == val,
{
    let _len: usize = buf.len();
    let b0: u8 = ((val >> 8) & 0xff) as u8;
    let b1: u8 = (val & 0xff) as u8;
    buf.set(offset, b0);
    buf.set(offset + 1, b1);
    proof {
        assert(be16(b0, b1) == val) by (bit_vector)
            requires
                b0 == ((val >> 8) & 0xff) as u8 && b1 == (val & 0xff) as u8,
        ;
    }
}

/// Reads a 32-bit big-endian value from the first four bytes of a slice.
pub fn get_long(ptr: &[u8]) -> (r: u64)
    requires
        ptr@.len() >= 4,
    ensures
        r == be32(ptr@[0], ptr@[1], ptr@[2], ptr@[3]),
        r <= 0xffff_ffff,
{
    let r: u64 = ((ptr[0] as u64) << 24) | ((ptr[1] as u64) << 16) | ((ptr[2] as u64) << 8) | (
    ptr[3] as u64);
    proof {
        let (b0, b1, b2, b3) = (ptr@[0], ptr@[1], ptr@[2], ptr@[3]);
        assert((((b0 as u64) << 24) | ((b1 as u64) << 16) | ((b2 as u64) << 8) | (b3 as u64))
            <= 0xffff_ffff) by (bit_vector);
    }
    r
}

/// Writes the low 32 bits of a value at the given offset, big-endian.
pub fn set_long(buf: &mut Vec<u8>, offset: usize, val: u64)
    requires
        offset + 4 <= old(buf)@.len(),
    ensures
        final(buf)@.len() == old(buf)@.len(),
        final(buf)@[offset as int] == ((val >> 24) & 0xff) as u8,
        final(buf)@[offset + 1] == ((val >> 16) & 0xff) as u8,
        final(buf)@[offset + 2] == ((val >> 8) & 0xff) as u8,
        final(buf)@[offset + 3] == (val & 0xff) as u8,
        forall|i: int|
            0 <= i < old(buf)@.len() && !(offset <= i < offset + 4) ==> final(buf)@[i] == old(
                buf,
            )@[i],
        val <= 0xffff_ffff ==> be32(
            final(buf)@[offset as int],
            final(buf)@[offset + 1],
            final(buf)@[offset + 2],
            final(buf)@[offset + 3],
        ) == val,
{
    let _len: usize = buf.len();
    let b0: u8 = ((val >> 24) & 0xff) as u8;
    let b1: u8 = ((val >> 16) & 0xff) as u8;
    let b2: u8 = ((val >> 8) & 0xff) as u8;
    let b3: u8 = (val & 0xff) as u8;
    buf.set(offset, b0);
    buf.set(offset + 1, b1);
    buf.set(offset + 2, b2);
    buf.set(offset + 3, b3);
    proof {
        assert(val <= 0xffff_ffff ==> be32(b0, b1, b2, b3) == val) by (bit_vector)
            requires
                b0 == ((val >> 24) & 0xff) as u8 && b1 == ((val >> 16) & 0xff) as u8 && b2 == ((val
                    >> 8) & 0xff) as u8 && b3 == (val & 0xff) as u8,
        ;
    }
}

/// The byte a scribble-detection block holds at position `i` under `seed`.
pub open spec fn block_byte(seed: u128, i: int) -> u8 {
    ((i + seed) % 256) as u8
}

/// The position of the first zero byte at or after `from`, or -1.
pub open spec fn first_nul(s: Seq<u8>, from: int) -> int
    decreases s.len() - from
        when 0 <= from <= s.len()
{
    if from >= s.len() {
        -1
    } else if s[from] == 0 {
        from
    } else {
        first_nul(s, from + 1)
    }
}

/// What the position of the first zero byte means.
pub proof fn lemma_first_nul(s: Seq<u8>, from: int)
    requires
        0 <= from <= s.len(),
    ensures
        first_nul(s, from) >= -1,
        first_nul(s, from) == -1 ==> forall|i: int| from <= i < s.len() ==> s[i] != 0,
        first_nul(s, from) >= 0 ==> from <= first_nul(s, from) < s.len() && s[first_nul(s, from)]
            == 0 && forall|i: int| from <= i < first_nul(s, from) ==> s[i] != 0,
    decreases s.len() - from,
{
    if from < s.len() && s[from] != 0 {
        lemma_first_nul(s, from + 1);
    }
}

/// Relies on String::from_utf8: it succeeds exactly on UTF-8 input, and
/// the string it hands back holds those very bytes.
#[verifier::external_body]
pub fn bytes_to_string(b: Vec<u8>) -> (r: Option<String>)
    ensures
        r is Some <==> vstd::utf8::valid_utf8(b@),
        r matches Some(s) ==> vstd::utf8::encode_utf8(s@) == b@,
{
    match String::from_utf8(b) {
        Ok(s) => Some(s),
        Err(_) => None,
    }
}

/// Reads the zero-terminated string starting at `offset`: the decoded
/// text and the position of its terminator.  `None` when no terminator
/// follows or the bytes before it are not UTF-8.
pub fn get_buf_string(buf: &Vec<u8>, offset: usize) -> (r: Option<(String, usize)>)
    requires
        offset <= buf@.len(),
    ensures
        r matches Some(p) ==> {
            &&& first_nul(buf@, offset as int) == p.1
            &&& vstd::utf8::encode_utf8(p.0@) == buf@.subrange(offset as int, p.1 as int)
        },
        r is None ==> first_nul(buf@, offset as int) == -1 || !vstd::utf8::valid_utf8(
            buf@.subrange(offset as int, first_nul(buf@, offset as int)),
        ),
{
    proof {
        lemma_first_nul(buf@, offset as int);
    }
    let n: usize = buf.len();
    let mut i: usize = offset;
    while i < n
        invariant
            offset <= i <= n,
            n == buf@.len(),
            forall|j: int| offset <= j < i ==> buf@[j] != 0,
        decreases n - i,
    {
        if buf[i] == 0 {
            proof {
                lemma_first_nul(buf@, offset as int);
                let f = first_nul(buf@, offset as int);
                if f == -1 {
                    assert(buf@[i as int] != 0);
                } else if f < i {
                    assert(buf@[f] != 0);
                    assert(buf@[f] == 0);
                } else if f > i {
                    assert(buf@[i as int] != 0);
                }
                assert(f == i);
            }
            let mut region: Vec<u8> = Vec::new();
            let mut k: usize = offset;
            while k < i
                invariant
                    offset <= k <= i <= n,
                    n == buf@.len(),
                    region@ == buf@.subrange(offset as int, k as int),
                    first_nul(buf@, offset as int) == i,
                decreases i - k,
            {
                region.push(buf[k]);
                proof {
                    assert(buf@.subrange(offset as int, k + 1) =~= buf@.subrange(
                        offset as int,
                        k as int,
                    ).push(buf@[k as int]));
                }
                k = k + 1;
            }
            match bytes_to_string(region) {
                Some(st) => {
                    return Some((st, i));
                },
                None => {
                    return None;
                },
            }
        }
        i = i + 1;
    }
    proof {
        lemma_first_nul(buf@, offset as int);
    }
    None
}

/// Fills a buffer of the given length with its seeded pattern, so that a
/// later scan can tell whether anything past a packing's end was touched.
pub fn reset_block(buffer: &mut Vec<u8>, len: usize, seed: u128)
    requires
        seed + len <= u128::MAX,
    ensures
        final(buffer)@.len() == len,
        forall|i: int| 0 <= i < len ==> final(buffer)@[i] == block_byte(seed, i),
{
    buffer.resize(len, 0);
    let mut i: usize = 0;
    while i < len
        invariant
            i <= len,
            buffer@.len() == len,
            seed + len <= u128::MAX,
            forall|j: int| 0 <= j < i ==> buffer@[j] == block_byte(seed, j),
        decreases len - i,
    {
        let b: u8 = (((i as u128) + seed) % 256) as u8;
        buffer.set(i, b);
        i = i + 1;
    }
}

/// The position of the first byte in `[from, to)` that no longer holds
/// its pattern value, or -1.
pub open spec fn first_block_mismatch(s: Seq<u8>, seed: u128, from: int, to: int) -> int
    decreases to - from
        when from <= to <= s.len()
{
    if from >= to {
        -1
    } else if s[from] != block_byte(seed, from) {
        from
    } else {
        first_block_mismatch(s, seed, from + 1, to)
    }
}

/// What the position of the first pattern mismatch means.
pub proof fn lemma_first_block_mismatch(s: Seq<u8>, seed: u128, from: int, to: int)
    requires
        0 <= from <= to <= s.len(),
    ensures
        first_block_mismatch(s, seed, from, to) >= -1,
        first_block_mismatch(s, seed, from, to) == -1 ==> forall|i: int|
            from <= i < to ==> s[i] == block_byte(seed, i),
        first_block_mismatch(s, seed, from, to) >= 0 ==> {
            let f = first_block_mismatch(s, seed, from, to);
            &&& from <= f < to
            &&& s[f] != block_byte(seed, f)
            &&& forall|i: int| from <= i < f ==> s[i] == block_byte(seed, i)
        },
    decreases to - from,
{
    if from < to && s[from] == block_byte(seed, from) {
        lemma_first_block_mismatch(s, seed, from + 1, to);
    }
}

/// Scans a seeded block for a scribble: whether the first byte from
/// `count` on that no longer holds its pattern value exists and is not
/// the very first byte of the buffer.  The test number and name only
/// label the block under scrutiny.
pub fn check_block(
    test: i32,
    buffer: &Vec<u8>,
    len: usize,
    count: usize,
    name: String,
    seed: u128,
) -> (r: bool)
    requires
        len <= buffer@.len(),
        seed + len <= u128::MAX,
        count <= len,
    ensures
        r == (first_block_mismatch(buffer@, seed, count as int, len as int) > 0),
{
    proof {
        lemma_first_block_mismatch(buffer@, seed, count as int, len as int);
    }
    let mut i: usize = count;
    while i < len
        invariant
            count <= i <= len <= buffer@.len(),
            seed + len <= u128::MAX,
            forall|j: int| count <= j < i ==> buffer@[j] == block_byte(seed, j),
        decreases len - i,
    {
        let expect: u8 = (((i as u128) + seed) % 256) as u8;
        if buffer[i] != expect {
            proof {
                lemma_first_block_mismatch(buffer@, seed, count as int, len as int);
                let f = first_block_mismatch(buffer@, seed, count as int, len as int);
                if f == -1 {
                    assert(buffer@[i as int] == block_byte(seed, i as int));
                } else if f < i {
                    assert(buffer@[f] == block_byte(seed, f));
                    assert(buffer@[f] != block_byte(seed, f));
                } else if f > i {
                    assert(buffer@[i as int] == block_byte(seed, i as int));
                }
                assert(f == i);
            }
            return i != 0;
        }
        i = i + 1;
    }
    proof {
        lemma_first_block_mismatch(buffer@, seed, count as int, len as int);
    }
    false
}

/// Grows a buffer by `capacity` zero bytes.
pub fn pi_buffer_expect(buf: &mut Vec<u8>, capacity: usize)
    requires
        old(buf)@.len() + capacity <= usize::MAX,
    ensures
        final(buf)@.len() == old(buf)@.len() + capacity,
        final(buf)@.subrange(0, old(buf)@.len() as int) == old(buf)@,
        forall|i: int| old(buf)@.len() <= i < final(buf)@.len() ==> final(buf)@[i] == 0,
{
    let target: usize = buf.len() + capacity;
    buf.resize(target, 0);
    proof {
        if capacity == 0 {
            assert(buf@.subrange(0, old(buf)@.len() as int) =~= old(buf)@);
        }
    }
}

} // verus!
