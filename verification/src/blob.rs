//! The blob codec: a typed binary attachment carried inside calendar
//! records, packed as a four-byte zero-padded type tag, a 16-bit length,
//! and that many data bytes.

use vstd::prelude::*;

use crate::bytes::be16;
use crate::bytes::bytes_to_string;
use crate::bytes::first_nul;
use crate::bytes::lemma_first_nul;

verus! {

/// Type tag of a time-zone blob.
pub const BLOB_TYPE_CALENDAR_TIMEZONE_ID: &'static str = "Bd00";

/// Type tag of a blob of unknown meaning.
pub const BLOB_TYPE_CALENDAR_UNKNOWN_ID: &'static str = "Bd01";

/// Largest number of blobs one record may carry.
pub const MAX_BLOBS: usize = 10;

/// One typed binary attachment: its type tag, payload length and payload.
#[derive(Clone, Debug, PartialEq)]
pub struct Blob {
    pub blob_type: String,
    pub length: usize,
    pub data: Vec<u8>,
}

impl Default for Blob {
    /// An empty, untyped blob.
    fn default() -> (r: Blob)
        ensures
            r.blob_type@.len() == 0,
            r.length == 0,
            r.data@.len() == 0,
    {
        Blob { blob_type: String::new(), length: 0, data: Vec::new() }
    }
}

/// How many of the four tag bytes at `pos` belong to the type: up to the
/// first zero byte, or all four.
pub open spec fn blob_type_len(s: Seq<u8>, pos: int) -> int {
    let f = first_nul(s.subrange(pos, pos + 4), 0);
    if f >= 0 {
        f
    } else {
        4
    }
}

/// The type-tag bytes of the blob at `pos`.
pub open spec fn blob_type_bytes(s: Seq<u8>, pos: int) -> Seq<u8> {
    s.subrange(pos, pos + blob_type_len(s, pos))
}

/// The payload length of the blob at `pos`.
pub open spec fn blob_len_at(s: Seq<u8>, pos: int) -> int {
    be16(s[pos + 4], s[pos + 5]) as int
}

/// A tag sequence padded with zero bytes, or truncated, to four.
pub open spec fn fixed4(b: Seq<u8>) -> Seq<u8> {
    Seq::new(
        4,
        |j: int|
            if j < b.len() {
                b[j]
            } else {
                0u8
            },
    )
}

/// Unpacks the blob starting at `position`: the type tag, the length and
/// that many data bytes; returns how many bytes the blob occupied, or 0
/// when the type tag is not UTF-8.
pub fn unpack_blob(blob: &mut Blob, data: &Vec<u8>, position: usize) -> (r: usize)
    requires
        position + 6 <= data@.len(),
        position + 6 + blob_len_at(data@, position as int) <= data@.len(),
    ensures
        vstd::utf8::valid_utf8(blob_type_bytes(data@, position as int)) ==> {
            &&& r == 6 + blob_len_at(data@, position as int)
            &&& vstd::utf8::encode_utf8(final(blob).blob_type@) == blob_type_bytes(
                data@,
                position as int,
            )
            &&& final(blob).length == blob_len_at(data@, position as int)
            &&& final(blob).data@ == data@.subrange(
                position + 6,
                position + 6 + blob_len_at(data@, position as int),
            )
        },
        !vstd::utf8::valid_utf8(blob_type_bytes(data@, position as int)) ==> r == 0 && *final(blob)
            == *old(blob),
{
    let _len: usize = data.len();
    let ghost window = data@.subrange(position as int, position + 4);
    let mut j: usize = 0;
    let mut found = false;
    let mut tag: Vec<u8> = Vec::new();
    while j < 4 && !found
        invariant
            j <= 4,
            position + 6 <= data@.len() <= usize::MAX,
            window == data@.subrange(position as int, position + 4),
            tag@ == window.take(j as int),
            forall|k: int| 0 <= k < j ==> window[k] != 0,
            found ==> j < 4 && window[j as int] == 0,
        decreases 4 - j + (if found {
            0int
        } else {
            1int
        }),
    {
        let b = data[position + j];
        proof {
            assert(window[j as int] == data@[position + j]);
        }
        if b == 0 {
            found = true;
        } else {
            tag.push(b);
            proof {
                assert(window.take(j + 1) =~= window.take(j as int).push(window[j as int]));
            }
            j = j + 1;
        }
    }
    proof {
        lemma_first_nul(window, 0);
        let f = first_nul(window, 0);
        if found {
            if f == -1 {
                assert(window[j as int] != 0);
            } else if f < j {
                assert(window[f] != 0);
                assert(window[f] == 0);
            } else if f > j {
                assert(window[j as int] != 0);
            }
            assert(f == j);
        } else {
            if f >= 0 {
                assert(window[f] != 0);
                assert(window[f] == 0);
            }
            assert(f == -1);
            assert(window.take(4) =~= window);
        }
        assert(tag@ =~= blob_type_bytes(data@, position as int));
    }
    let st = match bytes_to_string(tag) {
        Some(st) => st,
        None => {
            return 0;
        },
    };
    let length: usize = (((data[position + 4] as u16) << 8) | (data[position + 5] as u16)) as usize;
    proof {
        assert(length == blob_len_at(data@, position as int));
    }
    let mut payload: Vec<u8> = Vec::new();
    let mut i: usize = 0;
    while i < length
        invariant
            i <= length,
            position + 6 + length <= data@.len() <= usize::MAX,
            payload@ == data@.subrange(position + 6, position + 6 + i),
        decreases length - i,
    {
        payload.push(data[position + 6 + i]);
        proof {
            assert(data@.subrange(position + 6, position + 6 + i + 1) =~= data@.subrange(
                position + 6,
                position + 6 + i,
            ).push(data@[position + 6 + i]));
        }
        i = i + 1;
    }
    blob.blob_type = st;
    blob.length = length;
    blob.data = payload;
    6 + length
}

/// Packs a blob at the end of the buffer: the four-byte zero-padded type
/// tag, the 16-bit length, and the payload's first `length` bytes.
pub fn pack_blob(blob: &Blob, buffer: &mut Vec<u8>) -> (r: i32)
    requires
        blob.length <= 0xffff,
        blob.length <= blob.data@.len(),
        old(buffer)@.len() + 6 + blob.length <= usize::MAX,
    ensures
        r == 0,
        final(buffer)@ == old(buffer)@ + fixed4(vstd::utf8::encode_utf8(blob.blob_type@)) + seq![
            ((blob.length as u16) >> 8) as u8,
            ((blob.length as u16) & 0xff) as u8,
        ] + blob.data@.take(blob.length as int),
{
    let tag_bytes: Vec<u8> = blob.blob_type.as_str().as_bytes_vec();
    let ghost b0 = buffer@;
    let mut i: usize = 0;
    while i < 4
        invariant
            i <= 4,
            tag_bytes@ == vstd::utf8::encode_utf8(blob.blob_type@),
            buffer@.len() == b0.len() + i,
            buffer@.take(b0.len() as int) == b0,
            forall|k: int| 0 <= k < i ==> buffer@[b0.len() + k] == fixed4(tag_bytes@)[k],
        decreases 4 - i,
    {
        let b: u8 = if i < tag_bytes.len() {
            tag_bytes[i]
        } else {
            0
        };
        buffer.push(b);
        proof {
            assert(buffer@.take(b0.len() as int) =~= b0);
        }
        i = i + 1;
    }
    let len16: u16 = blob.length as u16;
    buffer.push(((len16 >> 8) & 0xff) as u8);
    buffer.push((len16 & 0xff) as u8);
    proof {
        assert((len16 >> 8) == ((len16 >> 8) & 0xff)) by (bit_vector);
    }
    let ghost b1 = buffer@;
    proof {
        assert(b1 =~= b0 + fixed4(vstd::utf8::encode_utf8(blob.blob_type@)) + seq![
            ((blob.length as u16) >> 8) as u8,
            ((blob.length as u16) & 0xff) as u8,
        ]);
    }
    let mut k: usize = 0;
    while k < blob.length
        invariant
            k <= blob.length <= blob.data@.len(),
            buffer@.len() == b1.len() + k,
            buffer@.take(b1.len() as int) == b1,
            b1 == b0 + fixed4(vstd::utf8::encode_utf8(blob.blob_type@)) + seq![
                ((blob.length as u16) >> 8) as u8,
                ((blob.length as u16) & 0xff) as u8,
            ],
            forall|m: int| 0 <= m < k ==> buffer@[b1.len() + m] == blob.data@[m],
        decreases blob.length - k,
    {
        buffer.push(blob.data[k]);
        proof {
            assert(buffer@.take(b1.len() as int) =~= b1);
        }
        k = k + 1;
    }
    proof {
        assert(buffer@ =~= b0 + fixed4(vstd::utf8::encode_utf8(blob.blob_type@)) + seq![
            ((blob.length as u16) >> 8) as u8,
            ((blob.length as u16) & 0xff) as u8,
        ] + blob.data@.take(blob.length as int));
    }
    0
}

} // verus!
