//! The category block codec: sixteen named categories with renamed bits,
//! ids and a last-unique-id counter, packed into a fixed 278-byte block
//! (a 16-bit renamed bitmap, sixteen 16-byte zero-padded names, sixteen
//! ids, the counter, and three bytes of padding).

use vstd::prelude::*;

use crate::bytes::be16;
use crate::bytes::bytes_to_string;
use crate::bytes::first_nul;
use crate::bytes::lemma_first_nul;
use crate::bytes::set_short;

verus! {

/// Bytes of one packed category block.
pub const CATEGORY_APP_INFO_LEN: usize = 278;

/// The category half of an application-info block: sixteen categories'
/// renamed flags, names and ids, and the last unique id handed out.
#[derive(Debug, PartialEq)]
pub struct CategoryAppInfo {
    pub renamed: Vec<u64>,
    pub name: Vec<String>,
    pub id: Vec<u8>,
    pub last_unique_id: u8,
}

impl CategoryAppInfo {
    /// The three per-category tables hold exactly sixteen entries.
    pub open spec fn wf(&self) -> bool {
        self.renamed@.len() == 16 && self.name@.len() == 16 && self.id@.len() == 16
    }
}

impl Default for CategoryAppInfo {
    /// An empty category block: nothing renamed, empty names, zero ids.
    fn default() -> (r: CategoryAppInfo)
        ensures
            r.wf(),
            forall|i: int| 0 <= i < 16 ==> r.renamed@[i] == 0,
            forall|i: int| 0 <= i < 16 ==> (#[trigger] r.name@[i])@.len() == 0,
            forall|i: int| 0 <= i < 16 ==> r.id@[i] == 0,
            r.last_unique_id == 0,
    {
        let mut renamed: Vec<u64> = Vec::new();
        let mut name: Vec<String> = Vec::new();
        let mut id: Vec<u8> = Vec::new();
        let mut i: usize = 0;
        while i < 16
            invariant
                i <= 16,
                renamed@.len() == i && name@.len() == i && id@.len() == i,
                forall|j: int| 0 <= j < i ==> renamed@[j] == 0,
                forall|j: int| 0 <= j < i ==> (#[trigger] name@[j])@.len() == 0,
                forall|j: int| 0 <= j < i ==> id@[j] == 0,
            decreases 16 - i,
        {
            renamed.push(0);
            name.push(String::new());
            id.push(0);
            i = i + 1;
        }
        CategoryAppInfo { renamed, name, id, last_unique_id: 0 }
    }
}

/// The 16-byte name field `i` of a packed category block.
pub open spec fn cat_name_field(rec: Seq<u8>, i: int) -> Seq<u8> {
    rec.subrange(2 + 16 * i, 2 + 16 * i + 16)
}

/// The name bytes a 16-byte field holds: up to its first zero byte, or
/// all sixteen.
pub open spec fn cstr16(field: Seq<u8>) -> Seq<u8> {
    if first_nul(field, 0) >= 0 {
        field.take(first_nul(field, 0))
    } else {
        field
    }
}

/// A name sequence padded with zero bytes, or truncated, to sixteen.
pub open spec fn fixed16(b: Seq<u8>) -> Seq<u8> {
    Seq::new(
        16,
        |j: int|
            if j < b.len() {
                b[j]
            } else {
                0u8
            },
    )
}

/// The renamed bitmap of the first `i` categories: bit `j` set exactly
/// when category `j` is marked renamed.
pub open spec fn renamed_prefix(rv: Seq<u64>, i: int) -> u16
    decreases i,
{
    if i <= 0 {
        0
    } else {
        (renamed_prefix(rv, i - 1) | (if rv[i - 1] != 0 {
            (1u16 << ((i - 1) as u16)) as u16
        } else {
            0u16
        })) as u16
    }
}

/// Unpacks a category block: fails (returning 0) when the caller grants
/// fewer bytes than a block holds, or when a name field is not UTF-8;
/// otherwise fills the tables from the block and returns its size.
pub fn unpack_category_app_info(ai: &mut CategoryAppInfo, record: &Vec<u8>, len: usize) -> (r:
    usize)
    requires
        old(ai).wf(),
        len >= CATEGORY_APP_INFO_LEN ==> record@.len() >= 275,
    ensures
        final(ai).wf(),
        len < CATEGORY_APP_INFO_LEN ==> r == 0 && *final(ai) == *old(ai),
        len >= CATEGORY_APP_INFO_LEN && (exists|i: int|
            0 <= i < 16 && !vstd::utf8::valid_utf8(cstr16(#[trigger] cat_name_field(record@, i))))
            ==> r == 0 && *final(ai) == *old(ai),
        len >= CATEGORY_APP_INFO_LEN && (forall|i: int|
            0 <= i < 16 ==> vstd::utf8::valid_utf8(cstr16(#[trigger] cat_name_field(record@, i))))
            ==> {
            &&& r == CATEGORY_APP_INFO_LEN
            &&& forall|i: int|
                0 <= i < 16 ==> final(ai).renamed@[i] == (if (be16(record@[0], record@[1]) & (
                1u16 << (i as u16))) != 0 {
                    1u64
                } else {
                    0u64
                })
            &&& forall|i: int|
                0 <= i < 16 ==> vstd::utf8::encode_utf8((#[trigger] final(ai).name@[i])@)
                    == cstr16(cat_name_field(record@, i))
            &&& forall|i: int| 0 <= i < 16 ==> final(ai).id@[i] == record@[258 + i]
            &&& final(ai).last_unique_id == record@[274]
        },
{
    if len < CATEGORY_APP_INFO_LEN {
        return 0;
    }
    let rec: u16 = ((record[0] as u16) << 8) | (record[1] as u16);
    let mut names: Vec<String> = Vec::new();
    let mut i: usize = 0;
    while i < 16
        invariant
            i <= 16,
            *ai == *old(ai),
            old(ai).wf(),
            record@.len() >= 275,
            names@.len() == i,
            forall|k: int|
                0 <= k < i ==> vstd::utf8::valid_utf8(
                    cstr16(#[trigger] cat_name_field(record@, k)),
                ),
            forall|k: int|
                0 <= k < i ==> vstd::utf8::encode_utf8((#[trigger] names@[k])@) == cstr16(
                    cat_name_field(record@, k),
                ),
        decreases 16 - i,
    {
        let base: usize = 2 + 16 * i;
        let mut j: usize = 0;
        let mut found = false;
        let mut field: Vec<u8> = Vec::new();
        while j < 16 && !found
            invariant
                j <= 16,
                base == 2 + 16 * i,
                i < 16,
                record@.len() >= 275,
                field@ == cat_name_field(record@, i as int).take(j as int),
                forall|k: int| 0 <= k < j ==> cat_name_field(record@, i as int)[k] != 0,
                found ==> j < 16 && cat_name_field(record@, i as int)[j as int] == 0,
            decreases 16 - j + (if found {
                0int
            } else {
                1int
            }),
        {
            let b = record[base + j];
            proof {
                assert(cat_name_field(record@, i as int)[j as int] == record@[base + j]);
            }
            if b == 0 {
                found = true;
            } else {
                field.push(b);
                proof {
                    assert(cat_name_field(record@, i as int).take(j + 1) =~= cat_name_field(
                        record@,
                        i as int,
                    ).take(j as int).push(cat_name_field(record@, i as int)[j as int]));
                }
                j = j + 1;
            }
        }
        proof {
            let f = cat_name_field(record@, i as int);
            lemma_first_nul(f, 0);
            let fnul = first_nul(f, 0);
            if found {
                if fnul == -1 {
                    assert(f[j as int] != 0);
                } else if fnul < j {
                    assert(f[fnul] != 0);
                    assert(f[fnul] == 0);
                } else if fnul > j {
                    assert(f[j as int] != 0);
                }
                assert(fnul == j);
                assert(field@ =~= cstr16(f));
            } else {
                if fnul >= 0 {
                    assert(f[fnul] != 0);
                    assert(f[fnul] == 0);
                }
                assert(fnul == -1);
                assert(field@ =~= f.take(16));
                assert(f.take(16) =~= f);
                assert(field@ =~= cstr16(f));
            }
        }
        let ghost fbytes = field@;
        let st = match bytes_to_string(field) {
            Some(st) => st,
            None => {
                return 0;
            },
        };
        let ghost gst = st@;
        let ghost names0 = names@;
        names.push(st);
        proof {
            let f = cat_name_field(record@, i as int);
            assert(vstd::utf8::encode_utf8(gst) == fbytes && fbytes == cstr16(f));
            assert(names@[i as int]@ == gst);
            assert forall|k: int| 0 <= k < i implies vstd::utf8::encode_utf8(
                (#[trigger] names@[k])@,
            ) == cstr16(cat_name_field(record@, k)) by {
                assert(names@[k] == names0[k]);
                assert(vstd::utf8::encode_utf8(names0[k]@) == cstr16(cat_name_field(record@, k)));
            }
        }
        i = i + 1;
    }
    // All sixteen names decoded; now fill the tables.
    let mut renamed: Vec<u64> = Vec::new();
    let mut k: usize = 0;
    while k < 16
        invariant
            k <= 16,
            renamed@.len() == k,
            names@.len() == 16,
            record@.len() >= 275,
            forall|kk: int|
                0 <= kk < 16 ==> vstd::utf8::valid_utf8(
                    cstr16(#[trigger] cat_name_field(record@, kk)),
                ),
            forall|kk: int|
                0 <= kk < 16 ==> vstd::utf8::encode_utf8((#[trigger] names@[kk])@) == cstr16(
                    cat_name_field(record@, kk),
                ),
            rec == be16(record@[0], record@[1]),
            forall|j: int|
                0 <= j < k ==> renamed@[j] == (if (rec & (1u16 << (j as u16))) != 0 {
                    1u64
                } else {
                    0u64
                }),
        decreases 16 - k,
    {
        let bit: u16 = 1u16 << (k as u16);
        if (rec & bit) != 0 {
            renamed.push(1);
        } else {
            renamed.push(0);
        }
        k = k + 1;
    }
    let mut id: Vec<u8> = Vec::new();
    let mut k2: usize = 0;
    while k2 < 16
        invariant
            k2 <= 16,
            record@.len() >= 275,
            id@.len() == k2,
            names@.len() == 16,
            renamed@.len() == 16,
            forall|kk: int|
                0 <= kk < 16 ==> vstd::utf8::valid_utf8(
                    cstr16(#[trigger] cat_name_field(record@, kk)),
                ),
            forall|kk: int|
                0 <= kk < 16 ==> vstd::utf8::encode_utf8((#[trigger] names@[kk])@) == cstr16(
                    cat_name_field(record@, kk),
                ),
            forall|j: int|
                0 <= j < 16 ==> renamed@[j] == (if (be16(record@[0], record@[1]) & (1u16 << (
                j as u16))) != 0 {
                    1u64
                } else {
                    0u64
                }),
            forall|j: int| 0 <= j < k2 ==> id@[j] == record@[258 + j],
        decreases 16 - k2,
    {
        id.push(record[258 + k2]);
        k2 = k2 + 1;
    }
    ai.renamed = renamed;
    ai.name = names;
    ai.id = id;
    ai.last_unique_id = record[274];
    CATEGORY_APP_INFO_LEN
}

/// Packs a category block in place: an empty buffer only reports the
/// block size (a dry run); a caller granting fewer bytes than a block
/// holds gets 0 and no change; otherwise the first 278 bytes become the
/// block and the rest of the buffer is untouched.
pub fn pack_category_app_info(ai: &CategoryAppInfo, record: &mut Vec<u8>, len: usize) -> (r: usize)
    requires
        ai.wf(),
        old(record)@.len() > 0 && len >= CATEGORY_APP_INFO_LEN ==> old(record)@.len()
            >= CATEGORY_APP_INFO_LEN,
    ensures
        old(record)@.len() == 0 ==> r == CATEGORY_APP_INFO_LEN && final(record)@ == old(record)@,
        old(record)@.len() > 0 && len < CATEGORY_APP_INFO_LEN ==> r == 0 && final(record)@ == old(
            record,
        )@,
        old(record)@.len() > 0 && len >= CATEGORY_APP_INFO_LEN ==> {
            &&& r == CATEGORY_APP_INFO_LEN
            &&& final(record)@.len() == old(record)@.len()
            &&& be16(final(record)@[0], final(record)@[1]) == renamed_prefix(ai.renamed@, 16)
            &&& forall|i: int|
                0 <= i < 16 ==> #[trigger] cat_name_field(final(record)@, i) == fixed16(
                    vstd::utf8::encode_utf8(ai.name@[i]@),
                )
            &&& forall|i: int| 0 <= i < 16 ==> final(record)@[258 + i] == ai.id@[i]
            &&& final(record)@[274] == ai.last_unique_id
            &&& final(record)@[275] == 0 && final(record)@[276] == 0 && final(record)@[277] == 0
            &&& forall|j: int|
                CATEGORY_APP_INFO_LEN <= j < old(record)@.len() ==> final(record)@[j] == old(
                    record,
                )@[j]
        },
{
    if record.len() == 0 {
        return CATEGORY_APP_INFO_LEN;
    }
    if len < CATEGORY_APP_INFO_LEN {
        return 0;
    }
    // Build the block in a scratch buffer, then copy it over the head of
    // the caller's buffer.
    let mut rec: u16 = 0;
    let mut i: usize = 0;
    while i < 16
        invariant
            i <= 16,
            ai.wf(),
            rec == renamed_prefix(ai.renamed@, i as int),
        decreases 16 - i,
    {
        proof {
            let r0 = renamed_prefix(ai.renamed@, i as int);
            assert((r0 | 0) == r0) by (bit_vector);
        }
        if ai.renamed[i] != 0 {
            rec = rec | (1u16 << (i as u16));
        }
        i = i + 1;
    }
    let mut block: Vec<u8> = Vec::new();
    block.push(((rec >> 8) & 0xff) as u8);
    block.push((rec & 0xff) as u8);
    proof {
        let hi = ((rec >> 8) & 0xff) as u8;
        let lo = (rec & 0xff) as u8;
        assert(be16(hi, lo) == rec) by (bit_vector)
            requires
                hi == ((rec >> 8) & 0xff) as u8 && lo == (rec & 0xff) as u8,
        ;
    }
    let mut i2: usize = 0;
    while i2 < 16
        invariant
            i2 <= 16,
            ai.wf(),
            block@.len() == 2 + 16 * i2,
            be16(block@[0], block@[1]) == renamed_prefix(ai.renamed@, 16),
            forall|k: int|
                0 <= k < i2 ==> #[trigger] cat_name_field(block@, k) == fixed16(
                    vstd::utf8::encode_utf8(ai.name@[k]@),
                ),
        decreases 16 - i2,
    {
        let ghost b0 = block@;
        let name_bytes: Vec<u8> = ai.name[i2].as_str().as_bytes_vec();
        let mut j: usize = 0;
        while j < 16
            invariant
                j <= 16,
                i2 < 16,
                ai.wf(),
                name_bytes@ == vstd::utf8::encode_utf8(ai.name@[i2 as int]@),
                b0.len() == 2 + 16 * i2,
                block@.len() == 2 + 16 * i2 + j,
                block@.take(b0.len() as int) == b0,
                forall|k: int| 0 <= k < j ==> block@[b0.len() + k] == fixed16(name_bytes@)[k],
            decreases 16 - j,
        {
            let b: u8 = if j < name_bytes.len() {
                name_bytes[j]
            } else {
                0
            };
            block.push(b);
            proof {
                assert(block@.take(b0.len() as int) =~= b0);
            }
            j = j + 1;
        }
        proof {
            assert(cat_name_field(block@, i2 as int) =~= fixed16(name_bytes@));
            assert forall|k: int| 0 <= k < i2 implies #[trigger] cat_name_field(block@, k)
                == fixed16(vstd::utf8::encode_utf8(ai.name@[k]@)) by {
                assert(cat_name_field(block@, k) =~= cat_name_field(b0, k));
            }
        }
        i2 = i2 + 1;
    }
    let ghost named = block@;
    let mut k3: usize = 0;
    while k3 < 16
        invariant
            k3 <= 16,
            ai.wf(),
            named.len() == 258,
            block@.len() == 258 + k3,
            block@.take(258) == named,
            be16(named[0], named[1]) == renamed_prefix(ai.renamed@, 16),
            forall|k: int|
                0 <= k < 16 ==> #[trigger] cat_name_field(named, k) == fixed16(
                    vstd::utf8::encode_utf8(ai.name@[k]@),
                ),
            forall|k: int| 0 <= k < k3 ==> block@[258 + k] == ai.id@[k],
        decreases 16 - k3,
    {
        block.push(ai.id[k3]);
        proof {
            assert(block@.take(258) =~= named);
        }
        k3 = k3 + 1;
    }
    block.push(ai.last_unique_id);
    block.push(0);
    block.push(0);
    block.push(0);
    proof {
        assert(block@.take(258) =~= named);
        assert(block@.len() == CATEGORY_APP_INFO_LEN);
        assert forall|k: int| 0 <= k < 16 implies #[trigger] cat_name_field(block@, k) == fixed16(
            vstd::utf8::encode_utf8(ai.name@[k]@),
        ) by {
            assert(cat_name_field(block@, k) =~= cat_name_field(named, k));
        }
        assert(block@[0] == named[0] && block@[1] == named[1]);
    }
    // Copy the block over the head of the caller's buffer.
    let mut t: usize = 0;
    while t < CATEGORY_APP_INFO_LEN
        invariant
            t <= CATEGORY_APP_INFO_LEN,
            ai.wf(),
            block@.len() == CATEGORY_APP_INFO_LEN,
            record@.len() == old(record)@.len() >= CATEGORY_APP_INFO_LEN,
            be16(block@[0], block@[1]) == renamed_prefix(ai.renamed@, 16),
            forall|k: int|
                0 <= k < 16 ==> #[trigger] cat_name_field(block@, k) == fixed16(
                    vstd::utf8::encode_utf8(ai.name@[k]@),
                ),
            forall|k: int| 0 <= k < 16 ==> block@[258 + k] == ai.id@[k],
            block@[274] == ai.last_unique_id,
            block@[275] == 0 && block@[276] == 0 && block@[277] == 0,
            forall|idx: int| 0 <= idx < t ==> record@[idx] == block@[idx],
            forall|idx: int| t <= idx < record@.len() ==> record@[idx] == old(record)@[idx],
        decreases CATEGORY_APP_INFO_LEN - t,
    {
        let v = block[t];
        record.set(t, v);
        t = t + 1;
    }
    proof {
        assert forall|i: int| 0 <= i < 16 implies #[trigger] cat_name_field(record@, i) == fixed16(
            vstd::utf8::encode_utf8(ai.name@[i]@),
        ) by {
            assert(cat_name_field(record@, i) =~= cat_name_field(block@, i));
        }
    }
    CATEGORY_APP_INFO_LEN
}

} // verus!
