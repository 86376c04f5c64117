//! The address record codec: a packed address record holds a phone-label
//! nibble block, a contents bitmap naming which of nineteen entry fields
//! follow, and those fields as zero-terminated strings; the address
//! application-info block holds a category block followed by label tables
//! and sort settings.

use vstd::prelude::*;

use crate::appinfo::cat_name_field;
use crate::appinfo::cstr16;
use crate::appinfo::fixed16;
use crate::appinfo::pack_category_app_info;
use crate::appinfo::renamed_prefix;
use crate::appinfo::unpack_category_app_info;
use crate::appinfo::CategoryAppInfo;
use crate::appinfo::CATEGORY_APP_INFO_LEN;
use crate::bytes::be16;
use crate::bytes::be32;
use crate::bytes::bytes_to_string;
use crate::bytes::first_nul;
use crate::bytes::get_buf_string;
use crate::bytes::lemma_first_nul;

verus! {

/// The revisions of the packed address format this codec knows.
#[derive(Debug, PartialEq, Eq, Structural)]
pub enum AddressType {
    AddressV1,
    Unknown,
}

impl Default for AddressType {
    /// The one revision in use.
    fn default() -> (r: AddressType)
        ensures
            r == AddressType::AddressV1,
    {
        AddressType::AddressV1
    }
}

/// The nineteen entry fields of an address record, in packing order,
/// and the category pseudo-field behind them.
#[derive(Debug, PartialEq, Eq, Structural, Clone, Copy)]
pub enum AddressField {
    EntryLastname,
    EntryFirstname,
    EntryCompany,
    EntryPhone1,
    EntryPhone2,
    EntryPhone3,
    EntryPhone4,
    EntryPhone5,
    EntryAddress,
    EntryCity,
    EntryState,
    EntryZip,
    EntryCountry,
    EntryTitle,
    EntryCustom1,
    EntryCustom2,
    EntryCustom3,
    EntryCustom4,
    EntryNote,
    EntryCategory,
}

/// One address record: which phone label each of the five phone fields
/// shows, which phone to show in list views, and the nineteen entries.
#[derive(Debug, PartialEq)]
pub struct Address {
    pub phone_label: Vec<u8>,
    pub show_phone: u8,
    pub entry: Vec<String>,
}

impl Address {
    /// Five phone labels and nineteen entries.
    pub open spec fn wf(&self) -> bool {
        self.phone_label@.len() == 5 && self.entry@.len() == 19
    }
}

impl Default for Address {
    /// An empty record: zero labels, empty entries.
    fn default() -> (r: Address)
        ensures
            r.wf(),
            forall|i: int| 0 <= i < 5 ==> r.phone_label@[i] == 0,
            r.show_phone == 0,
            forall|i: int| 0 <= i < 19 ==> (#[trigger] r.entry@[i])@.len() == 0,
    {
        let mut phone_label: Vec<u8> = Vec::new();
        let mut i: usize = 0;
        while i < 5
            invariant
                i <= 5,
                phone_label@.len() == i,
                forall|j: int| 0 <= j < i ==> phone_label@[j] == 0,
            decreases 5 - i,
        {
            phone_label.push(0);
            i = i + 1;
        }
        let mut entry: Vec<String> = Vec::new();
        let mut k: usize = 0;
        while k < 19
            invariant
                k <= 19,
                entry@.len() == k,
                forall|j: int| 0 <= j < k ==> (#[trigger] entry@[j])@.len() == 0,
            decreases 19 - k,
        {
            entry.push(String::new());
            k = k + 1;
        }
        Address { phone_label, show_phone: 0, entry }
    }
}

/// The address application-info block: the record format revision, the
/// category block, the twenty-two field labels with their renamed bits,
/// the eight phone labels among them, and sorting settings.
#[derive(Debug, PartialEq)]
pub struct AddressAppInfo {
    pub address_type: AddressType,
    pub category: CategoryAppInfo,
    pub labels: Vec<String>,
    pub label_renamed: Vec<i64>,
    pub phone_labels: Vec<String>,
    pub country: u16,
    pub sort_by_company: u8,
}

impl AddressAppInfo {
    /// Twenty-two labels and renamed bits, eight phone labels, and a
    /// well-formed category block.
    pub open spec fn wf(&self) -> bool {
        &&& self.category.wf()
        &&& self.labels@.len() == 22
        &&& self.label_renamed@.len() == 22
        &&& self.phone_labels@.len() == 8
    }
}

impl Default for AddressAppInfo {
    /// An empty block over an empty category block.
    fn default() -> (r: AddressAppInfo)
        ensures
            r.wf(),
            r.address_type == AddressType::AddressV1,
            r.country == 0,
            r.sort_by_company == 0,
    {
        let mut labels: Vec<String> = Vec::new();
        let mut label_renamed: Vec<i64> = Vec::new();
        let mut i: usize = 0;
        while i < 22
            invariant
                i <= 22,
                labels@.len() == i,
                label_renamed@.len() == i,
            decreases 22 - i,
        {
            labels.push(String::new());
            label_renamed.push(0);
            i = i + 1;
        }
        let mut phone_labels: Vec<String> = Vec::new();
        let mut k: usize = 0;
        while k < 8
            invariant
                k <= 8,
                phone_labels@.len() == k,
            decreases 8 - k,
        {
            phone_labels.push(String::new());
            k = k + 1;
        }
        AddressAppInfo {
            address_type: AddressType::AddressV1,
            category: CategoryAppInfo::default(),
            labels,
            label_renamed,
            phone_labels,
            country: 0,
            sort_by_company: 0,
        }
    }
}

/// The high nibble of a byte.
pub fn hi(x: u8) -> (r: u8)
    ensures
        r == ((x >> 4) & 0x0f),
{
    (x >> 4) & 0x0f
}

/// The low nibble of a byte.
pub fn lo(x: u8) -> (r: u8)
    ensures
        r == (x & 0x0f),
{
    x & 0x0f
}

/// Where entry field `v`'s zero-terminated string begins in a packed
/// record, counting only the fields the contents bitmap names before it.
pub open spec fn entry_offset(s: Seq<u8>, contents: u64, v: int) -> int
    decreases v,
{
    if v <= 0 {
        9
    } else if (contents & (1u64 << ((v - 1) as u64))) == 0 {
        entry_offset(s, contents, v - 1)
    } else {
        first_nul(s, entry_offset(s, contents, v - 1)) + 1
    }
}

/// The bytes of entry field `v` in a packed record.
pub open spec fn entry_bytes(s: Seq<u8>, contents: u64, v: int) -> Seq<u8> {
    s.subrange(entry_offset(s, contents, v), first_nul(s, entry_offset(s, contents, v)))
}

/// How walking the packed entries ends: every named field read whole, or
/// the record ran out at field `at`, or field `at` was unreadable (no
/// terminator, or not UTF-8).
pub enum EntryWalk {
    Done { end: int },
    Short { at: int },
    Bad { at: int },
}

/// Walks the entry fields the contents bitmap names, from field `v` at
/// byte `offset` on.
pub open spec fn entry_walk(s: Seq<u8>, contents: u64, v: int, offset: int) -> EntryWalk
    decreases 19 - v,
{
    if v >= 19 {
        EntryWalk::Done { end: offset }
    } else if (contents & (1u64 << (v as u64))) == 0 {
        entry_walk(s, contents, v + 1, offset)
    } else if s.len() - offset < 1 {
        EntryWalk::Short { at: v }
    } else if first_nul(s, offset) == -1 || !vstd::utf8::valid_utf8(
        s.subrange(offset, first_nul(s, offset)),
    ) {
        EntryWalk::Bad { at: v }
    } else {
        entry_walk(s, contents, v + 1, first_nul(s, offset) + 1)
    }
}

/// Unpacks an address record: fails (-1) on an unknown revision, a
/// record shorter than its fixed header, or an unreadable entry field;
/// stops early (0) when the record runs out mid-entry.  The phone-label
/// nibbles and the named entries are filled in the order packed.
pub fn unpack_address(addr: &mut Address, buf: &Vec<u8>, addr_type: AddressType) -> (r: i32)
    requires
        old(addr).wf(),
    ensures
        final(addr).wf(),
        addr_type != AddressType::AddressV1 ==> r == -1 && *final(addr) == *old(addr),
        addr_type == AddressType::AddressV1 && buf@.len() < 9 ==> r == -1 && *final(addr) == *old(
            addr,
        ),
        addr_type == AddressType::AddressV1 && buf@.len() >= 9 ==> {
            let contents = be32(buf@[4], buf@[5], buf@[6], buf@[7]);
            &&& final(addr).show_phone == ((buf@[1] >> 4) & 0x0f)
            &&& final(addr).phone_label@[4] == (buf@[1] & 0x0f)
            &&& final(addr).phone_label@[3] == ((buf@[2] >> 4) & 0x0f)
            &&& final(addr).phone_label@[2] == (buf@[2] & 0x0f)
            &&& final(addr).phone_label@[1] == ((buf@[3] >> 4) & 0x0f)
            &&& final(addr).phone_label@[0] == (buf@[4] & 0x0f)
            &&& (entry_walk(buf@, contents, 0, 9) matches EntryWalk::Done { end } ==> r == 0 && (
            forall|v: int|
                0 <= v < 19 ==> (#[trigger] final(addr).entry@[v])@ == (if (contents & (1u64 << (
                v as u64))) != 0 {
                    vstd::utf8::decode_utf8(entry_bytes(buf@, contents, v))
                } else {
                    old(addr).entry@[v]@
                })))
            &&& (entry_walk(buf@, contents, 0, 9) matches EntryWalk::Short { at } ==> r == 0)
            &&& (entry_walk(buf@, contents, 0, 9) matches EntryWalk::Bad { at } ==> r == -1)
        },
{
    if !matches!(addr_type, AddressType::AddressV1) {
        return -1;
    }
    let n: usize = buf.len();
    if n < 9 {
        return -1;
    }
    addr.show_phone = hi(buf[1]);
    let mut pl: Vec<u8> = Vec::new();
    pl.push(lo(buf[4]));
    pl.push(hi(buf[3]));
    pl.push(lo(buf[2]));
    pl.push(hi(buf[2]));
    pl.push(lo(buf[1]));
    addr.phone_label = pl;
    let contents: u64 = ((buf[4] as u64) << 24) | ((buf[5] as u64) << 16) | ((buf[6] as u64) << 8)
        | (buf[7] as u64);
    proof {
        assert(contents == be32(buf@[4], buf@[5], buf@[6], buf@[7]));
    }
    let ghost s = buf@;
    let mut offset: usize = 9;
    let mut v: usize = 0;
    while v < 19
        invariant
            v <= 19,
            9 <= offset <= n,
            n == buf@.len(),
            s == buf@,
            addr.wf(),
            addr_type == AddressType::AddressV1,
            contents == be32(buf@[4], buf@[5], buf@[6], buf@[7]),
            offset == entry_offset(s, contents, v as int),
            entry_walk(s, contents, 0, 9) == entry_walk(s, contents, v as int, offset as int),
            addr.show_phone == ((buf@[1] >> 4) & 0x0f),
            addr.phone_label@[4] == (buf@[1] & 0x0f),
            addr.phone_label@[3] == ((buf@[2] >> 4) & 0x0f),
            addr.phone_label@[2] == (buf@[2] & 0x0f),
            addr.phone_label@[1] == ((buf@[3] >> 4) & 0x0f),
            addr.phone_label@[0] == (buf@[4] & 0x0f),
            forall|w: int|
                0 <= w < 19 ==> (#[trigger] addr.entry@[w])@ == (if w < v && (contents & (1u64 << (
                w as u64))) != 0 {
                    vstd::utf8::decode_utf8(entry_bytes(s, contents, w))
                } else {
                    old(addr).entry@[w]@
                }),
        decreases 19 - v,
    {
        let bit: u64 = 1u64 << (v as u64);
        if (contents & bit) != 0 {
            if n - offset < 1 {
                return 0;
            }
            match get_buf_string(buf, offset) {
                Some((st, end)) => {
                    proof {
                        lemma_first_nul(s, offset as int);
                        vstd::utf8::encode_utf8_decode_utf8(st@);
                        vstd::utf8::encode_utf8_valid_utf8(st@);
                    }
                    let ghost entries0 = addr.entry@;
                    addr.entry.set(v, st);
                    proof {
                        assert forall|w: int|
                            0 <= w < 19 implies (#[trigger] addr.entry@[w])@ == (if w < v + 1 && (
                        contents & (1u64 << (w as u64))) != 0 {
                            vstd::utf8::decode_utf8(entry_bytes(s, contents, w))
                        } else {
                            old(addr).entry@[w]@
                        }) by {
                            if w != v {
                                assert(addr.entry@[w] == entries0[w]);
                            }
                        }
                    }
                    offset = end + 1;
                },
                None => {
                    return -1;
                },
            }
        }
        v = v + 1;
    }
    0
}

/// The encoded bytes of entry field `v`.
pub open spec fn entry_enc(addr: Address, v: int) -> Seq<u8> {
    vstd::utf8::encode_utf8(addr.entry@[v]@)
}

/// Total bytes the first `v` entry fields pack to: each nonempty field
/// costs its bytes and a terminator.
pub open spec fn packed_entries_len(addr: Address, v: int) -> int
    decreases v,
{
    if v <= 0 {
        0
    } else {
        packed_entries_len(addr, v - 1) + (if entry_enc(addr, v - 1).len() > 0 {
            entry_enc(addr, v - 1).len() + 1
        } else {
            0
        })
    }
}

/// The contents bitmap of the first `v` entry fields: bit `w` set exactly
/// when field `w` is nonempty.
pub open spec fn contents_prefix(addr: Address, v: int) -> u64
    decreases v,
{
    if v <= 0 {
        0
    } else {
        (contents_prefix(addr, v - 1) | (if entry_enc(addr, v - 1).len() > 0 {
            (1u64 << ((v - 1) as u64)) as u64
        } else {
            0u64
        })) as u64
    }
}

/// The packed image of the first `v` entry fields: each nonempty field's
/// bytes followed by a zero terminator.
pub open spec fn packed_entries(addr: Address, v: int) -> Seq<u8>
    decreases v,
{
    if v <= 0 {
        Seq::<u8>::empty()
    } else {
        packed_entries(addr, v - 1) + (if entry_enc(addr, v - 1).len() > 0 {
            entry_enc(addr, v - 1) + seq![0u8]
        } else {
            Seq::<u8>::empty()
        })
    }
}

/// Packing more entry fields never takes fewer bytes.
proof fn lemma_packed_len_mono(addr: Address, v: int, w: int)
    requires
        0 <= v <= w,
    ensures
        packed_entries_len(addr, v) <= packed_entries_len(addr, w),
    decreases w - v,
{
    if v < w {
        lemma_packed_len_mono(addr, v, w - 1);
    }
}

/// The phone-flag word of a record: the five phone-label nibbles and the
/// shown phone, packed four bits apart.
pub open spec fn phone_flag_spec(addr: Address) -> u64 {
    ((addr.phone_label@[0] as u64) | ((addr.phone_label@[1] as u64) << 4) | ((
    addr.phone_label@[2] as u64) << 8) | ((addr.phone_label@[3] as u64) << 12) | ((
    addr.phone_label@[4] as u64) << 16) | ((addr.show_phone as u64) << 20)) as u64
}

/// The company-offset byte: where the company field's bytes begin,
/// counted from the contents bitmap, or zero with no company field.
pub open spec fn company_offset_spec(addr: Address) -> int {
    if entry_enc(addr, 2).len() > 0 {
        9 + packed_entries_len(addr, 2) - 8
    } else {
        0
    }
}

/// Packs an address record into an empty buffer: the phone-flag word, the
/// contents bitmap, the company-offset byte, then each nonempty entry as
/// a zero-terminated string.  An unknown revision fails with -1.
pub fn pack_address(addr: &Address, buf: &mut Vec<u8>, addr_type: AddressType) -> (r: i32)
    requires
        addr.wf(),
        old(buf)@.len() == 0,
        9 + packed_entries_len(*addr, 19) <= usize::MAX,
    ensures
        addr_type != AddressType::AddressV1 ==> r == -1 && final(buf)@ == old(buf)@,
        addr_type == AddressType::AddressV1 ==> {
            let flag = phone_flag_spec(*addr);
            let contents = contents_prefix(*addr, 19);
            &&& r == 0
            &&& final(buf)@.len() == 9 + packed_entries_len(*addr, 19)
            &&& final(buf)@[0] == ((flag >> 24) & 0xff) as u8
            &&& final(buf)@[1] == ((flag >> 16) & 0xff) as u8
            &&& final(buf)@[2] == ((flag >> 8) & 0xff) as u8
            &&& final(buf)@[3] == (flag & 0xff) as u8
            &&& final(buf)@[4] == ((contents >> 24) & 0xff) as u8
            &&& final(buf)@[5] == ((contents >> 16) & 0xff) as u8
            &&& final(buf)@[6] == ((contents >> 8) & 0xff) as u8
            &&& final(buf)@[7] == (contents & 0xff) as u8
            &&& final(buf)@[8] == (company_offset_spec(*addr) % 256) as u8
            &&& final(buf)@.skip(9) == packed_entries(*addr, 19)
        },
{
    if !matches!(addr_type, AddressType::AddressV1) {
        return -1;
    }
    let mut tail: Vec<u8> = Vec::new();
    let mut contents: u64 = 0;
    let mut company_off: usize = 0;
    let mut v: usize = 0;
    while v < 19
        invariant
            v <= 19,
            addr.wf(),
            9 + packed_entries_len(*addr, 19) <= usize::MAX,
            tail@ == packed_entries(*addr, v as int),
            tail@.len() == packed_entries_len(*addr, v as int),
            contents == contents_prefix(*addr, v as int),
            company_off == (if v >= 3 && entry_enc(*addr, 2).len() > 0 {
                9 + packed_entries_len(*addr, 2) - 8
            } else {
                0
            }),
        decreases 19 - v,
    {
        proof {
            lemma_packed_len_mono(*addr, v as int, 19);
            lemma_packed_len_mono(*addr, v + 1, 19);
            let c0 = contents_prefix(*addr, v as int);
            assert((c0 | 0) == c0) by (bit_vector);
        }
        let eb: Vec<u8> = addr.entry[v].as_str().as_bytes_vec();
        if eb.len() > 0 {
            if v == 2 {
                company_off = 9 + tail.len() - 8;
            }
            contents = contents | (1u64 << (v as u64));
            let ghost t0 = tail@;
            let mut k: usize = 0;
            while k < eb.len()
                invariant
                    k <= eb@.len(),
                    tail@ == t0 + eb@.take(k as int),
                    t0.len() + eb@.len() + 1 + 9 <= usize::MAX,
                decreases eb@.len() - k,
            {
                tail.push(eb[k]);
                proof {
                    assert(t0 + eb@.take(k + 1) =~= (t0 + eb@.take(k as int)).push(
                        eb@[k as int],
                    ));
                }
                k = k + 1;
            }
            tail.push(0);
            proof {
                assert(eb@.take(eb@.len() as int) =~= eb@);
                assert(tail@ =~= t0 + (eb@ + seq![0u8]));
                assert(packed_entries(*addr, v + 1) == packed_entries(*addr, v as int) + (
                entry_enc(*addr, v as int) + seq![0u8]));
            }
        } else {
            proof {
                assert(packed_entries(*addr, v + 1) =~= packed_entries(*addr, v as int));
            }
        }
        v = v + 1;
    }
    let flag: u64 = (addr.phone_label[0] as u64) | ((addr.phone_label[1] as u64) << 4) | ((
    addr.phone_label[2] as u64) << 8) | ((addr.phone_label[3] as u64) << 12) | ((
    addr.phone_label[4] as u64) << 16) | ((addr.show_phone as u64) << 20);
    buf.push(((flag >> 24) & 0xff) as u8);
    buf.push(((flag >> 16) & 0xff) as u8);
    buf.push(((flag >> 8) & 0xff) as u8);
    buf.push((flag & 0xff) as u8);
    buf.push(((contents >> 24) & 0xff) as u8);
    buf.push(((contents >> 16) & 0xff) as u8);
    buf.push(((contents >> 8) & 0xff) as u8);
    buf.push((contents & 0xff) as u8);
    buf.push((company_off % 256) as u8);
    let ghost head = buf@;
    let mut t: usize = 0;
    while t < tail.len()
        invariant
            t <= tail@.len(),
            head.len() == 9,
            tail@ == packed_entries(*addr, 19),
            tail@.len() == packed_entries_len(*addr, 19),
            9 + packed_entries_len(*addr, 19) <= usize::MAX,
            buf@ == head + tail@.take(t as int),
        decreases tail@.len() - t,
    {
        buf.push(tail[t]);
        proof {
            assert(head + tail@.take(t + 1) =~= (head + tail@.take(t as int)).push(
                tail@[t as int],
            ));
        }
        t = t + 1;
    }
    proof {
        assert(tail@.take(tail@.len() as int) =~= tail@);
        assert(buf@.skip(9) =~= tail@);
    }
    0
}

/// The 16-byte label field `i` of a packed address application-info
/// block, behind the category block and the renamed bitmap.
pub open spec fn addr_label_field(rec: Seq<u8>, i: int) -> Seq<u8> {
    rec.subrange(282 + 16 * i, 282 + 16 * i + 16)
}

/// The label-renamed bitmap of the first `i` labels: bit `j` set exactly
/// when label `j` is marked renamed.
pub open spec fn label_renamed_prefix(rv: Seq<i64>, i: int) -> u64
    decreases i,
{
    if i <= 0 {
        0
    } else {
        (label_renamed_prefix(rv, i - 1) | (if rv[i - 1] != 0 {
            (1u64 << ((i - 1) as u64)) as u64
        } else {
            0u64
        })) as u64
    }
}

/// Every category name field of the block is UTF-8.
pub open spec fn cat_names_ok(rec: Seq<u8>) -> bool {
    forall|i: int|
        0 <= i < 16 ==> vstd::utf8::valid_utf8(cstr16(#[trigger] cat_name_field(rec, i)))
}

/// Every label field of the block is UTF-8.
pub open spec fn labels_ok(rec: Seq<u8>) -> bool {
    forall|i: int|
        0 <= i < 22 ==> vstd::utf8::valid_utf8(cstr16(#[trigger] addr_label_field(rec, i)))
}

/// Bytes of one packed address application-info block past its category
/// block: the renamed bitmap, twenty-two labels, country and sort flag.
pub const ADDRESS_APP_INFO_TAIL_LEN: usize = 360;

/// The category tables hold exactly what the block's category half says.
pub open spec fn category_matches(aai: AddressAppInfo, rec: Seq<u8>) -> bool {
    &&& forall|i: int|
        0 <= i < 16 ==> aai.category.renamed@[i] == (if (be16(rec[0], rec[1]) & (1u16 << (
        i as u16))) != 0 {
            1u64
        } else {
            0u64
        })
    &&& forall|i: int|
        0 <= i < 16 ==> vstd::utf8::encode_utf8((#[trigger] aai.category.name@[i])@) == cstr16(
            cat_name_field(rec, i),
        )
    &&& forall|i: int| 0 <= i < 16 ==> aai.category.id@[i] == rec[258 + i]
    &&& aai.category.last_unique_id == rec[274]
}

/// Unpacks an address application-info block: the category block, then
/// the label tables, country and sort settings; the eight phone labels
/// are copied out of the label table.  An empty buffer only reports the
/// block size past the category block; too few granted bytes, or a name
/// or label that is not UTF-8, yield 0.
pub fn unpack_address_app_info(aai: &mut AddressAppInfo, record: &Vec<u8>, len: usize) -> (r: usize)
    requires
        old(aai).wf(),
        len >= CATEGORY_APP_INFO_LEN ==> record@.len() >= 275,
        len >= CATEGORY_APP_INFO_LEN + ADDRESS_APP_INFO_TAIL_LEN ==> record@.len() >= 637,
    ensures
        final(aai).wf(),
        final(aai).address_type == AddressType::AddressV1,
        final(aai).category.wf(),
        len < CATEGORY_APP_INFO_LEN ==> (record@.len() == 0 ==> r == ADDRESS_APP_INFO_TAIL_LEN)
            && (record@.len() > 0 ==> r == 0) && final(aai).category == old(aai).category,
        len >= CATEGORY_APP_INFO_LEN && !cat_names_ok(record@) ==> r == 0 && final(aai).category
            == old(aai).category,
        len >= CATEGORY_APP_INFO_LEN && cat_names_ok(record@) ==> {
            &&& category_matches(*final(aai), record@)
            &&& (len < CATEGORY_APP_INFO_LEN + ADDRESS_APP_INFO_TAIL_LEN ==> r == 0)
            &&& (len >= CATEGORY_APP_INFO_LEN + ADDRESS_APP_INFO_TAIL_LEN && !labels_ok(record@)
                ==> r == 0)
            &&& (len >= CATEGORY_APP_INFO_LEN + ADDRESS_APP_INFO_TAIL_LEN && labels_ok(record@)
                ==> {
                &&& r == CATEGORY_APP_INFO_LEN + ADDRESS_APP_INFO_TAIL_LEN
                &&& forall|i: int|
                    0 <= i < 22 ==> final(aai).label_renamed@[i] == (be32(
                        record@[278],
                        record@[279],
                        record@[280],
                        record@[281],
                    ) & (1u64 << (i as u64))) as i64
                &&& forall|i: int|
                    0 <= i < 22 ==> vstd::utf8::encode_utf8((#[trigger] final(aai).labels@[i])@)
                        == cstr16(addr_label_field(record@, i))
                &&& final(aai).country == be16(record@[634], record@[635])
                &&& final(aai).sort_by_company == record@[636]
                &&& forall|k: int|
                    0 <= k < 5 ==> (#[trigger] final(aai).phone_labels@[k])@ == final(aai).labels@[k + 3]@
                &&& forall|k: int|
                    5 <= k < 8 ==> (#[trigger] final(aai).phone_labels@[k])@ == final(aai).labels@[k + 14]@
            })
        },
{
    aai.address_type = AddressType::AddressV1;
    let i = unpack_category_app_info(&mut aai.category, record, len);
    if record.len() == 0 {
        return i + ADDRESS_APP_INFO_TAIL_LEN;
    }
    if i == 0 {
        return 0;
    }
    if len - i < ADDRESS_APP_INFO_TAIL_LEN {
        return 0;
    }
    let r32: u64 = ((record[278] as u64) << 24) | ((record[279] as u64) << 16) | ((
    record[280] as u64) << 8) | (record[281] as u64);
    proof {
        assert(r32 == be32(record@[278], record@[279], record@[280], record@[281]));
        let (b0, b1, b2, b3) = (record@[278], record@[279], record@[280], record@[281]);
        assert((((b0 as u64) << 24) | ((b1 as u64) << 16) | ((b2 as u64) << 8) | (b3 as u64))
            <= 0xffff_ffff) by (bit_vector);
    }
    let mut labels: Vec<String> = Vec::new();
    let mut li: usize = 0;
    while li < 22
        invariant
            li <= 22,
            record@.len() >= 637,
            labels@.len() == li,
            forall|k: int|
                0 <= k < li ==> vstd::utf8::valid_utf8(
                    cstr16(#[trigger] addr_label_field(record@, k)),
                ),
            forall|k: int|
                0 <= k < li ==> vstd::utf8::encode_utf8((#[trigger] labels@[k])@) == cstr16(
                    addr_label_field(record@, k),
                ),
            r32 == be32(record@[278], record@[279], record@[280], record@[281]),
            r32 <= 0xffff_ffff,
            aai.wf(),
            aai.address_type == AddressType::AddressV1,
            len >= CATEGORY_APP_INFO_LEN && cat_names_ok(record@),
            category_matches(*aai, record@),
        decreases 22 - li,
    {
        let base: usize = 282 + 16 * li;
        let mut j: usize = 0;
        let mut found = false;
        let mut field: Vec<u8> = Vec::new();
        while j < 16 && !found
            invariant
                j <= 16,
                base == 282 + 16 * li,
                li < 22,
                record@.len() >= 637,
                field@ == addr_label_field(record@, li as int).take(j as int),
                forall|k: int| 0 <= k < j ==> addr_label_field(record@, li as int)[k] != 0,
                found ==> j < 16 && addr_label_field(record@, li as int)[j as int] == 0,
            decreases 16 - j + (if found {
                0int
            } else {
                1int
            }),
        {
            let b = record[base + j];
            proof {
                assert(addr_label_field(record@, li as int)[j as int] == record@[base + j]);
            }
            if b == 0 {
                found = true;
            } else {
                field.push(b);
                proof {
                    assert(addr_label_field(record@, li as int).take(j + 1) =~= addr_label_field(
                        record@,
                        li as int,
                    ).take(j as int).push(addr_label_field(record@, li as int)[j as int]));
                }
                j = j + 1;
            }
        }
        proof {
            let f = addr_label_field(record@, li as int);
            lemma_first_nul(f, 0);
            let fnul = first_nul(f, 0);
            if found {
                if fnul == -1 {
                    assert(f[j as int] != 0);
                } else if fnul < j {
                    assert(f[fnul] != 0);
                    assert(f[fnul] == 0);
                } else if fnul > j {
                    assert(f[j as int] != 0);
                }
                assert(fnul == j);
                assert(field@ =~= cstr16(f));
            } else {
                if fnul >= 0 {
                    assert(f[fnul] != 0);
                    assert(f[fnul] == 0);
                }
                assert(fnul == -1);
                assert(field@ =~= f.take(16));
                assert(f.take(16) =~= f);
                assert(field@ =~= cstr16(f));
            }
        }
        let ghost fbytes = field@;
        let st = match bytes_to_string(field) {
            Some(st) => st,
            None => {
                return 0;
            },
        };
        let ghost gst = st@;
        let ghost labels0 = labels@;
        labels.push(st);
        proof {
            let f = addr_label_field(record@, li as int);
            assert(vstd::utf8::encode_utf8(gst) == fbytes && fbytes == cstr16(f));
            assert(labels@[li as int]@ == gst);
            assert forall|k: int| 0 <= k < li implies vstd::utf8::encode_utf8(
                (#[trigger] labels@[k])@,
            ) == cstr16(addr_label_field(record@, k)) by {
                assert(labels@[k] == labels0[k]);
                assert(vstd::utf8::encode_utf8(labels0[k]@) == cstr16(addr_label_field(record@, k)));
            }
        }
        li = li + 1;
    }
    let mut label_renamed: Vec<i64> = Vec::new();
    let mut k: usize = 0;
    while k < 22
        invariant
            k <= 22,
            record@.len() >= 637,
            label_renamed@.len() == k,
            labels@.len() == 22,
            r32 == be32(record@[278], record@[279], record@[280], record@[281]),
            r32 <= 0xffff_ffff,
            forall|kk: int|
                0 <= kk < 22 ==> vstd::utf8::valid_utf8(
                    cstr16(#[trigger] addr_label_field(record@, kk)),
                ),
            forall|kk: int|
                0 <= kk < 22 ==> vstd::utf8::encode_utf8((#[trigger] labels@[kk])@) == cstr16(
                    addr_label_field(record@, kk),
                ),
            forall|j: int|
                0 <= j < k ==> label_renamed@[j] == (r32 & (1u64 << (j as u64))) as i64,
            aai.wf(),
            aai.address_type == AddressType::AddressV1,
            len >= CATEGORY_APP_INFO_LEN && cat_names_ok(record@),
            category_matches(*aai, record@),
        decreases 22 - k,
    {
        let bit: u64 = 1u64 << (k as u64);
        let masked: u64 = r32 & bit;
        proof {
            assert(masked <= 0x8000_0000_0000_0000) by (bit_vector)
                requires
                    masked == r32 & (1u64 << (k as u64)),
            ;
            assert(r32 & (1u64 << (k as u64)) <= r32) by (bit_vector);
        }
        label_renamed.push(masked as i64);
        k = k + 1;
    }
    let mut phone_labels: Vec<String> = Vec::new();
    let mut p: usize = 0;
    while p < 5
        invariant
            p <= 5,
            labels@.len() == 22,
            phone_labels@.len() == p,
            forall|j: int| 0 <= j < p ==> (#[trigger] phone_labels@[j])@ == labels@[j + 3]@,
            aai.wf(),
            aai.address_type == AddressType::AddressV1,
            len >= CATEGORY_APP_INFO_LEN && cat_names_ok(record@),
            category_matches(*aai, record@),
        decreases 5 - p,
    {
        phone_labels.push(labels[p + 3].clone());
        p = p + 1;
    }
    let mut p2: usize = 5;
    while p2 < 8
        invariant
            5 <= p2 <= 8,
            labels@.len() == 22,
            phone_labels@.len() == p2,
            forall|j: int| 0 <= j < 5 ==> (#[trigger] phone_labels@[j])@ == labels@[j + 3]@,
            forall|j: int| 5 <= j < p2 ==> (#[trigger] phone_labels@[j])@ == labels@[j + 14]@,
            aai.wf(),
            aai.address_type == AddressType::AddressV1,
            len >= CATEGORY_APP_INFO_LEN && cat_names_ok(record@),
            category_matches(*aai, record@),
            record@.len() >= 637,
            r32 == be32(record@[278], record@[279], record@[280], record@[281]),
            label_renamed@.len() == 22,
            forall|j: int|
                0 <= j < 22 ==> label_renamed@[j] == (r32 & (1u64 << (j as u64))) as i64,
            forall|kk: int|
                0 <= kk < 22 ==> vstd::utf8::encode_utf8((#[trigger] labels@[kk])@) == cstr16(
                    addr_label_field(record@, kk),
                ),
        decreases 8 - p2,
    {
        phone_labels.push(labels[p2 + 14].clone());
        p2 = p2 + 1;
    }
    let country: u16 = ((record[634] as u16) << 8) | (record[635] as u16);
    aai.labels = labels;
    aai.label_renamed = label_renamed;
    aai.phone_labels = phone_labels;
    aai.country = country;
    aai.sort_by_company = record[636];
    CATEGORY_APP_INFO_LEN + ADDRESS_APP_INFO_TAIL_LEN
}

/// Packs an address application-info block in place: the category block,
/// then the renamed bitmap, the twenty-two zero-padded labels, the
/// country, the sort flag and a padding byte.  An empty buffer only
/// reports the whole block's size; too few granted bytes yield 0 with
/// nothing written.
pub fn pack_address_app_info(aai: &AddressAppInfo, record: &mut Vec<u8>, len: usize) -> (r: usize)
    requires
        aai.wf(),
        old(record)@.len() == 0 || len < CATEGORY_APP_INFO_LEN || old(record)@.len()
            >= CATEGORY_APP_INFO_LEN + ADDRESS_APP_INFO_TAIL_LEN,
    ensures
        old(record)@.len() == 0 ==> r == CATEGORY_APP_INFO_LEN + ADDRESS_APP_INFO_TAIL_LEN
            && final(record)@ == old(record)@,
        old(record)@.len() > 0 && len < CATEGORY_APP_INFO_LEN ==> r == 0 && final(record)@ == old(
            record,
        )@,
        old(record)@.len() > 0 && len >= CATEGORY_APP_INFO_LEN ==> {
            &&& r == CATEGORY_APP_INFO_LEN + ADDRESS_APP_INFO_TAIL_LEN
            &&& final(record)@.len() == old(record)@.len()
            &&& be16(final(record)@[0], final(record)@[1]) == renamed_prefix(aai.category.renamed@, 16)
            &&& forall|i: int|
                0 <= i < 16 ==> #[trigger] cat_name_field(final(record)@, i) == fixed16(
                    vstd::utf8::encode_utf8(aai.category.name@[i]@),
                )
            &&& forall|i: int| 0 <= i < 16 ==> final(record)@[258 + i] == aai.category.id@[i]
            &&& final(record)@[274] == aai.category.last_unique_id
            &&& final(record)@[275] == 0 && final(record)@[276] == 0 && final(record)@[277] == 0
            &&& be32(final(record)@[278], final(record)@[279], final(record)@[280], final(record)@[281]) == label_renamed_prefix(aai.label_renamed@, 22)
            &&& forall|i: int|
                0 <= i < 22 ==> #[trigger] addr_label_field(final(record)@, i) == fixed16(
                    vstd::utf8::encode_utf8(aai.labels@[i]@),
                )
            &&& be16(final(record)@[634], final(record)@[635]) == aai.country
            &&& final(record)@[636] == aai.sort_by_company
            &&& final(record)@[637] == 0
            &&& forall|j: int|
                CATEGORY_APP_INFO_LEN + ADDRESS_APP_INFO_TAIL_LEN <= j < old(record)@.len()
                    ==> final(record)@[j] == old(record)@[j]
        },
{
    let i = pack_category_app_info(&aai.category, record, len);
    if record.len() == 0 {
        return ADDRESS_APP_INFO_TAIL_LEN + i;
    }
    if i == 0 {
        return 0;
    }
    // Build the 360-byte tail in a scratch buffer.
    let mut bm: u64 = 0;
    let mut bi: usize = 0;
    while bi < 22
        invariant
            bi <= 22,
            aai.wf(),
            bm == label_renamed_prefix(aai.label_renamed@, bi as int),
        decreases 22 - bi,
    {
        proof {
            let b0 = label_renamed_prefix(aai.label_renamed@, bi as int);
            assert((b0 | 0) == b0) by (bit_vector);
        }
        if aai.label_renamed[bi] != 0 {
            bm = bm | (1u64 << (bi as u64));
        }
        bi = bi + 1;
    }
    proof {
        lemma_label_renamed_prefix_bound(aai.label_renamed@, 22);
    }
    let mut block: Vec<u8> = Vec::new();
    block.push(((bm >> 24) & 0xff) as u8);
    block.push(((bm >> 16) & 0xff) as u8);
    block.push(((bm >> 8) & 0xff) as u8);
    block.push((bm & 0xff) as u8);
    proof {
        let (c0, c1, c2, c3) = (
            ((bm >> 24) & 0xff) as u8,
            ((bm >> 16) & 0xff) as u8,
            ((bm >> 8) & 0xff) as u8,
            (bm & 0xff) as u8,
        );
        assert(bm <= 0xffff_ffff ==> be32(c0, c1, c2, c3) == bm) by (bit_vector)
            requires
                c0 == ((bm >> 24) & 0xff) as u8 && c1 == ((bm >> 16) & 0xff) as u8 && c2 == ((bm
                    >> 8) & 0xff) as u8 && c3 == (bm & 0xff) as u8,
        ;
    }
    let mut i2: usize = 0;
    while i2 < 22
        invariant
            i2 <= 22,
            aai.wf(),
            block@.len() == 4 + 16 * i2,
            be32(block@[0], block@[1], block@[2], block@[3]) == label_renamed_prefix(
                aai.label_renamed@,
                22,
            ),
            forall|k: int|
                0 <= k < i2 ==> #[trigger] block@.subrange(4 + 16 * k, 4 + 16 * k + 16) == fixed16(
                    vstd::utf8::encode_utf8(aai.labels@[k]@),
                ),
        decreases 22 - i2,
    {
        let ghost b0 = block@;
        let name_bytes: Vec<u8> = aai.labels[i2].as_str().as_bytes_vec();
        let mut j: usize = 0;
        while j < 16
            invariant
                j <= 16,
                i2 < 22,
                aai.wf(),
                name_bytes@ == vstd::utf8::encode_utf8(aai.labels@[i2 as int]@),
                b0.len() == 4 + 16 * i2,
                block@.len() == 4 + 16 * i2 + j,
                block@.take(b0.len() as int) == b0,
                forall|k: int| 0 <= k < j ==> block@[b0.len() + k] == fixed16(name_bytes@)[k],
            decreases 16 - j,
        {
            let b: u8 = if j < name_bytes.len() {
                name_bytes[j]
            } else {
                0
            };
            block.push(b);
            proof {
                assert(block@.take(b0.len() as int) =~= b0);
            }
            j = j + 1;
        }
        proof {
            assert(block@.subrange(4 + 16 * i2, 4 + 16 * i2 + 16) =~= fixed16(name_bytes@));
            assert forall|k: int| 0 <= k < i2 implies #[trigger] block@.subrange(
                4 + 16 * k,
                4 + 16 * k + 16,
            ) == fixed16(vstd::utf8::encode_utf8(aai.labels@[k]@)) by {
                assert(block@.subrange(4 + 16 * k, 4 + 16 * k + 16) =~= b0.subrange(
                    4 + 16 * k,
                    4 + 16 * k + 16,
                ));
            }
        }
        i2 = i2 + 1;
    }
    let ghost labeled = block@;
    let cv: u16 = aai.country;
    let country_hi: u8 = ((cv >> 8) & 0xff) as u8;
    let country_lo: u8 = (cv & 0xff) as u8;
    block.push(country_hi);
    block.push(country_lo);
    block.push(aai.sort_by_company);
    block.push(0);
    proof {
        assert(be16(country_hi, country_lo) == cv) by (bit_vector)
            requires
                country_hi == ((cv >> 8) & 0xff) as u8 && country_lo == (cv & 0xff) as u8,
        ;
        assert(block@.len() == ADDRESS_APP_INFO_TAIL_LEN);
        assert forall|k: int| 0 <= k < 22 implies #[trigger] block@.subrange(
            4 + 16 * k,
            4 + 16 * k + 16,
        ) == fixed16(vstd::utf8::encode_utf8(aai.labels@[k]@)) by {
            assert(block@.subrange(4 + 16 * k, 4 + 16 * k + 16) =~= labeled.subrange(
                4 + 16 * k,
                4 + 16 * k + 16,
            ));
        }
    }
    // Copy the tail over bytes 278..638 of the caller's buffer.
    let ghost cat_done = record@;
    let mut t: usize = 0;
    while t < ADDRESS_APP_INFO_TAIL_LEN
        invariant
            t <= ADDRESS_APP_INFO_TAIL_LEN,
            aai.wf(),
            block@.len() == ADDRESS_APP_INFO_TAIL_LEN,
            record@.len() == cat_done.len() >= CATEGORY_APP_INFO_LEN + ADDRESS_APP_INFO_TAIL_LEN,
            be32(block@[0], block@[1], block@[2], block@[3]) == label_renamed_prefix(
                aai.label_renamed@,
                22,
            ),
            forall|k: int|
                0 <= k < 22 ==> #[trigger] block@.subrange(4 + 16 * k, 4 + 16 * k + 16) == fixed16(
                    vstd::utf8::encode_utf8(aai.labels@[k]@),
                ),
            be16(block@[356], block@[357]) == aai.country,
            block@[358] == aai.sort_by_company,
            block@[359] == 0,
            forall|idx: int|
                0 <= idx < t ==> record@[CATEGORY_APP_INFO_LEN + idx] == block@[idx],
            forall|idx: int|
                0 <= idx < record@.len() && !(CATEGORY_APP_INFO_LEN <= idx < CATEGORY_APP_INFO_LEN
                    + t) ==> record@[idx] == cat_done[idx],
        decreases ADDRESS_APP_INFO_TAIL_LEN - t,
    {
        let v = block[t];
        record.set(278 + t, v);
        t = t + 1;
    }
    proof {
        assert forall|i: int| 0 <= i < 16 implies #[trigger] cat_name_field(record@, i) == fixed16(
            vstd::utf8::encode_utf8(aai.category.name@[i]@),
        ) by {
            assert(cat_name_field(record@, i) =~= cat_name_field(cat_done, i));
        }
        assert forall|i: int| 0 <= i < 22 implies #[trigger] addr_label_field(record@, i)
            == fixed16(vstd::utf8::encode_utf8(aai.labels@[i]@)) by {
            assert(addr_label_field(record@, i) =~= block@.subrange(4 + 16 * i, 4 + 16 * i + 16));
        }
    }
    CATEGORY_APP_INFO_LEN + ADDRESS_APP_INFO_TAIL_LEN
}

/// A bitmap over twenty-two bits stays within 32 bits.
proof fn lemma_label_renamed_prefix_bound(rv: Seq<i64>, i: int)
    requires
        0 <= i <= 22,
    ensures
        label_renamed_prefix(rv, i) <= 0xffff_ffff,
    decreases i,
{
    if i > 0 {
        lemma_label_renamed_prefix_bound(rv, i - 1);
        let p = label_renamed_prefix(rv, i - 1);
        if rv[i - 1] != 0 {
            let sh: u64 = (i - 1) as u64;
            assert(p <= 0xffff_ffff && sh < 22 ==> (p | (1u64 << sh)) <= 0xffff_ffff)
                by (bit_vector);
        } else {
            assert(p <= 0xffff_ffff ==> (p | 0) <= 0xffff_ffff) by (bit_vector);
        }
    }
}

} // verus!
