//! The framing layer: turns a raw byte stream into discrete, checksummed,
//! addressed packets.  Each frame is a three-byte signature, five header
//! fields, a header checksum byte, the payload, and a 16-bit CRC over
//! header plus payload.  Corrupt leading bytes are skipped one at a time
//! (resynchronization); a frame whose CRC does not match is discarded
//! whole; a frame repeating the previous one's addressing and transaction
//! id is dropped silently.

use vstd::prelude::*;

use vstd::slice::slice_subrange;

use crate::bytes::be16;
use crate::crc::crc16;
use crate::crc::crc16_spec;
use crate::TransportError;

verus! {

/// First signature byte of every frame.
pub const SLP_SIG_BYTE1: u8 = 0xbe;

/// Second signature byte of every frame.
pub const SLP_SIG_BYTE2: u8 = 0xef;

/// Third signature byte of every frame.
pub const SLP_SIG_BYTE3: u8 = 0xed;

/// Bytes of header before the payload: signature, addressing, length,
/// transaction id, checksum.
pub const SLP_HEADER_LEN: usize = 10;

/// Bytes of footer after the payload: the 16-bit CRC.
pub const SLP_FOOTER_LEN: usize = 2;

/// Largest payload one frame may carry.
pub const SLP_MTU: usize = 0xffff;

/// Socket class used by default for both ends of a frame.
pub const SLP_SOCK_DLP: u8 = 0x03;

/// Packet type of frames carrying reliability-layer traffic.
pub const SLP_TYPE_PADP: u8 = 0x02;

/// Packet type of loopback frames.
pub const SLP_TYPE_LOOP: u8 = 0x03;

/// Transaction id reserved for the handshake wake-up exchange; the framing
/// layer never assigns it to ordinary traffic.
pub const SLP_WAKEUP_TXID: u8 = 0xff;

/// The five addressing and length fields a frame header carries between
/// the signature and the checksum byte.
pub struct FrameHeader {
    pub dest: u8,
    pub src: u8,
    pub ptype: u8,
    pub len: u16,
    pub txid: u8,
}

/// The header checksum: the sum of the nine header bytes before it,
/// modulo 256.
pub open spec fn header_checksum(h: FrameHeader) -> u8 {
    ((0xbe + 0xef + 0xed + h.dest + h.src + h.ptype + (h.len >> 8) + (h.len & 0xff)
        + h.txid) % 256) as u8
}

/// The ten header bytes of a frame.
pub open spec fn header_seq(h: FrameHeader) -> Seq<u8> {
    seq![
        0xbe,
        0xef,
        0xed,
        h.dest,
        h.src,
        h.ptype,
        (h.len >> 8) as u8,
        (h.len & 0xff) as u8,
        h.txid,
        header_checksum(h),
    ]
}

/// The CRC carried in a frame's footer: over header and payload.
pub open spec fn frame_crc(h: FrameHeader, payload: Seq<u8>) -> u16 {
    crc16_spec(header_seq(h) + payload)
}

/// The complete wire image of one frame.
pub open spec fn frame_seq(h: FrameHeader, payload: Seq<u8>) -> Seq<u8> {
    header_seq(h) + payload + seq![
        (frame_crc(h, payload) >> 8) as u8,
        (frame_crc(h, payload) & 0xff) as u8,
    ]
}

/// The three signature bytes stand at position `p` of the stream.
pub open spec fn sig_at(s: Seq<u8>, p: int) -> bool {
    &&& p + 3 <= s.len()
    &&& s[p] == 0xbe
    &&& s[p + 1] == 0xef
    &&& s[p + 2] == 0xed
}

/// As much of the signature as the stream holds past `p` matches; a
/// truncated stream may still grow into a frame here.
pub open spec fn sig_prefix_ok(s: Seq<u8>, p: int) -> bool {
    &&& (p < s.len() ==> s[p] == 0xbe)
    &&& (p + 1 < s.len() ==> s[p + 1] == 0xef)
    &&& (p + 2 < s.len() ==> s[p + 2] == 0xed)
}

/// The header fields read from position `p` of the stream.
pub open spec fn parsed_header(s: Seq<u8>, p: int) -> FrameHeader {
    FrameHeader {
        dest: s[p + 3],
        src: s[p + 4],
        ptype: s[p + 5],
        len: be16(s[p + 6], s[p + 7]),
        txid: s[p + 8],
    }
}

/// A full header stands at `p`: signature, then a checksum byte matching
/// the eight bytes before it.
pub open spec fn header_ok(s: Seq<u8>, p: int) -> bool {
    &&& p + 10 <= s.len()
    &&& sig_at(s, p)
    &&& s[p + 9] == header_checksum(parsed_header(s, p))
}

/// Total length of the frame whose header stands at `p`.
pub open spec fn frame_len_at(s: Seq<u8>, p: int) -> int {
    12 + parsed_header(s, p).len
}

/// A whole frame, payload and footer included, stands at `p`.
pub open spec fn frame_complete_at(s: Seq<u8>, p: int) -> bool {
    &&& header_ok(s, p)
    &&& p + frame_len_at(s, p) <= s.len()
}

/// The frame at `p` carries a CRC matching its header and payload.
pub open spec fn frame_crc_ok(s: Seq<u8>, p: int) -> bool {
    &&& frame_complete_at(s, p)
    &&& be16(s[p + frame_len_at(s, p) - 2], s[p + frame_len_at(s, p) - 1]) == crc16_spec(
        s.subrange(p, p + frame_len_at(s, p) - 2),
    )
}

/// A frame passes every validation step at `p`.
pub open spec fn valid_frame_at(s: Seq<u8>, p: int) -> bool {
    frame_complete_at(s, p) && frame_crc_ok(s, p)
}

/// The payload bytes of the frame at `p`.
pub open spec fn frame_payload_at(s: Seq<u8>, p: int) -> Seq<u8> {
    s.subrange(p + 10, p + 10 + parsed_header(s, p).len)
}

/// What one pass over the stream yields: a validated frame, or a position
/// from which to resume once more bytes have arrived.
pub enum ScanOutcome {
    Found { pos: usize, flen: usize },
    NeedMore { pos: usize },
}

/// Where scanning from `p` ends: the first position whose candidate frame
/// survives signature, checksum and CRC validation, skipping corrupt bytes
/// one at a time and CRC-failed frames whole.
pub open spec fn scan_spec(s: Seq<u8>, p: int) -> ScanOutcome
    decreases s.len() - p
        when 0 <= p <= s.len()
{
    if p + 10 > s.len() {
        if sig_prefix_ok(s, p) {
            ScanOutcome::NeedMore { pos: p as usize }
        } else {
            scan_spec(s, p + 1)
        }
    } else if !sig_at(s, p) {
        scan_spec(s, p + 1)
    } else if s[p + 9] != header_checksum(parsed_header(s, p)) {
        scan_spec(s, p + 1)
    } else if p + frame_len_at(s, p) > s.len() {
        ScanOutcome::NeedMore { pos: p as usize }
    } else if !frame_crc_ok(s, p) {
        scan_spec(s, p + frame_len_at(s, p))
    } else {
        ScanOutcome::Found { pos: p as usize, flen: frame_len_at(s, p) as usize }
    }
}

/// Scanning never runs backwards, and what it finds is a valid frame.
pub proof fn lemma_scan_spec_ok(s: Seq<u8>, p: int)
    requires
        0 <= p <= s.len(),
        s.len() <= usize::MAX,
    ensures
        scan_spec(s, p) matches ScanOutcome::Found { pos, flen } ==> p <= pos && valid_frame_at(
            s,
            pos as int,
        ) && flen == frame_len_at(s, pos as int),
        scan_spec(s, p) matches ScanOutcome::NeedMore { pos } ==> p <= pos <= s.len(),
    decreases s.len() - p,
{
    if p + 10 > s.len() {
        if !sig_prefix_ok(s, p) {
            lemma_scan_spec_ok(s, p + 1);
        }
    } else if !sig_at(s, p) {
        lemma_scan_spec_ok(s, p + 1);
    } else if s[p + 9] != header_checksum(parsed_header(s, p)) {
        lemma_scan_spec_ok(s, p + 1);
    } else if p + frame_len_at(s, p) > s.len() {
    } else if !frame_crc_ok(s, p) {
        lemma_scan_spec_ok(s, p + frame_len_at(s, p));
    }
}

/// Builds the wire image of one frame around a payload.  Rejects payloads
/// over the MTU with `DatasizeError`.
pub fn frame_write(dest: u8, src: u8, ptype: u8, txid: u8, payload: &Vec<u8>) -> (r: Result<
    Vec<u8>,
    TransportError,
>)
    ensures
        payload@.len() <= SLP_MTU ==> (r matches Ok(buf) && buf@ == frame_seq(
            FrameHeader { dest, src, ptype, len: payload@.len() as u16, txid },
            payload@,
        )),
        payload@.len() > SLP_MTU ==> (r matches Err(e) && e == TransportError::DatasizeError),
{
    if payload.len() > SLP_MTU {
        return Err(TransportError::DatasizeError);
    }
    let len16: u16 = payload.len() as u16;
    let ghost h = FrameHeader { dest, src, ptype, len: len16, txid };
    let mut buf: Vec<u8> = Vec::new();
    buf.push(SLP_SIG_BYTE1);
    buf.push(SLP_SIG_BYTE2);
    buf.push(SLP_SIG_BYTE3);
    buf.push(dest);
    buf.push(src);
    buf.push(ptype);
    let len_hi: u8 = (len16 >> 8) as u8;
    let len_lo: u8 = (len16 & 0xff) as u8;
    buf.push(len_hi);
    buf.push(len_lo);
    buf.push(txid);
    let sum: u32 = 0xbe + 0xef + 0xed + (dest as u32) + (src as u32) + (ptype as u32) + (
    len_hi as u32) + (len_lo as u32) + (txid as u32);
    let ck: u8 = (sum % 256) as u8;
    proof {
        assert((len16 >> 8) <= 0xff && (len16 & 0xff) <= 0xff) by (bit_vector);
        assert(len_hi == (h.len >> 8) as u8 && len_lo == (h.len & 0xff) as u8);
        assert(ck == header_checksum(h));
    }
    buf.push(ck);
    assert(buf@ =~= header_seq(h));
    let mut i: usize = 0;
    while i < payload.len()
        invariant
            i <= payload@.len(),
            buf@ == header_seq(h) + payload@.take(i as int),
        decreases payload@.len() - i,
    {
        buf.push(payload[i]);
        proof {
            assert(header_seq(h) + payload@.take(i + 1) =~= (header_seq(h) + payload@.take(
                i as int,
            )).push(payload@[i as int]));
        }
        i = i + 1;
    }
    proof {
        assert(payload@.take(payload@.len() as int) =~= payload@);
    }
    let crc: u16 = crc16(buf.as_slice());
    buf.push((crc >> 8) as u8);
    buf.push((crc & 0xff) as u8);
    proof {
        assert(buf@ =~= frame_seq(h, payload@));
    }
    Ok(buf)
}

/// Scans the stream from `start` for the next frame that survives
/// validation, resynchronizing over corrupt bytes.
pub fn frame_scan(buf: &Vec<u8>, start: usize) -> (r: ScanOutcome)
    requires
        start <= buf@.len(),
    ensures
        r == scan_spec(buf@, start as int),
{
    let n: usize = buf.len();
    let mut p: usize = start;
    loop
        invariant
            start <= p <= n,
            n == buf@.len(),
            scan_spec(buf@, start as int) == scan_spec(buf@, p as int),
        decreases n - p,
    {
        if n - p < 10 {
            if p < n && buf[p] != SLP_SIG_BYTE1 {
                p = p + 1;
                continue ;
            }
            if n - p > 1 && buf[p + 1] != SLP_SIG_BYTE2 {
                p = p + 1;
                continue ;
            }
            if n - p > 2 && buf[p + 2] != SLP_SIG_BYTE3 {
                p = p + 1;
                continue ;
            }
            return ScanOutcome::NeedMore { pos: p };
        }
        if buf[p] != SLP_SIG_BYTE1 || buf[p + 1] != SLP_SIG_BYTE2 || buf[p + 2] != SLP_SIG_BYTE3 {
            p = p + 1;
            continue ;
        }
        let dest = buf[p + 3];
        let src = buf[p + 4];
        let ptype = buf[p + 5];
        let len_hi = buf[p + 6];
        let len_lo = buf[p + 7];
        let txid = buf[p + 8];
        let sum: u32 = 0xbe + 0xef + 0xed + (dest as u32) + (src as u32) + (ptype as u32) + (
        len_hi as u32) + (len_lo as u32) + (txid as u32);
        let ck: u8 = (sum % 256) as u8;
        proof {
            let h = parsed_header(buf@, p as int);
            let hlen: u16 = be16(len_hi, len_lo);
            assert(h.len == hlen);
            assert((hlen >> 8) == len_hi && (hlen & 0xff) == len_lo) by (bit_vector)
                requires
                    hlen == (((len_hi as u16) << 8) | (len_lo as u16)) as u16,
            ;
            assert(ck == header_checksum(h));
        }
        if buf[p + 9] != ck {
            p = p + 1;
            continue ;
        }
        let plen: usize = ((len_hi as usize) << 8) | (len_lo as usize);
        proof {
            let h = parsed_header(buf@, p as int);
            let hlen: u16 = be16(len_hi, len_lo);
            assert(h.len == hlen);
            assert(plen == hlen) by (bit_vector)
                requires
                    plen == (((len_hi as usize) << 8) | (len_lo as usize)) as usize && hlen == (((
                    len_hi as u16) << 8) | (len_lo as u16)) as u16,
            ;
        }
        let flen: usize = 12 + plen;
        if flen > n - p {
            return ScanOutcome::NeedMore { pos: p };
        }
        let crc_computed: u16 = crc16(slice_range(buf.as_slice(), p, p + flen - 2));
        let stored_hi = buf[p + flen - 2];
        let stored_lo = buf[p + flen - 1];
        let crc_stored: u16 = ((stored_hi as u16) << 8) | (stored_lo as u16);
        if crc_stored != crc_computed {
            p = p + flen;
            continue ;
        }
        return ScanOutcome::Found { pos: p, flen };
    }
}

/// Borrows the subslice `[from, to)` of a slice.
pub fn slice_range<'a>(s: &'a [u8], from: usize, to: usize) -> (r: &'a [u8])
    requires
        from <= to <= s@.len(),
    ensures
        r@ == s@.subrange(from as int, to as int),
{
    slice_subrange(s, from, to)
}

/// Copies the payload of the validated frame standing at `pos`.
pub fn frame_payload(buf: &Vec<u8>, pos: usize, flen: usize) -> (r: Vec<u8>)
    requires
        valid_frame_at(buf@, pos as int),
        flen == frame_len_at(buf@, pos as int),
    ensures
        r@ == frame_payload_at(buf@, pos as int),
{
    let n: usize = buf.len();
    proof {
        assert(pos + flen <= n);
    }
    let mut out: Vec<u8> = Vec::new();
    let mut i: usize = pos + 10;
    let end: usize = pos + flen - 2;
    while i < end
        invariant
            pos + 10 <= i <= end,
            end == pos + frame_len_at(buf@, pos as int) - 2 <= buf@.len(),
            valid_frame_at(buf@, pos as int),
            out@ == buf@.subrange(pos + 10, i as int),
        decreases end - i,
    {
        out.push(buf[i]);
        proof {
            assert(buf@.subrange(pos + 10, i + 1) =~= buf@.subrange(pos + 10, i as int).push(
                buf@[i as int],
            ));
        }
        i = i + 1;
    }
    proof {
        assert(frame_payload_at(buf@, pos as int) =~= buf@.subrange(
            pos + 10,
            pos + frame_len_at(buf@, pos as int) - 2,
        ));
    }
    out
}

/// The addressing fields and transaction id of the frame at `p`, the
/// quadruple remembered for duplicate suppression.
pub open spec fn frame_key(s: Seq<u8>, p: int) -> (u8, u8, u8, u8) {
    (parsed_header(s, p).dest, parsed_header(s, p).src, parsed_header(s, p).ptype, parsed_header(
        s,
        p,
    ).txid)
}

/// The transaction id following `t`: one more, wrapping, and never the
/// reserved wake-up id.
pub open spec fn txid_after(t: u8) -> u8 {
    if t == 0xfe {
        0
    } else if t == 0xff {
        0
    } else {
        (t + 1) as u8
    }
}

/// Where a framing-layer read from `p` ends once duplicates of the last
/// delivered frame are dropped: the first validated frame whose key
/// differs from `last`, when duplicate suppression is on.
pub open spec fn read_spec(
    last: Option<(u8, u8, u8, u8)>,
    dedup: bool,
    s: Seq<u8>,
    p: int,
) -> ScanOutcome
    decreases s.len() - p
        when 0 <= p <= s.len() && s.len() <= usize::MAX
        via read_spec_decreases
{
    match scan_spec(s, p) {
        ScanOutcome::NeedMore { pos } => ScanOutcome::NeedMore { pos },
        ScanOutcome::Found { pos, flen } => {
            if dedup && last == Some(frame_key(s, pos as int)) {
                read_spec(last, dedup, s, pos + flen)
            } else {
                ScanOutcome::Found { pos, flen }
            }
        },
    }
}

#[via_fn]
proof fn read_spec_decreases(last: Option<(u8, u8, u8, u8)>, dedup: bool, s: Seq<u8>, p: int) {
    lemma_scan_spec_ok(s, p);
}

/// What a framing read yields is a valid, complete frame past the start
/// position, or a resume point.
pub proof fn lemma_read_spec_ok(last: Option<(u8, u8, u8, u8)>, dedup: bool, s: Seq<u8>, p: int)
    requires
        0 <= p <= s.len(),
        s.len() <= usize::MAX,
    ensures
        read_spec(last, dedup, s, p) matches ScanOutcome::Found { pos, flen } ==> p <= pos
            && valid_frame_at(s, pos as int) && flen == frame_len_at(s, pos as int) && !(dedup
            && last == Some(frame_key(s, pos as int))),
        read_spec(last, dedup, s, p) matches ScanOutcome::NeedMore { pos } ==> p <= pos <= s.len(),
    decreases s.len() - p,
{
    lemma_scan_spec_ok(s, p);
    match scan_spec(s, p) {
        ScanOutcome::NeedMore { pos } => {},
        ScanOutcome::Found { pos, flen } => {
            if dedup && last == Some(frame_key(s, pos as int)) {
                lemma_read_spec_ok(last, dedup, s, pos + flen);
            }
        },
    }
}

/// What a framing-layer read hands upward: one deduplicated payload, or a
/// resume position for when more bytes arrive.
pub enum ReadOutcome {
    Delivered { pos: usize, flen: usize, payload: Vec<u8> },
    NeedMore { pos: usize },
}

/// Per-connection state of the framing layer: default addressing for
/// outgoing frames, the next transaction id, and the key of the last
/// frame delivered upward, kept for duplicate suppression.
pub struct FramingState {
    pub dest: u8,
    pub src: u8,
    pub ptype: u8,
    pub next_txid: u8,
    pub last_key: Option<(u8, u8, u8, u8)>,
    pub dedup: bool,
}

impl FramingState {
    /// A fresh framing layer: DLP-class sockets on both ends, reliability
    /// packet type, transaction ids starting over, duplicate suppression
    /// on.
    pub fn new() -> (r: FramingState)
        ensures
            r.dest == SLP_SOCK_DLP,
            r.src == SLP_SOCK_DLP,
            r.ptype == SLP_TYPE_PADP,
            r.next_txid == 0xfe,
            r.last_key is None,
            r.dedup,
    {
        FramingState {
            dest: SLP_SOCK_DLP,
            src: SLP_SOCK_DLP,
            ptype: SLP_TYPE_PADP,
            next_txid: 0xfe,
            last_key: None,
            dedup: true,
        }
    }

    /// Takes the next transaction id, skipping the reserved wake-up id.
    pub fn take_txid(&mut self) -> (t: u8)
        ensures
            t == txid_after(old(self).next_txid),
            final(self).next_txid == t,
            final(self).dest == old(self).dest,
            final(self).src == old(self).src,
            final(self).ptype == old(self).ptype,
            final(self).last_key == old(self).last_key,
            final(self).dedup == old(self).dedup,
            t != SLP_WAKEUP_TXID,
    {
        let t: u8 = if self.next_txid >= 0xfe {
            0
        } else {
            self.next_txid + 1
        };
        self.next_txid = t;
        t
    }

    /// Builds a frame around `payload` under a fresh transaction id, using
    /// the connection's default addressing.  Fails with `DatasizeError`
    /// beyond the MTU, leaving the transaction id unspent.
    pub fn write(&mut self, payload: &Vec<u8>) -> (r: Result<Vec<u8>, TransportError>)
        ensures
            final(self).dest == old(self).dest && final(self).src == old(self).src && final(self).ptype == old(self).ptype && final(self).last_key == old(self).last_key && final(self).dedup == old(self).dedup,
            payload@.len() <= SLP_MTU ==> {
                &&& r matches Ok(buf) && buf@ == frame_seq(
                    FrameHeader {
                        dest: old(self).dest,
                        src: old(self).src,
                        ptype: old(self).ptype,
                        len: payload@.len() as u16,
                        txid: txid_after(old(self).next_txid),
                    },
                    payload@,
                )
                &&& final(self).next_txid == txid_after(old(self).next_txid)
            },
            payload@.len() > SLP_MTU ==> (r matches Err(e) && e == TransportError::DatasizeError)
                && final(self).next_txid == old(self).next_txid,
    {
        if payload.len() > SLP_MTU {
            return Err(TransportError::DatasizeError);
        }
        let txid = self.take_txid();
        frame_write(self.dest, self.src, self.ptype, txid, payload)
    }

    /// Reads the next frame from the stream past `start`: scans with
    /// resynchronization, drops a frame repeating the last delivered key,
    /// and hands the first fresh payload upward.
    pub fn read(&mut self, buf: &Vec<u8>, start: usize) -> (r: ReadOutcome)
        requires
            start <= buf@.len(),
        ensures
            final(self).dest == old(self).dest && final(self).src == old(self).src && final(self).ptype == old(self).ptype && final(self).next_txid == old(self).next_txid && final(self).dedup == old(self).dedup,
            r matches ReadOutcome::NeedMore { pos } ==> read_spec(
                old(self).last_key,
                old(self).dedup,
                buf@,
                start as int,
            ) == (ScanOutcome::NeedMore { pos }) && final(self).last_key == old(self).last_key,
            r matches ReadOutcome::Delivered { pos, flen, payload } ==> read_spec(
                old(self).last_key,
                old(self).dedup,
                buf@,
                start as int,
            ) == (ScanOutcome::Found { pos, flen }) && payload@ == frame_payload_at(
                buf@,
                pos as int,
            ) && final(self).last_key == Some(frame_key(buf@, pos as int)),
    {
        let n: usize = buf.len();
        let mut p: usize = start;
        loop
            invariant
                start <= p <= n,
                n == buf@.len(),
                self == old(self),
                read_spec(old(self).last_key, old(self).dedup, buf@, start as int) == read_spec(
                    old(self).last_key,
                    old(self).dedup,
                    buf@,
                    p as int,
                ),
            decreases n - p,
        {
            match frame_scan(buf, p) {
                ScanOutcome::NeedMore { pos } => {
                    return ReadOutcome::NeedMore { pos };
                },
                ScanOutcome::Found { pos, flen } => {
                    proof {
                        lemma_scan_spec_ok(buf@, p as int);
                    }
                    let dest = buf[pos + 3];
                    let src = buf[pos + 4];
                    let ptype = buf[pos + 5];
                    let txid = buf[pos + 8];
                    let mut is_dup = false;
                    if self.dedup {
                        match self.last_key {
                            Some((ld, ls, lt, lx)) => {
                                is_dup = ld == dest && ls == src && lt == ptype && lx == txid;
                            },
                            None => {},
                        }
                    }
                    if is_dup {
                        p = pos + flen;
                    } else {
                        let payload = frame_payload(buf, pos, flen);
                        self.last_key = Some((dest, src, ptype, txid));
                        return ReadOutcome::Delivered { pos, flen, payload };
                    }
                },
            }
        }
    }
}

/// Round trip at the framing layer: a written frame, handed back to the
/// scanner, is found whole at its start, and its payload is reproduced
/// exactly.
pub proof fn lemma_frame_roundtrip(h: FrameHeader, payload: Seq<u8>)
    requires
        h.len == payload.len(),
        payload.len() <= SLP_MTU,
    ensures
        valid_frame_at(frame_seq(h, payload), 0),
        scan_spec(frame_seq(h, payload), 0) == (ScanOutcome::Found {
            pos: 0,
            flen: (12 + payload.len()) as usize,
        }),
        frame_payload_at(frame_seq(h, payload), 0) == payload,
        parsed_header(frame_seq(h, payload), 0) == h,
{
    let s = frame_seq(h, payload);
    let hs = header_seq(h);
    let crc = frame_crc(h, payload);
    let hl = h.len;
    assert(s.len() == 12 + payload.len());
    assert(be16((hl >> 8) as u8, (hl & 0xff) as u8) == hl) by (bit_vector);
    assert(parsed_header(s, 0) == h);
    assert(header_ok(s, 0));
    assert(frame_len_at(s, 0) == 12 + payload.len());
    assert(frame_complete_at(s, 0));
    assert(s.subrange(0, s.len() - 2) =~= hs + payload);
    assert(be16((crc >> 8) as u8, (crc & 0xff) as u8) == crc) by (bit_vector);
    assert(frame_crc_ok(s, 0));
    assert(frame_payload_at(s, 0) =~= payload);
}

/// A frame with any single bit of its payload flipped is rejected by CRC
/// validation: the corrupted image no longer holds a valid frame at its
/// start, so nothing is delivered upward from it.
pub proof fn lemma_bit_flip_rejected(h: FrameHeader, payload: Seq<u8>, i: int, k: u16)
    requires
        h.len == payload.len(),
        payload.len() <= SLP_MTU,
        0 <= i < payload.len(),
        k < 8,
    ensures
        !valid_frame_at(
            frame_seq(h, payload).update(
                10 + i,
                (frame_seq(h, payload)[10 + i] ^ (1u8 << k)) as u8,
            ),
            0,
        ),
{
    let s = frame_seq(h, payload);
    let x: u8 = (s[10 + i] ^ (1u8 << k)) as u8;
    let s2 = s.update(10 + i, x);
    lemma_frame_roundtrip(h, payload);
    let flen = frame_len_at(s, 0);
    assert(s2.len() == s.len());
    if valid_frame_at(s2, 0) {
        // The header bytes are untouched, so the parsed header and the
        // frame extent agree with the original.
        assert(parsed_header(s2, 0) == parsed_header(s, 0));
        assert(frame_len_at(s2, 0) == flen);
        // The CRC region of the corrupted frame is the original region
        // with one payload bit flipped.
        let region = s.subrange(0, flen - 2);
        let region2 = s2.subrange(0, flen - 2);
        assert(region2 =~= region.update(10 + i, (region[10 + i] ^ (1u8 << k)) as u8));
        crate::crc::lemma_crc_single_bit_flip(region, 10 + i, k);
        // The stored footer is untouched and matched the original region.
        assert(s2[flen - 2] == s[flen - 2] && s2[flen - 1] == s[flen - 1]);
        assert(false);
    }
}

} // verus!
