//! The reliability layer: presents an unbounded, reliable message channel
//! over the framing layer's bounded frames.  Oversized messages are split
//! into chunks, each carried in one frame under a shared transaction id
//! with a "more fragments follow" flag on all but the last.  Every chunk
//! is acknowledged; an unacknowledged chunk is resent until the retry
//! budget runs out, which aborts the connection.  A fragment repeating the
//! last fully acknowledged transaction id is acknowledged again without
//! being delivered a second time.

use vstd::prelude::*;

use crate::bytes::be16;
use crate::slp::frame_seq;
use crate::slp::frame_write;
use crate::slp::FrameHeader;
use crate::slp::FramingState;
use crate::TransportError;

verus! {

/// Fragment type: one chunk of an application message.
pub const FRAG_TYPE_DATA: u8 = 1;

/// Fragment type: acknowledgment of one received chunk.
pub const FRAG_TYPE_ACK: u8 = 2;

/// Fragment type: idle keepalive so the peer does not drop the line.
pub const FRAG_TYPE_TICKLE: u8 = 4;

/// Flag bit: further fragments of the same message follow.
pub const FRAG_FLAG_MORE: u8 = 0x80;

/// Bytes of fragment header before the chunk: type, flags, chunk index.
pub const FRAG_HEADER_LEN: usize = 4;

/// Largest chunk one fragment may carry: the MTU minus the framing
/// layer's header and footer overhead.
pub const PADP_CHUNK_MAX: usize = 0xffff - 12;

/// Largest message the layer accepts: one chunk per possible index.
pub const PADP_MAX_MESSAGE: usize = (0xffff - 12) * 0xffff;

/// Default acknowledgment timer, milliseconds.
pub const PADP_ACK_TIMEOUT_MS: u32 = 2000;

/// Default whole-message timer, milliseconds.
pub const PADP_INTER_PACKET_TIMEOUT_MS: u32 = 10000;

/// Default idle keepalive period, milliseconds.
pub const PADP_TICKLE_MS: u32 = 3000;

/// Default retry budget for one unacknowledged chunk.
pub const PADP_MAX_RETRIES: u32 = 10;

/// Lifecycle of the reliability layer's connection: only `Connected`
/// permits reads and writes.
#[derive(Clone, Copy, PartialEq, Eq, Structural, Debug)]
pub enum LinkStatus {
    Disconnected,
    Connected,
    Suspended,
}

/// The wire image of one fragment: type, flags, 16-bit chunk index, chunk
/// bytes.
pub open spec fn frag_seq(ftype: u8, more: bool, index: u16, body: Seq<u8>) -> Seq<u8> {
    seq![
        ftype,
        if more {
            FRAG_FLAG_MORE
        } else {
            0u8
        },
        (index >> 8) as u8,
        (index & 0xff) as u8,
    ] + body
}

/// Builds the wire image of one fragment.
pub fn build_fragment(ftype: u8, more: bool, index: u16, body: &Vec<u8>) -> (r: Vec<u8>)
    ensures
        r@ == frag_seq(ftype, more, index, body@),
{
    let mut out: Vec<u8> = Vec::new();
    out.push(ftype);
    out.push(if more {
        FRAG_FLAG_MORE
    } else {
        0
    });
    out.push((index >> 8) as u8);
    out.push((index & 0xff) as u8);
    let mut i: usize = 0;
    while i < body.len()
        invariant
            i <= body@.len(),
            out@ == frag_seq(ftype, more, index, body@.take(i as int)),
        decreases body@.len() - i,
    {
        out.push(body[i]);
        proof {
            assert(frag_seq(ftype, more, index, body@.take(i + 1)) =~= frag_seq(
                ftype,
                more,
                index,
                body@.take(i as int),
            ).push(body@[i as int]));
        }
        i = i + 1;
    }
    proof {
        assert(body@.take(body@.len() as int) =~= body@);
    }
    out
}

/// The parts of a parsed fragment: type, more-follows flag, chunk index,
/// chunk bytes.
pub struct Fragment {
    pub ftype: u8,
    pub more: bool,
    pub index: u16,
    pub body: Vec<u8>,
}

/// Splits a fragment's wire image back into its parts; an image shorter
/// than the fragment header is a `BadPacket`.
pub fn parse_fragment(data: &Vec<u8>) -> (r: Result<Fragment, TransportError>)
    ensures
        data@.len() >= FRAG_HEADER_LEN ==> (r matches Ok(f) && f.ftype == data@[0] && f.more == ((
        data@[1] & FRAG_FLAG_MORE) == FRAG_FLAG_MORE) && f.index == be16(data@[2], data@[3])
            && f.body@ == data@.skip(4)),
        data@.len() < FRAG_HEADER_LEN ==> (r matches Err(e) && e == TransportError::BadPacket),
{
    let n = data.len();
    if n < FRAG_HEADER_LEN {
        return Err(TransportError::BadPacket);
    }
    let ftype = data[0];
    let more = (data[1] & FRAG_FLAG_MORE) == FRAG_FLAG_MORE;
    let index: u16 = ((data[2] as u16) << 8) | (data[3] as u16);
    let mut body: Vec<u8> = Vec::new();
    let mut i: usize = 4;
    while i < n
        invariant
            4 <= i <= n,
            n == data@.len(),
            body@ == data@.subrange(4, i as int),
        decreases n - i,
    {
        body.push(data[i]);
        proof {
            assert(data@.subrange(4, i + 1) =~= data@.subrange(4, i as int).push(data@[i as int]));
        }
        i = i + 1;
    }
    proof {
        assert(data@.skip(4) =~= data@.subrange(4, data@.len() as int));
    }
    Ok(Fragment { ftype, more, index, body })
}

/// The chunks a message is split into: full chunks of `cmax` bytes, then
/// the remainder; an empty message is a single empty chunk.
pub open spec fn fragment_spec(msg: Seq<u8>, cmax: int) -> Seq<Seq<u8>>
    decreases msg.len()
        when cmax >= 1
{
    if msg.len() <= cmax {
        seq![msg]
    } else {
        seq![msg.take(cmax)] + fragment_spec(msg.skip(cmax), cmax)
    }
}

/// Fragmentation followed by reassembly reproduces the message exactly:
/// the concatenation of a message's chunks, in order, is the message,
/// whatever the chunk count.  Every chunk fits `cmax`, and there is
/// always at least one.
pub proof fn lemma_fragment_reassembly(msg: Seq<u8>, cmax: int)
    requires
        cmax >= 1,
    ensures
        fragment_spec(msg, cmax).flatten() == msg,
        fragment_spec(msg, cmax).len() >= 1,
        forall|i: int|
            0 <= i < fragment_spec(msg, cmax).len() ==> #[trigger] fragment_spec(msg, cmax)[i].len()
                <= cmax,
        (fragment_spec(msg, cmax).len() - 1) * cmax <= msg.len(),
    decreases msg.len(),
{
    let chunks = fragment_spec(msg, cmax);
    if msg.len() <= cmax {
        assert(chunks.drop_first() =~= Seq::<Seq<u8>>::empty());
        assert(Seq::<Seq<u8>>::empty().flatten() =~= Seq::<u8>::empty());
        assert(chunks.flatten() =~= msg);
    } else {
        lemma_fragment_reassembly(msg.skip(cmax), cmax);
        let rest = fragment_spec(msg.skip(cmax), cmax);
        assert(chunks == seq![msg.take(cmax)] + rest);
        assert(chunks.drop_first() =~= rest);
        assert(chunks.first() == msg.take(cmax));
        assert(chunks.flatten() == msg.take(cmax) + rest.flatten());
        assert(msg.take(cmax) + msg.skip(cmax) =~= msg);
        assert forall|i: int| 0 <= i < chunks.len() implies #[trigger] chunks[i].len() <= cmax by {
            if i > 0 {
                assert(chunks[i] == rest[i - 1]);
            }
        }
        let cn = chunks.len() as int;
        let rn = rest.len() as int;
        assert((cn - 1) * cmax == cmax + (rn - 1) * cmax) by (nonlinear_arith)
            requires
                cn == rn + 1,
        ;
    }
}

/// A message within the layer's bound splits into chunks whose indices
/// all fit the fragment header's index field.
pub proof fn lemma_fragment_count(msg: Seq<u8>, cmax: int)
    requires
        cmax >= 1,
        msg.len() <= cmax * 0xffff,
    ensures
        fragment_spec(msg, cmax).len() <= 0x10000,
{
    lemma_fragment_reassembly(msg, cmax);
    let n = fragment_spec(msg, cmax).len() as int;
    assert(n - 1 <= 0xffff) by (nonlinear_arith)
        requires
            cmax >= 1 && (n - 1) * cmax <= cmax * 0xffff,
    ;
}

/// Splits a message into its chunks.
pub fn fragment(msg: &Vec<u8>) -> (r: Vec<Vec<u8>>)
    ensures
        r.deep_view() == fragment_spec(msg@, PADP_CHUNK_MAX as int),
{
    let cmax: usize = PADP_CHUNK_MAX;
    let n: usize = msg.len();
    let mut chunks: Vec<Vec<u8>> = Vec::new();
    let mut off: usize = 0;
    proof {
        assert(msg@.skip(0) =~= msg@);
        assert(chunks.deep_view() =~= Seq::<Seq<u8>>::empty());
        assert(chunks.deep_view() + fragment_spec(msg@.skip(0), cmax as int) =~= fragment_spec(
            msg@,
            cmax as int,
        ));
    }
    while n - off > cmax
        invariant
            off <= n,
            n == msg@.len(),
            cmax == PADP_CHUNK_MAX,
            fragment_spec(msg@, cmax as int) == chunks.deep_view() + fragment_spec(
                msg@.skip(off as int),
                cmax as int,
            ),
        decreases n - off,
    {
        let ghost dv0 = chunks.deep_view();
        let mut chunk: Vec<u8> = Vec::new();
        let mut i: usize = off;
        while i < off + cmax
            invariant
                off <= i <= off + cmax,
                off + cmax < n == msg@.len(),
                chunk@ == msg@.subrange(off as int, i as int),
            decreases off + cmax - i,
        {
            chunk.push(msg[i]);
            proof {
                assert(msg@.subrange(off as int, i + 1) =~= msg@.subrange(off as int, i as int).push(
                    msg@[i as int],
                ));
            }
            i = i + 1;
        }
        chunks.push(chunk);
        proof {
            assert(chunks.deep_view() =~~= dv0.push(chunks@.last()@));
            assert(chunks@.last()@ =~= msg@.skip(off as int).take(cmax as int));
            assert(msg@.skip(off as int).skip(cmax as int) =~= msg@.skip(off + cmax));
            assert(fragment_spec(msg@.skip(off as int), cmax as int) == seq![msg@.skip(off as int).take(cmax as int)]
                + fragment_spec(msg@.skip(off + cmax), cmax as int));
            assert(dv0.push(chunks@.last()@) + fragment_spec(msg@.skip(off + cmax), cmax as int)
                =~= dv0 + (seq![msg@.skip(off as int).take(cmax as int)] + fragment_spec(
                msg@.skip(off + cmax),
                cmax as int,
            )));
        }
        off = off + cmax;
    }
    let ghost dv0 = chunks.deep_view();
    let mut last: Vec<u8> = Vec::new();
    let mut i: usize = off;
    while i < n
        invariant
            off <= i <= n,
            n == msg@.len(),
            last@ == msg@.subrange(off as int, i as int),
        decreases n - i,
    {
        last.push(msg[i]);
        proof {
            assert(msg@.subrange(off as int, i + 1) =~= msg@.subrange(off as int, i as int).push(
                msg@[i as int],
            ));
        }
        i = i + 1;
    }
    chunks.push(last);
    proof {
        assert(chunks.deep_view() =~~= dv0.push(chunks@.last()@));
        assert(chunks@.last()@ =~= msg@.skip(off as int));
        assert(fragment_spec(msg@.skip(off as int), cmax as int) == seq![msg@.skip(off as int)]);
        assert(dv0.push(chunks@.last()@) =~= dv0 + seq![msg@.skip(off as int)]);
        assert(chunks.deep_view() =~= fragment_spec(msg@, cmax as int));
    }
    chunks
}

/// The frame carrying chunk `i` of a fragmented message: the fragment
/// header and chunk, framed under the shared transaction id.
pub open spec fn chunk_frame_spec(
    dest: u8,
    src: u8,
    ptype: u8,
    ftype: u8,
    txid: u8,
    chunks: Seq<Seq<u8>>,
    i: int,
) -> Seq<u8> {
    frame_seq(
        FrameHeader { dest, src, ptype, len: (4 + chunks[i].len()) as u16, txid },
        frag_seq(ftype, i < chunks.len() - 1, i as u16, chunks[i]),
    )
}

/// The whole fragment set of a message on the wire, in sending order.
pub open spec fn chunk_frames_spec(
    dest: u8,
    src: u8,
    ptype: u8,
    ftype: u8,
    txid: u8,
    chunks: Seq<Seq<u8>>,
) -> Seq<Seq<u8>> {
    Seq::new(chunks.len(), |i: int| chunk_frame_spec(dest, src, ptype, ftype, txid, chunks, i))
}

/// A vector of byte vectors is, element for element, its sequence of byte
/// sequences.
pub proof fn lemma_deep_view_chunks(v: Vec<Vec<u8>>)
    ensures
        v.deep_view().len() == v@.len(),
        forall|i: int| 0 <= i < v@.len() ==> #[trigger] v.deep_view()[i] == v@[i]@,
{
    assert forall|i: int| 0 <= i < v@.len() implies #[trigger] v.deep_view()[i] == v@[i]@ by {
        assert(v@[i].deep_view() =~= v@[i]@);
    }
}

/// One message send in flight: the chunks, the shared transaction id, the
/// chunk currently unacknowledged, and the retries it has left.
pub struct SendJob {
    pub txid: u8,
    pub chunks: Vec<Vec<u8>>,
    pub next_chunk: usize,
    pub retries_left: u32,
}

/// What the sender must do next: put one more frame on the wire, or
/// nothing, the message being fully acknowledged.
pub enum WriteStep {
    SendFrame { frame: Vec<u8> },
    Done,
}

/// What the receiver hands back for one incoming frame: an acknowledgment
/// to send, a completed message to deliver (also acknowledged), or nothing.
pub enum RecvAction {
    Ack { txid: u8 },
    Deliver { txid: u8, message: Vec<u8> },
    Ignored,
}

/// Per-connection state of the reliability layer: the framing layer under
/// it, the lifecycle status, the receiving reassembly, the send in flight,
/// and the option knobs and timer configuration.
pub struct ReliabilityLayer {
    pub framing: FramingState,
    pub status: LinkStatus,
    pub last_acked: Option<u8>,
    pub recv_txid: Option<u8>,
    pub recv_expected: u32,
    pub recv_buf: Vec<u8>,
    pub send: Option<SendJob>,
    pub data_type: u8,
    pub freeze_txid: bool,
    pub long_format: bool,
    pub ack_timeout_ms: u32,
    pub inter_packet_timeout_ms: u32,
    pub tickle_ms: u32,
    pub max_retries: u32,
}

/// The configuration and framing halves of two states agree.
pub open spec fn options_eq(a: ReliabilityLayer, b: ReliabilityLayer) -> bool {
    &&& a.framing == b.framing
    &&& a.data_type == b.data_type
    &&& a.freeze_txid == b.freeze_txid
    &&& a.long_format == b.long_format
    &&& a.ack_timeout_ms == b.ack_timeout_ms
    &&& a.inter_packet_timeout_ms == b.inter_packet_timeout_ms
    &&& a.tickle_ms == b.tickle_ms
    &&& a.max_retries == b.max_retries
}

/// The option knobs and timers of two states agree; the framing layer
/// beneath may have spent transaction ids.
pub open spec fn config_eq(a: ReliabilityLayer, b: ReliabilityLayer) -> bool {
    &&& a.framing.dest == b.framing.dest
    &&& a.framing.src == b.framing.src
    &&& a.framing.ptype == b.framing.ptype
    &&& a.framing.dedup == b.framing.dedup
    &&& a.data_type == b.data_type
    &&& a.freeze_txid == b.freeze_txid
    &&& a.long_format == b.long_format
    &&& a.ack_timeout_ms == b.ack_timeout_ms
    &&& a.inter_packet_timeout_ms == b.inter_packet_timeout_ms
    &&& a.tickle_ms == b.tickle_ms
    &&& a.max_retries == b.max_retries
}

/// The receiving halves of two states agree.
pub open spec fn recv_eq(a: ReliabilityLayer, b: ReliabilityLayer) -> bool {
    &&& a.last_acked == b.last_acked
    &&& a.recv_txid == b.recv_txid
    &&& a.recv_expected == b.recv_expected
    &&& a.recv_buf@ == b.recv_buf@
}

/// The sending halves of two states agree.
pub open spec fn send_eq(a: ReliabilityLayer, b: ReliabilityLayer) -> bool {
    match (a.send, b.send) {
        (Option::None, Option::None) => true,
        (Option::Some(x), Option::Some(y)) => x.txid == y.txid && x.chunks.deep_view()
            == y.chunks.deep_view() && x.next_chunk == y.next_chunk && x.retries_left
            == y.retries_left,
        _ => false,
    }
}

impl ReliabilityLayer {
    /// The state is internally consistent: any job's chunks are within
    /// bounds, and an idle receiver holds no partial reassembly.
    pub open spec fn wf(&self) -> bool {
        &&& match self.send {
            Option::Some(job) => {
                &&& job.chunks@.len() >= 1
                &&& job.chunks@.len() <= 0x10000
                &&& job.next_chunk < job.chunks@.len()
                &&& forall|i: int|
                    0 <= i < job.chunks@.len() ==> #[trigger] job.chunks@[i]@.len()
                        <= PADP_CHUNK_MAX
            },
            Option::None => true,
        }
        &&& (self.recv_txid is None ==> self.recv_buf@.len() == 0 && self.recv_expected == 0)
        &&& self.recv_expected <= 0x10000
    }

    /// A fresh reliability layer over a fresh framing layer: disconnected,
    /// nothing in flight, default timers and retry budget.
    pub fn new() -> (r: ReliabilityLayer)
        ensures
            r.wf(),
            r.status == LinkStatus::Disconnected,
            r.last_acked is None,
            r.recv_txid is None,
            r.recv_buf@.len() == 0,
            r.recv_expected == 0,
            r.send is None,
            r.data_type == FRAG_TYPE_DATA,
            !r.freeze_txid,
            !r.long_format,
            r.ack_timeout_ms == PADP_ACK_TIMEOUT_MS,
            r.inter_packet_timeout_ms == PADP_INTER_PACKET_TIMEOUT_MS,
            r.tickle_ms == PADP_TICKLE_MS,
            r.max_retries == PADP_MAX_RETRIES,
            r.framing.dedup,
    {
        ReliabilityLayer {
            framing: FramingState::new(),
            status: LinkStatus::Disconnected,
            last_acked: None,
            recv_txid: None,
            recv_expected: 0,
            recv_buf: Vec::new(),
            send: None,
            data_type: FRAG_TYPE_DATA,
            freeze_txid: false,
            long_format: false,
            ack_timeout_ms: PADP_ACK_TIMEOUT_MS,
            inter_packet_timeout_ms: PADP_INTER_PACKET_TIMEOUT_MS,
            tickle_ms: PADP_TICKLE_MS,
            max_retries: PADP_MAX_RETRIES,
        }
    }

    /// Enters the connected state, dropping any stale reassembly or send.
    pub fn mark_connected(&mut self)
        ensures
            final(self).wf(),
            final(self).status == LinkStatus::Connected,
            final(self).send is None,
            final(self).recv_txid is None,
            final(self).recv_buf@.len() == 0,
            final(self).recv_expected == 0,
            final(self).last_acked is None,
            options_eq(*final(self), *old(self)),
    {
        self.status = LinkStatus::Connected;
        self.send = None;
        self.recv_txid = None;
        self.recv_expected = 0;
        self.recv_buf = Vec::new();
        self.last_acked = None;
    }

    /// Leaves the connected state, dropping any reassembly or send in
    /// flight.
    pub fn mark_disconnected(&mut self)
        ensures
            final(self).wf(),
            final(self).status == LinkStatus::Disconnected,
            final(self).send is None,
            final(self).recv_txid is None,
            final(self).recv_buf@.len() == 0,
            final(self).recv_expected == 0,
            final(self).last_acked == old(self).last_acked,
            options_eq(*final(self), *old(self)),
    {
        self.status = LinkStatus::Disconnected;
        self.send = None;
        self.recv_txid = None;
        self.recv_expected = 0;
        self.recv_buf = Vec::new();
    }

    /// Suspends the connection: traffic is refused until it is reopened.
    pub fn suspend(&mut self)
        ensures
            final(self).wf(),
            final(self).status == LinkStatus::Suspended,
            final(self).send is None,
            final(self).recv_txid is None,
            final(self).recv_buf@.len() == 0,
            final(self).recv_expected == 0,
            final(self).last_acked == old(self).last_acked,
            options_eq(*final(self), *old(self)),
    {
        self.status = LinkStatus::Suspended;
        self.send = None;
        self.recv_txid = None;
        self.recv_expected = 0;
        self.recv_buf = Vec::new();
    }

    /// Frames one chunk of the job under the shared transaction id.
    fn make_chunk_frame(&self, txid: u8, chunk: &Vec<u8>, more: bool, index: u16) -> (r: Vec<u8>)
        requires
            chunk@.len() <= PADP_CHUNK_MAX,
        ensures
            r@ == frame_seq(
                FrameHeader {
                    dest: self.framing.dest,
                    src: self.framing.src,
                    ptype: self.framing.ptype,
                    len: (4 + chunk@.len()) as u16,
                    txid,
                },
                frag_seq(self.data_type, more, index, chunk@),
            ),
    {
        let payload = build_fragment(self.data_type, more, index, chunk);
        match frame_write(self.framing.dest, self.framing.src, self.framing.ptype, txid, &payload) {
            Ok(frame) => frame,
            Err(_) => {
                proof {
                    assert(false);
                }
                Vec::new()
            },
        }
    }

    /// Begins sending a message: splits it into chunks under one fresh
    /// transaction id (or the frozen current id) and hands back the first
    /// chunk's frame, to be retried until acknowledged.  Outside the
    /// connected state nothing is sent and the call fails with
    /// `NotConnected`.
    pub fn write_begin(&mut self, msg: &Vec<u8>) -> (r: Result<Vec<u8>, TransportError>)
        requires
            old(self).wf(),
            old(self).send is None,
            msg@.len() <= PADP_MAX_MESSAGE,
        ensures
            final(self).wf(),
            old(self).status != LinkStatus::Connected ==> (r matches Err(e) && e
                == TransportError::NotConnected && recv_eq(*final(self), *old(self)) && send_eq(
                *final(self),
                *old(self),
            ) && options_eq(*final(self), *old(self)) && final(self).status == old(self).status),
            old(self).status == LinkStatus::Connected ==> {
                let chunks = fragment_spec(msg@, PADP_CHUNK_MAX as int);
                let t = if old(self).freeze_txid {
                    old(self).framing.next_txid
                } else {
                    crate::slp::txid_after(old(self).framing.next_txid)
                };
                &&& r matches Ok(frame0) && frame0@ == chunk_frame_spec(
                    old(self).framing.dest,
                    old(self).framing.src,
                    old(self).framing.ptype,
                    old(self).data_type,
                    t,
                    chunks,
                    0,
                )
                &&& final(self).send matches Some(job) && job.txid == t && job.chunks.deep_view()
                    == chunks && job.next_chunk == 0 && job.retries_left == old(self).max_retries
                &&& final(self).framing.next_txid == t
                &&& final(self).framing.dest == old(self).framing.dest
                &&& final(self).framing.src == old(self).framing.src
                &&& final(self).framing.ptype == old(self).framing.ptype
                &&& final(self).framing.last_key == old(self).framing.last_key
                &&& final(self).framing.dedup == old(self).framing.dedup
                &&& final(self).status == LinkStatus::Connected
                &&& recv_eq(*final(self), *old(self))
                &&& config_eq(*final(self), *old(self))
            },
    {
        if !matches!(self.status, LinkStatus::Connected) {
            return Err(TransportError::NotConnected);
        }
        let chunks = fragment(msg);
        proof {
            lemma_fragment_reassembly(msg@, PADP_CHUNK_MAX as int);
            lemma_fragment_count(msg@, PADP_CHUNK_MAX as int);
            lemma_deep_view_chunks(chunks);
            assert forall|i: int| 0 <= i < chunks@.len() implies #[trigger] chunks@[i]@.len()
                <= PADP_CHUNK_MAX by {
                assert(chunks.deep_view()[i] == chunks@[i]@);
                assert(fragment_spec(msg@, PADP_CHUNK_MAX as int)[i].len() <= PADP_CHUNK_MAX as int);
            }
        }
        let txid: u8 = if self.freeze_txid {
            self.framing.next_txid
        } else {
            self.framing.take_txid()
        };
        let more = chunks.len() > 1;
        let frame0 = self.make_chunk_frame(txid, &chunks[0], more, 0);
        let retries = self.max_retries;
        self.send = Some(SendJob { txid, chunks, next_chunk: 0, retries_left: retries });
        Ok(frame0)
    }

    /// Takes the acknowledgment of the chunk in flight: hands back the
    /// next chunk's frame with a fresh retry budget, or `Done` when the
    /// whole message is acknowledged.  An acknowledgment with no send in
    /// flight is a caller error, `InvalidArgument`.
    pub fn write_on_ack(&mut self) -> (r: Result<WriteStep, TransportError>)
        requires
            old(self).wf(),
        ensures
            final(self).wf(),
            final(self).status == old(self).status,
            recv_eq(*final(self), *old(self)),
            options_eq(*final(self), *old(self)),
            old(self).send is None ==> (r matches Err(e) && e == TransportError::InvalidArgument
                && send_eq(*final(self), *old(self))),
            old(self).send matches Some(job) ==> {
                if job.next_chunk + 1 == job.chunks@.len() {
                    &&& r matches Ok(step) && step is Done
                    &&& final(self).send is None
                } else {
                    &&& r matches Ok(step) && step matches WriteStep::SendFrame { frame }
                        && frame@ == chunk_frame_spec(
                        old(self).framing.dest,
                        old(self).framing.src,
                        old(self).framing.ptype,
                        old(self).data_type,
                        job.txid,
                        job.chunks.deep_view(),
                        job.next_chunk + 1,
                    )
                    &&& final(self).send matches Some(job2) && job2.txid == job.txid
                        && job2.chunks.deep_view() == job.chunks.deep_view() && job2.next_chunk
                        == job.next_chunk + 1 && job2.retries_left == old(self).max_retries
                }
            },
    {
        let mut taken: Option<SendJob> = None;
        core::mem::swap(&mut self.send, &mut taken);
        let job = match taken {
            Some(job) => job,
            None => {
                return Err(TransportError::InvalidArgument);
            },
        };
        proof {
            lemma_deep_view_chunks(job.chunks);
        }
        let next = job.next_chunk + 1;
        if next == job.chunks.len() {
            return Ok(WriteStep::Done);
        }
        let more = next + 1 < job.chunks.len();
        let frame = self.make_chunk_frame(job.txid, &job.chunks[next], more, next as u16);
        let retries = self.max_retries;
        self.send = Some(
            SendJob { txid: job.txid, chunks: job.chunks, next_chunk: next, retries_left: retries },
        );
        Ok(WriteStep::SendFrame { frame })
    }

    /// Takes the expiry of the acknowledgment timer: resends the chunk in
    /// flight, spending one retry; with the budget exhausted the write
    /// fails with `ProtocolAborted` and the connection becomes
    /// `Disconnected`.  A timeout with no send in flight is a caller
    /// error, `InvalidArgument`.
    pub fn write_on_timeout(&mut self) -> (r: Result<WriteStep, TransportError>)
        requires
            old(self).wf(),
        ensures
            final(self).wf(),
            recv_eq(*final(self), *old(self)),
            options_eq(*final(self), *old(self)),
            old(self).send is None ==> (r matches Err(e) && e == TransportError::InvalidArgument
                && send_eq(*final(self), *old(self)) && final(self).status == old(self).status),
            old(self).send matches Some(job) ==> {
                if job.retries_left == 0 {
                    &&& r matches Err(e) && e == TransportError::ProtocolAborted
                    &&& final(self).status == LinkStatus::Disconnected
                    &&& final(self).send is None
                } else {
                    &&& r matches Ok(step) && step matches WriteStep::SendFrame { frame }
                        && frame@ == chunk_frame_spec(
                        old(self).framing.dest,
                        old(self).framing.src,
                        old(self).framing.ptype,
                        old(self).data_type,
                        job.txid,
                        job.chunks.deep_view(),
                        job.next_chunk as int,
                    )
                    &&& final(self).send matches Some(job2) && job2.txid == job.txid
                        && job2.chunks.deep_view() == job.chunks.deep_view() && job2.next_chunk
                        == job.next_chunk && job2.retries_left == job.retries_left - 1
                    &&& final(self).status == old(self).status
                }
            },
    {
        let mut taken: Option<SendJob> = None;
        core::mem::swap(&mut self.send, &mut taken);
        let job = match taken {
            Some(job) => job,
            None => {
                return Err(TransportError::InvalidArgument);
            },
        };
        proof {
            lemma_deep_view_chunks(job.chunks);
        }
        if job.retries_left == 0 {
            self.status = LinkStatus::Disconnected;
            return Err(TransportError::ProtocolAborted);
        }
        let k = job.next_chunk;
        let more = k + 1 < job.chunks.len();
        let frame = self.make_chunk_frame(job.txid, &job.chunks[k], more, k as u16);
        let retries = job.retries_left - 1;
        self.send = Some(
            SendJob { txid: job.txid, chunks: job.chunks, next_chunk: k, retries_left: retries },
        );
        Ok(WriteStep::SendFrame { frame })
    }

    /// Builds the idle keepalive frame sent while a connection is held
    /// open with nothing in flight.
    pub fn tickle_frame(&mut self) -> (r: Result<Vec<u8>, TransportError>)
        requires
            old(self).wf(),
        ensures
            final(self).wf(),
            final(self).status == old(self).status,
            recv_eq(*final(self), *old(self)),
            send_eq(*final(self), *old(self)),
            old(self).status != LinkStatus::Connected ==> (r matches Err(e) && e
                == TransportError::NotConnected && options_eq(*final(self), *old(self))),
            old(self).status == LinkStatus::Connected ==> {
                let t = crate::slp::txid_after(old(self).framing.next_txid);
                &&& r matches Ok(frame) && frame@ == frame_seq(
                    FrameHeader {
                        dest: old(self).framing.dest,
                        src: old(self).framing.src,
                        ptype: old(self).framing.ptype,
                        len: 4,
                        txid: t,
                    },
                    frag_seq(FRAG_TYPE_TICKLE, false, 0, Seq::<u8>::empty()),
                )
                &&& final(self).framing.next_txid == t
            },
    {
        if !matches!(self.status, LinkStatus::Connected) {
            return Err(TransportError::NotConnected);
        }
        let txid = self.framing.take_txid();
        let empty: Vec<u8> = Vec::new();
        let payload = build_fragment(FRAG_TYPE_TICKLE, false, 0, &empty);
        match frame_write(self.framing.dest, self.framing.src, self.framing.ptype, txid, &payload) {
            Ok(frame) => Ok(frame),
            Err(_) => {
                proof {
                    assert(false);
                }
                Err(TransportError::IoError)
            },
        }
    }

    /// Builds the acknowledgment frame for a received fragment, echoing
    /// its transaction id.
    pub fn ack_frame(&self, txid: u8) -> (r: Vec<u8>)
        ensures
            r@ == frame_seq(
                FrameHeader {
                    dest: self.framing.dest,
                    src: self.framing.src,
                    ptype: self.framing.ptype,
                    len: 4,
                    txid,
                },
                frag_seq(FRAG_TYPE_ACK, false, 0, Seq::<u8>::empty()),
            ),
    {
        let empty: Vec<u8> = Vec::new();
        let payload = build_fragment(FRAG_TYPE_ACK, false, 0, &empty);
        match frame_write(self.framing.dest, self.framing.src, self.framing.ptype, txid, &payload) {
            Ok(frame) => frame,
            Err(_) => {
                proof {
                    assert(false);
                }
                Vec::new()
            },
        }
    }

    /// Takes one incoming frame's payload and transaction id.  Data
    /// fragments are acknowledged and accumulated strictly in order; the
    /// fragment without the more-follows flag completes the message, which
    /// is delivered exactly once.  A fragment repeating the last fully
    /// acknowledged transaction id is acknowledged again without being
    /// redelivered; an out-of-sequence fragment drops the partial message
    /// and fails with `BadPacket`; reads outside the connected state fail
    /// with `NotConnected`.
    pub fn read_on_frame(&mut self, txid: u8, data: &Vec<u8>) -> (r: Result<
        RecvAction,
        TransportError,
    >)
        requires
            old(self).wf(),
        ensures
            final(self).wf(),
            final(self).send == old(self).send,
            options_eq(*final(self), *old(self)),
            old(self).status != LinkStatus::Connected ==> (r matches Err(e) && e
                == TransportError::NotConnected && recv_eq(*final(self), *old(self)) && final(self).status == old(self).status),
            old(self).status == LinkStatus::Connected ==> final(self).status
                == LinkStatus::Connected && {
                if data@.len() < FRAG_HEADER_LEN {
                    // Malformed fragment: the partial message is dropped.
                    &&& r matches Err(e) && e == TransportError::BadPacket
                    &&& final(self).recv_txid is None && final(self).recv_buf@.len() == 0
                    &&& final(self).last_acked == old(self).last_acked
                } else {
                    let ftype = data@[0];
                    let more = (data@[1] & FRAG_FLAG_MORE) == FRAG_FLAG_MORE;
                    let index = be16(data@[2], data@[3]);
                    let body = data@.skip(4);
                    let exp = if old(self).recv_txid is Some {
                        old(self).recv_expected
                    } else {
                        0
                    };
                    if ftype != FRAG_TYPE_DATA {
                        // Acknowledgments and tickles carry no message data.
                        &&& r matches Ok(a) && a is Ignored
                        &&& recv_eq(*final(self), *old(self))
                    } else if old(self).last_acked == Some(txid) {
                        // A retransmission of a delivered message: acknowledged
                        // again, never redelivered.
                        &&& r matches Ok(a) && a matches RecvAction::Ack { txid: t } && t == txid
                        &&& recv_eq(*final(self), *old(self))
                    } else if old(self).recv_txid matches Some(t) && t != txid {
                        // A foreign transaction id amid reassembly.
                        &&& r matches Err(e) && e == TransportError::BadPacket
                        &&& final(self).recv_txid is None && final(self).recv_buf@.len() == 0
                        &&& final(self).last_acked == old(self).last_acked
                    } else if (index as u32) < exp {
                        // A chunk already held: acknowledged again, not appended.
                        &&& r matches Ok(a) && a matches RecvAction::Ack { txid: t } && t == txid
                        &&& recv_eq(*final(self), *old(self))
                    } else if (index as u32) > exp {
                        // A gap in the chunk sequence.
                        &&& r matches Err(e) && e == TransportError::BadPacket
                        &&& final(self).recv_txid is None && final(self).recv_buf@.len() == 0
                        &&& final(self).last_acked == old(self).last_acked
                    } else if more {
                        // One more chunk, in order: held for reassembly.
                        &&& r matches Ok(a) && a matches RecvAction::Ack { txid: t } && t == txid
                        &&& final(self).recv_txid == Some(txid)
                        &&& final(self).recv_expected == exp + 1
                        &&& final(self).recv_buf@ == old(self).recv_buf@ + body
                        &&& final(self).last_acked == old(self).last_acked
                    } else {
                        // The final chunk: the whole message is delivered once
                        // and the transaction id remembered as acknowledged.
                        &&& r matches Ok(a) && a matches RecvAction::Deliver { txid: t, message }
                            && t == txid && message@ == old(self).recv_buf@ + body
                        &&& final(self).last_acked == Some(txid)
                        &&& final(self).recv_txid is None && final(self).recv_buf@.len() == 0
                    }
                }
            },
    {
        if !matches!(self.status, LinkStatus::Connected) {
            return Err(TransportError::NotConnected);
        }
        let frag = match parse_fragment(data) {
            Ok(f) => f,
            Err(_) => {
                self.recv_txid = None;
                self.recv_expected = 0;
                self.recv_buf = Vec::new();
                return Err(TransportError::BadPacket);
            },
        };
        if frag.ftype != FRAG_TYPE_DATA {
            return Ok(RecvAction::Ignored);
        }
        match self.last_acked {
            Some(t) => {
                if t == txid {
                    return Ok(RecvAction::Ack { txid });
                }
            },
            None => {},
        }
        let exp: u32 = match self.recv_txid {
            Some(t) => {
                if t != txid {
                    self.recv_txid = None;
                    self.recv_expected = 0;
                    self.recv_buf = Vec::new();
                    return Err(TransportError::BadPacket);
                }
                self.recv_expected
            },
            None => 0,
        };
        if (frag.index as u32) < exp {
            return Ok(RecvAction::Ack { txid });
        }
        if (frag.index as u32) > exp {
            self.recv_txid = None;
            self.recv_expected = 0;
            self.recv_buf = Vec::new();
            return Err(TransportError::BadPacket);
        }
        if frag.more {
            self.recv_txid = Some(txid);
            self.recv_expected = exp + 1;
            let mut i: usize = 0;
            let ghost buf0 = self.recv_buf@;
            while i < frag.body.len()
                invariant
                    i <= frag.body@.len(),
                    self.recv_buf@ == buf0 + frag.body@.take(i as int),
                    self.recv_txid == Some(txid),
                    self.recv_expected == exp + 1,
                    self.status == LinkStatus::Connected,
                    self.send == old(self).send,
                    self.last_acked == old(self).last_acked,
                    options_eq(*self, *old(self)),
                decreases frag.body@.len() - i,
            {
                self.recv_buf.push(frag.body[i]);
                proof {
                    assert(buf0 + frag.body@.take(i + 1) =~= (buf0 + frag.body@.take(
                        i as int,
                    )).push(frag.body@[i as int]));
                }
                i = i + 1;
            }
            proof {
                assert(frag.body@.take(frag.body@.len() as int) =~= frag.body@);
            }
            return Ok(RecvAction::Ack { txid });
        }
        let mut message: Vec<u8> = Vec::new();
        core::mem::swap(&mut self.recv_buf, &mut message);
        let mut i: usize = 0;
        let ghost msg0 = message@;
        while i < frag.body.len()
            invariant
                i <= frag.body@.len(),
                message@ == msg0 + frag.body@.take(i as int),
            decreases frag.body@.len() - i,
        {
            message.push(frag.body[i]);
            proof {
                assert(msg0 + frag.body@.take(i + 1) =~= (msg0 + frag.body@.take(i as int)).push(
                    frag.body@[i as int],
                ));
            }
            i = i + 1;
        }
        proof {
            assert(frag.body@.take(frag.body@.len() as int) =~= frag.body@);
        }
        self.last_acked = Some(txid);
        self.recv_txid = None;
        self.recv_expected = 0;
        Ok(RecvAction::Deliver { txid, message })
    }
}

/// One occurrence on the link while a send is in flight: the peer's
/// acknowledgment arrived, or the acknowledgment timer expired first.
#[derive(Clone, Copy, PartialEq, Eq, Structural, Debug)]
pub enum LinkEvent {
    Ack,
    TimeoutExpired,
}

/// The fragment payloads of a fragment set, in sending order.
pub open spec fn frag_payloads_spec(ftype: u8, chunks: Seq<Seq<u8>>) -> Seq<Seq<u8>> {
    Seq::new(chunks.len(), |i: int| frag_seq(ftype, i < chunks.len() - 1, i as u16, chunks[i]))
}

/// The payloads form one whole fragment set: data fragments indexed from
/// zero, the more-follows flag on all but the last.
pub open spec fn is_fragment_run(ps: Seq<Seq<u8>>) -> bool {
    &&& 1 <= ps.len() <= 0x10000
    &&& forall|i: int|
        0 <= i < ps.len() ==> {
            &&& (#[trigger] ps[i]).len() >= 4
            &&& ps[i][0] == FRAG_TYPE_DATA
            &&& ps[i][1] == if i < ps.len() - 1 {
                FRAG_FLAG_MORE
            } else {
                0u8
            }
            &&& be16(ps[i][2], ps[i][3]) == i
        }
}

/// The message a fragment set carries: its chunk bytes, concatenated.
pub open spec fn run_message(ps: Seq<Seq<u8>>) -> Seq<u8> {
    ps.map_values(|p: Seq<u8>| p.skip(4)).flatten()
}

/// The fragment set of any message is a well-formed run carrying exactly
/// that message: fragmentation followed by reassembly reproduces the
/// message, whatever the chunk count.
pub proof fn lemma_fragment_run(msg: Seq<u8>)
    requires
        msg.len() <= PADP_MAX_MESSAGE,
    ensures
        is_fragment_run(frag_payloads_spec(FRAG_TYPE_DATA, fragment_spec(msg, PADP_CHUNK_MAX as int))),
        run_message(frag_payloads_spec(FRAG_TYPE_DATA, fragment_spec(msg, PADP_CHUNK_MAX as int)))
            == msg,
{
    let chunks = fragment_spec(msg, PADP_CHUNK_MAX as int);
    let ps = frag_payloads_spec(FRAG_TYPE_DATA, chunks);
    lemma_fragment_reassembly(msg, PADP_CHUNK_MAX as int);
    lemma_fragment_count(msg, PADP_CHUNK_MAX as int);
    assert forall|i: int| 0 <= i < ps.len() implies {
        &&& (#[trigger] ps[i]).len() >= 4
        &&& ps[i][0] == FRAG_TYPE_DATA
        &&& ps[i][1] == if i < ps.len() - 1 {
            FRAG_FLAG_MORE
        } else {
            0u8
        }
        &&& be16(ps[i][2], ps[i][3]) == i
    } by {
        let ix: u16 = i as u16;
        assert(be16((ix >> 8) as u8, (ix & 0xff) as u8) == ix) by (bit_vector);
    }
    assert forall|i: int| 0 <= i < ps.len() implies ps.map_values(|p: Seq<u8>| p.skip(4))[i]
        == #[trigger] chunks[i] by {
        assert(ps[i].skip(4) =~= chunks[i]);
    }
    assert(ps.map_values(|p: Seq<u8>| p.skip(4)) =~= chunks);
}

impl ReliabilityLayer {
    /// Sends one whole message, taking the link's acknowledgments and
    /// timer expiries from `events` in order: every chunk is sent, an
    /// expiry resends the chunk in flight, and a run of expiries past the
    /// retry budget aborts the write with `ProtocolAborted`, leaving the
    /// connection `Disconnected`.  The frames put on the wire are handed
    /// back in order.  Events running out mid-message is the whole-message
    /// deadline passing: the write fails with `Timeout` and the connection
    /// stays connected and retryable.
    pub fn write_with_events(&mut self, msg: &Vec<u8>, events: &Vec<LinkEvent>) -> (r: Result<
        Vec<Vec<u8>>,
        TransportError,
    >)
        requires
            old(self).wf(),
            old(self).send is None,
            msg@.len() <= PADP_MAX_MESSAGE,
        ensures
            final(self).wf(),
            final(self).send is None,
            config_eq(*final(self), *old(self)),
            old(self).status != LinkStatus::Connected ==> (r matches Err(e) && e
                == TransportError::NotConnected && final(self).status == old(self).status),
            // Retry exhaustion: with no acknowledgment ever arriving and
            // more expiries than the budget, the write fails with
            // `ProtocolAborted` and the connection becomes `Disconnected`.
            old(self).status == LinkStatus::Connected && (forall|j: int|
                0 <= j < events@.len() ==> events@[j] is TimeoutExpired) && events@.len() > old(self).max_retries ==> (r matches Err(e) && e == TransportError::ProtocolAborted && final(self).status == LinkStatus::Disconnected),
            // Prompt acknowledgment of every chunk: the write succeeds and
            // exactly the message's fragment set goes on the wire.
            old(self).status == LinkStatus::Connected && (forall|j: int|
                0 <= j < events@.len() ==> events@[j] is Ack) && events@.len() == fragment_spec(
                msg@,
                PADP_CHUNK_MAX as int,
            ).len() ==> (r matches Ok(frames) && frames.deep_view() == chunk_frames_spec(
                old(self).framing.dest,
                old(self).framing.src,
                old(self).framing.ptype,
                old(self).data_type,
                if old(self).freeze_txid {
                    old(self).framing.next_txid
                } else {
                    crate::slp::txid_after(old(self).framing.next_txid)
                },
                fragment_spec(msg@, PADP_CHUNK_MAX as int),
            ) && final(self).status == LinkStatus::Connected),
    {
        let ghost chunks = fragment_spec(msg@, PADP_CHUNK_MAX as int);
        let ghost t = if old(self).freeze_txid {
            old(self).framing.next_txid
        } else {
            crate::slp::txid_after(old(self).framing.next_txid)
        };
        proof {
            lemma_fragment_reassembly(msg@, PADP_CHUNK_MAX as int);
            lemma_fragment_count(msg@, PADP_CHUNK_MAX as int);
        }
        let first = match self.write_begin(msg) {
            Ok(f) => f,
            Err(e) => {
                return Err(e);
            },
        };
        let ghost frames_spec = chunk_frames_spec(
            old(self).framing.dest,
            old(self).framing.src,
            old(self).framing.ptype,
            old(self).data_type,
            t,
            chunks,
        );
        let mut sent: Vec<Vec<u8>> = Vec::new();
        sent.push(first);
        proof {
            assert(sent.deep_view() =~~= frames_spec.take(1));
        }
        let n = events.len();
        let mut i: usize = 0;
        while i < n
            invariant
                i <= n,
                n == events@.len(),
                old(self).status == LinkStatus::Connected,
                self.wf(),
                self.status == LinkStatus::Connected,
                config_eq(*self, *old(self)),
                chunks == fragment_spec(msg@, PADP_CHUNK_MAX as int),
                t == if old(self).freeze_txid {
                    old(self).framing.next_txid
                } else {
                    crate::slp::txid_after(old(self).framing.next_txid)
                },
                chunks.len() >= 1,
                frames_spec == chunk_frames_spec(
                    old(self).framing.dest,
                    old(self).framing.src,
                    old(self).framing.ptype,
                    old(self).data_type,
                    t,
                    chunks,
                ),
                self.send matches Some(job) && job.txid == t && job.chunks.deep_view() == chunks
                    && job.next_chunk < chunks.len(),
                (forall|j: int| 0 <= j < i ==> events@[j] is TimeoutExpired) ==> (
                self.send matches Some(job) && job.next_chunk == 0 && job.retries_left == old(self).max_retries - i && i <= old(self).max_retries),
                (forall|j: int| 0 <= j < i ==> events@[j] is Ack) ==> (i < chunks.len() && (
                self.send matches Some(job) && job.next_chunk == i) && sent.deep_view()
                    == frames_spec.take(i + 1)),
            decreases n - i,
        {
            let ghost dv0 = sent.deep_view();
            match events[i] {
                LinkEvent::Ack => {
                    match self.write_on_ack() {
                        Ok(WriteStep::Done) => {
                            proof {
                                if forall|j: int| 0 <= j < i ==> events@[j] is Ack {
                                    assert(frames_spec.take(i + 1) =~= frames_spec);
                                }
                            }
                            return Ok(sent);
                        },
                        Ok(WriteStep::SendFrame { frame }) => {
                            sent.push(frame);
                            proof {
                                if forall|j: int| 0 <= j < i + 1 ==> events@[j] is Ack {
                                    assert(sent.deep_view() =~~= dv0.push(frames_spec[i + 1]));
                                    assert(sent.deep_view() =~= frames_spec.take(i + 2));
                                }
                            }
                        },
                        Err(e) => {
                            proof {
                                assert(false);
                            }
                            return Err(e);
                        },
                    }
                },
                LinkEvent::TimeoutExpired => {
                    match self.write_on_timeout() {
                        Ok(WriteStep::Done) => {
                            proof {
                                assert(false);
                            }
                            return Err(TransportError::IoError);
                        },
                        Ok(WriteStep::SendFrame { frame }) => {
                            sent.push(frame);
                        },
                        Err(e) => {
                            return Err(e);
                        },
                    }
                },
            }
            i = i + 1;
        }
        self.send = None;
        Err(TransportError::Timeout)
    }

    /// Receives one whole message: takes the incoming frame payloads under
    /// one transaction id, in arrival order, and hands back the reassembled
    /// message once a fragment arrives without the more-follows flag.  A
    /// well-formed fragment set that is not a retransmission is delivered
    /// exactly as its chunks concatenate; payloads running out first is the
    /// receive deadline passing, `Timeout`.
    pub fn read_message(&mut self, txid: u8, payloads: &Vec<Vec<u8>>) -> (r: Result<
        Vec<u8>,
        TransportError,
    >)
        requires
            old(self).wf(),
        ensures
            final(self).wf(),
            final(self).send == old(self).send,
            options_eq(*final(self), *old(self)),
            old(self).status != LinkStatus::Connected ==> (r matches Err(e) && e
                == TransportError::NotConnected),
            old(self).status == LinkStatus::Connected && old(self).recv_txid is None && old(self).last_acked != Some(txid) && is_fragment_run(payloads.deep_view()) ==> (r matches Ok(
                out,
            ) && out@ == run_message(payloads.deep_view()) && final(self).last_acked == Some(txid)),
    {
        if !matches!(self.status, LinkStatus::Connected) {
            return Err(TransportError::NotConnected);
        }
        let ghost ps = payloads.deep_view();
        let ghost bodies = ps.map_values(|p: Seq<u8>| p.skip(4));
        let ghost premise = old(self).recv_txid is None && old(self).last_acked != Some(txid)
            && is_fragment_run(ps);
        proof {
            lemma_deep_view_chunks(*payloads);
            assert((0x80u8 & 0x80) == 0x80 && (0u8 & 0x80) == 0) by (bit_vector);
        }
        let n = payloads.len();
        let mut i: usize = 0;
        while i < n
            invariant
                i <= n,
                n == payloads@.len(),
                ps == payloads.deep_view(),
                bodies == ps.map_values(|p: Seq<u8>| p.skip(4)),
                old(self).status == LinkStatus::Connected,
                self.wf(),
                self.status == LinkStatus::Connected,
                self.send == old(self).send,
                options_eq(*self, *old(self)),
                (0x80u8 & 0x80) == 0x80 && (0u8 & 0x80) == 0,
                premise == (old(self).recv_txid is None && old(self).last_acked != Some(txid)
                    && is_fragment_run(ps)),
                premise ==> i < n && self.last_acked == old(self).last_acked && (if i == 0 {
                    self.recv_txid is None && self.recv_buf@.len() == 0 && self.recv_expected == 0
                } else {
                    self.recv_txid == Some(txid) && self.recv_expected == i && self.recv_buf@
                        == bodies.take(i as int).flatten()
                }),
            decreases n - i,
        {
            proof {
                if premise {
                    assert(ps[i as int] == payloads@[i as int]@);
                }
            }
            match self.read_on_frame(txid, &payloads[i]) {
                Ok(RecvAction::Deliver { txid: _t, message }) => {
                    proof {
                        if premise {
                            assert(i == n - 1);
                            assert(bodies.take(i as int).push(bodies[i as int]) =~= bodies.take(
                                i + 1,
                            ));
                            bodies.take(i as int).lemma_flatten_push(bodies[i as int]);
                            assert(bodies.take(i + 1) =~= bodies);
                            assert(message@ == bodies.flatten());
                        }
                    }
                    return Ok(message);
                },
                Ok(RecvAction::Ack { txid: _t }) => {
                    proof {
                        if premise {
                            assert(ps[i as int][1] == FRAG_FLAG_MORE);
                            assert(i < n - 1);
                            assert(bodies.take(i as int).push(bodies[i as int]) =~= bodies.take(
                                i + 1,
                            ));
                            bodies.take(i as int).lemma_flatten_push(bodies[i as int]);
                        }
                    }
                },
                Ok(RecvAction::Ignored) => {
                    proof {
                        if premise {
                            assert(ps[i as int][0] == FRAG_TYPE_DATA);
                            assert(false);
                        }
                    }
                },
                Err(e) => {
                    proof {
                        if premise {
                            assert(false);
                        }
                    }
                    return Err(e);
                },
            }
            i = i + 1;
        }
        Err(TransportError::Timeout)
    }
}

/// The whole stack round-trips a message: every frame of a message's
/// fragment set is found whole by the framing scanner at its start, their
/// payloads form one well-formed fragment run, and that run carries
/// exactly the message.
pub proof fn lemma_stack_roundtrip(dest: u8, src: u8, ptype: u8, txid: u8, msg: Seq<u8>)
    requires
        msg.len() <= PADP_MAX_MESSAGE,
    ensures
        ({
            let chunks = fragment_spec(msg, PADP_CHUNK_MAX as int);
            let frames = chunk_frames_spec(dest, src, ptype, FRAG_TYPE_DATA, txid, chunks);
            let payloads = frag_payloads_spec(FRAG_TYPE_DATA, chunks);
            &&& forall|i: int|
                0 <= i < frames.len() ==> crate::slp::valid_frame_at(#[trigger] frames[i], 0)
                    && crate::slp::frame_payload_at(frames[i], 0) == payloads[i]
            &&& is_fragment_run(payloads)
            &&& run_message(payloads) == msg
        }),
{
    let chunks = fragment_spec(msg, PADP_CHUNK_MAX as int);
    let frames = chunk_frames_spec(dest, src, ptype, FRAG_TYPE_DATA, txid, chunks);
    let payloads = frag_payloads_spec(FRAG_TYPE_DATA, chunks);
    lemma_fragment_reassembly(msg, PADP_CHUNK_MAX as int);
    lemma_fragment_count(msg, PADP_CHUNK_MAX as int);
    lemma_fragment_run(msg);
    assert forall|i: int| 0 <= i < frames.len() implies crate::slp::valid_frame_at(
        #[trigger] frames[i],
        0,
    ) && crate::slp::frame_payload_at(frames[i], 0) == payloads[i] by {
        let h = FrameHeader {
            dest,
            src,
            ptype,
            len: (4 + chunks[i].len()) as u16,
            txid,
        };
        crate::slp::lemma_frame_roundtrip(h, payloads[i]);
    }
}

} // verus!
