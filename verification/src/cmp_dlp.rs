//! The handshake layer: one-time connection bring-up over the reliability
//! layer.  The local side sends a wake-up record, reads the peer's record,
//! checks packet type and protocol version, negotiates the baud rate
//! against the peer's advertised capabilities, and answers with an
//! initialization record; only then does steady-state traffic begin.

use vstd::prelude::*;

use crate::bytes::be32;
use crate::generic_packet::GenericPacket;
use crate::TransportError;

verus! {

/// Handshake record type: wake-up, the opening record.
pub const CMP_WAKEUP: u8 = 1;

/// Handshake record type: initialization, accepting the connection.
pub const CMP_INIT: u8 = 2;

/// Handshake record type: abort, refusing or tearing down.
pub const CMP_ABORT: u8 = 3;

/// Handshake record type: extended negotiation.
pub const CMP_EXTENDED: u8 = 4;

/// Bytes of one handshake record on the wire.
pub const CMP_RECORD_LEN: usize = 10;

/// Lifecycle of the handshake: connection bring-up runs from `Idle`
/// through `AwaitingPeer` and `Negotiating` to `Connected`; `Aborted` is
/// reachable from every state.
#[derive(Clone, Copy, PartialEq, Eq, Structural, Debug)]
pub enum HandshakeStatus {
    Idle,
    AwaitingPeer,
    Negotiating,
    Connected,
    Aborted,
}

/// The I/O surface the handshake drives: connection control and packet
/// exchange, implemented by the transport stack beneath (a reliability
/// layer over a serial or USB link).
pub trait CMPDLPTransferTrait {
    /// Initializes the underlying connection.
    fn connect(&self);

    /// Disconnects the underlying connection.
    fn disconnect(&self);

    /// Suspends access to the underlying connection.
    fn suspend_connection(&self);

    /// Whether the layer beneath reports itself connected.
    fn is_connected(&self) -> bool;

    /// Turns the use of long packets on or off beneath.
    fn use_long_packets(&self, flag: bool);

    /// Blocks until one packet arrives from the peer.
    fn read_packet(&self) -> GenericPacket;

    /// Sends one packet to the peer.
    fn transmit_packet(&self, data: Vec<u8>, src_socket: i8, dest_sock: i8);
}

/// One handshake record: type, capability flags, protocol version and the
/// requested baud rate.
pub struct CMPPacket {
    pub packet_type: u8,
    pub flags: u8,
    pub major_version: u8,
    pub minor_version: u8,
    pub baud_rate: u32,
}

/// A protocol version as carried by handshake records: the major version
/// must match exactly between peers; the lower minor version governs.
pub struct DLPVersion {
    pub major_version: u8,
    pub minor_version: u8,
}

/// The ten wire bytes of a handshake record: type, flags, major, minor,
/// two reserved zero bytes, and the baud rate, big-endian.
pub open spec fn cmp_packet_bytes(p: CMPPacket) -> Seq<u8> {
    seq![
        p.packet_type,
        p.flags,
        p.major_version,
        p.minor_version,
        0u8,
        0u8,
        ((p.baud_rate >> 24) & 0xff) as u8,
        ((p.baud_rate >> 16) & 0xff) as u8,
        ((p.baud_rate >> 8) & 0xff) as u8,
        (p.baud_rate & 0xff) as u8,
    ]
}

/// The handshake record held by ten or more wire bytes.
pub open spec fn cmp_packet_of_bytes(b: Seq<u8>) -> CMPPacket {
    CMPPacket {
        packet_type: b[0],
        flags: b[1],
        major_version: b[2],
        minor_version: b[3],
        baud_rate: be32(b[6], b[7], b[8], b[9]) as u32,
    }
}

/// Conversion between a handshake record and its wire bytes.
pub trait CMPPacketTrait: Sized {
    /// The wire image this record converts to.
    spec fn spec_packet_bytes(&self) -> Seq<u8>;

    /// Converts this record to its wire bytes.
    fn packet_to_bytes(&self) -> (r: Vec<u8>)
        ensures
            r@ == self.spec_packet_bytes(),
    ;

    /// The record a wire image converts to.
    spec fn spec_packet_of_bytes(b: Seq<u8>) -> Self;

    /// Reads a record back from its wire bytes.
    fn bytes_to_packet(pkt: &Vec<u8>) -> (r: Self)
        requires
            pkt@.len() >= 10,
        ensures
            r == Self::spec_packet_of_bytes(pkt@),
    ;
}

impl CMPPacket {
    /// Capability flag: the sender wants to switch baud rates.
    pub const FLAG_CHANGE_BAUD_RATE: u8 = 0x80;

    /// Capability flag: drop the link only after a one-minute silence.
    pub const FLAG_ONE_MINUTE_TIMEOUT: u8 = 0x40;

    /// Capability flag: drop the link only after a two-minute silence.
    pub const FLAG_TWO_MINUTE_TIMEOUT: u8 = 0x20;

    /// Capability flag: the long packet format is supported.
    pub const FLAG_LONG_PACKET_SUPPORT: u8 = 0x10;

    /// Transaction id reserved for the wake-up record.
    pub const WAKEUP_TID: i8 = -1;

    /// Flag value reporting a version mismatch in an abort record.
    pub const VERSION_MISMATCH: u8 = 0x80;

    /// Default baud rate of a serial connection.
    pub const DEFAULT_SPEED: u32 = 9600;

    /// Whether every bit of `flag` is set in this record's flags.
    pub fn test_flag(&self, flag: u8) -> (r: bool)
        ensures
            r == ((self.flags & flag) == flag),
    {
        (self.flags & flag) == flag
    }
}

impl CMPPacketTrait for CMPPacket {
    open spec fn spec_packet_bytes(&self) -> Seq<u8> {
        cmp_packet_bytes(*self)
    }

    fn packet_to_bytes(&self) -> (r: Vec<u8>) {
        let mut data: Vec<u8> = Vec::new();
        data.push(self.packet_type);
        data.push(self.flags);
        data.push(self.major_version);
        data.push(self.minor_version);
        data.push(0);
        data.push(0);
        data.push(((self.baud_rate >> 24) & 0xff) as u8);
        data.push(((self.baud_rate >> 16) & 0xff) as u8);
        data.push(((self.baud_rate >> 8) & 0xff) as u8);
        data.push((self.baud_rate & 0xff) as u8);
        proof {
            assert(data@ =~= cmp_packet_bytes(*self));
        }
        data
    }

    open spec fn spec_packet_of_bytes(b: Seq<u8>) -> CMPPacket {
        cmp_packet_of_bytes(b)
    }

    fn bytes_to_packet(pkt: &Vec<u8>) -> (r: CMPPacket) {
        let baud: u32 = ((pkt[6] as u32) << 24) | ((pkt[7] as u32) << 16) | ((pkt[8] as u32) << 8)
            | (pkt[9] as u32);
        proof {
            let (b6, b7, b8, b9) = (pkt@[6], pkt@[7], pkt@[8], pkt@[9]);
            assert((((b6 as u32) << 24) | ((b7 as u32) << 16) | ((b8 as u32) << 8) | (b9 as u32))
                == be32(b6, b7, b8, b9) as u32) by (bit_vector);
        }
        CMPPacket {
            packet_type: pkt[0],
            flags: pkt[1],
            major_version: pkt[2],
            minor_version: pkt[3],
            baud_rate: baud,
        }
    }
}

/// The record-type outcome of inspecting the peer's response, and on
/// success the negotiated initialization record to send back.  This is the
/// whole decision of the handshake, taken on the peer's record alone:
/// an abort fails with `ProtocolAborted`; anything but an initialization
/// record, or a major-version mismatch, fails with
/// `ProtocolIncompatible`; otherwise the outgoing record asks to change
/// baud exactly when a non-default rate was requested and the peer
/// advertised support, echoes the peer's long-packet capability, and
/// falls back to the default rate rather than failing.
pub fn negotiate(local: &DLPVersion, speed: u32, peer: &CMPPacket) -> (r: Result<
    CMPPacket,
    TransportError,
>)
    ensures
        peer.packet_type == CMP_ABORT ==> (r matches Err(e) && e
            == TransportError::ProtocolAborted),
        peer.packet_type != CMP_ABORT && peer.packet_type != CMP_INIT ==> (r matches Err(e) && e
            == TransportError::ProtocolIncompatible),
        peer.packet_type == CMP_INIT && peer.major_version != local.major_version ==> (r matches
            Err(e) && e == TransportError::ProtocolIncompatible),
        peer.packet_type == CMP_INIT && peer.major_version == local.major_version ==> (r matches Ok(
            out,
        ) && {
            let long = (peer.flags & CMPPacket::FLAG_LONG_PACKET_SUPPORT)
                == CMPPacket::FLAG_LONG_PACKET_SUPPORT;
            let accepted = speed != CMPPacket::DEFAULT_SPEED && long;
            &&& out.packet_type == CMP_INIT
            &&& out.flags == ((if accepted {
                CMPPacket::FLAG_CHANGE_BAUD_RATE
            } else {
                0u8
            }) | (if long {
                CMPPacket::FLAG_LONG_PACKET_SUPPORT
            } else {
                0u8
            }))
            &&& out.baud_rate == (if accepted {
                speed
            } else {
                CMPPacket::DEFAULT_SPEED
            })
            &&& out.major_version == local.major_version
            &&& out.minor_version == (if peer.minor_version < local.minor_version {
                peer.minor_version
            } else {
                local.minor_version
            })
        }),
{
    if peer.packet_type == CMP_ABORT {
        return Err(TransportError::ProtocolAborted);
    }
    if peer.packet_type != CMP_INIT {
        return Err(TransportError::ProtocolIncompatible);
    }
    if peer.major_version != local.major_version {
        return Err(TransportError::ProtocolIncompatible);
    }
    let long = peer.test_flag(CMPPacket::FLAG_LONG_PACKET_SUPPORT);
    let accepted = speed != CMPPacket::DEFAULT_SPEED && long;
    let mut flags: u8 = 0;
    if accepted {
        flags = CMPPacket::FLAG_CHANGE_BAUD_RATE;
    }
    if long {
        flags = flags | CMPPacket::FLAG_LONG_PACKET_SUPPORT;
    }
    proof {
        assert((0u8 | CMPPacket::FLAG_LONG_PACKET_SUPPORT) == CMPPacket::FLAG_LONG_PACKET_SUPPORT
            && (CMPPacket::FLAG_CHANGE_BAUD_RATE | 0u8) == CMPPacket::FLAG_CHANGE_BAUD_RATE && (0u8
            | 0u8) == 0u8) by (bit_vector);
    }
    let minor = if peer.minor_version < local.minor_version {
        peer.minor_version
    } else {
        local.minor_version
    };
    Ok(
        CMPPacket {
            packet_type: CMP_INIT,
            flags,
            major_version: local.major_version,
            minor_version: minor,
            baud_rate: if accepted {
                speed
            } else {
                CMPPacket::DEFAULT_SPEED
            },
        },
    )
}

/// The handshake layer of one connection: the transport handler beneath,
/// the bring-up state, the local protocol version and the requested serial
/// rate (ignored off serial links).
pub struct CMPDLP<T: CMPDLPTransferTrait> {
    pub padp_handler: T,
    pub status: HandshakeStatus,
    pub speed: u32,
    pub local_version: DLPVersion,
}

impl<T: CMPDLPTransferTrait> CMPDLP<T> {
    /// Brings the connection up: a no-op when already connected; otherwise
    /// sends the wake-up record, reads the peer's response, negotiates,
    /// and answers with the initialization record.  On success the state
    /// is `Connected`; any failure leaves the state `Idle`, reusable for
    /// a fresh attempt.
    pub fn connect(&mut self) -> (r: Result<(), TransportError>)
        ensures
            old(self).status == HandshakeStatus::Connected ==> (r matches Ok(u) && final(self).status == HandshakeStatus::Connected && final(self).speed == old(self).speed),
            r matches Ok(u) ==> final(self).status == HandshakeStatus::Connected,
            r matches Err(e) ==> final(self).status == HandshakeStatus::Idle && (e
                == TransportError::ProtocolAborted || e == TransportError::ProtocolIncompatible),
            final(self).local_version == old(self).local_version,
    {
        if matches!(self.status, HandshakeStatus::Connected) {
            return Ok(());
        }
        let wakeup = CMPPacket {
            packet_type: CMP_WAKEUP,
            flags: 0,
            major_version: self.local_version.major_version,
            minor_version: self.local_version.minor_version,
            baud_rate: self.speed,
        };
        self.status = HandshakeStatus::AwaitingPeer;
        self.padp_handler.transmit_packet(wakeup.packet_to_bytes(), 3, 3);
        let pkt = self.padp_handler.read_packet();
        if pkt.data.len() < CMP_RECORD_LEN {
            self.status = HandshakeStatus::Idle;
            return Err(TransportError::ProtocolIncompatible);
        }
        self.status = HandshakeStatus::Negotiating;
        let peer = CMPPacket::bytes_to_packet(&pkt.data);
        match negotiate(&self.local_version, self.speed, &peer) {
            Ok(out) => {
                let long = out.test_flag(CMPPacket::FLAG_LONG_PACKET_SUPPORT);
                self.padp_handler.use_long_packets(long);
                let rate = out.baud_rate;
                self.padp_handler.transmit_packet(out.packet_to_bytes(), 3, 3);
                self.speed = rate;
                self.status = HandshakeStatus::Connected;
                Ok(())
            },
            Err(e) => {
                self.status = HandshakeStatus::Idle;
                Err(e)
            },
        }
    }

    /// Tears the connection down with a zero reason code.
    pub fn disconnect(&mut self)
        ensures
            old(self).status != HandshakeStatus::Connected ==> *final(self) == *old(self),
            old(self).status == HandshakeStatus::Connected ==> final(self).status
                == HandshakeStatus::Idle && final(self).speed == old(self).speed && final(self).local_version == old(self).local_version,
    {
        self.disconnect_with_reason('\0');
    }

    /// Tears the connection down, telling the peer the reason: a no-op
    /// when not connected; otherwise sends an abort record carrying the
    /// reason code and returns to `Idle`.  Disconnection is best-effort
    /// and always succeeds locally.
    pub fn disconnect_with_reason(&mut self, reason: char)
        ensures
            old(self).status != HandshakeStatus::Connected ==> *final(self) == *old(self),
            old(self).status == HandshakeStatus::Connected ==> final(self).status
                == HandshakeStatus::Idle && final(self).speed == old(self).speed && final(self).local_version == old(self).local_version,
    {
        if !matches!(self.status, HandshakeStatus::Connected) {
            return ;
        }
        let code: u8 = ((reason as u32) & 0xff) as u8;
        let abort = CMPPacket {
            packet_type: CMP_ABORT,
            flags: code,
            major_version: self.local_version.major_version,
            minor_version: self.local_version.minor_version,
            baud_rate: self.speed,
        };
        self.padp_handler.transmit_packet(abort.packet_to_bytes(), 3, 3);
        self.padp_handler.disconnect();
        self.status = HandshakeStatus::Idle;
    }

    /// The speed of the connection; meaningful for serial links only,
    /// the default rate otherwise.
    pub fn get_speed(&self) -> (r: u32)
        ensures
            r == self.speed,
    {
        self.speed
    }

    /// Whether this layer considers the connection up.
    pub fn is_connected(&self) -> (r: bool)
        ensures
            r == (self.status == HandshakeStatus::Connected),
    {
        matches!(self.status, HandshakeStatus::Connected)
    }

    /// Requests a serial rate for the next bring-up; no effect off serial
    /// links.
    pub fn set_speed(&mut self, new_value: u32)
        ensures
            final(self).speed == new_value,
            final(self).status == old(self).status,
            final(self).local_version == old(self).local_version,
    {
        self.speed = new_value;
    }

    /// Closes the current session while leaving the stack intact, so a new
    /// session can begin at once; the layer beneath is suspended too.
    pub fn suspend(&mut self)
        ensures
            old(self).status != HandshakeStatus::Connected ==> *final(self) == *old(self),
            old(self).status == HandshakeStatus::Connected ==> final(self).status
                == HandshakeStatus::Idle && final(self).speed == old(self).speed && final(self).local_version == old(self).local_version,
    {
        if !matches!(self.status, HandshakeStatus::Connected) {
            return ;
        }
        self.padp_handler.suspend_connection();
        self.status = HandshakeStatus::Idle;
    }
}

/// Builds a handshake layer over the given transport handler: idle, at
/// the default speed, local protocol version 1.0.
pub fn new_cmp_dlp<T: CMPDLPTransferTrait>(padp: T) -> (r: CMPDLP<T>)
    ensures
        r.status == HandshakeStatus::Idle,
        r.speed == CMPPacket::DEFAULT_SPEED,
        r.local_version.major_version == 1,
        r.local_version.minor_version == 0,
{
    CMPDLP {
        padp_handler: padp,
        status: HandshakeStatus::Idle,
        speed: CMPPacket::DEFAULT_SPEED,
        local_version: DLPVersion { major_version: 1, minor_version: 0 },
    }
}

/// Builds an empty handshake record at the default speed.
pub fn new_cmp_packet() -> (r: CMPPacket)
    ensures
        r.packet_type == 0,
        r.flags == 0,
        r.major_version == 0,
        r.minor_version == 0,
        r.baud_rate == CMPPacket::DEFAULT_SPEED,
{
    CMPPacket {
        packet_type: 0,
        flags: 0,
        major_version: 0,
        minor_version: 0,
        baud_rate: CMPPacket::DEFAULT_SPEED,
    }
}

/// Builds a handshake record from its parts.
pub fn new_cmp_packet_with_settings(
    packet_type: u8,
    flags: u8,
    major_version: u8,
    minor_version: u8,
    baud: u32,
) -> (r: CMPPacket)
    ensures
        r.packet_type == packet_type,
        r.flags == flags,
        r.major_version == major_version,
        r.minor_version == minor_version,
        r.baud_rate == baud,
{
    CMPPacket { packet_type, flags, major_version, minor_version, baud_rate: baud }
}

/// Builds the version record of protocol version 1.0.
pub fn new_dlp_version() -> (r: DLPVersion)
    ensures
        r.major_version == 1,
        r.minor_version == 0,
{
    DLPVersion { major_version: 1, minor_version: 0 }
}

/// Builds a version record from the given version numbers.
pub fn new_dlp_version_with_settings(major_version: u8, minor_version: u8) -> (r: DLPVersion)
    ensures
        r.major_version == major_version,
        r.minor_version == minor_version,
{
    DLPVersion { major_version, minor_version }
}

/// Whether an incoming packet belongs to the reliability layer rather than
/// the handshake: its leading byte is outside the handshake record types.
pub fn determine_packet_type(generic_packet: &GenericPacket) -> (r: bool)
    requires
        generic_packet.data@.len() >= 1,
    ensures
        r == (generic_packet.data@[0] >= 16),
{
    generic_packet.data[0] >= 16
}

} // verus!
