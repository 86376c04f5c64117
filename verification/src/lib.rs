//! A layered device-synchronization transport stack: a framing layer with
//! checksummed, addressed packets over a raw byte stream, a reliable
//! fragmentation/retry layer above it, a connection-handshake layer on top,
//! and a socket/protocol-chain runtime that lets the layers compose.
//! Record codecs for the application data carried over the link sit beside
//! the stack.

use vstd::prelude::*;

pub mod address;
pub mod appinfo;
pub mod blob;
pub mod bytes;
pub mod calendar;
pub mod cmp_dlp;
pub mod generic_packet;
pub mod crc;
pub mod hotsync;
pub mod padp;
pub mod slp;
pub mod socket;

verus! {

/// Error codes shared by every layer of the stack, mirroring the historic
/// numbering scheme (protocol, socket, DLP, file and generic groups).
#[derive(Clone, Copy, PartialEq, Eq, Structural, Debug)]
pub enum DLPErrorDefinitions {
    ErrNoErr,
    ErrProtAborted,
    ErrProtIncompatible,
    ErrProtBadpacket,
    ErrSockDisconnected,
    ErrSockInvalid,
    ErrSockTimeout,
    ErrSockCanceled,
    ErrSockIo,
    ErrSockListener,
    ErrDLPBufsize,
    ErrDLPPalmos,
    ErrDLPUnsupported,
    ErrDLPSocket,
    ErrDLPDatasize,
    ErrDLPCommand,
    ErrFileInvalid,
    ErrFileError,
    ErrFileAborted,
    ErrFileNotFound,
    ErrFileAlreadyExists,
    ErrGenericMemory,
    ErrGenericArgument,
    ErrGenericSystem,
}

/// The error taxonomy of the transport core: one variant per failure class,
/// shared by the framing, reliability and handshake layers.
#[derive(Clone, Copy, PartialEq, Eq, Structural, Debug)]
pub enum TransportError {
    /// The underlying transport failed to move bytes.
    IoError,
    /// No data or acknowledgment arrived within the deadline.
    Timeout,
    /// A checksum, CRC or sequence violation was detected.
    BadPacket,
    /// The peer sent an abort, or the local retry budget ran out.
    ProtocolAborted,
    /// Version or packet-type mismatch during the handshake.
    ProtocolIncompatible,
    /// An operation was attempted outside the connected state.
    NotConnected,
    /// A malformed option request.
    InvalidArgument,
    /// A payload exceeded the negotiated MTU.
    DatasizeError,
}

impl TransportError {
    /// The historic error code that each failure class reports.
    pub fn error_code(&self) -> (r: DLPErrorDefinitions)
        ensures
            r == self.spec_error_code(),
    {
        match self {
            TransportError::IoError => DLPErrorDefinitions::ErrSockIo,
            TransportError::Timeout => DLPErrorDefinitions::ErrSockTimeout,
            TransportError::BadPacket => DLPErrorDefinitions::ErrProtBadpacket,
            TransportError::ProtocolAborted => DLPErrorDefinitions::ErrProtAborted,
            TransportError::ProtocolIncompatible => DLPErrorDefinitions::ErrProtIncompatible,
            TransportError::NotConnected => DLPErrorDefinitions::ErrSockDisconnected,
            TransportError::InvalidArgument => DLPErrorDefinitions::ErrGenericArgument,
            TransportError::DatasizeError => DLPErrorDefinitions::ErrDLPDatasize,
        }
    }

    pub open spec fn spec_error_code(&self) -> DLPErrorDefinitions {
        match self {
            TransportError::IoError => DLPErrorDefinitions::ErrSockIo,
            TransportError::Timeout => DLPErrorDefinitions::ErrSockTimeout,
            TransportError::BadPacket => DLPErrorDefinitions::ErrProtBadpacket,
            TransportError::ProtocolAborted => DLPErrorDefinitions::ErrProtAborted,
            TransportError::ProtocolIncompatible => DLPErrorDefinitions::ErrProtIncompatible,
            TransportError::NotConnected => DLPErrorDefinitions::ErrSockDisconnected,
            TransportError::InvalidArgument => DLPErrorDefinitions::ErrGenericArgument,
            TransportError::DatasizeError => DLPErrorDefinitions::ErrDLPDatasize,
        }
    }
}

} // verus!
