//! The top of the stack: one synchronization session's protocol objects,
//! built over a transport handler and driven through the handshake layer's
//! connect/disconnect surface.

use vstd::prelude::*;

use crate::cmp_dlp::new_cmp_dlp;
use crate::cmp_dlp::CMPDLP;
use crate::cmp_dlp::CMPDLPTransferTrait;
use crate::cmp_dlp::DLPVersion;
use crate::cmp_dlp::HandshakeStatus;

verus! {

/// One synchronization session: the handshake layer over its transport,
/// and the desktop-link protocol version this session speaks.
pub struct Hotsync<T: CMPDLPTransferTrait> {
    pub cmp_dlp_handler: Option<CMPDLP<T>>,
    pub dlp_version: DLPVersion,
}

/// Builds a session around an already-constructed handshake layer.
pub fn new_hotsync_with_cmpdlp<T: CMPDLPTransferTrait>(cmp_dlp: CMPDLP<T>) -> (r: Hotsync<T>)
    ensures
        r.cmp_dlp_handler matches Some(h) && h.status == cmp_dlp.status && h.speed == cmp_dlp.speed,
        r.dlp_version.major_version == 1,
        r.dlp_version.minor_version == 3,
{
    Hotsync {
        cmp_dlp_handler: Some(cmp_dlp),
        dlp_version: DLPVersion { major_version: 1, minor_version: 3 },
    }
}

/// Builds a session over a bare transport handler, creating the protocol
/// objects it needs, ready for synchronization.
pub fn new_hotsync_with_transport<T: CMPDLPTransferTrait>(transport: T) -> (r: Hotsync<T>)
    ensures
        r.cmp_dlp_handler matches Some(h) && h.status == HandshakeStatus::Idle,
        r.dlp_version.major_version == 1,
        r.dlp_version.minor_version == 3,
{
    Hotsync {
        cmp_dlp_handler: Some(new_cmp_dlp(transport)),
        dlp_version: DLPVersion { major_version: 1, minor_version: 3 },
    }
}

} // verus!
