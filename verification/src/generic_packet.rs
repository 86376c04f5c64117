//! A generic packet: the unit passed between protocol layers for encoding
//! and decoding, carrying its payload, addressing and transaction id.

use vstd::prelude::*;

verus! {

/// A packet handed between protocol layers: payload bytes, source and
/// destination sockets, and the transaction id it travels under.
pub struct GenericPacket {
    pub data: Vec<u8>,
    pub source: i8,
    pub destination: i8,
    pub transaction_id: i8,
}

/// Builds a packet with a zero transaction id.
pub fn new(data: Vec<u8>, src_socket: i8, dest_sock: i8) -> (r: GenericPacket)
    ensures
        r.data@ == data@,
        r.source == src_socket,
        r.destination == dest_sock,
        r.transaction_id == 0,
{
    GenericPacket { data, source: src_socket, destination: dest_sock, transaction_id: 0 }
}

/// Builds a packet under the given transaction id.
pub fn new_with_transid(data: Vec<u8>, src_socket: i8, dest_sock: i8, trans_id: i8) -> (r:
    GenericPacket)
    ensures
        r.data@ == data@,
        r.source == src_socket,
        r.destination == dest_sock,
        r.transaction_id == trans_id,
{
    GenericPacket { data, source: src_socket, destination: dest_sock, transaction_id: trans_id }
}

} // verus!
