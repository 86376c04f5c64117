//! The handshake layer against scripted peers, the protocol-chain
//! runtime, and the error taxonomy.

use std::cell::RefCell;

use pisync::cmp_dlp::{
    determine_packet_type, negotiate, new_cmp_dlp, new_cmp_packet, new_cmp_packet_with_settings,
    new_dlp_version, new_dlp_version_with_settings, CMPDLPTransferTrait, CMPPacket,
    CMPPacketTrait, HandshakeStatus, CMP_ABORT, CMP_INIT, CMP_WAKEUP,
};
use pisync::generic_packet::{new, new_with_transid, GenericPacket};
use pisync::hotsync::{new_hotsync_with_cmpdlp, new_hotsync_with_transport};
use pisync::socket::{
    find_socket, get_protocol, get_protocol_next, new_cmp_protocol, protocol_queue_find,
    protocol_queue_find_next, register_layer, socket_get_sockopt, socket_list_search,
    socket_set_error, socket_set_sockopt, Data, Device, Opt, OptLevels, Protocol, Socket,
};
use pisync::{DLPErrorDefinitions, TransportError};

/// A scripted transport: hands back queued packets and records what the
/// handshake transmits.
struct ScriptedLink {
    incoming: RefCell<Vec<GenericPacket>>,
    sent: RefCell<Vec<Vec<u8>>>,
    long_packets: RefCell<Vec<bool>>,
}

impl ScriptedLink {
    fn with_responses(responses: Vec<GenericPacket>) -> ScriptedLink {
        ScriptedLink {
            incoming: RefCell::new(responses),
            sent: RefCell::new(Vec::new()),
            long_packets: RefCell::new(Vec::new()),
        }
    }
}

impl CMPDLPTransferTrait for ScriptedLink {
    fn connect(&self) {}

    fn disconnect(&self) {}

    fn suspend_connection(&self) {}

    fn is_connected(&self) -> bool {
        false
    }

    fn use_long_packets(&self, flag: bool) {
        self.long_packets.borrow_mut().push(flag);
    }

    fn read_packet(&self) -> GenericPacket {
        self.incoming.borrow_mut().remove(0)
    }

    fn transmit_packet(&self, data: Vec<u8>, _src_socket: i8, _dest_sock: i8) {
        self.sent.borrow_mut().push(data);
    }
}

fn peer_record(packet_type: u8, flags: u8, major: u8, minor: u8, baud: u32) -> GenericPacket {
    let pkt = new_cmp_packet_with_settings(packet_type, flags, major, minor, baud);
    new(pkt.packet_to_bytes(), 3, 3)
}

#[test]
fn connect_against_wrong_major_version_fails_incompatible() {
    // The peer advertises major version 2; the local side speaks 1.
    let link = ScriptedLink::with_responses(vec![peer_record(CMP_INIT, 0, 2, 0, 9600)]);
    let mut cmp = new_cmp_dlp(link);
    match cmp.connect() {
        Err(e) => assert_eq!(e, TransportError::ProtocolIncompatible),
        Ok(()) => panic!("incompatible peer accepted"),
    }
    assert_eq!(cmp.status, HandshakeStatus::Idle);
    assert!(!cmp.is_connected());
}

#[test]
fn connect_negotiates_baud_and_long_packets() {
    // Local default 9600 but 38400 requested; the peer advertises
    // long-packet support: the outgoing record asks for both.
    let link = ScriptedLink::with_responses(vec![peer_record(
        CMP_INIT,
        CMPPacket::FLAG_LONG_PACKET_SUPPORT,
        1,
        0,
        9600,
    )]);
    let mut cmp = new_cmp_dlp(link);
    cmp.set_speed(38400);
    cmp.connect().unwrap();
    assert!(cmp.is_connected());
    assert_eq!(cmp.get_speed(), 38400);
    let sent = cmp.padp_handler.sent.borrow();
    assert_eq!(sent.len(), 2);
    // The wake-up record went first.
    assert_eq!(sent[0][0], CMP_WAKEUP);
    // The initialization record carries both capability flags and the
    // accepted rate.
    assert_eq!(sent[1][0], CMP_INIT);
    assert_eq!(
        sent[1][1],
        CMPPacket::FLAG_CHANGE_BAUD_RATE | CMPPacket::FLAG_LONG_PACKET_SUPPORT
    );
    assert_eq!(
        &sent[1][6..10],
        &38400u32.to_be_bytes()
    );
    let long = cmp.padp_handler.long_packets.borrow();
    assert_eq!(long.as_slice(), &[true]);
}

#[test]
fn connect_falls_back_to_default_rate_without_peer_support() {
    // The peer advertises nothing: the non-default rate is dropped, not an
    // error.
    let link = ScriptedLink::with_responses(vec![peer_record(CMP_INIT, 0, 1, 0, 9600)]);
    let mut cmp = new_cmp_dlp(link);
    cmp.set_speed(38400);
    cmp.connect().unwrap();
    assert!(cmp.is_connected());
    assert_eq!(cmp.get_speed(), CMPPacket::DEFAULT_SPEED);
    let sent = cmp.padp_handler.sent.borrow();
    assert_eq!(sent[1][1], 0);
}

#[test]
fn connect_twice_is_a_no_op() {
    let link = ScriptedLink::with_responses(vec![peer_record(CMP_INIT, 0, 1, 0, 9600)]);
    let mut cmp = new_cmp_dlp(link);
    cmp.connect().unwrap();
    assert!(cmp.is_connected());
    let sent_after_first = cmp.padp_handler.sent.borrow().len();
    // The second call returns success immediately, exchanging nothing.
    cmp.connect().unwrap();
    assert!(cmp.is_connected());
    assert_eq!(cmp.padp_handler.sent.borrow().len(), sent_after_first);
}

#[test]
fn connect_against_abort_fails_aborted() {
    let link = ScriptedLink::with_responses(vec![peer_record(CMP_ABORT, 0, 1, 0, 9600)]);
    let mut cmp = new_cmp_dlp(link);
    match cmp.connect() {
        Err(e) => assert_eq!(e, TransportError::ProtocolAborted),
        Ok(()) => panic!("abort record accepted"),
    }
    assert_eq!(cmp.status, HandshakeStatus::Idle);
}

#[test]
fn connect_against_malformed_peer_fails_incompatible() {
    // A wake-up record where an initialization was owed.
    let link = ScriptedLink::with_responses(vec![peer_record(CMP_WAKEUP, 0, 1, 0, 9600)]);
    let mut cmp = new_cmp_dlp(link);
    match cmp.connect() {
        Err(e) => assert_eq!(e, TransportError::ProtocolIncompatible),
        Ok(()) => panic!("malformed peer accepted"),
    }
    assert_eq!(cmp.status, HandshakeStatus::Idle);
}

#[test]
fn disconnect_sends_abort_and_returns_to_idle() {
    let link = ScriptedLink::with_responses(vec![peer_record(CMP_INIT, 0, 1, 0, 9600)]);
    let mut cmp = new_cmp_dlp(link);
    cmp.connect().unwrap();
    cmp.disconnect();
    assert_eq!(cmp.status, HandshakeStatus::Idle);
    let sent = cmp.padp_handler.sent.borrow();
    assert_eq!(sent.last().unwrap()[0], CMP_ABORT);
    drop(sent);
    // Disconnecting again is a no-op.
    let count = cmp.padp_handler.sent.borrow().len();
    cmp.disconnect();
    assert_eq!(cmp.padp_handler.sent.borrow().len(), count);
}

#[test]
fn negotiate_minor_version_takes_the_lower() {
    let local = new_dlp_version_with_settings(1, 4);
    let peer = new_cmp_packet_with_settings(CMP_INIT, 0, 1, 2, 9600);
    let out = negotiate(&local, 9600, &peer).unwrap();
    assert_eq!(out.major_version, 1);
    assert_eq!(out.minor_version, 2);
    let peer2 = new_cmp_packet_with_settings(CMP_INIT, 0, 1, 9, 9600);
    let out2 = negotiate(&local, 9600, &peer2).unwrap();
    assert_eq!(out2.minor_version, 4);
}

#[test]
fn cmp_packet_bytes_round_trip() {
    let pkt = new_cmp_packet_with_settings(CMP_INIT, 0x90, 1, 3, 57600);
    let bytes = pkt.packet_to_bytes();
    assert_eq!(bytes.len(), 10);
    assert_eq!(&bytes[..6], &[CMP_INIT, 0x90, 1, 3, 0, 0]);
    let back = CMPPacket::bytes_to_packet(&bytes);
    assert_eq!(back.packet_type, CMP_INIT);
    assert_eq!(back.flags, 0x90);
    assert_eq!(back.major_version, 1);
    assert_eq!(back.minor_version, 3);
    assert_eq!(back.baud_rate, 57600);
}

#[test]
fn default_cmp_packet_and_version() {
    let pkt = new_cmp_packet();
    assert_eq!(pkt.packet_type, 0);
    assert_eq!(pkt.baud_rate, CMPPacket::DEFAULT_SPEED);
    assert!(!pkt.test_flag(CMPPacket::FLAG_LONG_PACKET_SUPPORT));
    let flagged = new_cmp_packet_with_settings(CMP_INIT, 0x30, 0, 0, 9600);
    assert!(flagged.test_flag(CMPPacket::FLAG_TWO_MINUTE_TIMEOUT));
    assert!(!flagged.test_flag(CMPPacket::FLAG_CHANGE_BAUD_RATE));
    let v = new_dlp_version();
    assert_eq!((v.major_version, v.minor_version), (1, 0));
}

#[test]
fn generic_packet_constructors() {
    let p = new(vec![1, 2, 3], 3, 4);
    assert_eq!(p.data, vec![1, 2, 3]);
    assert_eq!((p.source, p.destination, p.transaction_id), (3, 4, 0));
    let q = new_with_transid(vec![16], 1, 2, -1);
    assert_eq!(q.transaction_id, -1);
    assert!(determine_packet_type(&q));
    assert!(!determine_packet_type(&new(vec![2], 1, 2)));
}

#[test]
fn hotsync_constructors_build_the_stack() {
    let link = ScriptedLink::with_responses(vec![]);
    let hs = new_hotsync_with_transport(link);
    assert_eq!(hs.dlp_version.major_version, 1);
    assert_eq!(hs.dlp_version.minor_version, 3);
    let cmp = hs.cmp_dlp_handler.unwrap();
    assert_eq!(cmp.status, HandshakeStatus::Idle);
    let hs2 = new_hotsync_with_cmpdlp(cmp);
    assert!(hs2.cmp_dlp_handler.is_some());
}

fn test_socket(sd: i32, queue: Vec<Protocol>) -> Socket {
    Socket {
        socket_descriptor: sd,
        socket_type: 0,
        protocol: 0,
        cmd: 0,
        laddrlen: 0,
        raddrlen: 0,
        protocol_queue: queue,
        cmd_queue: Vec::new(),
        device: Device {},
        socket_state: 0,
        honor_rx_to: 1,
        command: 0,
        accept_to: 0,
        dlprecord: 0,
        dlpversion: 0,
        maxrecsize: 0,
        last_error: DLPErrorDefinitions::ErrNoErr,
        palmos_error: 0,
    }
}

fn layer(level: OptLevels) -> Protocol {
    Protocol {
        level,
        data: Data {
            cmp_data_type: 0,
            cmp_flags: 0,
            cmp_version: 0,
            cmp_baudrate: 0,
            padp_data_type: 0,
        },
    }
}

#[test]
fn protocol_chain_lookup_and_delegation() {
    let stack = vec![
        layer(OptLevels::LevelDev),
        layer(OptLevels::LevelSLP),
        layer(OptLevels::LevelPADP),
        layer(OptLevels::LevelCMP),
    ];
    let sock = test_socket(7, stack);
    // The layer of a kind is found.
    assert_eq!(
        protocol_queue_find(&sock, OptLevels::LevelPADP).unwrap().level,
        OptLevels::LevelPADP
    );
    assert!(protocol_queue_find(&sock, OptLevels::LevelNet).is_none());
    // The delegation target beneath a kind is the layer before it.
    assert_eq!(
        protocol_queue_find_next(&sock, OptLevels::LevelCMP).unwrap().level,
        OptLevels::LevelPADP
    );
    assert_eq!(
        protocol_queue_find_next(&sock, OptLevels::LevelSLP).unwrap().level,
        OptLevels::LevelDev
    );
    // The bottom layer has nothing beneath it.
    assert!(protocol_queue_find_next(&sock, OptLevels::LevelDev).is_none());
}

#[test]
fn registry_lookup_error_recording_and_registration() {
    let mut registry: Vec<Socket> = vec![test_socket(3, Vec::new()), test_socket(9, Vec::new())];
    assert_eq!(socket_list_search(&registry, 9), Some(1));
    assert_eq!(socket_list_search(&registry, 4), None);
    assert_eq!(find_socket(&registry, 3).unwrap().socket_descriptor, 3);
    assert!(find_socket(&registry, 4).is_none());

    // Recording an error touches only the connection it happened on.
    let e = socket_set_error(&mut registry, 9, DLPErrorDefinitions::ErrSockTimeout);
    assert_eq!(e, DLPErrorDefinitions::ErrSockTimeout);
    assert_eq!(registry[1].last_error, DLPErrorDefinitions::ErrSockTimeout);
    assert_eq!(registry[0].last_error, DLPErrorDefinitions::ErrNoErr);
    // An unknown descriptor records nothing but still hands the code back.
    let e2 = socket_set_error(&mut registry, 4, DLPErrorDefinitions::ErrSockIo);
    assert_eq!(e2, DLPErrorDefinitions::ErrSockIo);

    // A layer lands at the top of the stack of its connection.
    let r = register_layer(&mut registry, 3, new_cmp_protocol());
    assert_eq!(r, DLPErrorDefinitions::ErrNoErr);
    assert_eq!(registry[0].protocol_queue.len(), 1);
    assert_eq!(
        get_protocol(&registry, 3, OptLevels::LevelCMP).unwrap().level,
        OptLevels::LevelCMP
    );
    assert!(get_protocol_next(&registry, 3, OptLevels::LevelCMP).is_none());
    assert_eq!(
        register_layer(&mut registry, 4, new_cmp_protocol()),
        DLPErrorDefinitions::ErrSockInvalid
    );
}

#[test]
fn error_codes_map_to_the_historic_taxonomy() {
    assert_eq!(
        TransportError::ProtocolAborted.error_code(),
        DLPErrorDefinitions::ErrProtAborted
    );
    assert_eq!(
        TransportError::Timeout.error_code(),
        DLPErrorDefinitions::ErrSockTimeout
    );
    assert_eq!(
        TransportError::BadPacket.error_code(),
        DLPErrorDefinitions::ErrProtBadpacket
    );
    assert_eq!(
        TransportError::NotConnected.error_code(),
        DLPErrorDefinitions::ErrSockDisconnected
    );
    assert_eq!(
        TransportError::DatasizeError.error_code(),
        DLPErrorDefinitions::ErrDLPDatasize
    );
}

#[test]
fn options_dispatch_to_their_owning_layer() {
    let mut registry: Vec<Socket> =
        vec![test_socket(5, vec![layer(OptLevels::LevelPADP), layer(OptLevels::LevelCMP)])];

    // The handshake layer owns the baud option.
    let mut len: usize = 8;
    let r = socket_set_sockopt(&mut registry, 5, OptLevels::LevelCMP, Opt::CMPBaud, &57600, &mut len);
    assert_eq!(r, DLPErrorDefinitions::ErrNoErr);
    assert_eq!(len, 8);
    let mut value: i64 = 0;
    let r = socket_get_sockopt(&registry, 5, OptLevels::LevelCMP, Opt::CMPBaud, &mut value, &mut len);
    assert_eq!(r, DLPErrorDefinitions::ErrNoErr);
    assert_eq!(value, 57600);

    // The reliability layer owns its packet type.
    let mut len1: usize = 1;
    let r = socket_set_sockopt(&mut registry, 5, OptLevels::LevelPADP, Opt::PADPType, &2, &mut len1);
    assert_eq!(r, DLPErrorDefinitions::ErrNoErr);
    let mut v2: i64 = 0;
    socket_get_sockopt(&registry, 5, OptLevels::LevelPADP, Opt::PADPType, &mut v2, &mut len1);
    assert_eq!(v2, 2);

    // Socket-level state with the right length.
    let mut len4: usize = 4;
    let r = socket_set_sockopt(&mut registry, 5, OptLevels::LevelSock, Opt::SocketState, &3, &mut len4);
    assert_eq!(r, DLPErrorDefinitions::ErrNoErr);
    assert_eq!(registry[0].socket_state, 3);

    // A wrong length is an invalid argument and changes nothing.
    let mut bad_len: usize = 2;
    let r = socket_set_sockopt(&mut registry, 5, OptLevels::LevelSock, Opt::SocketState, &9, &mut bad_len);
    assert_eq!(r, DLPErrorDefinitions::ErrGenericArgument);
    assert_eq!(registry[0].socket_state, 3);

    // A name the layer does not own is an invalid argument.
    let mut len_x: usize = 1;
    let r = socket_set_sockopt(&mut registry, 5, OptLevels::LevelCMP, Opt::PADPType, &1, &mut len_x);
    assert_eq!(r, DLPErrorDefinitions::ErrGenericArgument);

    // An unknown connection is an invalid connection.
    let mut len_y: usize = 4;
    let r = socket_set_sockopt(&mut registry, 6, OptLevels::LevelSock, Opt::SocketState, &1, &mut len_y);
    assert_eq!(r, DLPErrorDefinitions::ErrSockInvalid);
}
