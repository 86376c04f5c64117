//! The transport stack end to end: frames round-trip through the scanner,
//! corruption is rejected, fragmentation and reassembly reproduce
//! messages, duplicates are re-acknowledged but not redelivered, and an
//! exhausted retry budget aborts the connection.

use pisync::crc::crc16;
use pisync::padp::{
    fragment, parse_fragment, LinkEvent, LinkStatus, RecvAction, ReliabilityLayer, WriteStep,
    FRAG_TYPE_DATA, PADP_CHUNK_MAX,
};
use pisync::slp::{
    frame_payload, frame_scan, frame_write, FramingState, ReadOutcome, ScanOutcome, SLP_SOCK_DLP,
    SLP_TYPE_PADP,
};
use pisync::TransportError;

#[test]
fn frame_round_trip_reproduces_payload() {
    let payload: Vec<u8> = vec![1, 2, 3, 4, 5, 250, 0, 77];
    let frame = frame_write(3, 3, 2, 0x42, &payload).unwrap();
    assert_eq!(frame.len(), payload.len() + 12);
    match frame_scan(&frame, 0) {
        ScanOutcome::Found { pos, flen } => {
            assert_eq!(pos, 0);
            assert_eq!(flen, frame.len());
            let out = frame_payload(&frame, pos, flen);
            assert_eq!(out, payload);
        }
        ScanOutcome::NeedMore { .. } => panic!("frame not found"),
    }
}

#[test]
fn empty_frame_round_trip() {
    let payload: Vec<u8> = vec![];
    let frame = frame_write(3, 3, 2, 1, &payload).unwrap();
    match frame_scan(&frame, 0) {
        ScanOutcome::Found { pos, flen } => {
            assert_eq!(pos, 0);
            let out = frame_payload(&frame, pos, flen);
            assert!(out.is_empty());
        }
        ScanOutcome::NeedMore { .. } => panic!("frame not found"),
    }
}

#[test]
fn oversized_payload_rejected_with_datasize_error() {
    let payload: Vec<u8> = vec![0; 0x10000];
    match frame_write(3, 3, 2, 1, &payload) {
        Err(e) => assert_eq!(e, TransportError::DatasizeError),
        Ok(_) => panic!("oversized payload accepted"),
    }
}

#[test]
fn single_bit_flip_rejected_by_crc() {
    let payload: Vec<u8> = vec![10, 20, 30, 40];
    let frame = frame_write(3, 3, 2, 7, &payload).unwrap();
    // Flip each bit of each payload byte in turn: the corrupted frame must
    // never be delivered.
    for i in 0..payload.len() {
        for k in 0..8 {
            let mut corrupted = frame.clone();
            corrupted[10 + i] ^= 1u8 << k;
            match frame_scan(&corrupted, 0) {
                ScanOutcome::Found { .. } => panic!("corrupted frame delivered"),
                ScanOutcome::NeedMore { .. } => {}
            }
        }
    }
}

#[test]
fn crc_differs_on_any_bit_flip() {
    let data: Vec<u8> = vec![0xbe, 0xef, 0xed, 0, 1, 2, 3];
    let base = crc16(&data);
    for i in 0..data.len() {
        for k in 0..8 {
            let mut other = data.clone();
            other[i] ^= 1u8 << k;
            assert_ne!(crc16(&other), base);
        }
    }
}

#[test]
fn scanner_resynchronizes_over_leading_noise() {
    let payload: Vec<u8> = vec![9, 8, 7];
    let frame = frame_write(3, 3, 2, 5, &payload).unwrap();
    let mut stream: Vec<u8> = vec![0x00, 0xbe, 0x55, 0xff];
    stream.extend_from_slice(&frame);
    match frame_scan(&stream, 0) {
        ScanOutcome::Found { pos, flen } => {
            assert_eq!(pos, 4);
            let out = frame_payload(&stream, pos, flen);
            assert_eq!(out, payload);
        }
        ScanOutcome::NeedMore { .. } => panic!("frame not found after noise"),
    }
}

#[test]
fn framing_state_skips_reserved_wakeup_txid() {
    let mut st = FramingState::new();
    assert_eq!(st.dest, SLP_SOCK_DLP);
    assert_eq!(st.ptype, SLP_TYPE_PADP);
    // The counter starts just below the reserved id and must skip it.
    assert_eq!(st.next_txid, 0xfe);
    let t1 = st.take_txid();
    assert_eq!(t1, 0x00);
    let t2 = st.take_txid();
    assert_eq!(t2, 0x01);
}

#[test]
fn framing_read_drops_repeated_frame() {
    let payload: Vec<u8> = vec![42, 43];
    let frame = frame_write(3, 3, 2, 9, &payload).unwrap();
    let mut stream = frame.clone();
    stream.extend_from_slice(&frame);
    let mut st = FramingState::new();
    // First read delivers the frame.
    let next = match st.read(&stream, 0) {
        ReadOutcome::Delivered { pos, flen, payload: out } => {
            assert_eq!(pos, 0);
            assert_eq!(out, payload);
            pos + flen
        }
        ReadOutcome::NeedMore { .. } => panic!("first frame not delivered"),
    };
    // The second, identical frame is dropped silently.
    match st.read(&stream, next) {
        ReadOutcome::Delivered { .. } => panic!("duplicate frame delivered"),
        ReadOutcome::NeedMore { pos } => assert_eq!(pos, stream.len()),
    }
}

#[test]
fn fragmentation_reassembly_reproduces_large_message() {
    // Three chunks and a remainder.
    let n = PADP_CHUNK_MAX * 2 + 1234;
    let mut msg: Vec<u8> = Vec::with_capacity(n);
    for i in 0..n {
        msg.push((i * 31 + 7) as u8);
    }
    let chunks = fragment(&msg);
    assert_eq!(chunks.len(), 3);
    let rebuilt: Vec<u8> = chunks.concat();
    assert_eq!(rebuilt, msg);

    // Send it: every chunk promptly acknowledged.
    let mut sender = ReliabilityLayer::new();
    sender.mark_connected();
    let events = vec![LinkEvent::Ack; 3];
    let frames = sender.write_with_events(&msg, &events).unwrap();
    assert_eq!(frames.len(), 3);
    assert_eq!(sender.status, LinkStatus::Connected);

    // Receive it: extract each frame's payload and feed the receiver.
    let mut receiver = ReliabilityLayer::new();
    receiver.mark_connected();
    let mut delivered: Option<Vec<u8>> = None;
    for f in &frames {
        match frame_scan(f, 0) {
            ScanOutcome::Found { pos, flen } => {
                let txid = f[pos + 8];
                let data = frame_payload(f, pos, flen);
                match receiver.read_on_frame(txid, &data).unwrap() {
                    RecvAction::Ack { .. } => {}
                    RecvAction::Deliver { message, .. } => delivered = Some(message),
                    RecvAction::Ignored => panic!("data fragment ignored"),
                }
            }
            ScanOutcome::NeedMore { .. } => panic!("chunk frame not found"),
        }
    }
    assert_eq!(delivered.expect("message not delivered"), msg);
}

#[test]
fn read_message_reassembles_fragment_payloads() {
    let n = PADP_CHUNK_MAX + 99;
    let mut msg: Vec<u8> = Vec::with_capacity(n);
    for i in 0..n {
        msg.push((i % 251) as u8);
    }
    let mut sender = ReliabilityLayer::new();
    sender.mark_connected();
    let frames = sender
        .write_with_events(&msg, &vec![LinkEvent::Ack; 2])
        .unwrap();
    let mut payloads: Vec<Vec<u8>> = Vec::new();
    let mut txid = 0;
    for f in &frames {
        match frame_scan(f, 0) {
            ScanOutcome::Found { pos, flen } => {
                txid = f[pos + 8];
                payloads.push(frame_payload(f, pos, flen));
            }
            ScanOutcome::NeedMore { .. } => panic!("chunk frame not found"),
        }
    }
    let mut receiver = ReliabilityLayer::new();
    receiver.mark_connected();
    let out = receiver.read_message(txid, &payloads).unwrap();
    assert_eq!(out, msg);
}

#[test]
fn redelivered_last_chunk_acked_again_but_not_redelivered() {
    let msg: Vec<u8> = vec![5, 6, 7, 8];
    let mut sender = ReliabilityLayer::new();
    sender.mark_connected();
    let frames = sender
        .write_with_events(&msg, &vec![LinkEvent::Ack])
        .unwrap();
    assert_eq!(frames.len(), 1);
    let (txid, data) = match frame_scan(&frames[0], 0) {
        ScanOutcome::Found { pos, flen } => (frames[0][pos + 8], frame_payload(&frames[0], pos, flen)),
        ScanOutcome::NeedMore { .. } => panic!("chunk frame not found"),
    };
    let mut receiver = ReliabilityLayer::new();
    receiver.mark_connected();
    match receiver.read_on_frame(txid, &data).unwrap() {
        RecvAction::Deliver { message, .. } => assert_eq!(message, msg),
        _ => panic!("message not delivered"),
    }
    // Redelivering the acknowledged set's last chunk: acknowledged again,
    // never delivered a second time.
    match receiver.read_on_frame(txid, &data).unwrap() {
        RecvAction::Ack { txid: t } => assert_eq!(t, txid),
        RecvAction::Deliver { .. } => panic!("message delivered twice"),
        RecvAction::Ignored => panic!("retransmission ignored"),
    }
}

#[test]
fn retries_exhausted_aborts_and_disconnects() {
    let msg: Vec<u8> = vec![1, 2, 3];
    let mut sender = ReliabilityLayer::new();
    sender.mark_connected();
    assert_eq!(sender.max_retries, 10);
    // Eleven expiries: ten retries spent, then the abort.
    let events = vec![LinkEvent::TimeoutExpired; 11];
    match sender.write_with_events(&msg, &events) {
        Err(e) => assert_eq!(e, TransportError::ProtocolAborted),
        Ok(_) => panic!("write succeeded without acknowledgment"),
    }
    assert_eq!(sender.status, LinkStatus::Disconnected);
}

#[test]
fn write_outside_connected_state_fails() {
    let msg: Vec<u8> = vec![1];
    let mut layer = ReliabilityLayer::new();
    assert_eq!(layer.status, LinkStatus::Disconnected);
    match layer.write_with_events(&msg, &vec![]) {
        Err(e) => assert_eq!(e, TransportError::NotConnected),
        Ok(_) => panic!("write succeeded while disconnected"),
    }
    layer.mark_connected();
    layer.suspend();
    assert_eq!(layer.status, LinkStatus::Suspended);
    match layer.write_with_events(&msg, &vec![]) {
        Err(e) => assert_eq!(e, TransportError::NotConnected),
        Ok(_) => panic!("write succeeded while suspended"),
    }
}

#[test]
fn zero_length_message_round_trips() {
    let msg: Vec<u8> = vec![];
    let mut sender = ReliabilityLayer::new();
    sender.mark_connected();
    let frames = sender
        .write_with_events(&msg, &vec![LinkEvent::Ack])
        .unwrap();
    // One chunk, empty payload, more-fragments unset.
    assert_eq!(frames.len(), 1);
    let (txid, data) = match frame_scan(&frames[0], 0) {
        ScanOutcome::Found { pos, flen } => (frames[0][pos + 8], frame_payload(&frames[0], pos, flen)),
        ScanOutcome::NeedMore { .. } => panic!("chunk frame not found"),
    };
    let frag = parse_fragment(&data).unwrap();
    assert_eq!(frag.ftype, FRAG_TYPE_DATA);
    assert!(!frag.more);
    assert_eq!(frag.index, 0);
    assert!(frag.body.is_empty());
    let mut receiver = ReliabilityLayer::new();
    receiver.mark_connected();
    match receiver.read_on_frame(txid, &data).unwrap() {
        RecvAction::Deliver { message, .. } => assert_eq!(message.len(), 0),
        _ => panic!("empty message not delivered"),
    }
}

#[test]
fn out_of_sequence_chunk_drops_partial_message() {
    // A two-chunk message, but the second chunk arrives under another
    // transaction id: the partial message is dropped with an error.
    let n = PADP_CHUNK_MAX + 5;
    let mut msg: Vec<u8> = Vec::with_capacity(n);
    for i in 0..n {
        msg.push(i as u8);
    }
    let mut sender = ReliabilityLayer::new();
    sender.mark_connected();
    let frames = sender
        .write_with_events(&msg, &vec![LinkEvent::Ack; 2])
        .unwrap();
    let mut receiver = ReliabilityLayer::new();
    receiver.mark_connected();
    let (txid, data) = match frame_scan(&frames[0], 0) {
        ScanOutcome::Found { pos, flen } => (frames[0][pos + 8], frame_payload(&frames[0], pos, flen)),
        ScanOutcome::NeedMore { .. } => panic!("chunk frame not found"),
    };
    match receiver.read_on_frame(txid, &data).unwrap() {
        RecvAction::Ack { .. } => {}
        _ => panic!("first chunk not held"),
    }
    let (_txid2, data2) = match frame_scan(&frames[1], 0) {
        ScanOutcome::Found { pos, flen } => (frames[1][pos + 8], frame_payload(&frames[1], pos, flen)),
        ScanOutcome::NeedMore { .. } => panic!("chunk frame not found"),
    };
    match receiver.read_on_frame(txid.wrapping_add(1), &data2) {
        Err(e) => assert_eq!(e, TransportError::BadPacket),
        Ok(_) => panic!("foreign transaction id accepted"),
    }
}

#[test]
fn resend_after_timeout_repeats_same_frame() {
    let msg: Vec<u8> = vec![11, 22];
    let mut sender = ReliabilityLayer::new();
    sender.mark_connected();
    let events = vec![LinkEvent::TimeoutExpired, LinkEvent::Ack];
    let frames = sender.write_with_events(&msg, &events).unwrap();
    assert_eq!(frames.len(), 2);
    assert_eq!(frames[0], frames[1]);
}

#[test]
fn tickle_frame_carries_keepalive_type() {
    let mut layer = ReliabilityLayer::new();
    layer.mark_connected();
    let frame = layer.tickle_frame().unwrap();
    match frame_scan(&frame, 0) {
        ScanOutcome::Found { pos, flen } => {
            let data = frame_payload(&frame, pos, flen);
            let frag = parse_fragment(&data).unwrap();
            assert_eq!(frag.ftype, pisync::padp::FRAG_TYPE_TICKLE);
            assert!(frag.body.is_empty());
        }
        ScanOutcome::NeedMore { .. } => panic!("tickle frame not found"),
    }
}

#[test]
fn write_step_done_after_single_ack() {
    let msg: Vec<u8> = vec![1];
    let mut sender = ReliabilityLayer::new();
    sender.mark_connected();
    let first = sender.write_begin(&msg).unwrap();
    assert!(!first.is_empty());
    match sender.write_on_ack().unwrap() {
        WriteStep::Done => {}
        WriteStep::SendFrame { .. } => panic!("single-chunk message not done after one ack"),
    }
    assert!(sender.send.is_none());
}

#[test]
fn events_exhausted_is_a_timeout() {
    let msg: Vec<u8> = vec![1, 2];
    let mut sender = ReliabilityLayer::new();
    sender.mark_connected();
    // No acknowledgment nor timer expiry before the whole-message deadline.
    match sender.write_with_events(&msg, &vec![]) {
        Err(e) => assert_eq!(e, TransportError::Timeout),
        Ok(_) => panic!("write succeeded without acknowledgment"),
    }
    assert_eq!(sender.status, LinkStatus::Connected);
}

#[test]
fn ack_without_send_in_flight_is_invalid() {
    let mut layer = ReliabilityLayer::new();
    layer.mark_connected();
    match layer.write_on_ack() {
        Err(e) => assert_eq!(e, TransportError::InvalidArgument),
        Ok(_) => panic!("stray acknowledgment accepted"),
    }
    match layer.write_on_timeout() {
        Err(e) => assert_eq!(e, TransportError::InvalidArgument),
        Ok(_) => panic!("stray timer expiry accepted"),
    }
}
