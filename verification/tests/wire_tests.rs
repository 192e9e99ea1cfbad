use lockstep::HostFinalizedSlice;
use lockstep::InputBytes;
use lockstep::MsgPayload;
use lockstep::PeerwiseFinalizedInputsSeen;
use lockstep::PlayerInputSlice;
use lockstep::PlayerNum;
use lockstep::PreSimSync;

fn round_trip(payload: MsgPayload) {
    let bytes = payload.to_bytes();
    let decoded = MsgPayload::from_bytes(&bytes).unwrap();
    assert_eq!(decoded, payload);
    assert_eq!(decoded.to_bytes(), bytes);
}

#[test]
fn test_msg_payload_round_trip_empty() {
    round_trip(MsgPayload::Empty);
}

#[test]
fn test_msg_payload_round_trip_invalid() {
    round_trip(MsgPayload::Invalid);
}

#[test]
fn test_msg_payload_round_trip_ack_finalization() {
    round_trip(MsgPayload::AckFinalization(
        PeerwiseFinalizedInputsSeen::new_test(&vec![(1u8, 3u32)]),
    ));
}

#[test]
fn test_msg_payload_round_trip_host_finalized_slice() {
    round_trip(MsgPayload::HostFinalizedSlice(HostFinalizedSlice::new_test(
        PlayerNum::from_u8(2),
        5,
        0,
        2,
    )));
}

#[test]
fn test_msg_payload_round_trip_peer_inputs() {
    round_trip(MsgPayload::PeerInputs(PlayerInputSlice::new_test(10, 3)));
}

#[test]
fn test_msg_payload_round_trip_pre_sim_sync() {
    round_trip(MsgPayload::PreSimSync(PreSimSync {
        host_tick_countdown: 4,
        peers: vec![0, 1, 2],
    }));
}

#[test]
fn test_msg_payload_round_trip_guest_ping() {
    round_trip(MsgPayload::GuestPing(42));
}

#[test]
fn test_msg_payload_round_trip_host_pong() {
    round_trip(MsgPayload::HostPong(43));
}

#[test]
fn test_msg_payload_round_trip_guest_pong_pong() {
    round_trip(MsgPayload::GuestPongPong(44));
}

#[test]
fn test_msg_payload_unknown_variant() {
    // Deserializing an unknown variant number should produce an error
    let bytes = vec![255u8];
    assert!(MsgPayload::from_bytes(&bytes).is_err());
}

#[test]
fn test_empty_payload_decodes_to_empty() {
    assert_eq!(MsgPayload::from_bytes(&[]).unwrap(), MsgPayload::Empty);
}

#[test]
fn test_decode_rejects_truncated_and_oversized() {
    // a ping is five bytes exactly
    let ping = MsgPayload::GuestPing(7).to_bytes();
    assert!(MsgPayload::from_bytes(&ping[..4]).is_err());
    let mut long = ping.clone();
    long.push(0);
    assert!(MsgPayload::from_bytes(&long).is_err());

    // a count that does not match the remaining bytes
    let mut ack = MsgPayload::AckFinalization(PeerwiseFinalizedInputsSeen::new_test(&vec![(
        0u8, 9u32,
    )]))
    .to_bytes();
    ack.pop();
    assert!(MsgPayload::from_bytes(&ack).is_err());
}

#[test]
fn test_encoding_layout_is_stable() {
    // the wire layout is a compatibility contract: one tag byte, then
    // little-endian fields
    assert_eq!(MsgPayload::Empty.to_bytes(), vec![0u8]);
    assert_eq!(MsgPayload::Invalid.to_bytes(), vec![1u8]);
    assert_eq!(
        MsgPayload::GuestPing(0x01020304).to_bytes(),
        vec![6u8, 0x04, 0x03, 0x02, 0x01]
    );
    assert_eq!(
        MsgPayload::PreSimSync(PreSimSync { host_tick_countdown: 9, peers: vec![1] }).to_bytes(),
        vec![5u8, 9, 1, 0, 0, 0, 1, 0, 0, 0]
    );
    let slice = PlayerInputSlice { start: 2, inputs: vec![InputBytes { b0: 9, b1: 8, b2: 7, b3: 6 }] };
    assert_eq!(
        MsgPayload::PeerInputs(slice).to_bytes(),
        vec![4u8, 2, 0, 0, 0, 1, 0, 0, 0, 9, 8, 7, 6]
    );
}

#[test]
fn test_message_direction_flags() {
    assert!(MsgPayload::AckFinalization(PeerwiseFinalizedInputsSeen::new(2)).is_guest_reply());
    assert!(MsgPayload::GuestPing(1).is_guest_reply());
    assert!(MsgPayload::GuestPongPong(1).is_guest_reply());
    assert!(!MsgPayload::HostPong(1).is_guest_reply());
    assert!(!MsgPayload::Empty.is_guest_reply());

    let hfs = MsgPayload::HostFinalizedSlice(HostFinalizedSlice::new_test(
        PlayerNum::from_u8(1),
        0,
        0,
        1,
    ));
    assert!(hfs.is_host_reply_for_all());
    assert!(!hfs.is_host_reply_for_one());
    assert!(MsgPayload::HostPong(1).is_host_reply_for_one());
    assert!(!MsgPayload::GuestPing(1).is_host_reply_for_all());

    assert_eq!(hfs.variant_num(), 3);
    assert_eq!(MsgPayload::Empty.variant_num(), 0);
    assert_eq!(MsgPayload::GuestPongPong(1).variant_num(), 8);
}
