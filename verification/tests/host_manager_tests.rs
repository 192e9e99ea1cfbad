use lockstep::HostFinalizedSlice;
use lockstep::HostInputMgr;
use lockstep::InputBytes;
use lockstep::MsgPayload;
use lockstep::MultiplayerInputManager;
use lockstep::PeerwiseFinalizedInputsSeen;
use lockstep::PlayerInputSlice;
use lockstep::PlayerNum;
use lockstep::SyncError;

fn p(n: u8) -> PlayerNum {
    PlayerNum::from_u8(n)
}

fn ack(pairs: Vec<(u8, u32)>) -> MsgPayload {
    MsgPayload::AckFinalization(PeerwiseFinalizedInputsSeen::new_test(&pairs))
}

const MAX_TICKS_PREDICT_LOCF: u32 = 5;

#[test]
fn mod_test_new_manager() {
    let manager = MultiplayerInputManager::<HostInputMgr>::new(4, 5, MAX_TICKS_PREDICT_LOCF, 30);
    assert_eq!(manager.inner.max_guest_ticks_behind, 5);

    for i in 0..4 {
        assert_eq!(
            manager
                .inner
                .guests_finalized_observations
                .get_earliest_num_observed_final_for_peer(p(i)),
            0
        );
    }
}

#[test]
fn mod_test_snapshottable_sim_tick() {
    let mut manager = MultiplayerInputManager::<HostInputMgr>::new(2, 5, MAX_TICKS_PREDICT_LOCF, 30);

    // Add some inputs for host
    for _ in 0..5 {
        manager.add_host_input_directly(InputBytes::default());
    }

    // Without any other player inputs, snapshottable tick should be 0
    assert_eq!(manager.get_snapshottable_sim_tick(), 0);

    // Add finalized inputs for another player with lower max tick
    let other_id = 1;
    let inputs_to_add = 3;
    let msg = MsgPayload::PeerInputs(PlayerInputSlice::new_test(0, inputs_to_add));
    manager.rx_guest_input_slice(p(other_id), msg);

    // Snapshottable tick should now be the min of the finalized counts
    assert_eq!(manager.get_snapshottable_sim_tick(), 3);
}

#[test]
fn test_get_finalization_start_for_peer() {
    let mut manager = MultiplayerInputManager::<HostInputMgr>::new(4, 5, MAX_TICKS_PREDICT_LOCF, 30);

    // Add some inputs for host
    for _ in 0..5 {
        manager.add_host_input_directly(InputBytes::default());
    }

    // there are no other players heard from yet,
    // so the earliest tick needed by at least one peer should be 0
    assert_eq!(manager.test_get_earliest_num_observed_final_for_peer(p(0)), 0);

    // add inputs for another player
    let other_id = 2;
    let inputs_to_add = 10;
    let msg = MsgPayload::PeerInputs(PlayerInputSlice::new_test(0, inputs_to_add));
    manager.rx_guest_input_slice(p(other_id), msg);

    // now the host has heard from one other peer, but the peer
    // has not acked any finalized inputs yet, so the earliest
    // tick needed by at least one peer should still be 0
    assert_eq!(manager.test_get_earliest_num_observed_final_for_peer(p(0)), 0);

    // now have the peer ack inputs up to tick 3 for host,
    // and up to tick 5 for themselves
    manager.rx_finalized_ticks_observations(p(other_id), ack(vec![(0, 3), (other_id, 5)]));

    assert_eq!(manager.test_get_earliest_num_observed_final_for_peer(p(0)), 3);
    assert_eq!(
        manager.test_get_earliest_num_observed_final_for_peer(p(other_id)),
        5
    );
}

#[test]
fn test_get_finalization_start_for_peer_2() {
    let mut manager = MultiplayerInputManager::<HostInputMgr>::new(4, 5, MAX_TICKS_PREDICT_LOCF, 30);

    // Add some inputs for host
    for _ in 0..5 {
        manager.add_host_input_directly(InputBytes::default());
    }

    // add inputs for some other players so the host has heard from them
    let peer_2 = 2;
    let peer_3 = 3;
    let inputs_to_add = 10;
    let msg = MsgPayload::PeerInputs(PlayerInputSlice::new_test(0, inputs_to_add));
    manager.rx_guest_input_slice(p(peer_2), msg.clone());
    manager.rx_guest_input_slice(p(peer_3), msg);

    // the host has heard from two peers but they have
    // not acked any finalized inputs yet, so the earliest
    // tick needed by at least one peer should still be 0
    assert_eq!(manager.test_get_earliest_num_observed_final_for_peer(p(0)), 0);

    // now have peer_2 ack inputs up to tick 3 for host,
    // and up to tick 5 for themselves
    // and up to tick 7 for peer 3
    manager.rx_finalized_ticks_observations(
        p(peer_2),
        ack(vec![(0, 3), (peer_2, 5), (peer_3, 7)]),
    );

    // peer_3 has not acked any inputs yet, so the earliest
    // input for the host needed by at least one peer should still be 0
    assert_eq!(manager.test_get_earliest_num_observed_final_for_peer(p(0)), 0);

    // now have peer_3 ack inputs up to tick 9 across all peers
    manager.rx_finalized_ticks_observations(
        p(peer_3),
        ack(vec![(0, 9), (peer_2, 9), (peer_3, 9)]),
    );

    assert_eq!(manager.test_get_earliest_num_observed_final_for_peer(p(0)), 3);
    assert_eq!(
        manager.test_get_earliest_num_observed_final_for_peer(p(peer_2)),
        5
    );
    assert_eq!(
        manager.test_get_earliest_num_observed_final_for_peer(p(peer_3)),
        7
    );

    // now have peer_2 ack inputs up to tick 15 across all peers
    manager.rx_finalized_ticks_observations(
        p(peer_2),
        ack(vec![(0, 15), (peer_2, 15), (peer_3, 15)]),
    );

    assert_eq!(manager.test_get_earliest_num_observed_final_for_peer(p(0)), 9);
    assert_eq!(
        manager.test_get_earliest_num_observed_final_for_peer(p(peer_2)),
        9
    );
    assert_eq!(
        manager.test_get_earliest_num_observed_final_for_peer(p(peer_3)),
        9
    );
}

#[test]
fn mod_test_get_msg_catch_up_with_no_acks() {
    let max_ticks_behind = 5;
    let mut manager =
        MultiplayerInputManager::<HostInputMgr>::new(4, max_ticks_behind, MAX_TICKS_PREDICT_LOCF, 60);
    let peer_id = 2;

    // Add 10 inputs for host
    for _ in 0..10 {
        manager.add_host_input_directly(InputBytes::default());
    }

    // The peer has been silent; the host synthesizes finalized
    // default inputs up to its own tick minus max_ticks_behind and
    // sends them all, starting at 0
    let msg = manager.get_msg_finalized_late_inputs_for_guest(p(peer_id));
    if let MsgPayload::HostFinalizedSlice(slice) = msg {
        assert_eq!(slice.player_num, p(peer_id));
        assert_eq!(slice.host_tick, 10);
        assert_eq!(slice.inputs.start, 0);
        assert_eq!(slice.inputs.max_tick(), 10 - max_ticks_behind);
    } else {
        panic!("Expected HostFinalizedSlice");
    }

    // Same state again: the peer no longer needs catch-up
    let msg = manager.get_msg_finalized_late_inputs_for_guest(p(peer_id));
    assert!(matches!(msg, MsgPayload::Empty));

    // Now advance the host's input tick by two;
    // the peer falls behind the target again
    for _ in 0..2 {
        manager.add_host_input_directly(InputBytes::default());
    }
    let msg = manager.get_msg_finalized_late_inputs_for_guest(p(peer_id));
    if let MsgPayload::HostFinalizedSlice(slice) = msg {
        assert_eq!(slice.player_num, p(peer_id));
        assert_eq!(slice.host_tick, 12);
        assert_eq!(slice.inputs.start, 0);
        assert_eq!(slice.inputs.max_tick(), 12 - max_ticks_behind);
    } else {
        panic!("Expected HostFinalizedSlice");
    }
}

#[test]
fn mod_test_get_msg_catch_up_with_guest_acks() {
    let max_ticks_behind = 5;
    let mut manager =
        MultiplayerInputManager::<HostInputMgr>::new(4, max_ticks_behind, MAX_TICKS_PREDICT_LOCF, 60);
    let peer_id = 2;

    // Add 10 inputs for host
    for _ in 0..10 {
        manager.add_host_input_directly(InputBytes::default());
    }

    // add ack for peer only up to tick 3;
    // the host should send inputs to catch up as far as 5
    manager.rx_finalized_ticks_observations(p(peer_id), ack(vec![(0, 3), (peer_id, 3)]));

    let msg = manager.get_msg_finalized_late_inputs_for_guest(p(peer_id));
    if let MsgPayload::HostFinalizedSlice(slice) = msg {
        assert_eq!(slice.player_num, p(peer_id));
        assert_eq!(slice.host_tick, 10);
        assert_eq!(slice.inputs.start, 3);
        assert_eq!(slice.inputs.max_tick(), 10 - max_ticks_behind);
    } else {
        panic!("Expected HostFinalizedSlice");
    }

    // Same state again: no more catch-up needed
    let msg = manager.get_msg_finalized_late_inputs_for_guest(p(peer_id));
    assert!(matches!(msg, MsgPayload::Empty));

    // Now advance the host's input to 30;
    for _ in 10..30 {
        manager.add_host_input_directly(InputBytes::default());
    }
    // ack for peer up to tick 15
    manager.rx_finalized_ticks_observations(p(peer_id), ack(vec![(0, 15), (peer_id, 15)]));

    // The peer is behind again, so the host sends inputs up to 25
    let msg = manager.get_msg_finalized_late_inputs_for_guest(p(peer_id));
    if let MsgPayload::HostFinalizedSlice(slice) = msg {
        assert_eq!(slice.player_num, p(peer_id));
        assert_eq!(slice.host_tick, 30);
        assert_eq!(slice.inputs.start, 15);
        assert_eq!(slice.inputs.max_tick(), 30 - max_ticks_behind);
    } else {
        panic!("Expected HostFinalizedSlice");
    }
}

#[test]
fn mod_test_get_msg_host_finalized_slice_no_ack() {
    let max_ticks_behind = 5;
    let mut manager =
        MultiplayerInputManager::<HostInputMgr>::new(4, max_ticks_behind, MAX_TICKS_PREDICT_LOCF, 60);
    let peer_2 = 2;
    let peer_3 = 3;

    // Add 10 inputs for host
    for _ in 0..10 {
        manager.add_host_input_directly(InputBytes::default());
    }
    // rx 5 inputs for peer_2, and 7 inputs for peer_3
    manager.rx_guest_input_slice(p(peer_2), MsgPayload::PeerInputs(PlayerInputSlice::new_test(0, 5)));
    manager.rx_guest_input_slice(p(peer_3), MsgPayload::PeerInputs(PlayerInputSlice::new_test(0, 7)));

    // no peers have acked any inputs yet, so the host should be
    // sending slices starting at input 0 for all peers
    let slice_host = manager.get_msg_finalized_slice(p(0));
    if let MsgPayload::HostFinalizedSlice(slice) = slice_host {
        assert_eq!(slice.player_num, p(0));
        assert_eq!(slice.host_tick, 10);
        assert_eq!(slice.inputs.start, 0);
        assert_eq!(slice.inputs.max_tick(), 9);
    } else {
        panic!("Expected HostFinalizedSlice");
    }

    let slice_host = manager.get_msg_finalized_slice(p(peer_2));
    if let MsgPayload::HostFinalizedSlice(slice) = slice_host {
        assert_eq!(slice.player_num, p(peer_2));
        assert_eq!(slice.host_tick, 10);
        assert_eq!(slice.inputs.start, 0);
        assert_eq!(slice.inputs.max_tick(), 4);
    } else {
        panic!("Expected HostFinalizedSlice");
    }

    let slice_host = manager.get_msg_finalized_slice(p(peer_3));
    if let MsgPayload::HostFinalizedSlice(slice) = slice_host {
        assert_eq!(slice.player_num, p(peer_3));
        assert_eq!(slice.host_tick, 10);
        assert_eq!(slice.inputs.start, 0);
        assert_eq!(slice.inputs.max_tick(), 6);
    } else {
        panic!("Expected HostFinalizedSlice");
    }
}

#[test]
fn test_catch_up_stretches_disconnected_guest_to_host_horizon() {
    let mut manager = MultiplayerInputManager::<HostInputMgr>::new(2, 5, MAX_TICKS_PREDICT_LOCF, 60);
    for _ in 0..10 {
        manager.add_host_input_directly(InputBytes::default());
    }
    manager.player_disconnected(p(1));

    // a disconnected guest is filled all the way to the host's horizon
    let msg = manager.get_msg_finalized_late_inputs_for_guest(p(1));
    if let MsgPayload::HostFinalizedSlice(slice) = msg {
        assert_eq!(slice.host_tick, 10);
        assert_eq!(slice.inputs.start, 0);
        // through the host's own length, inclusive of the target count
        assert_eq!(slice.inputs.len(), 11);
    } else {
        panic!("Expected HostFinalizedSlice");
    }

    let msg = manager.get_msg_finalized_late_inputs_for_guest(p(1));
    assert!(matches!(msg, MsgPayload::Empty));
}

#[test]
fn test_rx_guest_pong_pong_unknown_id_is_error() {
    let mut manager = MultiplayerInputManager::<HostInputMgr>::new(2, 5, MAX_TICKS_PREDICT_LOCF, 60);
    let r = manager.rx_guest_pong_pong(p(1), MsgPayload::GuestPongPong(77), 500);
    assert_eq!(r, Err(SyncError::UnknownPingId));

    let r = manager.rx_guest_pong_pong(p(1), MsgPayload::GuestPing(77), 500);
    assert_eq!(r, Err(SyncError::UnexpectedMessage));
}

#[test]
fn test_host_fill_whole_seconds() {
    // 60 ticks per second: one second owes 60 inputs, half a second 30
    let mut manager = MultiplayerInputManager::<HostInputMgr>::new(1, 5, MAX_TICKS_PREDICT_LOCF, 60);
    manager.add_host_input_to_fill_needed(InputBytes::from_u32(7), 500_000);
    assert_eq!(manager.get_own_num_inputs(), 30);
    assert_eq!(manager.get_peer_num_final_inputs(p(0)), 30);

    manager.add_host_input_to_fill_needed(InputBytes::from_u32(8), 500_000);
    assert_eq!(manager.get_own_num_inputs(), 60);

    // a zero delta adds nothing
    manager.add_host_input_to_fill_needed(InputBytes::from_u32(9), 0);
    assert_eq!(manager.get_own_num_inputs(), 60);
}

#[test]
fn test_host_fill_rounds_partial_ticks_up() {
    // any positive elapsed time owes at least one input
    let mut manager = MultiplayerInputManager::<HostInputMgr>::new(1, 5, MAX_TICKS_PREDICT_LOCF, 60);
    manager.add_host_input_to_fill_needed(InputBytes::default(), 1);
    assert_eq!(manager.get_own_num_inputs(), 1);

    // fractions accumulate instead of being lost
    let mut manager = MultiplayerInputManager::<HostInputMgr>::new(1, 5, MAX_TICKS_PREDICT_LOCF, 60);
    for _ in 0..10 {
        // 100ms at 60 ticks/sec owes 6 ticks each step
        manager.add_host_input_to_fill_needed(InputBytes::default(), 100_000);
    }
    assert_eq!(manager.get_own_num_inputs(), 60);
}

#[test]
fn test_host_fill_uses_same_input_value() {
    let mut manager = MultiplayerInputManager::<HostInputMgr>::new(1, 5, MAX_TICKS_PREDICT_LOCF, 10);
    manager.add_host_input_to_fill_needed(InputBytes::from_u32(42), 300_000);
    assert_eq!(manager.get_own_num_inputs(), 3);
    for t in 0..3 {
        assert_eq!(manager.get_peer_input_for_tick(p(0), t), InputBytes::from_u32(42));
    }
}

#[test]
fn test_end_to_end_finalization_cycle() {
    // two players: host 0 and guest 1
    let mut host = MultiplayerInputManager::<HostInputMgr>::new(2, 5, MAX_TICKS_PREDICT_LOCF, 60);
    let mut guest =
        MultiplayerInputManager::<lockstep::GuestInputMgr>::new(2, p(1), 60);

    // guest appends 3 own inputs and sends them to the host
    for t in 0..3u32 {
        guest.add_own_input(InputBytes::from_u32(t));
    }
    let peer_inputs = guest.get_msg_own_input_slice();
    host.rx_guest_input_slice(p(1), peer_inputs);
    assert_eq!(host.get_peer_num_final_inputs(p(1)), 3);

    // host's own buffer also reaches 3
    for t in 0..3u32 {
        host.add_host_input_directly(InputBytes::from_u32(100 + t));
    }
    assert_eq!(host.get_peer_num_final_inputs(p(0)), 3);

    // host broadcasts a finalized slice per player; no acks yet, so
    // both start at 0
    let bcast_1 = host.get_msg_finalized_slice(p(1));
    let bcast_0 = host.get_msg_finalized_slice(p(0));
    if let MsgPayload::HostFinalizedSlice(h) = &bcast_1 {
        assert_eq!(h.inputs.start, 0);
    } else {
        panic!("Expected HostFinalizedSlice");
    }

    // guest applies both and can now snapshot tick 3
    guest.rx_final_peer_input_slice_from_host(bcast_1);
    guest.rx_final_peer_input_slice_from_host(bcast_0);
    assert_eq!(guest.get_snapshottable_sim_tick(), 3);

    // guest acks; the host's next broadcasts start at 3
    let ack_msg = guest.get_msg_ack_finalization();
    host.rx_finalized_ticks_observations(p(1), ack_msg);
    let bcast_1 = host.get_msg_finalized_slice(p(1));
    let bcast_0 = host.get_msg_finalized_slice(p(0));
    if let MsgPayload::HostFinalizedSlice(h) = &bcast_1 {
        assert_eq!(h.inputs.start, 3);
    } else {
        panic!("Expected HostFinalizedSlice");
    }
    if let MsgPayload::HostFinalizedSlice(h) = &bcast_0 {
        assert_eq!(h.inputs.start, 3);
    } else {
        panic!("Expected HostFinalizedSlice");
    }
}
