use lockstep::GuestInputMgr;
use lockstep::HostFinalizedSlice;
use lockstep::HostInputMgr;
use lockstep::InputBytes;
use lockstep::MsgPayload;
use lockstep::MultiplayerInputManager;
use lockstep::PlayerNum;
use lockstep::PreSimSync;
use lockstep::DEFAULT_MAX_CATCHUP_INPUTS;

fn p(n: u8) -> PlayerNum {
    PlayerNum::from_u8(n)
}

const MAX_TICKS_PREDICT_LOCF: u32 = 5;

#[test]
fn test_new_manager() {
    let manager = MultiplayerInputManager::<GuestInputMgr>::new(4, p(1), 60);
    assert_eq!(manager.own_player_num, p(1));
    assert_eq!(manager.num_final_inputs_seen_by_host(), 0);
}

#[test]
fn test_rtt_observation() {
    let mut manager = MultiplayerInputManager::<GuestInputMgr>::new(4, p(1), 60);
    manager.observe_rtt_ms_to_host(100);
    assert_eq!(manager.get_rtt_ms_to_host(), Some(100));

    manager.observe_rtt_ms_to_host(200);
    // With the default smoothing factor, the value lands between 100 and 200
    let rtt = manager.get_rtt_ms_to_host().unwrap();
    assert!(rtt > 100 && rtt < 200);
}

#[test]
fn test_num_inputs_needed() {
    let mut manager = MultiplayerInputManager::<GuestInputMgr>::new(4, p(1), 2);
    // Without RTT or host tick, should return 1
    assert_eq!(manager.num_inputs_needed(), 1);

    manager.observe_rtt_ms_to_host(1000);
    manager.test_advance_host_tick(10);

    // With 1000ms RTT at 2 ticks/sec, one way is one tick.
    // With host tick 10, to be in sync we need to be at tick 11;
    // but the catch-up is limited per step
    assert_eq!(manager.num_inputs_needed(), DEFAULT_MAX_CATCHUP_INPUTS);

    // now add 8 inputs
    for _ in 0..8 {
        manager.add_own_input(InputBytes::default());
    }
    // should need 3 more inputs to catch up
    assert_eq!(manager.num_inputs_needed(), 3);

    // once at the target, collect exactly one per step
    for _ in 0..3 {
        manager.add_own_input(InputBytes::default());
    }
    assert_eq!(manager.num_inputs_needed(), 1);
}

#[test]
fn test_num_inputs_needed_stalls_when_ahead() {
    let mut manager = MultiplayerInputManager::<GuestInputMgr>::new(2, p(1), 2);
    manager.observe_rtt_ms_to_host(1000);
    manager.test_advance_host_tick(0);
    // own length far ahead of the host's target: stall
    for _ in 0..10 {
        manager.add_own_input(InputBytes::default());
    }
    assert_eq!(manager.num_inputs_needed(), 0);
}

#[test]
fn test_snapshottable_sim_tick() {
    let own_id = 1;

    let mut manager = MultiplayerInputManager::<GuestInputMgr>::new(2, p(own_id), 60);
    // Add some inputs
    for _ in 0..5 {
        manager.add_own_input(InputBytes::default());
    }
    // Without any finalized inputs, snapshottable tick should be 0
    assert_eq!(manager.get_snapshottable_sim_tick(), 0);

    // rx a finalized input slice for self
    let msg =
        MsgPayload::HostFinalizedSlice(HostFinalizedSlice::new_test(p(own_id), 0, 0, 5));
    manager.rx_final_peer_input_slice_from_host(msg);

    // own buffer has 5 finalized inputs, across all peers we still have 0
    assert_eq!(manager.get_snapshottable_sim_tick(), 0);

    // rx a finalized input slice for another player,
    // but with a lower max tick
    let host_id = 0;
    let inputs_to_add = 3;
    let msg = MsgPayload::HostFinalizedSlice(HostFinalizedSlice::new_test(
        p(host_id),
        0,
        0,
        inputs_to_add,
    ));
    manager.rx_final_peer_input_slice_from_host(msg);

    // snapshottable tick should now only be 3
    assert_eq!(manager.get_snapshottable_sim_tick(), 3);

    // rx a finalized input slice for the other player
    // that would leave a gap in the input buffer
    let msg = MsgPayload::HostFinalizedSlice(HostFinalizedSlice::new_test(
        p(host_id),
        0,
        inputs_to_add + 1,
        10,
    ));
    manager.rx_final_peer_input_slice_from_host(msg);

    // since the other player's input slice leaves a gap from the
    // prev slice, this should be a no-op and snapshottable tick
    // should still be 3
    assert_eq!(manager.get_snapshottable_sim_tick(), 3);

    // rx a finalized input slice for the other player
    // that does not leave a gap in the input buffer
    let msg = MsgPayload::HostFinalizedSlice(HostFinalizedSlice::new_test(
        p(host_id),
        0,
        inputs_to_add,
        10,
    ));
    manager.rx_final_peer_input_slice_from_host(msg);

    // now the snapshottable tick should be the min of
    // the finalized ticks for each player, which is 5
    // for the guest's own buffer
    assert_eq!(manager.get_snapshottable_sim_tick(), 5);
}

#[test]
fn test_get_msg_own_input_slice() {
    let own_id = 1;
    let mut manager = MultiplayerInputManager::<GuestInputMgr>::new(4, p(own_id), 60);
    // Add some inputs
    for _ in 0..10 {
        manager.add_own_input(InputBytes::default());
    }

    let msg = manager.get_msg_own_input_slice();
    let slice = msg.into_peer_inputs().unwrap();
    assert_eq!(slice.start, 0);
    assert_eq!(slice.inputs.len(), 10);

    // now rx a finalized input slice for self with only 3 inputs
    let msg =
        MsgPayload::HostFinalizedSlice(HostFinalizedSlice::new_test(p(own_id), 0, 0, 3));
    manager.rx_final_peer_input_slice_from_host(msg);
    assert_eq!(manager.num_final_inputs_seen_by_host(), 3);

    // now the slice should only contain the last 7 inputs
    let msg = manager.get_msg_own_input_slice();
    let slice = msg.into_peer_inputs().unwrap();
    assert_eq!(slice.start, 3);
    assert_eq!(slice.inputs.len(), 7);
}

#[test]
fn test_get_msg_ack_finalization() {
    let own_id = 1;
    let mut manager = MultiplayerInputManager::<GuestInputMgr>::new(4, p(own_id), 60);
    // Add some inputs
    for _ in 0..10 {
        manager.add_own_input(InputBytes::default());
    }

    let msg_finalize = manager.get_msg_ack_finalization();
    // no finalized inputs yet
    let finalized_ticks = msg_finalize.into_ack_finalization().unwrap();
    assert_eq!(finalized_ticks.get(p(own_id)), 0);

    // now rx a finalized input slice for self with only 3 inputs
    let msg =
        MsgPayload::HostFinalizedSlice(HostFinalizedSlice::new_test(p(own_id), 0, 0, 3));
    manager.rx_final_peer_input_slice_from_host(msg);
    assert_eq!(manager.num_final_inputs_seen_by_host(), 3);

    let msg_finalize = manager.get_msg_ack_finalization();
    // now 3 inputs have been finalized for this peer
    let finalized_ticks = msg_finalize.into_ack_finalization().unwrap();
    assert_eq!(finalized_ticks.get(p(own_id)), 3);

    // now rx a finalized input slice for another player
    let other_id = 2;
    let msg =
        MsgPayload::HostFinalizedSlice(HostFinalizedSlice::new_test(p(other_id), 0, 0, 5));
    manager.rx_final_peer_input_slice_from_host(msg);

    let msg_finalize = manager.get_msg_ack_finalization();
    // now 3 inputs have been finalized for this peer,
    // and 5 for the other peer
    let finalized_ticks = msg_finalize.into_ack_finalization().unwrap();
    assert_eq!(finalized_ticks.get(p(own_id)), 3);
    assert_eq!(finalized_ticks.get(p(other_id)), 5);
}

#[test]
fn test_rx_pre_sim_sync_sets_host_tick() {
    let mut guest = MultiplayerInputManager::<GuestInputMgr>::new(2, p(1), 60);
    guest.rx_pre_sim_sync(MsgPayload::PreSimSync(PreSimSync {
        host_tick_countdown: 10,
        peers: vec![0, 1],
    }));
    assert_eq!(guest.inner.host_tick, -10);

    guest.observe_rtt_ms_to_host(1000);
    assert_eq!(guest.num_inputs_needed(), DEFAULT_MAX_CATCHUP_INPUTS);
}

#[test]
fn test_guest_ping_host_pong_round_trip() {
    let mut guest = MultiplayerInputManager::<GuestInputMgr>::new(2, p(1), 60);
    let mut host =
        MultiplayerInputManager::<HostInputMgr>::new(2, MAX_TICKS_PREDICT_LOCF, MAX_TICKS_PREDICT_LOCF, 60);

    // guest sends ping at time 1000ms
    let ping = guest.get_msg_guest_ping(1000);
    let ping_id = if let MsgPayload::GuestPing(id) = ping {
        id
    } else {
        panic!("Expected GuestPing")
    };

    // host replies with pong at time 1020ms
    let host_msg = host.rx_guest_ping_and_reply(p(1), MsgPayload::GuestPing(ping_id), 1020);
    let pong_id = if let MsgPayload::HostPong(id) = host_msg {
        id
    } else {
        panic!("Expected HostPong")
    };
    assert_eq!(ping_id, pong_id);

    // guest receives pong at 1040ms and replies
    let guest_reply = guest.rx_host_pong_and_reply(MsgPayload::HostPong(pong_id), 1040);
    if let MsgPayload::GuestPongPong(id) = guest_reply {
        assert_eq!(id, ping_id);
    } else {
        panic!("Expected GuestPongPong")
    }
    let rtt = guest.get_rtt_ms_to_host();
    assert_eq!(rtt, Some(40));

    let host_res = host
        .rx_guest_pong_pong(p(1), MsgPayload::GuestPongPong(pong_id), 1060)
        .unwrap();
    assert!(matches!(host_res, MsgPayload::Empty));

    let rtts = host.rtts_by_player();
    assert!(rtts.iter().any(|(q, _)| *q == 1));
}
