use lockstep::FinalizedObservationsPerGuest;
use lockstep::PeerwiseFinalizedInputsSeen;
use lockstep::PlayerNum;

#[test]
fn test_basic_operations() {
    let pairs = vec![(1u8, 10u32), (2u8, 20u32)];
    let ack = PeerwiseFinalizedInputsSeen::new_test(&pairs);
    assert_eq!(ack.get(PlayerNum::from_u8(1)), 10);
    assert_eq!(ack.get(PlayerNum::from_u8(2)), 20);
    assert_eq!(ack.get(PlayerNum::from_u8(3)), 0);
}

#[test]
fn test_update() {
    let mut ack1 = PeerwiseFinalizedInputsSeen::new_test(&vec![(1u8, 10u32), (2u8, 20u32)]);
    let ack2 = PeerwiseFinalizedInputsSeen::new_test(&vec![
        (1u8, 15u32),
        (2u8, 15u32),
        (3u8, 25u32),
    ]);

    ack1.merge(ack2);
    assert_eq!(ack1.get(PlayerNum::from_u8(1)), 15);
    assert_eq!(ack1.get(PlayerNum::from_u8(2)), 20);
    assert_eq!(ack1.get(PlayerNum::from_u8(3)), 25);
}

#[test]
fn test_earliest_num_observed_final_for_peer() {
    let mut table = FinalizedObservationsPerGuest::new(4);
    table.update_guest_observation(
        PlayerNum::from_u8(1),
        PeerwiseFinalizedInputsSeen::new_test(&vec![(0u8, 3u32), (1u8, 5u32), (2u8, 4u32)]),
    );
    assert_eq!(
        table.get_earliest_num_observed_final_for_peer(PlayerNum::from_u8(0)),
        3
    );
    assert_eq!(
        table.get_earliest_num_observed_final_for_peer(PlayerNum::from_u8(1)),
        5
    );
    assert_eq!(
        table.get_earliest_num_observed_final_for_peer(PlayerNum::from_u8(2)),
        4
    );
}

#[test]
fn test_earliest_across_all_own_counts() {
    // min over this viewpoint's own per-player counts, 0 when empty
    let empty = PeerwiseFinalizedInputsSeen::new_test(&vec![]);
    assert_eq!(empty.earliest_input_finalized_by_all(), 0);

    let obs = PeerwiseFinalizedInputsSeen::new_from_observed(3, &vec![7, 4, 9]);
    assert_eq!(obs.earliest_input_finalized_by_all(), 4);
}

#[test]
fn test_merge_is_commutative_and_idempotent() {
    // the same two observations merged either way round give the same counts
    let a = PeerwiseFinalizedInputsSeen::new_test(&vec![(0u8, 5u32), (2u8, 9u32)]);
    let b = PeerwiseFinalizedInputsSeen::new_test(&vec![(0u8, 7u32), (1u8, 2u32)]);

    let mut ab = a.clone();
    ab.merge(b.clone());
    let mut ba = b.clone();
    ba.merge(a.clone());
    for id in 0u8..4 {
        assert_eq!(
            ab.get(PlayerNum::from_u8(id)),
            ba.get(PlayerNum::from_u8(id))
        );
    }

    let mut aa = a.clone();
    aa.merge(a.clone());
    for id in 0u8..4 {
        assert_eq!(
            aa.get(PlayerNum::from_u8(id)),
            a.get(PlayerNum::from_u8(id))
        );
    }
}

#[test]
fn test_merge_observations_never_roll_back() {
    // an older ack arriving late cannot lower what the host knows
    let mut table = FinalizedObservationsPerGuest::new(3);
    table.update_guest_observation(
        PlayerNum::from_u8(1),
        PeerwiseFinalizedInputsSeen::new_from_observed(3, &vec![8, 8, 8]),
    );
    table.update_guest_observation(
        PlayerNum::from_u8(1),
        PeerwiseFinalizedInputsSeen::new_from_observed(3, &vec![2, 9, 1]),
    );
    assert_eq!(
        table.get_earliest_num_observed_final_for_peer(PlayerNum::from_u8(0)),
        8
    );
    assert_eq!(
        table.get_earliest_num_observed_final_for_peer(PlayerNum::from_u8(1)),
        9
    );
    assert_eq!(
        table.get_earliest_num_observed_final_for_peer(PlayerNum::from_u8(2)),
        8
    );
}
