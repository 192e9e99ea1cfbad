use lockstep::InputBytes;
use lockstep::InputStatus;
use lockstep::PlayerInputBuffer;
use lockstep::PlayerInputSlice;

#[test]
fn test_input_buffer_basics() {
    let mut buffer = PlayerInputBuffer::default();
    assert_eq!(buffer.num_inputs_collected(), 0);
    assert_eq!(buffer.finalized_inputs(), 0);

    let input = InputBytes::default();
    buffer.append_input(input);
    assert_eq!(buffer.num_inputs_collected(), 1);
    assert_eq!(buffer.finalized_inputs(), 0);
}

#[test]
fn test_host_append_finalized() {
    let mut buffer = PlayerInputBuffer::default();
    let input = InputBytes::default();

    buffer.host_append_finalized(input);
    assert_eq!(buffer.finalized_inputs(), 1);
    assert_eq!(buffer.num_inputs_collected(), 1);
}

#[test]
fn test_get_input_or_prediction() {
    let mut buffer = PlayerInputBuffer::default();
    // default if nothing yet in buffer,
    // for any combination of tick and prediction horizon
    assert_eq!(buffer.get_input_or_prediction(0, 0), InputBytes::default());
    assert_eq!(buffer.get_input_or_prediction(0, 10), InputBytes::default());
    assert_eq!(buffer.get_input_or_prediction(10, 10), InputBytes::default());
    assert_eq!(buffer.get_input_or_prediction(0, 0), InputBytes::default());

    buffer.append_input(InputBytes::from_u32(0));
    buffer.append_input(InputBytes::from_u32(1));
    buffer.append_input(InputBytes::from_u32(2));
    buffer.append_input(InputBytes::from_u32(3));
    buffer.append_input(InputBytes::from_u32(4));

    assert_eq!(buffer.get_input_or_prediction(0, 5), InputBytes::from_u32(0));
    assert_eq!(buffer.get_input_or_prediction(1, 5), InputBytes::from_u32(1));
    assert_eq!(buffer.get_input_or_prediction(5, 5), InputBytes::from_u32(4));
    assert_eq!(buffer.get_input_or_prediction(9, 5), InputBytes::from_u32(4));
    assert_eq!(buffer.get_input_or_prediction(10, 5), InputBytes::default());
}

#[test]
fn test_player_input_buffer_test_receive_finalized_input_slice() {
    let mut buffer = PlayerInputBuffer::default();
    let slice = PlayerInputSlice::new_test(0, 5);

    buffer.receive_finalized_input_slice(slice);
    assert_eq!(buffer.finalized_inputs(), 5);
    assert_eq!(buffer.num_inputs_collected(), 5);

    // Test slice with gap (should be ignored)
    let slice_with_gap = PlayerInputSlice::new_test(6, 5);
    buffer.receive_finalized_input_slice(slice_with_gap);
    assert_eq!(buffer.finalized_inputs(), 5);
}

#[test]
fn test_player_input_buffer_test_receive_peer_input_slice() {
    let mut buffer = PlayerInputBuffer::default();

    // zero finalized inputs so far
    assert_eq!(buffer.finalized_inputs(), 0);

    buffer.receive_finalized_input_slice(PlayerInputSlice::new_test(0, 2));

    // now we have 2 finalized inputs
    assert_eq!(buffer.finalized_inputs(), 2);

    // rx a slice of inputs that have not been finalized
    let slice = PlayerInputSlice::new_test(0, 5);

    // the buffer should now have 5 inputs, but still only 2 finalized
    buffer.receive_peer_input_slice(slice);
    assert_eq!(buffer.num_inputs_collected(), 5);
    assert_eq!(buffer.finalized_inputs(), 2);

    // rx 4 more finalized inputs
    buffer.receive_finalized_input_slice(PlayerInputSlice::new_test(2, 4));
    // now we have 6 inputs, and all of them are finalized
    assert_eq!(buffer.num_inputs_collected(), 6);
    assert_eq!(buffer.finalized_inputs(), 6);
}

#[test]
fn test_rx_out_of_order_final_slices() {
    let mut buffer = PlayerInputBuffer::default();

    // add 5 default inputs
    buffer.receive_finalized_input_slice(PlayerInputSlice {
        start: 0,
        inputs: vec![
            InputBytes::default(),
            InputBytes::default(),
            InputBytes::default(),
            InputBytes::default(),
            InputBytes::default(),
        ],
    });

    // now rx a finalized slice that starts at 0
    buffer.receive_finalized_input_slice(PlayerInputSlice {
        start: 0,
        inputs: vec![
            InputBytes::from_u32(10),
            InputBytes::from_u32(20),
            InputBytes::from_u32(30),
            InputBytes::from_u32(40),
            InputBytes::from_u32(50),
        ],
    });

    // make sure the buffer still has the original inputs
    assert_eq!(buffer.num_inputs_collected(), 5);
    assert_eq!(buffer.finalized_inputs(), 5);
    for i in 0..5 {
        assert_eq!(buffer.input_at(i), InputBytes::default());
    }
}

#[test]
fn test_host_finalize_default_thru_tick() {
    let mut buffer = PlayerInputBuffer::default();
    buffer.host_append_final_default_inputs_to_target(4);

    assert_eq!(buffer.num_inputs_collected(), 5);
    assert_eq!(buffer.finalized_inputs(), 5);
    for i in 0..5 {
        assert_eq!(buffer.input_at(i), InputBytes::default());
    }
}

#[test]
fn test_host_finalize_default_thru_tick_wont_overwrite() {
    let mut buffer = PlayerInputBuffer::default();
    buffer.receive_finalized_input_slice(PlayerInputSlice::new_test(0, 5));
    for i in 0..5 {
        assert_eq!(buffer.input_at(i), InputBytes::from_u32(i));
    }

    buffer.host_append_final_default_inputs_to_target(4);

    // the buffer should still have the original inputs
    assert_eq!(buffer.num_inputs_collected(), 5);
    assert_eq!(buffer.finalized_inputs(), 5);
    for i in 0..5 {
        assert_eq!(buffer.input_at(i), InputBytes::from_u32(i));
    }
}

#[test]
fn test_slice_bounds_and_status() {
    let mut buffer = PlayerInputBuffer::default();
    buffer.receive_finalized_input_slice(PlayerInputSlice::new_test(0, 2));
    buffer.append_input(InputBytes::from_u32(2));

    assert!(buffer.is_finalized(0));
    assert!(buffer.is_finalized(1));
    assert!(!buffer.is_finalized(2));

    assert_eq!(buffer.get_input_status(0), InputStatus::Finalized);
    assert_eq!(buffer.get_input_status(2), InputStatus::NonFinal);
    assert_eq!(buffer.get_input_status(3), InputStatus::NotReceived);

    let s = buffer.slice(1, 3);
    assert_eq!(s.start, 1);
    assert_eq!(s.len(), 2);
    assert_eq!(s.max_tick(), 2);
    assert_eq!(s.inputs[0], InputBytes::from_u32(1));
    assert_eq!(s.inputs[1], InputBytes::from_u32(2));

    let s2 = buffer.slice_from(0);
    assert_eq!(s2.len(), 3);
}

#[test]
fn test_peer_slice_never_overwrites_finalized() {
    // a tentative write aimed at a finalized entry is dropped
    let mut buffer = PlayerInputBuffer::default();
    buffer.receive_finalized_input_slice(PlayerInputSlice::new_test(0, 3));

    buffer.receive_peer_input_slice(PlayerInputSlice {
        start: 0,
        inputs: vec![
            InputBytes::from_u32(100),
            InputBytes::from_u32(101),
            InputBytes::from_u32(102),
            InputBytes::from_u32(103),
        ],
    });

    for i in 0..3 {
        assert_eq!(buffer.input_at(i), InputBytes::from_u32(i));
    }
    assert_eq!(buffer.input_at(3), InputBytes::from_u32(103));
    assert_eq!(buffer.finalized_inputs(), 3);
}
