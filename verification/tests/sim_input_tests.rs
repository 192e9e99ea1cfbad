use lockstep::InputBytes;
use lockstep::MultiplayerInputBuffers;
use lockstep::PlayerNum;
use lockstep::SimInput;
use lockstep::TestInputBytes;

/// A game input with an angle, a radius and a few buttons, packed into
/// the engine's fixed byte form.
#[derive(Default, Clone, Copy, PartialEq, Debug)]
struct DemoInput {
    angle: i8,
    radius: u8,
    jump: bool,
    dash: bool,
}

const JUMP: u8 = 1 << 0;
const DASH: u8 = 1 << 1;

impl SimInput for DemoInput {
    fn to_bytes(&self) -> InputBytes {
        let mut flags = 0u8;
        if self.jump {
            flags |= JUMP;
        }
        if self.dash {
            flags |= DASH;
        }
        InputBytes { b0: flags, b1: self.angle as u8, b2: self.radius, b3: 0 }
    }

    fn from_bytes(bytes: InputBytes) -> Self {
        Self {
            angle: bytes.b1 as i8,
            radius: bytes.b2,
            jump: bytes.b0 & JUMP > 0,
            dash: bytes.b0 & DASH > 0,
        }
    }

    fn default_input() -> Self {
        Self::default()
    }
}

impl TestInputBytes for DemoInput {
    fn new_test_simple(x: u32) -> InputBytes {
        DemoInput { angle: x as i8, radius: x as u8, jump: x == 1, dash: x == 2 }.to_bytes()
    }
}

#[test]
fn test_sim_input_round_trip_through_buffer() {
    let input = DemoInput { angle: -3, radius: 200, jump: true, dash: false };

    let mut buffers = MultiplayerInputBuffers::new(2, 8);
    buffers.append_input(PlayerNum::from_u8(1), input.to_bytes());

    let stored = buffers.get_input_or_prediction(PlayerNum::from_u8(1), 0);
    assert_eq!(DemoInput::from_bytes(stored), input);
}

#[test]
fn test_sim_input_default_is_default_bytes() {
    assert_eq!(DemoInput::default_input().to_bytes(), InputBytes::default());
    assert_eq!(
        DemoInput::from_bytes(<DemoInput as TestInputBytes>::new_test_simple(2)),
        DemoInput { angle: 2, radius: 2, jump: false, dash: true }
    );
}
