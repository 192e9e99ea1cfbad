//! A lockstep input-synchronization engine for deterministic
//! real-time simulations.
//!
//! Every peer keeps one input buffer per player; the host finalizes
//! inputs and broadcasts them; guests acknowledge what they have seen,
//! and the host uses those acknowledgements to choose broadcast starts
//! that can never leave a gap. A peer may advance and snapshot the
//! simulation exactly up to the smallest finalized count across
//! players. The wire codec is canonical: decoding an encoded message
//! gives the message back.

mod button_state;
mod ewma;
mod guest;
mod host;
mod host_observations;
mod input_buffer;
mod input_bytes;
mod input_trait;
mod manager;
mod messages;
mod multi_buffer;
mod peerwise;
mod ping_times;
mod player_num;
mod seq_min;
mod wire;

pub use button_state::ButtonState;
pub use ewma::Ewma;
pub use guest::DEFAULT_MAX_CATCHUP_INPUTS;
pub use guest::GuestInputMgr;
pub use guest::spec_inputs_needed;
pub use host::HostInputMgr;
pub use host::SyncError;
pub use host::spec_rtt_list;
pub use host::spec_ticks_expected;
pub use host_observations::FinalizedObservationsPerGuest;
pub use host_observations::lemma_earliest_observed_le_bound;
pub use input_buffer::InputStatus;
pub use input_buffer::PlayerInputBuffer;
pub use input_buffer::PlayerInputSlice;
pub use input_bytes::InputBytes;
pub use input_trait::SimInput;
pub use input_trait::TestInputBytes;
pub use manager::MultiplayerInputManager;
pub use messages::HostFinalizedSlice;
pub use messages::MsgPayload;
pub use messages::PreSimSync;
pub use multi_buffer::MultiplayerInputBuffers;
pub use multi_buffer::lemma_snapshottable_monotone;
pub use multi_buffer::lemma_wf_buffer;
pub use peerwise::PeerwiseFinalizedInputsSeen;
pub use peerwise::lemma_merge_commutative;
pub use peerwise::lemma_merge_idempotent;
pub use ping_times::PingSendTimes;
pub use player_num::PlayerNum;
pub use player_num::lemma_player_num_eq;
pub use player_num::spec_decimal;
pub use player_num::spec_digit;
pub use seq_min::seq_min;
pub use wire::DecodeError;
pub use wire::msg_eqv;
pub use wire::spec_encode;
pub use wire::wire_wf;
