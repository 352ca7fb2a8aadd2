//! A verified DroneCAN protocol core: tail bytes, transfer payload
//! classification, CAN identifier decoding, transfer CRCs and the
//! reassembly of multi-frame transfers.

pub mod can_id;
pub mod dronecan_frame;
pub mod frame_accumulator;
pub mod message_type;
pub mod payload;
pub mod tailbyte;
pub mod utils;
