# dronecan

A DroneCAN protocol core written in Verus, with its behaviour stated in
contracts and proved.

- `src/tailbyte.rs`: the tail byte that ends each frame (start, end and
  toggle bits, transfer identifier), with getters and setters.
- `src/utils.rs`: the transfer CRC (CRC-16/IBM-3740, computed by the `crc`
  crate) split into two bytes.
- `src/message_type.rs`: the meaning of the 16 middle bits of a DroneCAN
  identifier (message, anonymous message, service).
- `src/payload.rs`: classification of a frame as single, start, middle or
  end frame from its tail byte, and the fields read from its bytes.
- `src/can_id.rs`, `src/dronecan_frame.rs`: decoding a CAN frame (identifier
  and data) into a DroneCAN frame.
- `src/frame_accumulator.rs`: reassembly of multi-frame transfers in fixed
  capacity `heapless` collections, as a state machine whose every step is
  specified.
- `app/lib.rs`: the `embedded_can::Frame` trait for DroneCAN frames,
  identifier conversions, and the receive/transmit traits of CAN drivers.
