use vstd::prelude::*;

verus! {

/// A CAN identifier, held as its raw value: a standard one (11 bits, at
/// most `0x7FF`) or an extended one (29 bits, at most `0x1FFF_FFFF`).
#[derive(Clone, Copy, PartialEq, Eq, Structural, Debug, Hash)]
pub enum CanId {
    Standard(u16),
    Extended(u32),
}

} // verus!
