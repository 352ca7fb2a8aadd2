use vstd::prelude::*;

verus! {

/// The tail byte that ends every DroneCAN frame.
///
/// Bit 7 marks the start of a transfer, bit 6 its end, bit 5 is the toggle
/// bit and bits 0..=4 hold the transfer identifier.
#[derive(Clone, Copy, PartialEq, Eq, Structural, Debug, Hash)]
pub struct Tailbyte {
    pub value: u8,
}

/// Whether the start-of-transfer bit (bit 7) is set in `v`.
pub open spec fn sot_bit(v: u8) -> bool {
    v & 0x80u8 != 0
}

/// Whether the end-of-transfer bit (bit 6) is set in `v`.
pub open spec fn eot_bit(v: u8) -> bool {
    v & 0x40u8 != 0
}

/// Whether the toggle bit (bit 5) is set in `v`.
pub open spec fn toggle_bit(v: u8) -> bool {
    v & 0x20u8 != 0
}

/// The transfer identifier held in bits 0..=4 of `v`.
pub open spec fn tid_bits(v: u8) -> u8 {
    v & 0x1Fu8
}

/// The tail byte value assembled from its parts; only the low five bits of
/// `transfer_id` are kept.
pub open spec fn tail_value(sot: bool, eot: bool, toggle: bool, transfer_id: u8) -> u8 {
    (transfer_id & 0x1Fu8) | (if sot { 0x80u8 } else { 0u8 }) | (if eot { 0x40u8 } else { 0u8 })
        | (if toggle { 0x20u8 } else { 0u8 })
}

/// Bit-level facts about tail bytes, proved once for all values.
proof fn lemma_tail_bits(v: u8, id: u8, s: bool, e: bool, t: bool)
    by (bit_vector)
    ensures
        1u8 << 7u8 == 0x80u8,
        1u8 << 6u8 == 0x40u8,
        1u8 << 5u8 == 0x20u8,
        !(1u8 << 7u8) == 0x7Fu8,
        !(1u8 << 6u8) == 0xBFu8,
        !(1u8 << 5u8) == 0xDFu8,
        !0x1Fu8 == 0xE0u8,
        v >> 0u8 == v,
        v << 0u8 == v,
        v | 0u8 == v,
        (v | 0x80u8) & 0x80u8 != 0,
        (v & 0x7Fu8) & 0x80u8 == 0,
        (v | 0x40u8) & 0x40u8 != 0,
        (v & 0xBFu8) & 0x40u8 == 0,
        (v | 0x20u8) & 0x20u8 != 0,
        (v & 0xDFu8) & 0x20u8 == 0,
        (v | 0x80u8) & 0x40u8 == v & 0x40u8,
        (v & 0x7Fu8) & 0x40u8 == v & 0x40u8,
        (v | 0x80u8) & 0x20u8 == v & 0x20u8,
        (v & 0x7Fu8) & 0x20u8 == v & 0x20u8,
        (v | 0x80u8) & 0x1Fu8 == v & 0x1Fu8,
        (v & 0x7Fu8) & 0x1Fu8 == v & 0x1Fu8,
        (v | 0x40u8) & 0x80u8 == v & 0x80u8,
        (v & 0xBFu8) & 0x80u8 == v & 0x80u8,
        (v | 0x40u8) & 0x20u8 == v & 0x20u8,
        (v & 0xBFu8) & 0x20u8 == v & 0x20u8,
        (v | 0x40u8) & 0x1Fu8 == v & 0x1Fu8,
        (v & 0xBFu8) & 0x1Fu8 == v & 0x1Fu8,
        (v | 0x20u8) & 0x80u8 == v & 0x80u8,
        (v & 0xDFu8) & 0x80u8 == v & 0x80u8,
        (v | 0x20u8) & 0x40u8 == v & 0x40u8,
        (v & 0xDFu8) & 0x40u8 == v & 0x40u8,
        (v | 0x20u8) & 0x1Fu8 == v & 0x1Fu8,
        (v & 0xDFu8) & 0x1Fu8 == v & 0x1Fu8,
        ((v & 0xE0u8) | (id & 0x1Fu8)) & 0x80u8 == v & 0x80u8,
        ((v & 0xE0u8) | (id & 0x1Fu8)) & 0x40u8 == v & 0x40u8,
        ((v & 0xE0u8) | (id & 0x1Fu8)) & 0x20u8 == v & 0x20u8,
        id & 0x1Fu8 & 0x1Fu8 == id & 0x1Fu8,
        ((v & 0xE0u8) | (id & 0x1Fu8)) & 0x1Fu8 == id & 0x1Fu8,
        (((id & 0x1Fu8) | (if s { 0x80u8 } else { 0u8 })) | (if e { 0x40u8 } else { 0u8 }))
            | (if t { 0x20u8 } else { 0u8 }) == tail_value(s, e, t, id),
        tail_value(s, e, t, id) & 0x80u8 != 0 <==> s,
        tail_value(s, e, t, id) & 0x40u8 != 0 <==> e,
        tail_value(s, e, t, id) & 0x20u8 != 0 <==> t,
        tail_value(s, e, t, id) & 0x1Fu8 == id & 0x1Fu8,
{
}

/// A tail byte is made of its parts: 128 for the start bit, 64 for the end
/// bit, 32 for the toggle bit, plus the transfer identifier, which is below
/// 32.
pub proof fn lemma_tail_byte_is_sum_of_parts(v: u8)
    by (bit_vector)
    ensures
        tid_bits(v) < 32,
        v == (if sot_bit(v) { 128u8 } else { 0u8 }) + (if eot_bit(v) { 64u8 } else { 0u8 }) + (
        if toggle_bit(v) { 32u8 } else { 0u8 }) + tid_bits(v),
{
}

impl Tailbyte {
    const START_OF_TRANSFER_BIT: u8 = 7;
    const END_OF_TRANSFER_BIT: u8 = 6;
    const TOGGLE_BIT: u8 = 5;
    const TRANSFER_ID_SHIFT: u8 = 0;
    const TRANSFER_ID_MASK: u8 = 0b0001_1111;

    /// Builds a tail byte from its flags and transfer identifier.  The
    /// flags and the low five bits of the identifier read back unchanged.
    pub fn new_from_parts(
        start_of_transfer: bool,
        end_of_transfer: bool,
        toggle: bool,
        transfer_id: u8,
    ) -> (r: Self)
        ensures
            r.value == tail_value(start_of_transfer, end_of_transfer, toggle, transfer_id),
            sot_bit(r.value) == start_of_transfer,
            eot_bit(r.value) == end_of_transfer,
            toggle_bit(r.value) == toggle,
            tid_bits(r.value) == transfer_id & 0x1F,
    {
        let mut value: u8 = transfer_id & Self::TRANSFER_ID_MASK;
        let ghost base = value;
        proof {
            lemma_tail_bits(value, transfer_id, start_of_transfer, end_of_transfer, toggle);
        }
        if start_of_transfer {
            value |= 1 << Self::START_OF_TRANSFER_BIT;
        }
        let ghost with_sot = value;
        assert(with_sot == base | (if start_of_transfer { 0x80u8 } else { 0u8 }));
        proof {
            lemma_tail_bits(with_sot, 0, false, false, false);
        }
        if end_of_transfer {
            value |= 1 << Self::END_OF_TRANSFER_BIT;
        }
        let ghost with_eot = value;
        assert(with_eot == with_sot | (if end_of_transfer { 0x40u8 } else { 0u8 }));
        proof {
            lemma_tail_bits(with_eot, 0, false, false, false);
        }
        if toggle {
            value |= 1 << Self::TOGGLE_BIT;
        }
        assert(value == with_eot | (if toggle { 0x20u8 } else { 0u8 }));
        Self { value }
    }

    /// Wraps a raw tail byte value.
    pub fn from_value(value: u8) -> (r: Self)
        ensures
            r.value == value,
    {
        Self { value }
    }

    /// Whether the start-of-transfer bit is set.
    pub fn start_of_transfer(&self) -> (r: bool)
        ensures
            r == sot_bit(self.value),
    {
        proof {
            lemma_tail_bits(self.value, 0, false, false, false);
        }
        (self.value & (1 << Self::START_OF_TRANSFER_BIT)) != 0
    }

    /// Sets or clears the start-of-transfer bit; every other bit is kept.
    pub fn set_start_of_transfer(&mut self, on: bool)
        ensures
            final(self).value == (if on { old(self).value | 0x80u8 } else { old(self).value & 0x7Fu8 }),
            sot_bit(final(self).value) == on,
            eot_bit(final(self).value) == eot_bit(old(self).value),
            toggle_bit(final(self).value) == toggle_bit(old(self).value),
            tid_bits(final(self).value) == tid_bits(old(self).value),
    {
        let ghost v = self.value;
        proof {
            lemma_tail_bits(v, 0, false, false, false);
        }
        if on {
            self.value |= 1 << Self::START_OF_TRANSFER_BIT;
        } else {
            self.value &= !(1 << Self::START_OF_TRANSFER_BIT);
        }
    }

    /// Whether the end-of-transfer bit is set.
    pub fn end_of_transfer(&self) -> (r: bool)
        ensures
            r == eot_bit(self.value),
    {
        proof {
            lemma_tail_bits(self.value, 0, false, false, false);
        }
        (self.value & (1 << Self::END_OF_TRANSFER_BIT)) != 0
    }

    /// Sets or clears the end-of-transfer bit; every other bit is kept.
    pub fn set_end_of_transfer(&mut self, on: bool)
        ensures
            final(self).value == (if on { old(self).value | 0x40u8 } else { old(self).value & 0xBFu8 }),
            eot_bit(final(self).value) == on,
            sot_bit(final(self).value) == sot_bit(old(self).value),
            toggle_bit(final(self).value) == toggle_bit(old(self).value),
            tid_bits(final(self).value) == tid_bits(old(self).value),
    {
        let ghost v = self.value;
        proof {
            lemma_tail_bits(v, 0, false, false, false);
        }
        if on {
            self.value |= 1 << Self::END_OF_TRANSFER_BIT;
        } else {
            self.value &= !(1 << Self::END_OF_TRANSFER_BIT);
        }
    }

    /// Whether the toggle bit is set.
    pub fn toggle(&self) -> (r: bool)
        ensures
            r == toggle_bit(self.value),
    {
        proof {
            lemma_tail_bits(self.value, 0, false, false, false);
        }
        (self.value & (1 << Self::TOGGLE_BIT)) != 0
    }

    /// Sets or clears the toggle bit; every other bit is kept.
    pub fn set_toggle(&mut self, on: bool)
        ensures
            final(self).value == (if on { old(self).value | 0x20u8 } else { old(self).value & 0xDFu8 }),
            toggle_bit(final(self).value) == on,
            sot_bit(final(self).value) == sot_bit(old(self).value),
            eot_bit(final(self).value) == eot_bit(old(self).value),
            tid_bits(final(self).value) == tid_bits(old(self).value),
    {
        let ghost v = self.value;
        proof {
            lemma_tail_bits(v, 0, false, false, false);
        }
        if on {
            self.value |= 1 << Self::TOGGLE_BIT;
        } else {
            self.value &= !(1 << Self::TOGGLE_BIT);
        }
    }

    /// The transfer identifier (bits 0..=4).
    pub fn transfer_id(&self) -> (r: u8)
        ensures
            r == tid_bits(self.value),
    {
        proof {
            lemma_tail_bits(self.value, 0, false, false, false);
        }
        (self.value >> Self::TRANSFER_ID_SHIFT) & Self::TRANSFER_ID_MASK
    }

    /// Replaces the transfer identifier by the low five bits of
    /// `transfer_id`; the three flag bits are kept.
    pub fn set_transfer_id(&mut self, transfer_id: u8)
        ensures
            final(self).value == (old(self).value & 0xE0u8) | (transfer_id & 0x1Fu8),
            tid_bits(final(self).value) == transfer_id & 0x1F,
            sot_bit(final(self).value) == sot_bit(old(self).value),
            eot_bit(final(self).value) == eot_bit(old(self).value),
            toggle_bit(final(self).value) == toggle_bit(old(self).value),
    {
        let ghost v = self.value;
        let ghost id = transfer_id;
        proof {
            lemma_tail_bits(v, id, false, false, false);
            lemma_tail_bits(id & 0x1F, id, false, false, false);
        }
        let transfer_id = transfer_id & Self::TRANSFER_ID_MASK;
        self.value = (self.value & !Self::TRANSFER_ID_MASK) | (transfer_id << Self::TRANSFER_ID_SHIFT);
    }
}

} // verus!
