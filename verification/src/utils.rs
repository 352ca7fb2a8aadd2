use vstd::prelude::*;

verus! {

/// One bit of CRC-16 polynomial division: shift the register left by one,
/// xoring in the polynomial 0x1021 when the bit shifted out was set.
pub open spec fn crc16_shift_bit(crc: u16) -> u16 {
    (crc << 1u16) ^ (if crc & 0x8000u16 != 0 { 0x1021u16 } else { 0u16 })
}

/// One byte of CRC-16/IBM-3740: xor the byte into the high byte of the
/// register, then divide by the polynomial bit by bit, eight times.
pub open spec fn crc16_byte(crc: u16, byte: u8) -> u16 {
    let x = crc ^ ((byte as u16) << 8u16);
    crc16_shift_bit(
        crc16_shift_bit(
            crc16_shift_bit(
                crc16_shift_bit(
                    crc16_shift_bit(crc16_shift_bit(crc16_shift_bit(crc16_shift_bit(x)))),
                ),
            ),
        ),
    )
}

/// The CRC-16 register after feeding `data`, first byte first, into `crc`.
pub open spec fn crc16_update(crc: u16, data: Seq<u8>) -> u16
    decreases data.len(),
{
    if data.len() == 0 {
        crc
    } else {
        crc16_update(crc16_byte(crc, data[0]), data.drop_first())
    }
}

/// The CRC-16/IBM-3740 (also known as CRC-16/CCITT-FALSE: polynomial
/// 0x1021, initial value 0xFFFF, no reflection, no final xor) of `data`.
pub open spec fn crc16_ibm_3740(data: Seq<u8>) -> u16 {
    crc16_update(0xFFFFu16, data)
}

/// The bytes of the ASCII text "123456789", the input of the check value
/// that CRC catalogues give for each algorithm.
pub open spec fn crc_check_input() -> Seq<u8> {
    seq![0x31u8, 0x32u8, 0x33u8, 0x34u8, 0x35u8, 0x36u8, 0x37u8, 0x38u8, 0x39u8]
}

/// The register after each byte of "123456789".
proof fn lemma_crc16_check_bytes()
    by (bit_vector)
    ensures
        crc16_byte(0xFFFFu16, 0x31u8) == 0xC782u16,
        crc16_byte(0xC782u16, 0x32u8) == 0x3DBAu16,
        crc16_byte(0x3DBAu16, 0x33u8) == 0x5BCEu16,
        crc16_byte(0x5BCEu16, 0x34u8) == 0x5349u16,
        crc16_byte(0x5349u16, 0x35u8) == 0x4560u16,
        crc16_byte(0x4560u16, 0x36u8) == 0x2EF4u16,
        crc16_byte(0x2EF4u16, 0x37u8) == 0x7718u16,
        crc16_byte(0x7718u16, 0x38u8) == 0xA12Bu16,
        crc16_byte(0xA12Bu16, 0x39u8) == 0x29B1u16,
{
}

/// The check value: the CRC-16/IBM-3740 of "123456789" is 0x29B1.
pub proof fn lemma_crc16_check_value()
    ensures
        crc16_ibm_3740(crc_check_input()) == 0x29B1,
{
    lemma_crc16_check_bytes();
    let s = crc_check_input();
    reveal_with_fuel(crc16_update, 10);
    assert(s.drop_first() =~= seq![0x32u8, 0x33u8, 0x34u8, 0x35u8, 0x36u8, 0x37u8, 0x38u8, 0x39u8]);
    assert(s.drop_first().drop_first() =~= seq![0x33u8, 0x34u8, 0x35u8, 0x36u8, 0x37u8, 0x38u8, 0x39u8]);
    assert(s.drop_first().drop_first().drop_first() =~= seq![0x34u8, 0x35u8, 0x36u8, 0x37u8, 0x38u8, 0x39u8]);
    assert(s.drop_first().drop_first().drop_first().drop_first() =~= seq![0x35u8, 0x36u8, 0x37u8, 0x38u8, 0x39u8]);
    assert(s.drop_first().drop_first().drop_first().drop_first().drop_first() =~= seq![0x36u8, 0x37u8, 0x38u8, 0x39u8]);
    assert(s.drop_first().drop_first().drop_first().drop_first().drop_first().drop_first() =~= seq![0x37u8, 0x38u8, 0x39u8]);
    assert(s.drop_first().drop_first().drop_first().drop_first().drop_first().drop_first().drop_first() =~= seq![0x38u8, 0x39u8]);
    assert(s.drop_first().drop_first().drop_first().drop_first().drop_first().drop_first().drop_first().drop_first() =~= seq![0x39u8]);
    assert(s.drop_first().drop_first().drop_first().drop_first().drop_first().drop_first().drop_first().drop_first().drop_first() =~= Seq::<u8>::empty());
}

/// Computes the DroneCAN transfer CRC of `payload` with
/// `crc::Crc::<u16>::checksum`, configured with `crc::CRC_16_IBM_3740`
/// (width 16, polynomial 0x1021, initial value 0xFFFF, input and output
/// not reflected, no final xor).  The contract claims that the result is
/// the CRC those parameters define, `crc16_ibm_3740` of the bytes of
/// `payload`.
#[verifier::external_body]
fn transfer_crc(payload: &[u8]) -> (r: u16)
    ensures
        r == crc16_ibm_3740(payload@),
{
    crc::Crc::<u16>::new(&crc::CRC_16_IBM_3740).checksum(payload)
}

/// Feeding two pieces of data one after the other is feeding their
/// concatenation.
pub proof fn lemma_crc16_update_append(crc: u16, a: Seq<u8>, b: Seq<u8>)
    ensures
        crc16_update(crc, a + b) == crc16_update(crc16_update(crc, a), b),
    decreases a.len(),
{
    if a.len() == 0 {
        assert(a + b =~= b);
    } else {
        assert((a + b).drop_first() =~= a.drop_first() + b);
        lemma_crc16_update_append(crc16_byte(crc, a[0]), a.drop_first(), b);
    }
}

/// Eight division steps shift a register whose high byte is clear left by
/// eight; the zero register stays zero.
proof fn lemma_crc16_shift_low_byte(x: u16)
    by (bit_vector)
    ensures
        x < 256u16 ==> crc16_shift_bit(crc16_shift_bit(crc16_shift_bit(crc16_shift_bit(
            crc16_shift_bit(crc16_shift_bit(crc16_shift_bit(crc16_shift_bit(x)))),
        )))) == x << 8u16,
{
}

/// Xoring a register's own high byte into it leaves its low byte, and
/// xoring the low byte into that byte shifted up clears it.
proof fn lemma_crc16_xor_bytes(crc: u16)
    by (bit_vector)
    ensures
        crc ^ (((crc >> 8u16) as u8 as u16) << 8u16) == crc & 0xFFu16,
        ((crc & 0xFFu16) << 8u16) ^ (((crc & 0xFFu16) as u8 as u16) << 8u16) == 0u16,
        (crc & 0xFFu16) < 256u16,
        (crc >> 8u16) == crc / 256u16,
        (crc & 0xFFu16) == crc % 256u16,
        0u16 << 8u16 == 0u16,
{
}

/// The residue law: the CRC of data followed by its own CRC, high byte
/// first, is zero.
pub proof fn lemma_crc16_zero_residue(data: Seq<u8>)
    ensures
        crc16_ibm_3740(data + seq![
            (crc16_ibm_3740(data) / 256) as u8,
            (crc16_ibm_3740(data) % 256) as u8,
        ]) == 0,
{
    let c = crc16_ibm_3740(data);
    let tail = seq![(c / 256) as u8, (c % 256) as u8];
    lemma_crc16_update_append(0xFFFFu16, data, tail);
    lemma_crc16_xor_bytes(c);
    lemma_crc16_shift_low_byte(c & 0xFFu16);
    lemma_crc16_shift_low_byte(0u16);
    let after_hi = crc16_byte(c, (c / 256) as u8);
    assert(after_hi == (c & 0xFFu16) << 8u16);
    let after_lo = crc16_byte(after_hi, (c % 256) as u8);
    assert(after_hi ^ (((c % 256) as u8 as u16) << 8u16) == 0u16);
    assert(after_lo == 0);
    assert(tail.drop_first().drop_first() =~= Seq::<u8>::empty());
    assert(tail[0] == (c / 256) as u8 && tail.drop_first()[0] == (c % 256) as u8);
    reveal_with_fuel(crc16_update, 3);
    assert(crc16_update(c, tail) == after_lo);
}

/// A transfer CRC split into its high byte (`crc_1`) and low byte (`crc_2`).
#[derive(PartialEq, Eq, Structural, Debug, Hash)]
pub struct CrcData {
    pub crc_1: u8,
    pub crc_2: u8,
}

impl CrcData {
    /// The transfer CRC of `payload`, split into its two bytes.
    pub fn from_payload(payload: &[u8]) -> (r: Self)
        ensures
            r.crc_1 == crc16_ibm_3740(payload@) / 256,
            r.crc_2 == crc16_ibm_3740(payload@) % 256,
            payload@.len() == 0 ==> r.crc_1 == 0xFF && r.crc_2 == 0xFF,
    {
        let value = transfer_crc(payload);
        Self::from_u16(value)
    }

    /// Splits a 16-bit CRC value into its high and low byte.
    pub fn from_u16(value: u16) -> (r: Self)
        ensures
            r.crc_1 == value / 256,
            r.crc_2 == value % 256,
    {
        assert((value >> 8u16) as u8 == value / 256 && (value & 0x00FFu16) as u8 == value % 256)
            by (bit_vector);
        Self { crc_1: (value >> 8) as u8, crc_2: (value & 0x00FF) as u8 }
    }

    /// The CRC value: `crc_1` is the high byte, `crc_2` the low byte.
    pub fn as_u16(&self) -> (r: u16)
        ensures
            r == self.crc_1 * 256 + self.crc_2,
    {
        let hi = self.crc_1;
        let lo = self.crc_2;
        assert(((hi as u16) << 8u16) | (lo as u16) == hi as u16 * 256 + lo as u16) by (bit_vector);
        ((self.crc_1 as u16) << 8) | self.crc_2 as u16
    }
}

/// Splitting a CRC value into its two bytes and joining them again gives
/// the value back.
pub proof fn lemma_crc_split_join(value: u16)
    ensures
        (value / 256) * 256 + value % 256 == value,
        value / 256 < 256,
{
}

/// Joining two bytes into a CRC value and splitting it again gives the two
/// bytes back.
pub proof fn lemma_crc_join_split(hi: u8, lo: u8)
    ensures
        (hi * 256 + lo) / 256 == hi,
        (hi * 256 + lo) % 256 == lo,
        hi * 256 + lo <= 0xFFFF,
{
}

} // verus!
