use vstd::prelude::*;

verus! {

/// Added (modulo 2^32) to the rotated raw checksum by the masking permutation.
pub const CRC_MASK_DELTA: u32 = 0xa282ead8;

/// A Castagnoli CRC-32 checksum after a masking permutation. This is the
/// checksum format used by TFRecords.
#[derive(Debug, Copy, Clone, PartialEq, Eq, Structural)]
pub struct MaskedCrc(pub u32);

/// The raw Castagnoli CRC-32 (CRC-32C) of a byte sequence.
pub uninterp spec fn castagnoli_of(bytes: Seq<u8>) -> u32;

/// Rotates a 32-bit word right by 15 bits.
pub open spec fn rotate_right_15(crc: u32) -> u32 {
    (crc >> 15u32) | (crc << 17u32)
}

/// The masking permutation: rotate right by 15 bits, then add the delta
/// with wraparound.
pub open spec fn mask_spec(crc: u32) -> u32 {
    ((rotate_right_15(crc) as int + CRC_MASK_DELTA as int) % 0x1_0000_0000) as u32
}

/// The masked checksum of a byte sequence.
pub open spec fn masked_crc_of(bytes: Seq<u8>) -> u32 {
    mask_spec(castagnoli_of(bytes))
}

/// Relies on `crc::crc32::checksum_castagnoli`: the CRC-32C of `bytes`, which
/// depends on the bytes alone.
#[verifier::external_body]
fn castagnoli(bytes: &[u8]) -> (r: u32)
    ensures
        r == castagnoli_of(bytes@),
{
    crc::crc32::checksum_castagnoli(bytes)
}

/// Applies the masking operation to an unmasked CRC.
pub fn mask_crc(crc: u32) -> (r: MaskedCrc)
    ensures
        r.0 == mask_spec(crc),
{
    MaskedCrc(((crc >> 15) | (crc << 17)).wrapping_add(CRC_MASK_DELTA))
}

/// Computes the masked CRC-32C of `bytes`.
pub fn compute_crc(bytes: &[u8]) -> (r: MaskedCrc)
    ensures
        r.0 == masked_crc_of(bytes@),
{
    mask_crc(castagnoli(bytes))
}

/// The masking permutation is one-to-one: distinct raw checksums stay
/// distinct after masking.
pub proof fn lemma_mask_injective(a: u32, b: u32)
    requires
        a != b,
    ensures
        mask_spec(a) != mask_spec(b),
{
    assert(((a >> 15u32) | (a << 17u32)) == ((b >> 15u32) | (b << 17u32)) ==> a == b)
        by (bit_vector);
}

/// The masked checksum is a function of the bytes alone, and it tells apart
/// any two byte sequences whose raw CRC-32C differ.
pub proof fn lemma_masked_crc_separates(a: Seq<u8>, b: Seq<u8>)
    ensures
        a == b ==> masked_crc_of(a) == masked_crc_of(b),
        castagnoli_of(a) != castagnoli_of(b) ==> masked_crc_of(a) != masked_crc_of(b),
{
    if castagnoli_of(a) != castagnoli_of(b) {
        lemma_mask_injective(castagnoli_of(a), castagnoli_of(b));
    }
}

} // verus!
