//! Checksums of the commit log's headers.
use vstd::prelude::*;

verus! {

/// The CRC-32 checksum (IEEE 802.3 polynomial, reflected, initial value and
/// final XOR all ones) of `data`.
pub uninterp spec fn crc32_ieee(data: Seq<u8>) -> u32;

/// The ASCII bytes `123456789`, whose checksum is the check value of a CRC.
pub open spec fn check_string() -> Seq<u8> {
    seq![49u8, 50u8, 51u8, 52u8, 53u8, 54u8, 55u8, 56u8, 57u8]
}

/// `crc::crc32::checksum_ieee`: the IEEE CRC-32 of `data`.  Its value is
/// named, not stated, but for the one value the crate documents: the
/// checksum of the ASCII bytes `123456789` is `0xcbf43926`.  (The crate
/// also documents that feeding a digest several slices in a row gives the
/// checksum of their concatenation, which is how the headers are checked.)
#[verifier::external_body]
pub fn checksum_ieee(data: &[u8]) -> (r: u32)
    ensures
        r == crc32_ieee(data@),
        data@ == check_string() ==> r == 0xcbf43926u32,
{
    crc::crc32::checksum_ieee(data)
}

} // verus!
