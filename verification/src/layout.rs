//! Fixed-layout headers, read and written through `bytemuck`.
use vstd::prelude::*;
use crate::bytes::{le16, u16_at, u32_at};

verus! {

/// The error of `bytemuck`'s casts. Nothing is known of a value of it.
#[verifier::external_type_specification]
#[verifier::external_body]
pub struct ExPodCastError(bytemuck::PodCastError);

/// Calls `bytemuck::bytes_of` on two sixteen-bit words held in little-endian order. It gives the
/// bytes of its argument in memory order, here the first word's and then the second's, each with
/// its least significant byte first.
#[verifier::external_body]
pub(crate) fn words_to_bytes(first: u16, second: u16) -> (bytes: Vec<u8>)
    ensures
        bytes@ == le16(first) + le16(second),
{
    bytemuck::bytes_of(&[first.to_le(), second.to_le()]).to_vec()
}

/// Calls `bytemuck::pod_read_unaligned` for two sixteen-bit words in little-endian order. It copies
/// the bytes into a value of its result type wherever they lie in memory, and panics unless there
/// are exactly as many bytes as that type has.
#[verifier::external_body]
pub(crate) fn words_from_bytes(bytes: &[u8]) -> (words: (u16, u16))
    requires
        bytes@.len() == 4,
    ensures
        words.0 == u16_at(bytes@, 0),
        words.1 == u16_at(bytes@, 2),
{
    let words = bytemuck::pod_read_unaligned::<[u16; 2]>(bytes);
    (u16::from_le(words[0]), u16::from_le(words[1]))
}

/// Calls `bytemuck::try_from_bytes` for three thirty-two-bit words in little-endian order. It reads
/// the bytes in place, so it fails where their number is not the size of the words, which is left
/// out here, or where their address is not a multiple of the alignment of a word. The address is no
/// part of what a slice holds, and nothing is stated of when the bytes are refused.
#[verifier::external_body]
pub(crate) fn dwords_in_place(bytes: &[u8]) -> (words: Result<(u32, u32, u32), bytemuck::PodCastError>)
    requires
        bytes@.len() == 12,
    ensures
        words matches Ok(w) ==> w.0 == u32_at(bytes@, 0) && w.1 == u32_at(bytes@, 4) && w.2
            == u32_at(bytes@, 8),
{
    let words = bytemuck::try_from_bytes::<[u32; 3]>(bytes)?;
    Ok((u32::from_le(words[0]), u32::from_le(words[1]), u32::from_le(words[2])))
}

} // verus!
