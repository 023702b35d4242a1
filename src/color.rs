use vstd::prelude::*;

verus! {

/// Channels of a color packed in a `u32` as `0xRRGGBBAA`: red is the top
/// byte, then green, then blue; the low byte is not a channel.
pub fn unpack_rgb(value: u32) -> (r: [u8; 3])
    ensures
        r[0] == (value >> 24u32) as u8,
        r[1] == ((value >> 16u32) & 0xffu32) as u8,
        r[2] == ((value >> 8u32) & 0xffu32) as u8,
{
    let red: u32 = (value & 0xff000000u32) >> 24u32;
    let green: u32 = (value & 0xff0000u32) >> 16u32;
    let blue: u32 = (value & 0xff00u32) >> 8u32;
    assert(((value & 0xff000000u32) >> 24u32) == (value >> 24u32)) by (bit_vector);
    assert(((value & 0xff0000u32) >> 16u32) == ((value >> 16u32) & 0xffu32)) by (bit_vector);
    assert(((value & 0xff00u32) >> 8u32) == ((value >> 8u32) & 0xffu32)) by (bit_vector);
    [red as u8, green as u8, blue as u8]
}

} // verus!
