use vstd::prelude::*;

verus! {

/// Byte `j` (0 = least significant) of a 32-bit word.
pub open spec fn word_byte(w: u32, j: int) -> u8 {
    if j == 0 {
        (w & 0xff) as u8
    } else if j == 1 {
        ((w >> 8u32) & 0xff) as u8
    } else if j == 2 {
        ((w >> 16u32) & 0xff) as u8
    } else {
        ((w >> 24u32) & 0xff) as u8
    }
}

/// Little-endian serialization of the eight words of a program identity.
pub open spec fn image_id_le(data: Seq<u32>) -> Seq<u8> {
    Seq::new(32, |k: int| word_byte(data[k / 4], k % 4))
}

/// Big-endian serialization of the eight words of a program identity.
pub open spec fn image_id_be(data: Seq<u32>) -> Seq<u8> {
    Seq::new(32, |k: int| word_byte(data[k / 4], 3 - k % 4))
}

/// Serializes the eight 32-bit words of a program identity into 32 bytes,
/// each word little-endian, words in order.
pub fn convert_image_id(data: &[u32; 8]) -> (res: [u8; 32])
    ensures
        res@ == image_id_le(data@),
{
    let mut res: [u8; 32] = [0u8; 32];
    let mut i: usize = 0;
    while i < 8
        invariant
            0 <= i <= 8,
            forall|k: int| 0 <= k < 4 * i ==> #[trigger] res@[k] == word_byte(data@[k / 4], k % 4),
        decreases 8 - i,
    {
        let w: u32 = data[i];
        res[4 * i] = (w & 0xff) as u8;
        res[4 * i + 1] = ((w >> 8u32) & 0xff) as u8;
        res[4 * i + 2] = ((w >> 16u32) & 0xff) as u8;
        res[4 * i + 3] = ((w >> 24u32) & 0xff) as u8;
        i = i + 1;
    }
    assert(res@ =~= image_id_le(data@));
    res
}

/// Serializes the eight 32-bit words of a program identity into 32 bytes,
/// each word big-endian, words in order.
pub fn convert_image_id_be(data: &[u32; 8]) -> (res: [u8; 32])
    ensures
        res@ == image_id_be(data@),
{
    let mut res: [u8; 32] = [0u8; 32];
    let mut i: usize = 0;
    while i < 8
        invariant
            0 <= i <= 8,
            forall|k: int| 0 <= k < 4 * i ==> #[trigger] res@[k] == word_byte(data@[k / 4], 3 - k % 4),
        decreases 8 - i,
    {
        let w: u32 = data[i];
        res[4 * i] = ((w >> 24u32) & 0xff) as u8;
        res[4 * i + 1] = ((w >> 16u32) & 0xff) as u8;
        res[4 * i + 2] = ((w >> 8u32) & 0xff) as u8;
        res[4 * i + 3] = (w & 0xff) as u8;
        i = i + 1;
    }
    assert(res@ =~= image_id_be(data@));
    res
}

} // verus!
