//! WS2812 wire format.
use vstd::prelude::*;

use crate::f12a::Rgb8;

verus! {

pub const LATCH_DELAY_US: u32 = 80;

/// The bytes a WS2812 chain receives for `pixels`: green, red, blue for
/// each pixel in turn.
pub open spec fn spec_wire_bytes(pixels: Seq<Rgb8>) -> Seq<u8>
    decreases pixels.len(),
{
    if pixels.len() == 0 {
        seq![]
    } else {
        let p = pixels.last();
        spec_wire_bytes(pixels.drop_last()) + seq![p.g, p.r, p.b]
    }
}

proof fn lemma_wire_bytes_len(pixels: Seq<Rgb8>)
    ensures
        spec_wire_bytes(pixels).len() == 3 * pixels.len(),
    decreases pixels.len(),
{
    if pixels.len() > 0 {
        lemma_wire_bytes_len(pixels.drop_last());
    }
}

/// Serialises a frame in the order the LEDs shift it in.
pub fn wire_bytes(pixels: &[Rgb8]) -> (r: Vec<u8>)
    ensures
        r@ == spec_wire_bytes(pixels@),
        r@.len() == 3 * pixels@.len(),
{
    let mut out: Vec<u8> = Vec::new();
    let mut i: usize = 0;
    while i < pixels.len()
        invariant
            0 <= i <= pixels@.len(),
            out@ == spec_wire_bytes(pixels@.take(i as int)),
        decreases pixels@.len() - i,
    {
        let pixel = pixels[i];
        out.push(pixel.g);
        out.push(pixel.r);
        out.push(pixel.b);
        assert(pixels@.take(i + 1).drop_last() =~= pixels@.take(i as int));
        i = i + 1;
    }
    assert(pixels@.take(pixels@.len() as int) =~= pixels@);
    proof {
        lemma_wire_bytes_len(pixels@);
    }
    out
}

} // verus!

verus! {

/// Pixel `i` occupies bytes `3i`, `3i + 1` and `3i + 2`: green, red, blue.
pub proof fn lemma_wire_layout(pixels: Seq<Rgb8>, i: int)
    requires
        0 <= i < pixels.len(),
    ensures
        spec_wire_bytes(pixels).len() == 3 * pixels.len(),
        spec_wire_bytes(pixels)[3 * i] == pixels[i].g,
        spec_wire_bytes(pixels)[3 * i + 1] == pixels[i].r,
        spec_wire_bytes(pixels)[3 * i + 2] == pixels[i].b,
    decreases pixels.len(),
{
    lemma_wire_bytes_len(pixels);
    lemma_wire_bytes_len(pixels.drop_last());
    if i < pixels.len() - 1 {
        lemma_wire_layout(pixels.drop_last(), i);
    }
}

/// Byte `k` of the wire bytes of `pixels`, for sending without building
/// the whole sequence.
pub fn wire_byte(pixels: &[Rgb8], k: usize) -> (r: u8)
    requires
        k < 3 * pixels@.len(),
    ensures
        r == spec_wire_bytes(pixels@)[k as int],
{
    let index = k / 3;
    proof {
        lemma_wire_layout(pixels@, index as int);
    }
    let pixel = pixels[index];
    if k % 3 == 0 {
        pixel.g
    } else if k % 3 == 1 {
        pixel.r
    } else {
        pixel.b
    }
}

} // verus!
