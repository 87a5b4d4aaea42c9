//! Sizes in pixels: logical sizes times the scale factor of a monitor.
use vstd::arithmetic::div_mod::lemma_mod_multiples_vanish;
use vstd::prelude::*;

verus! {

/// The `i32` that is congruent to `n` modulo 2^32.
pub open spec fn wrap_i32(n: int) -> int {
    let m = n % 0x1_0000_0000;
    if m < 0x8000_0000 {
        m
    } else {
        m - 0x1_0000_0000
    }
}

/// `extent` logical pixels at the given scale factor, in pixels of the buffer. A product that
/// does not fit in 32 bits wraps around.
pub open spec fn scaled(extent: u32, scale: i32) -> i32 {
    wrap_i32(extent * scale) as i32
}

/// Both extents of a surface in pixels of its buffer.
pub open spec fn scaled_size(size: (u32, u32), scale: i32) -> (i32, i32) {
    (scaled(size.0, scale), scaled(size.1, scale))
}

/// The extent that a frame is drawn with, computed on unsigned numbers.
fn drawn_extent(extent: u32, scale: i32) -> (pixels: i32)
    ensures
        pixels == scaled(extent, scale),
{
    let factor: u32 = #[verifier::truncate] (scale as u32);
    let product: u32 = extent.wrapping_mul(factor);
    let pixels: i32 = #[verifier::truncate] (product as i32);
    proof {
        assert(factor == if scale >= 0 { scale as int } else { scale + 0x1_0000_0000 }) by {
            assert(scale >= 0 ==> scale as u32 == scale) by (bit_vector);
            assert(scale < 0 ==> scale as u32 == scale + 0x1_0000_0000) by (bit_vector);
        }
        if scale < 0 {
            assert(extent * (scale + 0x1_0000_0000) == 0x1_0000_0000 * extent + extent * scale)
                by (nonlinear_arith);
            lemma_mod_multiples_vanish(extent as int, extent * scale, 0x1_0000_0000);
        }
        assert(product < 0x8000_0000 ==> product as i32 == product) by (bit_vector);
        assert(product >= 0x8000_0000 ==> product as i32 == product - 0x1_0000_0000)
            by (bit_vector);
    }
    pixels
}

/// The extent that a buffer is allocated with, computed on signed numbers.
fn buffer_extent(extent: u32, scale: i32) -> (pixels: i32)
    ensures
        pixels == scaled(extent, scale),
{
    let signed: i32 = #[verifier::truncate] (extent as i32);
    let pixels: i32 = signed.wrapping_mul(scale);
    proof {
        assert(extent < 0x8000_0000 ==> extent as i32 == extent) by (bit_vector);
        assert(extent >= 0x8000_0000 ==> extent as i32 == extent - 0x1_0000_0000) by (bit_vector);
        if extent >= 0x8000_0000 {
            assert((extent - 0x1_0000_0000) * scale == 0x1_0000_0000 * (-scale) + extent * scale)
                by (nonlinear_arith);
            lemma_mod_multiples_vanish(-scale as int, extent * scale, 0x1_0000_0000);
        }
    }
    pixels
}

/// The size that a frame is drawn with.
pub fn drawn_size(size: (u32, u32), scale: i32) -> (pixels: (i32, i32))
    ensures
        pixels == scaled_size(size, scale),
{
    (drawn_extent(size.0, scale), drawn_extent(size.1, scale))
}

/// The size that the buffers of a surface are allocated with.
pub fn buffer_size(size: (u32, u32), scale: i32) -> (pixels: (i32, i32))
    ensures
        pixels == scaled_size(size, scale),
{
    (buffer_extent(size.0, scale), buffer_extent(size.1, scale))
}

/// Where the product fits in an `i32`, it is the pixel extent: nothing wraps.
pub proof fn law_scaled_is_the_product(extent: u32, scale: i32)
    requires
        i32::MIN <= extent * scale <= i32::MAX,
    ensures
        scaled(extent, scale) == extent * scale,
{
}

/// A surface that is not empty, on a monitor with a scale factor of at least one, has a buffer
/// that is not empty, as long as its size fits in an `i32`.
pub proof fn law_scaled_is_positive(extent: u32, scale: i32)
    requires
        1 <= extent,
        1 <= scale,
        extent * scale <= i32::MAX,
    ensures
        extent <= scaled(extent, scale),
{
    assert(extent <= extent * scale) by (nonlinear_arith)
        requires
            1 <= extent,
            1 <= scale,
    ;
    law_scaled_is_the_product(extent, scale);
}

/// Two numbers that a register of 32 bits cannot tell apart.
pub open spec fn congruent(a: int, b: int) -> bool {
    (a - b) % 0x1_0000_0000 == 0
}

/// `pixels` is `size` times `scale`, width by width and height by height: exactly where a product
/// fits in an `i32`, and modulo 2^32 in any case.
pub open spec fn is_product(pixels: (i32, i32), size: (u32, u32), scale: i32) -> bool {
    &&& i32::MIN <= size.0 * scale <= i32::MAX ==> pixels.0 == size.0 * scale
    &&& i32::MIN <= size.1 * scale <= i32::MAX ==> pixels.1 == size.1 * scale
    &&& congruent(pixels.0 as int, size.0 * scale)
    &&& congruent(pixels.1 as int, size.1 * scale)
}

/// A size in pixels is the size times the scale factor, without exchange of the extents, and it is
/// the only pair of 32-bit numbers of which that holds.
pub proof fn law_scaled_size_is_the_product(size: (u32, u32), scale: i32, other: (i32, i32))
    ensures
        is_product(scaled_size(size, scale), size, scale),
        is_product(other, size, scale) ==> other == scaled_size(size, scale),
{
}

/// Frames are drawn with the size that their buffers are allocated with, and that is the size times
/// the scale factor.
pub proof fn law_frames_fit_their_buffers(
    size: (u32, u32),
    scale: i32,
    drawn: (i32, i32),
    buffer: (i32, i32),
)
    requires
        call_ensures(drawn_size, (size, scale), drawn),
        call_ensures(buffer_size, (size, scale), buffer),
    ensures
        drawn == buffer,
        is_product(drawn, size, scale),
{
}

} // verus!
