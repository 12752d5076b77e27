//! The 16-bit pixel format of the panels: five bits of red, six of green,
//! five of blue, and the two byte orders in which a pixel travels.

use vstd::prelude::*;
use crate::bytes::{swap_byte_pairs, words_be, words_le};

verus! {

/// The 16-bit pixel for an 8-bit-per-channel colour: the top five bits of
/// red, the top six of green and the top five of blue, red uppermost.
pub open spec fn rgb565(r: u8, g: u8, b: u8) -> u16 {
    ((r / 8) * 2048 + (g / 4) * 32 + b / 8) as u16
}

/// The pixels of a packed RGB888 image, each reduced to 16 bits. A trailing
/// partial pixel is left out.
pub open spec fn rgb888_pixels(rgb: Seq<u8>) -> Seq<u16> {
    Seq::new(rgb.len() / 3, |i: int| rgb565(rgb[3 * i], rgb[3 * i + 1], rgb[3 * i + 2]))
}

/// Packs one colour into a 16-bit pixel.
#[inline]
pub fn rgb_to_rgb565(r: u8, g: u8, b: u8) -> (p: u16)
    ensures
        p == rgb565(r, g, b),
{
    let p: u16 = ((r as u16 & 0b11111000) << 8) | ((g as u16 & 0b11111100) << 3) | (b as u16 >> 3);
    assert(((r as u16 & 0b11111000) << 8) | ((g as u16 & 0b11111100) << 3) | (b as u16 >> 3) == ((r
        / 8) * 2048 + (g / 4) * 32 + b / 8) as u16) by (bit_vector);
    p
}

/// A pixel in the panel's 16-bit format.
#[derive(Clone, Copy, Debug, PartialEq, Eq)]
pub struct Rgb565Pixel(pub u16);

impl Rgb565Pixel {
    /// The pixel for an 8-bit-per-channel colour.
    pub fn from_rgb(r: u8, g: u8, b: u8) -> (p: Self)
        ensures
            p.0 == rgb565(r, g, b),
    {
        Rgb565Pixel(rgb_to_rgb565(r, g, b))
    }
}

/// Turns little-endian pixel bytes into big-endian ones in place, by
/// exchanging the two bytes of every pixel.
pub fn rgb565_le_to_be(image: &mut [u8])
    requires
        old(image)@.len() % 2 == 0,
    ensures
        final(image)@ == swap_byte_pairs(old(image)@),
{
    let n: usize = image.len();
    let ghost orig = image@;
    let mut i: usize = 0;
    while i < n
        invariant
            i % 2 == 0,
            i <= n,
            n % 2 == 0,
            n == orig.len(),
            image@.len() == n,
            forall|k: int| 0 <= k < i ==> image@[k] == swap_byte_pairs(orig)[k],
            forall|k: int| i <= k < n ==> image@[k] == orig[k],
        decreases n - i,
    {
        let lo: u8 = image[i];
        let hi: u8 = image[i + 1];
        image[i] = hi;
        image[i + 1] = lo;
        i += 2;
    }
    assert(image@ =~= swap_byte_pairs(orig));
}

/// Converts a packed RGB888 image to 16-bit pixels, two bytes each, most
/// significant byte first: the order in which pixels travel on the wire.
pub fn rgb888_to_rgb565_be(rgb: &[u8]) -> (out: Vec<u8>)
    ensures
        out@ == words_be(rgb888_pixels(rgb@)),
{
    let count: usize = rgb.len() / 3;
    let mut out: Vec<u8> = Vec::new();
    let mut i: usize = 0;
    while i < count
        invariant
            i <= count,
            count == rgb@.len() / 3,
            3 * count <= rgb@.len() <= usize::MAX,
            out@ == words_be(rgb888_pixels(rgb@).subrange(0, i as int)),
        decreases count - i,
    {
        let p: u16 = rgb_to_rgb565(rgb[3 * i], rgb[3 * i + 1], rgb[3 * i + 2]);
        out.push((p / 256) as u8);
        out.push((p % 256) as u8);
        i += 1;
        assert(out@ =~= words_be(rgb888_pixels(rgb@).subrange(0, i as int)));
    }
    assert(rgb888_pixels(rgb@).subrange(0, count as int) =~= rgb888_pixels(rgb@));
    out
}

/// Converts a packed RGB888 image to 16-bit pixels, two bytes each, least
/// significant byte first.
pub fn rgb888_to_rgb565_le(rgb: &[u8]) -> (out: Vec<u8>)
    ensures
        out@ == words_le(rgb888_pixels(rgb@)),
{
    let count: usize = rgb.len() / 3;
    let mut out: Vec<u8> = Vec::new();
    let mut i: usize = 0;
    while i < count
        invariant
            i <= count,
            count == rgb@.len() / 3,
            3 * count <= rgb@.len() <= usize::MAX,
            out@ == words_le(rgb888_pixels(rgb@).subrange(0, i as int)),
        decreases count - i,
    {
        let p: u16 = rgb_to_rgb565(rgb[3 * i], rgb[3 * i + 1], rgb[3 * i + 2]);
        out.push((p % 256) as u8);
        out.push((p / 256) as u8);
        i += 1;
        assert(out@ =~= words_le(rgb888_pixels(rgb@).subrange(0, i as int)));
    }
    assert(rgb888_pixels(rgb@).subrange(0, count as int) =~= rgb888_pixels(rgb@));
    out
}

} // verus!
