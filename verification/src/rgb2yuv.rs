//! Conversion between packed RGB and planar YUV 4:2:0 in integer
//! arithmetic. A YUV image of `width` by `height` pixels holds a plane of
//! one luma byte a pixel, then a plane of one blue-difference byte for
//! every square of two by two pixels, then such a plane of red-difference
//! bytes. Width and height are even.

use vstd::prelude::*;
use crate::rgb565::{rgb565, Rgb565Pixel};

verus! {

/// A number held to the range of a byte.
pub open spec fn clamp(x: int) -> u8 {
    if x > 255 {
        255
    } else if x < 0 {
        0
    } else {
        x as u8
    }
}

/// The luma of a colour.
pub open spec fn luma(r: u8, g: u8, b: u8) -> u8 {
    clamp((66 * r + 129 * g + 25 * b + 128) / 256 + 16)
}

/// The blue-difference chroma of a colour.
pub open spec fn chroma_blue(r: u8, g: u8, b: u8) -> u8 {
    clamp((-38 * r - 74 * g + 112 * b + 128) / 256 + 128)
}

/// The red-difference chroma of a colour.
pub open spec fn chroma_red(r: u8, g: u8, b: u8) -> u8 {
    clamp((112 * r - 94 * g - 18 * b + 128) / 256 + 128)
}

/// The red of a YUV sample.
pub open spec fn red_of(y: u8, u: u8, v: u8) -> u8 {
    clamp((298 * (y - 16) + 408 * (v - 128) + 128) / 256)
}

/// The green of a YUV sample.
pub open spec fn green_of(y: u8, u: u8, v: u8) -> u8 {
    clamp((298 * (y - 16) - 100 * (u - 128) - 208 * (v - 128) + 128) / 256)
}

/// The blue of a YUV sample.
pub open spec fn blue_of(y: u8, u: u8, v: u8) -> u8 {
    clamp((298 * (y - 16) + 516 * (u - 128) + 128) / 256)
}

/// The index in the chroma planes of the square that holds pixel `p`.
pub open spec fn chroma_index(p: int, width: int) -> int {
    ((p / width) / 2) * (width / 2) + (p % width) / 2
}

/// The index of the top left pixel of square `j`.
pub open spec fn chroma_source(j: int, width: int) -> int {
    (2 * (j / (width / 2))) * width + 2 * (j % (width / 2))
}

/// The luma, blue-difference and red-difference bytes for pixel `p` of a
/// YUV image.
pub open spec fn sample(yuv: Seq<u8>, width: int, height: int, p: int) -> (u8, u8, u8) {
    (
        yuv[p],
        yuv[width * height + chroma_index(p, width)],
        yuv[width * height + (width * height) / 4 + chroma_index(p, width)],
    )
}

/// The red, green and blue of pixel `p` of a YUV image.
pub open spec fn rgb_of(yuv: Seq<u8>, width: int, height: int, p: int) -> (u8, u8, u8) {
    let s = sample(yuv, width, height, p);
    (red_of(s.0, s.1, s.2), green_of(s.0, s.1, s.2), blue_of(s.0, s.1, s.2))
}

/// The 16-bit pixel for pixel `p` of a YUV image.
pub open spec fn rgb565_of(yuv: Seq<u8>, width: int, height: int, p: int) -> u16 {
    let c = rgb_of(yuv, width, height, p);
    rgb565(c.0, c.1, c.2)
}

/// The luma of pixel `p` of a packed RGB image.
pub open spec fn luma_at(rgb: Seq<u8>, p: int) -> u8 {
    luma(rgb[3 * p], rgb[3 * p + 1], rgb[3 * p + 2])
}

/// The blue-difference chroma of pixel `p` of a packed RGB image.
pub open spec fn chroma_blue_at(rgb: Seq<u8>, p: int) -> u8 {
    chroma_blue(rgb[3 * p], rgb[3 * p + 1], rgb[3 * p + 2])
}

/// The red-difference chroma of pixel `p` of a packed RGB image.
pub open spec fn chroma_red_at(rgb: Seq<u8>, p: int) -> u8 {
    chroma_red(rgb[3 * p], rgb[3 * p + 1], rgb[3 * p + 2])
}

/// Holds a number to the range of a byte.
pub fn clamp_u8(x: i32) -> (c: u8)
    ensures
        c == clamp(x as int),
{
    if x > 255 {
        255
    } else if x < 0 {
        0
    } else {
        x as u8
    }
}

/// The luma of a colour.
fn luma_of(r: u8, g: u8, b: u8) -> (y: u8)
    ensures
        y == luma(r, g, b),
{
    let r: i32 = r as i32;
    let g: i32 = g as i32;
    let b: i32 = b as i32;
    clamp_u8((66 * r + 129 * g + 25 * b + 128) / 256 + 16)
}

/// The blue-difference chroma of a colour.
fn chroma_blue_of(r: u8, g: u8, b: u8) -> (u: u8)
    ensures
        u == chroma_blue(r, g, b),
{
    let r: i32 = r as i32;
    let g: i32 = g as i32;
    let b: i32 = b as i32;
    clamp_u8((112 * b + 128 + 32768 - 38 * r - 74 * g) / 256)
}

/// The red-difference chroma of a colour.
fn chroma_red_of(r: u8, g: u8, b: u8) -> (v: u8)
    ensures
        v == chroma_red(r, g, b),
{
    let r: i32 = r as i32;
    let g: i32 = g as i32;
    let b: i32 = b as i32;
    clamp_u8((112 * r + 128 + 32768 - 94 * g - 18 * b) / 256)
}

/// The red, green and blue of a YUV sample.
fn to_rgb(y: u8, u: u8, v: u8) -> (c: (u8, u8, u8))
    ensures
        c == (red_of(y, u, v), green_of(y, u, v), blue_of(y, u, v)),
{
    let c: i32 = y as i32 - 16;
    let d: i32 = u as i32 - 128;
    let e: i32 = v as i32 - 128;
    let rt: i32 = (298 * c + 408 * e + 128 + 131072) / 256 - 512;
    let gt: i32 = (298 * c - 100 * d - 208 * e + 128 + 131072) / 256 - 512;
    let bt: i32 = (298 * c + 516 * d + 128 + 131072) / 256 - 512;
    (clamp_u8(rt), clamp_u8(gt), clamp_u8(bt))
}

/// Where the planes of an image lie, and that a pixel's chroma lies in
/// them.
proof fn lemma_planes(width: int, height: int, line: int, col: int)
    requires
        width > 0,
        height > 0,
        width % 2 == 0,
        height % 2 == 0,
        0 <= line < height,
        0 <= col < width,
    ensures
        (line * width + col) / width == line,
        (line * width + col) % width == col,
        0 <= line * width + col < width * height,
        (width * height) / 4 == (height / 2) * (width / 2),
        (width * height) % 4 == 0,
        0 <= chroma_index(line * width + col, width) < (width * height) / 4,
        chroma_index(line * width + col, width) == (line / 2) * (width / 2) + col / 2,
{
    vstd::arithmetic::div_mod::lemma_fundamental_div_mod_converse(
        line * width + col,
        width,
        line,
        col,
    );
    let hw = width / 2;
    let hh = height / 2;
    assert(width == 2 * hw && height == 2 * hh);
    assert(width * height == 4 * (hh * hw)) by (nonlinear_arith)
        requires
            width == 2 * hw,
            height == 2 * hh,
    ;
    assert(0 <= line * width && line * width + width <= width * height) by (nonlinear_arith)
        requires
            0 <= line < height,
            width > 0,
    ;
    let r = line / 2;
    let c = col / 2;
    assert(0 <= r * hw && r * hw + hw <= hh * hw) by (nonlinear_arith)
        requires
            0 <= r < hh,
            hw > 0,
    ;
}

/// Square `j` of the chroma planes and its top left pixel.
proof fn lemma_square(width: int, r: int, c: int)
    requires
        width > 0,
        width % 2 == 0,
        0 <= r,
        0 <= c < width / 2,
    ensures
        chroma_source(r * (width / 2) + c, width) == (2 * r) * width + 2 * c,
{
    let hw = width / 2;
    vstd::arithmetic::div_mod::lemma_fundamental_div_mod_converse(r * hw + c, hw, r, c);
}

/// Writes the YUV 4:2:0 planes of a packed RGB image to the front of
/// `destination`: the luma of every pixel, and for every square of two by
/// two pixels the chroma of its top left pixel. What lies behind the three
/// planes stays.
pub fn rgb_to_yuv420p(destination: &mut [u8], rgb: &[u8], width: usize, height: usize)
    requires
        width % 2 == 0,
        height % 2 == 0,
        3 * (width * height) <= rgb@.len(),
        width * height + (width * height) / 2 <= old(destination)@.len(),
    ensures
        final(destination)@.len() == old(destination)@.len(),
        forall|p: int|
            0 <= p < width * height ==> #[trigger] final(destination)@[p] == luma_at(rgb@, p),
        forall|j: int|
            0 <= j < (width * height) / 4 ==> final(destination)@[width * height + j]
                == chroma_blue_at(rgb@, #[trigger] chroma_source(j, width as int)) && final(destination)@[width * height + (width * height) / 4 + j] == chroma_red_at(
                rgb@,
                chroma_source(j, width as int),
            ),
        forall|q: int|
            width * height + (width * height) / 2 <= q < old(destination)@.len() ==> final(destination)@[q] == old(destination)@[q],
{
    let rgb_len: usize = rgb.len();
    let dest_len: usize = destination.len();
    if width == 0 || height == 0 {
        assert(width * height == 0) by (nonlinear_arith)
            requires
                width == 0 || height == 0,
        ;
        return ;
    }
    let image_size: usize = width * height;
    let half_width: usize = width / 2;
    let ghost orig = destination@;
    let ghost w = width as int;
    let ghost h = height as int;
    let ghost size = w * h;
    proof {
        lemma_planes(w, h, 0, 0);
    }
    let ghost hw = w / 2;
    let mut upos: usize = image_size;
    let mut vpos: usize = upos + upos / 4;
    let mut i: usize = 0;
    let mut line: usize = 0;
    let ghost mut squares: int = 0;
    while line < height
        invariant
            line <= height,
            w == width,
            h == height,
            size == w * h,
            size == image_size,
            half_width == hw,
            hw == w / 2,
            w > 0,
            h > 0,
            w % 2 == 0,
            h % 2 == 0,
            size / 4 == (h / 2) * hw,
            size % 4 == 0,
            3 * size <= rgb@.len() == rgb_len,
            size + size / 2 <= orig.len() == dest_len,
            destination@.len() == orig.len(),
            i == line * w,
            squares == (line + 1) / 2,
            upos == size + squares * hw,
            vpos == upos + size / 4,
            forall|p: int| 0 <= p < i ==> #[trigger] destination@[p] == luma_at(rgb@, p),
            forall|j: int|
                0 <= j < upos - size ==> destination@[size + j] == chroma_blue_at(
                    rgb@,
                    #[trigger] chroma_source(j, w),
                ) && destination@[size + size / 4 + j] == chroma_red_at(rgb@, chroma_source(j, w)),
            forall|q: int| size + size / 2 <= q < orig.len() ==> destination@[q] == orig[q],
        decreases height - line,
    {
        let ghost row_start = i as int;
        let ghost ubase = upos as int;
        proof {
            assert((line + 1) * w == line * w + w && 0 <= line * w && (line + 1) * w <= h * w)
                by (nonlinear_arith)
                requires
                    0 <= line < h,
                    w > 0,
            ;
            assert(h * w == w * h) by (nonlinear_arith);
            assert((squares + 1) * hw == squares * hw + hw && 0 <= squares * hw) by (nonlinear_arith)
                requires
                    squares >= 0,
                    hw >= 0,
            ;
            assert(squares * hw <= (h / 2) * hw) by (nonlinear_arith)
                requires
                    squares <= h / 2,
                    hw >= 0,
            ;
            if line % 2 == 0 {
                assert(squares == line / 2);
                assert((squares + 1) * hw <= (h / 2) * hw) by (nonlinear_arith)
                    requires
                        squares + 1 <= h / 2,
                        hw >= 0,
                ;
            }
        }
        if line % 2 == 0 {
            let mut pair: usize = 0;
            while pair < half_width
                invariant
                    pair <= half_width,
                    line % 2 == 0,
                    squares == line / 2,
                    squares >= 0,
                    w == width,
                    half_width == hw,
                    hw == w / 2,
                    w > 0,
                    w % 2 == 0,
                    size == image_size,
                    row_start == line * w,
                    row_start >= 0,
                    row_start + w <= size,
                    ubase == size + squares * hw,
                    ubase + hw <= size + size / 4,
                    size % 4 == 0,
                    size >= 0,
                    3 * size <= rgb@.len() == rgb_len,
                    size + size / 2 <= orig.len() == dest_len,
                    destination@.len() == orig.len(),
                    i == row_start + 2 * pair,
                    upos == ubase + pair,
                    vpos == upos + size / 4,
                    forall|p: int| 0 <= p < i ==> #[trigger] destination@[p] == luma_at(rgb@, p),
                    forall|j: int|
                        0 <= j < upos - size ==> destination@[size + j] == chroma_blue_at(
                            rgb@,
                            #[trigger] chroma_source(j, w),
                        ) && destination@[size + size / 4 + j] == chroma_red_at(
                            rgb@,
                            chroma_source(j, w),
                        ),
                    forall|q: int| size + size / 2 <= q < orig.len() ==> destination@[q] == orig[q],
                decreases half_width - pair,
            {
                proof {
                    lemma_square(w, squares, pair as int);
                    assert((2 * squares) * w == line * w) by (nonlinear_arith)
                        requires
                            2 * squares == line,
                    ;
                }
                let ghost first = i as int;
                let ghost square = upos - size;
                let yt: u8 = luma_of(rgb[3 * i], rgb[3 * i + 1], rgb[3 * i + 2]);
                let ut: u8 = chroma_blue_of(rgb[3 * i], rgb[3 * i + 1], rgb[3 * i + 2]);
                let vt: u8 = chroma_red_of(rgb[3 * i], rgb[3 * i + 1], rgb[3 * i + 2]);
                destination[i] = yt;
                i += 1;
                destination[upos] = ut;
                upos += 1;
                destination[vpos] = vt;
                vpos += 1;
                let yt2: u8 = luma_of(rgb[3 * i], rgb[3 * i + 1], rgb[3 * i + 2]);
                destination[i] = yt2;
                i += 1;
                pair += 1;
                proof {
                    assert(chroma_source(square, w) == first);
                }
            }
            proof {
                squares = squares + 1;
            }
        } else {
            let mut col: usize = 0;
            while col < width
                invariant
                    col <= width,
                    w == width,
                    size == image_size,
                    row_start >= 0,
                    row_start + w <= size,
                    size % 4 == 0,
                    size >= 0,
                    upos >= size,
                    upos - size <= size / 4,
                    3 * size <= rgb@.len() == rgb_len,
                    size + size / 2 <= orig.len() == dest_len,
                    destination@.len() == orig.len(),
                    i == row_start + col,
                    forall|p: int| 0 <= p < i ==> #[trigger] destination@[p] == luma_at(rgb@, p),
                    forall|j: int|
                        0 <= j < upos - size ==> destination@[size + j] == chroma_blue_at(
                            rgb@,
                            #[trigger] chroma_source(j, w),
                        ) && destination@[size + size / 4 + j] == chroma_red_at(
                            rgb@,
                            chroma_source(j, w),
                        ),
                    forall|q: int| size + size / 2 <= q < orig.len() ==> destination@[q] == orig[q],
                decreases width - col,
            {
                let yt: u8 = luma_of(rgb[3 * i], rgb[3 * i + 1], rgb[3 * i + 2]);
                destination[i] = yt;
                i += 1;
                col += 1;
            }
        }
        line += 1;
    }
    proof {
        assert(h * w == w * h) by (nonlinear_arith);
    }
}

/// Reads the luma and chroma bytes for the pixel in column `col` of line
/// `line`.
fn sample_at(yuv: &[u8], width: usize, height: usize, line: usize, col: usize) -> (s: (u8, u8, u8))
    requires
        width > 0,
        height > 0,
        width % 2 == 0,
        height % 2 == 0,
        line < height,
        col < width,
        width * height + (width * height) / 2 <= yuv@.len(),
    ensures
        s == sample(yuv@, width as int, height as int, line * width + col),
{
    let len: usize = yuv.len();
    proof {
        lemma_planes(width as int, height as int, line as int, col as int);
        assert(0 <= (line / 2) * (width / 2)) by (nonlinear_arith)
            requires
                line >= 0,
                width >= 0,
        ;
    }
    let image_size: usize = width * height;
    let y: u8 = yuv[line * width + col];
    let u: u8 = yuv[(line / 2) * (width / 2) + (col / 2) + image_size];
    let v: u8 = yuv[(line / 2) * (width / 2) + (col / 2) + image_size + (image_size / 4)];
    (y, u, v)
}

/// Writes the packed RGB image of a YUV 4:2:0 image to the front of
/// `destination`, three bytes a pixel. What lies behind stays.
pub fn yuv_420p_to_rgb(destination: &mut [u8], yuv: &[u8], width: usize, height: usize)
    requires
        width % 2 == 0,
        height % 2 == 0,
        width * height + (width * height) / 2 <= yuv@.len(),
        3 * (width * height) <= old(destination)@.len(),
    ensures
        final(destination)@.len() == old(destination)@.len(),
        forall|p: int|
            0 <= p < width * height ==> #[trigger] rgb_of(yuv@, width as int, height as int, p) == (
                final(destination)@[3 * p],
                final(destination)@[3 * p + 1],
                final(destination)@[3 * p + 2],
            ),
        forall|q: int|
            3 * (width * height) <= q < old(destination)@.len() ==> final(destination)@[q] == old(destination)@[q],
{
    let dest_len: usize = destination.len();
    if width == 0 || height == 0 {
        assert(width * height == 0) by (nonlinear_arith)
            requires
                width == 0 || height == 0,
        ;
        return ;
    }
    let ghost orig = destination@;
    let ghost w = width as int;
    let ghost h = height as int;
    let ghost size = w * h;
    let mut i: usize = 0;
    let mut line: usize = 0;
    while line < height
        invariant
            line <= height,
            w == width,
            h == height,
            size == w * h,
            w > 0,
            h > 0,
            w % 2 == 0,
            h % 2 == 0,
            size + size / 2 <= yuv@.len(),
            3 * size <= orig.len() == dest_len,
            destination@.len() == orig.len(),
            i == 3 * (line * w),
            forall|p: int|
                0 <= p < line * w ==> #[trigger] rgb_of(yuv@, w, h, p) == (
                    destination@[3 * p],
                    destination@[3 * p + 1],
                    destination@[3 * p + 2],
                ),
            forall|q: int| 3 * size <= q < orig.len() ==> destination@[q] == orig[q],
        decreases height - line,
    {
        proof {
            lemma_planes(w, h, line as int, 0);
            assert((line + 1) * w == line * w + w) by (nonlinear_arith);
        }
        let mut col: usize = 0;
        while col < width
            invariant
                col <= width,
                line < height,
                w == width,
                h == height,
                size == w * h,
                w > 0,
                h > 0,
                w % 2 == 0,
                h % 2 == 0,
                size + size / 2 <= yuv@.len(),
                3 * size <= orig.len() == dest_len,
                destination@.len() == orig.len(),
                i == 3 * (line * w + col),
                forall|p: int|
                    0 <= p < line * w + col ==> #[trigger] rgb_of(yuv@, w, h, p) == (
                        destination@[3 * p],
                        destination@[3 * p + 1],
                        destination@[3 * p + 2],
                    ),
                forall|q: int| 3 * size <= q < orig.len() ==> destination@[q] == orig[q],
            decreases width - col,
        {
            proof {
                lemma_planes(w, h, line as int, col as int);
            }
            let s: (u8, u8, u8) = sample_at(yuv, width, height, line, col);
            let c: (u8, u8, u8) = to_rgb(s.0, s.1, s.2);
            destination[i] = c.0;
            i += 1;
            destination[i] = c.1;
            i += 1;
            destination[i] = c.2;
            i += 1;
            col += 1;
        }
        line += 1;
    }
    proof {
        assert(h * w == w * h) by (nonlinear_arith);
    }
}

/// Writes the 16-bit pixels of a YUV 4:2:0 image to the front of
/// `destination`, two bytes a pixel, least significant byte first. What
/// lies behind stays.
pub fn yuv_420p_to_rgb565(destination: &mut [u8], yuv: &[u8], width: usize, height: usize)
    requires
        width % 2 == 0,
        height % 2 == 0,
        width * height + (width * height) / 2 <= yuv@.len(),
        2 * (width * height) <= old(destination)@.len(),
    ensures
        final(destination)@.len() == old(destination)@.len(),
        forall|p: int|
            0 <= p < width * height ==> (#[trigger] rgb565_of(yuv@, width as int, height as int, p))
                % 256 == final(destination)@[2 * p] && rgb565_of(
                yuv@,
                width as int,
                height as int,
                p,
            ) / 256 == final(destination)@[2 * p + 1],
        forall|q: int|
            2 * (width * height) <= q < old(destination)@.len() ==> final(destination)@[q] == old(destination)@[q],
{
    let dest_len: usize = destination.len();
    if width == 0 || height == 0 {
        assert(width * height == 0) by (nonlinear_arith)
            requires
                width == 0 || height == 0,
        ;
        return ;
    }
    let ghost orig = destination@;
    let ghost w = width as int;
    let ghost h = height as int;
    let ghost size = w * h;
    let mut line: usize = 0;
    while line < height
        invariant
            line <= height,
            w == width,
            h == height,
            size == w * h,
            w > 0,
            h > 0,
            w % 2 == 0,
            h % 2 == 0,
            size + size / 2 <= yuv@.len(),
            2 * size <= orig.len() == dest_len,
            destination@.len() == orig.len(),
            forall|p: int|
                0 <= p < line * w ==> (#[trigger] rgb565_of(yuv@, w, h, p)) % 256
                    == destination@[2 * p] && rgb565_of(yuv@, w, h, p) / 256 == destination@[2 * p
                    + 1],
            forall|q: int| 2 * size <= q < orig.len() ==> destination@[q] == orig[q],
        decreases height - line,
    {
        proof {
            lemma_planes(w, h, line as int, 0);
            assert((line + 1) * w == line * w + w) by (nonlinear_arith);
        }
        let mut col: usize = 0;
        while col < width
            invariant
                col <= width,
                line < height,
                w == width,
                h == height,
                size == w * h,
                w > 0,
                h > 0,
                w % 2 == 0,
                h % 2 == 0,
                size + size / 2 <= yuv@.len(),
                2 * size <= orig.len() == dest_len,
                destination@.len() == orig.len(),
                forall|p: int|
                    0 <= p < line * w + col ==> (#[trigger] rgb565_of(yuv@, w, h, p)) % 256
                        == destination@[2 * p] && rgb565_of(yuv@, w, h, p) / 256
                        == destination@[2 * p + 1],
                forall|q: int| 2 * size <= q < orig.len() ==> destination@[q] == orig[q],
            decreases width - col,
        {
            proof {
                lemma_planes(w, h, line as int, col as int);
            }
            let s: (u8, u8, u8) = sample_at(yuv, width, height, line, col);
            let c: (u8, u8, u8) = to_rgb(s.0, s.1, s.2);
            let pixel: Rgb565Pixel = Rgb565Pixel::from_rgb(c.0, c.1, c.2);
            let i: usize = line * width + col;
            destination[i * 2] = (pixel.0 % 256) as u8;
            destination[i * 2 + 1] = (pixel.0 / 256) as u8;
            col += 1;
        }
        line += 1;
    }
    proof {
        assert(h * w == w * h) by (nonlinear_arith);
    }
}

} // verus!
