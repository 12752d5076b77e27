//! Which window of the panel a drawing operation fills, and with how many
//! pixels. Rectangles are those of the `embedded-graphics-core` crate,
//! held here as plain numbers.

use vstd::prelude::*;
use embedded_graphics_core::geometry::{Point, Size};
use embedded_graphics_core::primitives::Rectangle;

verus! {

/// Display orientation.
#[derive(Clone, Copy, Debug, PartialEq, Eq, Structural)]
pub enum Orientation {
    Portrait,
    Landscape,
    PortraitSwapped,
    LandscapeSwapped,
}

/// A rectangle by its top left corner and its size.
#[derive(Clone, Copy, Debug, PartialEq, Eq, Structural)]
pub struct Rect {
    pub x: i32,
    pub y: i32,
    pub width: u32,
    pub height: u32,
}

/// A window of the panel by its first and last column and row, and the
/// most pixels that are written into it.
#[derive(Clone, Copy, Debug, PartialEq, Eq, Structural)]
pub struct PixelWrite {
    pub sx: u16,
    pub sy: u16,
    pub ex: u16,
    pub ey: u16,
    pub count: u32,
}

/// The largest coordinate and size that a rectangle may have here.
pub const RECT_LIMIT: i32 = 0x8000;

/// Whether the rectangle is small enough for the arithmetic on it: its
/// corner and size lie within `RECT_LIMIT`.
pub open spec fn bounded(r: Rect) -> bool {
    &&& -RECT_LIMIT <= r.x <= RECT_LIMIT
    &&& -RECT_LIMIT <= r.y <= RECT_LIMIT
    &&& r.width <= RECT_LIMIT
    &&& r.height <= RECT_LIMIT
}

/// Whether the rectangle holds no pixel.
pub open spec fn is_empty(r: Rect) -> bool {
    r.width == 0 || r.height == 0
}

/// The rectangle without position or size.
pub open spec fn zero() -> Rect {
    Rect { x: 0, y: 0, width: 0, height: 0 }
}

/// Whether the point lies in the rectangle.
pub open spec fn contains(r: Rect, px: int, py: int) -> bool {
    !is_empty(r) && r.x <= px < r.x + r.width && r.y <= py < r.y + r.height
}

/// The last column and row of a rectangle that holds a pixel.
pub open spec fn bottom_right(r: Rect) -> Option<(int, int)> {
    if is_empty(r) {
        None
    } else {
        Some((r.x + r.width - 1, r.y + r.height - 1))
    }
}

/// The larger of two numbers.
pub open spec fn larger(a: int, b: int) -> int {
    if a >= b {
        a
    } else {
        b
    }
}

/// The smaller of two numbers.
pub open spec fn smaller(a: int, b: int) -> int {
    if a <= b {
        a
    } else {
        b
    }
}

/// What two rectangles have in common. Of two that hold pixels it is the
/// rectangle of the pixels in both, and `zero()` if there are none. An
/// empty rectangle whose corner lies in the other is itself what they have
/// in common.
pub open spec fn intersection(a: Rect, b: Rect) -> Rect {
    if !is_empty(a) && !is_empty(b) {
        let left = larger(a.x as int, b.x as int);
        let top = larger(a.y as int, b.y as int);
        let right = smaller(a.x + a.width, b.x + b.width);
        let bottom = smaller(a.y + a.height, b.y + b.height);
        if left < right && top < bottom {
            Rect {
                x: left as i32,
                y: top as i32,
                width: (right - left) as u32,
                height: (bottom - top) as u32,
            }
        } else {
            zero()
        }
    } else if is_empty(a) && !is_empty(b) {
        if contains(b, a.x as int, a.y as int) {
            a
        } else {
            zero()
        }
    } else if !is_empty(a) && is_empty(b) {
        if contains(a, b.x as int, b.y as int) {
            b
        } else {
            zero()
        }
    } else {
        zero()
    }
}

/// Calls `embedded_graphics_core::primitives::Rectangle::bottom_right`.
///
/// Taken on trust: a rectangle with a pixel has its last column and row
/// at corner plus size less one, and an empty one has none. The bound
/// keeps the crate's additions in range.
#[verifier::external_body]
fn rect_bottom_right(r: Rect) -> (p: Option<(i32, i32)>)
    requires
        bounded(r),
    ensures
        match p {
            Some(c) => Some((c.0 as int, c.1 as int)) == bottom_right(r),
            None => bottom_right(r) is None,
        },
{
    Rectangle::new(Point::new(r.x, r.y), Size::new(r.width, r.height)).bottom_right().map(
        |p| (p.x, p.y),
    )
}

/// Calls `embedded_graphics_core::primitives::Rectangle::intersection`.
///
/// Taken on trust: the result is what the two rectangles have in common,
/// as `intersection` states it. The bound keeps the crate's additions in
/// range.
#[verifier::external_body]
fn rect_intersection(a: Rect, b: Rect) -> (r: Rect)
    requires
        bounded(a),
        bounded(b),
    ensures
        r == intersection(a, b),
{
    let first = Rectangle::new(Point::new(a.x, a.y), Size::new(a.width, a.height));
    let second = Rectangle::new(Point::new(b.x, b.y), Size::new(b.width, b.height));
    let common = first.intersection(&second);
    Rect {
        x: common.top_left.x,
        y: common.top_left.y,
        width: common.size.width,
        height: common.size.height,
    }
}

/// The size of the whole framebuffer in an orientation.
pub open spec fn framebuffer(orientation: Orientation) -> Rect {
    match orientation {
        Orientation::Portrait | Orientation::PortraitSwapped => Rect {
            x: 0,
            y: 0,
            width: 240,
            height: 320,
        },
        Orientation::Landscape | Orientation::LandscapeSwapped => Rect {
            x: 0,
            y: 0,
            width: 320,
            height: 240,
        },
    }
}

/// A coordinate as the panel takes it: its low 16 bits.
pub open spec fn low16(v: int) -> u16 {
    (v % 0x1_0000) as u16
}

/// The window and pixel count for a rectangle that holds a pixel.
pub open spec fn write_of(area: Rect) -> Option<PixelWrite> {
    match bottom_right(area) {
        Some(corner) => Some(
            PixelWrite {
                sx: low16(area.x as int),
                sy: low16(area.y as int),
                ex: low16(corner.0),
                ey: low16(corner.1),
                count: (area.width * area.height) as u32,
            },
        ),
        None => None,
    }
}

/// Tells whether a rectangle is within `RECT_LIMIT`.
pub fn is_bounded(r: &Rect) -> (b: bool)
    ensures
        b == bounded(*r),
{
    -RECT_LIMIT <= r.x && r.x <= RECT_LIMIT && -RECT_LIMIT <= r.y && r.y <= RECT_LIMIT && r.width
        <= RECT_LIMIT as u32 && r.height <= RECT_LIMIT as u32
}

/// Returns the bounding box for the entire framebuffer.
pub fn framebuffer_bounding_box(orientation: Orientation) -> (r: Rect)
    ensures
        r == framebuffer(orientation),
        bounded(r),
{
    match orientation {
        Orientation::Portrait | Orientation::PortraitSwapped => Rect {
            x: 0,
            y: 0,
            width: 240,
            height: 320,
        },
        Orientation::Landscape | Orientation::LandscapeSwapped => Rect {
            x: 0,
            y: 0,
            width: 320,
            height: 240,
        },
    }
}

/// Reduces a coordinate to its low 16 bits.
fn to_low16(v: i32) -> (c: u16)
    ensures
        c == low16(v as int),
{
    let c: u16 = (v & 0xffff) as u16;
    assert((v & 0xffff) as u16 == (v as int % 0x1_0000) as u16) by (bit_vector);
    c
}

/// The window for the pixels of a rectangle: from its corner to its last
/// column and row, with room for as many pixels as it holds. An empty
/// rectangle has no window.
pub fn fill_contiguous(area: Rect) -> (w: Option<PixelWrite>)
    requires
        bounded(area),
    ensures
        w == write_of(area),
{
    match rect_bottom_right(area) {
        Some(corner) => {
            assert(area.width * area.height <= 0x8000 * 0x8000) by (nonlinear_arith)
                requires
                    area.width <= 0x8000,
                    area.height <= 0x8000,
            ;
            Some(
                PixelWrite {
                    sx: to_low16(area.x),
                    sy: to_low16(area.y),
                    ex: to_low16(corner.0),
                    ey: to_low16(corner.1),
                    count: area.width * area.height,
                },
            )
        },
        None => None,
    }
}

/// The window for a rectangle of one colour: the part of the rectangle
/// that lies in the framebuffer. Where no pixel of it does, there is none.
pub fn fill_solid(orientation: Orientation, area: Rect) -> (w: Option<PixelWrite>)
    requires
        bounded(area),
    ensures
        w == write_of(intersection(area, framebuffer(orientation))),
        w matches Some(p) ==> p.sx <= p.ex < framebuffer(orientation).width && p.sy <= p.ey
            < framebuffer(orientation).height,
{
    let frame: Rect = framebuffer_bounding_box(orientation);
    let common: Rect = rect_intersection(area, frame);
    fill_contiguous(common)
}

/// The window that blanks the whole framebuffer: all of it, with one
/// pixel for each of its 240 by 320.
pub fn clear(orientation: Orientation) -> (w: PixelWrite)
    ensures
        Some(w) == write_of(framebuffer(orientation)),
        w.count == 240 * 320,
{
    match orientation {
        Orientation::Portrait | Orientation::PortraitSwapped => PixelWrite {
            sx: 0,
            sy: 0,
            ex: 239,
            ey: 319,
            count: 240 * 320,
        },
        Orientation::Landscape | Orientation::LandscapeSwapped => PixelWrite {
            sx: 0,
            sy: 0,
            ex: 319,
            ey: 239,
            count: 240 * 320,
        },
    }
}

/// The window of a single pixel.
pub fn draw_pixel(x: i32, y: i32) -> (w: PixelWrite)
    ensures
        w == (PixelWrite {
            sx: low16(x as int),
            sy: low16(y as int),
            ex: low16(x as int),
            ey: low16(y as int),
            count: 1,
        }),
{
    let sx: u16 = to_low16(x);
    let sy: u16 = to_low16(y);
    PixelWrite { sx, sy, ex: sx, ey: sy, count: 1 }
}

} // verus!
