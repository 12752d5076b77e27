//! The addressable area of a panel, and how an image placed on it is cut to
//! what lies inside: at the right and bottom edges, never at the left or top.

use vstd::prelude::*;
use crate::protocol::FrameHeader;

verus! {

/// The addressable area of a panel, in pixels.
#[derive(Clone, Copy, Debug, PartialEq, Eq, Structural)]
pub struct Panel {
    pub width: u16,
    pub height: u16,
}

/// A rectangle of the panel, by its first and last column and row.
#[derive(Clone, Copy, Debug, PartialEq, Eq, Structural)]
pub struct Window {
    pub x0: u16,
    pub y0: u16,
    pub x1: u16,
    pub y1: u16,
}

/// The part of an image that is drawn: a window of the panel, and the bytes
/// of the image's rows that go into it.
#[derive(Clone, Copy, Debug, PartialEq, Eq, Structural)]
pub struct Clip {
    /// Where the pixels go.
    pub window: Window,
    /// The number of rows drawn.
    pub rows: u16,
    /// The bytes drawn of each row.
    pub row_bytes: usize,
    /// The bytes from the start of one row of the image to the next.
    pub stride: usize,
}

/// Of `extent` pixels from `origin` on, the number that lie before `limit`.
pub open spec fn visible(origin: int, extent: int, limit: int) -> int {
    if origin >= limit {
        0
    } else if extent <= limit - origin {
        extent
    } else {
        limit - origin
    }
}

/// The rows of `width` two-byte pixels that `len` bytes hold in full, at
/// most `height`.
pub open spec fn rows_present(len: int, width: int, height: int) -> int {
    if width == 0 {
        0
    } else if len / (2 * width) < height {
        len / (2 * width)
    } else {
        height
    }
}

/// Whether the window lies on the panel.
pub open spec fn inside(panel: Panel, w: Window) -> bool {
    w.x0 <= w.x1 < panel.width && w.y0 <= w.y1 < panel.height
}

/// The number of pixels in a window.
pub open spec fn area(w: Window) -> int {
    (w.x1 - w.x0 + 1) * (w.y1 - w.y0 + 1)
}

/// The part of an image of `len` bytes that is drawn when it is placed as
/// `header` says, if any of it is.
pub open spec fn clipped(panel: Panel, len: int, header: FrameHeader) -> Option<Clip> {
    let columns = visible(header.x as int, header.width as int, panel.width as int);
    let present = rows_present(len, header.width as int, header.height as int);
    let rows = visible(header.y as int, present, panel.height as int);
    if columns == 0 || rows == 0 {
        None
    } else {
        Some(
            Clip {
                window: Window {
                    x0: header.x,
                    y0: header.y,
                    x1: (header.x + columns - 1) as u16,
                    y1: (header.y + rows - 1) as u16,
                },
                rows: rows as u16,
                row_bytes: (2 * columns) as usize,
                stride: (2 * header.width) as usize,
            },
        )
    }
}

/// The part of a rectangle that lies on the panel, if any does.
pub open spec fn rect_on_panel(panel: Panel, header: FrameHeader) -> Option<Window> {
    let columns = visible(header.x as int, header.width as int, panel.width as int);
    let rows = visible(header.y as int, header.height as int, panel.height as int);
    if columns == 0 || rows == 0 {
        None
    } else {
        Some(
            Window {
                x0: header.x,
                y0: header.y,
                x1: (header.x + columns - 1) as u16,
                y1: (header.y + rows - 1) as u16,
            },
        )
    }
}

/// The bytes that are drawn of row `r`.
pub open spec fn clip_row(image: Seq<u8>, clip: Clip, r: int) -> Seq<u8> {
    image.subrange(r * clip.stride, r * clip.stride + clip.row_bytes)
}

/// Whether every row of the clip lies within the image.
pub open spec fn fits(clip: Clip, len: int) -> bool {
    clip.row_bytes <= clip.stride && clip.rows * clip.stride <= len
}

/// Of `extent` pixels from `origin` on, counts those before `limit`.
fn visible_part(origin: u16, extent: u16, limit: u16) -> (n: u16)
    ensures
        n == visible(origin as int, extent as int, limit as int),
{
    if origin >= limit {
        0
    } else if extent <= limit - origin {
        extent
    } else {
        limit - origin
    }
}

/// Cuts a rectangle to the panel. Nothing is left of one that lies wholly
/// to the right of the panel or below it, or that is empty.
pub fn clip_rect(panel: Panel, header: FrameHeader) -> (r: Option<Window>)
    ensures
        r == rect_on_panel(panel, header),
        r matches Some(w) ==> inside(panel, w) && w.x0 == header.x && w.y0 == header.y,
{
    let columns: u16 = visible_part(header.x, header.width, panel.width);
    let rows: u16 = visible_part(header.y, header.height, panel.height);
    if columns == 0 || rows == 0 {
        None
    } else {
        Some(
            Window {
                x0: header.x,
                y0: header.y,
                x1: header.x + (columns - 1),
                y1: header.y + (rows - 1),
            },
        )
    }
}

/// Cuts an image of `len` bytes, placed as `header` says, to the panel.
/// Nothing is drawn of an image that lies wholly to the right of the panel
/// or below it, or that holds no complete row. What is drawn lies on the
/// panel, is taken from inside the image, and fills its window exactly.
pub fn clip(panel: Panel, len: usize, header: FrameHeader) -> (r: Option<Clip>)
    ensures
        r == clipped(panel, len as int, header),
        r matches Some(c) ==> {
            &&& inside(panel, c.window)
            &&& fits(c, len as int)
            &&& c.rows * c.row_bytes == 2 * area(c.window)
            &&& c.rows <= header.height
            &&& c.row_bytes <= 2 * header.width
        },
{
    let columns: u16 = visible_part(header.x, header.width, panel.width);
    if columns == 0 {
        return None;
    }
    let stride: usize = 2 * (header.width as usize);
    let full: usize = len / stride;
    let present: u16 = if full < header.height as usize {
        full as u16
    } else {
        header.height
    };
    let rows: u16 = visible_part(header.y, present, panel.height);
    if rows == 0 {
        return None;
    }
    let window = Window {
        x0: header.x,
        y0: header.y,
        x1: header.x + (columns - 1),
        y1: header.y + (rows - 1),
    };
    proof {
        let s = stride as int;
        let n = len as int;
        vstd::arithmetic::div_mod::lemma_fundamental_div_mod(n, s);
        vstd::arithmetic::div_mod::lemma_mod_bound(n, s);
        assert(rows * s <= full * s) by (nonlinear_arith)
            requires
                rows <= full,
                s > 0,
        ;
        assert(full * s == s * (n / s)) by (nonlinear_arith)
            requires
                full == n / s,
        ;
        assert(rows * (2 * columns) == 2 * (columns * rows)) by (nonlinear_arith);
        assert(area(window) == columns * rows);
    }
    Some(Clip { window, rows, row_bytes: 2 * (columns as usize), stride })
}

/// The bytes to draw of row `r` of an image.
pub fn row_of<'a>(image: &'a [u8], clip: &Clip, r: u16) -> (row: &'a [u8])
    requires
        fits(*clip, image@.len() as int),
        r < clip.rows,
    ensures
        row@ == clip_row(image@, *clip, r as int),
        row@.len() == clip.row_bytes,
{
    proof {
        assert(0 <= r * clip.stride && (r + 1) * clip.stride <= clip.rows * clip.stride && (r + 1)
            * clip.stride == r * clip.stride + clip.stride) by (nonlinear_arith)
            requires
                0 <= r < clip.rows,
                0 <= clip.stride,
        ;
    }
    let len: usize = image.len();
    assert((r + 1) * clip.stride <= len);
    let start: usize = (r as usize) * clip.stride;
    vstd::slice::slice_subrange(image, start, start + clip.row_bytes)
}

/// Nothing is cut from an image that lies wholly on the panel and holds
/// all of its rows: it is drawn as it is, row after row.
pub proof fn lemma_whole_image_unclipped(panel: Panel, len: int, header: FrameHeader)
    requires
        header.width > 0,
        header.height > 0,
        header.x + header.width <= panel.width,
        header.y + header.height <= panel.height,
        len == 2 * header.width * header.height,
    ensures
        clipped(panel, len, header) == Some(
            Clip {
                window: Window {
                    x0: header.x,
                    y0: header.y,
                    x1: (header.x + header.width - 1) as u16,
                    y1: (header.y + header.height - 1) as u16,
                },
                rows: header.height,
                row_bytes: (2 * header.width) as usize,
                stride: (2 * header.width) as usize,
            },
        ),
{
    let s = 2 * header.width as int;
    assert(2 * header.width * header.height == s * header.height) by (nonlinear_arith)
        requires
            s == 2 * header.width,
    ;
    vstd::arithmetic::div_mod::lemma_div_multiples_vanish(header.height as int, s);
    assert(s * header.height == header.height * s) by (nonlinear_arith);
}

/// What is drawn never reaches past the panel's edges, wherever the image
/// is placed and however large it is.
pub proof fn lemma_clip_stays_on_panel(panel: Panel, len: int, header: FrameHeader)
    requires
        0 <= len,
    ensures
        clipped(panel, len, header) matches Some(c) ==> inside(panel, c.window) && c.window.x0
            == header.x && c.window.y0 == header.y && c.window.x1 < header.x + header.width
            && c.window.y1 < header.y + header.height,
        header.x >= panel.width || header.y >= panel.height || header.width == 0 || header.height
            == 0 ==> clipped(panel, len, header) is None,
{
}

} // verus!
