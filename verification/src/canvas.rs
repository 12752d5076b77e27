//! A drawing surface over a borrowed pixel buffer, row after row, and the
//! row-wise copy that puts an image on it.

use vstd::prelude::*;

verus! {

/// How the rows of an image are turned while they are drawn.
#[derive(Clone, Copy, Debug, PartialEq, Eq, Structural)]
pub enum Flip {
    /// As stored.
    Upright,
    /// Every row back to front.
    Horizontal,
    /// The last row first.
    Vertical,
}

/// The number of whole rows in an image `width` wide.
pub open spec fn row_count(image: Seq<u16>, width: int) -> nat {
    (image.len() as int / width) as nat
}

/// The image is made of whole rows `width` wide.
pub open spec fn whole_rows(image: Seq<u16>, width: int) -> bool {
    width > 0 && image.len() as int % width == 0
}

/// Row `k` of an image `width` wide, as it is drawn under `flip`.
pub open spec fn drawn_row(image: Seq<u16>, width: int, k: int, flip: Flip) -> Seq<u16> {
    let rows = row_count(image, width) as int;
    match flip {
        Flip::Upright => image.subrange(k * width, (k + 1) * width),
        Flip::Horizontal => image.subrange(k * width, (k + 1) * width).reverse(),
        Flip::Vertical => image.subrange((rows - 1 - k) * width, (rows - k) * width),
    }
}

/// The buffer with `row` written from index `begin` on. What would fall
/// behind the end of the buffer is left out.
pub open spec fn put_row(buf: Seq<u16>, begin: int, row: Seq<u16>) -> Seq<u16> {
    Seq::new(
        buf.len(),
        |p: int|
            if begin <= p < begin + row.len() {
                row[p - begin]
            } else {
                buf[p]
            },
    )
}

/// The buffer after the first `n` rows of an image were drawn, the first at
/// index `begin` and each next one `stride` further on.
pub open spec fn drawn(
    buf: Seq<u16>,
    stride: int,
    begin: int,
    image: Seq<u16>,
    width: int,
    flip: Flip,
    n: nat,
) -> Seq<u16>
    decreases n,
{
    if n == 0 {
        buf
    } else {
        put_row(
            drawn(buf, stride, begin, image, width, flip, (n - 1) as nat),
            begin + (n - 1) * stride,
            drawn_row(image, width, n - 1, flip),
        )
    }
}

/// The buffer with every pixel set to `color`.
pub open spec fn filled(buf: Seq<u16>, color: u16) -> Seq<u16> {
    Seq::new(buf.len(), |p: int| color)
}

/// A whole number of rows is exactly the image.
proof fn lemma_rows(len: int, width: int)
    requires
        width > 0,
        len >= 0,
        len % width == 0,
    ensures
        (len / width) * width == len,
        len / width >= 0,
{
    vstd::arithmetic::div_mod::lemma_fundamental_div_mod(len, width);
    vstd::arithmetic::div_mod::lemma_div_pos_is_pos(len, width);
    assert((len / width) * width == width * (len / width)) by (nonlinear_arith);
}

/// Row `k` lies inside the image.
proof fn lemma_row_bounds(rows: int, width: int, k: int)
    requires
        width > 0,
        0 <= k < rows,
    ensures
        0 <= k * width,
        (k + 1) * width <= rows * width,
        (k + 1) * width == k * width + width,
{
    assert(0 <= k * width) by (nonlinear_arith)
        requires
            width > 0,
            0 <= k,
    ;
    assert((k + 1) * width <= rows * width) by (nonlinear_arith)
        requires
            width > 0,
            k + 1 <= rows,
    ;
    assert((k + 1) * width == k * width + width) by (nonlinear_arith);
}

/// Fills a buffer with one colour.
pub fn fill(buf: &mut [u16], color: u16)
    ensures
        final(buf)@ == filled(old(buf)@, color),
{
    let n: usize = buf.len();
    let mut i: usize = 0;
    while i < n
        invariant
            i <= n,
            buf@.len() == n,
            n == old(buf)@.len(),
            forall|p: int| 0 <= p < i ==> buf@[p] == color,
        decreases n - i,
    {
        buf[i] = color;
        i += 1;
    }
    assert(buf@ =~= filled(old(buf)@, color));
}

/// Draws an image of rows `width` wide into a buffer of rows `stride` wide,
/// its first pixel at column `x` of row `y`. Rows are copied as runs of the
/// buffer: one that is longer than what is left of its buffer row runs on
/// into the next, and nothing is written behind the end of the buffer.
pub fn blit(
    buf: &mut [u16],
    stride: usize,
    x: usize,
    y: usize,
    image: &[u16],
    width: usize,
    flip: Flip,
)
    requires
        whole_rows(image@, width as int),
        y * stride + x + row_count(image@, width as int) * stride <= usize::MAX,
    ensures
        final(buf)@ == drawn(
            old(buf)@,
            stride as int,
            y * stride + x,
            image@,
            width as int,
            flip,
            row_count(image@, width as int),
        ),
{
    let rows: usize = image.len() / width;
    proof {
        lemma_rows(image@.len() as int, width as int);
        assert(0 <= y * stride) by (nonlinear_arith)
            requires
                0 <= y,
                0 <= stride,
        ;
        assert(0 <= rows * stride) by (nonlinear_arith)
            requires
                0 <= rows,
                0 <= stride,
        ;
    }
    let first: usize = y * stride + x;
    let ghost orig = buf@;
    let mut k: usize = 0;
    while k < rows
        invariant
            k <= rows,
            width > 0,
            rows == row_count(image@, width as int),
            rows * width == image@.len(),
            image@.len() <= usize::MAX,
            first + rows * stride <= usize::MAX,
            first == y * stride + x,
            buf@.len() == orig.len(),
            buf@ == drawn(orig, stride as int, first as int, image@, width as int, flip, k as nat),
        decreases rows - k,
    {
        proof {
            lemma_row_bounds(rows as int, width as int, k as int);
            lemma_row_bounds(rows as int, width as int, rows - 1 - k);
            assert(k * stride <= rows * stride) by (nonlinear_arith)
                requires
                    k <= rows,
                    0 <= stride,
            ;
            assert(0 <= k * stride) by (nonlinear_arith)
                requires
                    0 <= k,
                    0 <= stride,
            ;
        }
        let begin: usize = first + k * stride;
        assert(k * width + width <= image@.len());
        assert((rows - 1 - k) * width + width <= image@.len());
        let source: usize = match flip {
            Flip::Vertical => (rows - 1 - k) * width,
            _ => k * width,
        };
        let ghost before = buf@;
        let ghost row = drawn_row(image@, width as int, k as int, flip);
        assert(row.len() == width);
        assert forall|j: int| 0 <= j < width implies #[trigger] row[j] == image@[if flip
            == Flip::Horizontal {
            source + width - 1 - j
        } else {
            source + j
        }] by {
            assert((rows - 1 - k) * width + width == (rows - k) * width) by (nonlinear_arith);
        }
        let mut c: usize = 0;
        while c < width && c < buf.len() - min_usize(begin, buf.len())
            invariant
                c <= width,
                row.len() == width,
                forall|j: int|
                    0 <= j < width ==> #[trigger] row[j] == image@[if flip == Flip::Horizontal {
                        source + width - 1 - j
                    } else {
                        source + j
                    }],
                source + width <= image@.len(),
                image@.len() <= usize::MAX,
                buf@.len() == before.len(),
                begin + c <= buf@.len() || c == 0,
                buf@ == put_row(before, begin as int, row.subrange(0, c as int)),
            decreases width - c,
        {
            let v: u16 = match flip {
                Flip::Horizontal => image[source + (width - 1 - c)],
                _ => image[source + c],
            };
            buf[begin + c] = v;
            c += 1;
            assert(buf@ =~= put_row(before, begin as int, row.subrange(0, c as int)));
        }
        assert(buf@ =~= put_row(before, begin as int, row));
        k += 1;
    }
}

/// The smaller of two numbers.
fn min_usize(a: usize, b: usize) -> (m: usize)
    ensures
        m == if a <= b { a } else { b },
{
    if a <= b {
        a
    } else {
        b
    }
}

/// A drawing surface over a borrowed buffer of `width` pixels a row.
pub struct Canvas<'a> {
    pub buf: &'a mut [u16],
    pub width: usize,
    pub height: usize,
}

impl<'a> Canvas<'a> {
    /// Sets every pixel to `color`.
    pub fn clear(&mut self, color: u16)
        ensures
            final(self).buf@ == filled(old(self).buf@, color),
            final(self).width == old(self).width,
            final(self).height == old(self).height,
    {
        fill(self.buf, color);
    }

    /// Draws an image of rows `image_width` wide with its first pixel at
    /// column `x` of row `y`.
    pub fn draw_image(&mut self, x: usize, y: usize, image: &[u16], image_width: usize)
        requires
            whole_rows(image@, image_width as int),
            y * old(self).width + x + row_count(image@, image_width as int) * old(self).width
                <= usize::MAX,
        ensures
            final(self).buf@ == drawn(
                old(self).buf@,
                old(self).width as int,
                y * old(self).width + x,
                image@,
                image_width as int,
                Flip::Upright,
                row_count(image@, image_width as int),
            ),
            final(self).width == old(self).width,
            final(self).height == old(self).height,
    {
        blit(self.buf, self.width, x, y, image, image_width, Flip::Upright);
    }

    /// Draws an image upside down: its last row first.
    pub fn draw_image_flip_y(&mut self, x: usize, y: usize, image: &[u16], image_width: usize)
        requires
            whole_rows(image@, image_width as int),
            y * old(self).width + x + row_count(image@, image_width as int) * old(self).width
                <= usize::MAX,
        ensures
            final(self).buf@ == drawn(
                old(self).buf@,
                old(self).width as int,
                y * old(self).width + x,
                image@,
                image_width as int,
                Flip::Vertical,
                row_count(image@, image_width as int),
            ),
            final(self).width == old(self).width,
            final(self).height == old(self).height,
    {
        blit(self.buf, self.width, x, y, image, image_width, Flip::Vertical);
    }

    /// Draws an image mirrored: every row back to front.
    pub fn draw_image_flip_x(&mut self, x: usize, y: usize, image: &[u16], image_width: usize)
        requires
            whole_rows(image@, image_width as int),
            y * old(self).width + x + row_count(image@, image_width as int) * old(self).width
                <= usize::MAX,
        ensures
            final(self).buf@ == drawn(
                old(self).buf@,
                old(self).width as int,
                y * old(self).width + x,
                image@,
                image_width as int,
                Flip::Horizontal,
                row_count(image@, image_width as int),
            ),
            final(self).width == old(self).width,
            final(self).height == old(self).height,
    {
        blit(self.buf, self.width, x, y, image, image_width, Flip::Horizontal);
    }

    /// Draws an image whose every row starts inside the buffer.
    pub fn draw_image_at(&mut self, x: usize, y: usize, image: &[u16], image_width: usize)
        requires
            whole_rows(image@, image_width as int),
            y * old(self).width + x + row_count(image@, image_width as int) * old(self).width
                <= usize::MAX,
            image@.len() > 0 ==> y * old(self).width + x + (row_count(image@, image_width as int)
                - 1) * old(self).width <= old(self).buf@.len(),
        ensures
            final(self).buf@ == drawn(
                old(self).buf@,
                old(self).width as int,
                y * old(self).width + x,
                image@,
                image_width as int,
                Flip::Upright,
                row_count(image@, image_width as int),
            ),
            final(self).width == old(self).width,
            final(self).height == old(self).height,
    {
        blit(self.buf, self.width, x, y, image, image_width, Flip::Upright);
    }
}

} // verus!
