//! Doubling an image: every pixel becomes a square of two by two.

use vstd::prelude::*;

verus! {

/// The index of the pixel in column `col` of row `row`, in rows `width` wide.
pub open spec fn cell(row: int, col: int, width: int) -> int {
    row * width + col
}

/// Cells are numbered row by row.
proof fn lemma_cell_order(r1: int, c1: int, r2: int, width: int)
    requires
        0 <= r1 < r2,
        0 <= c1 < width,
    ensures
        0 <= cell(r1, c1, width) < cell(r2, 0, width),
        cell(r1 + 1, 0, width) == cell(r1, 0, width) + width,
{
    assert(0 <= r1 * width && (r1 + 1) * width <= r2 * width && (r1 + 1) * width == r1 * width
        + width) by (nonlinear_arith)
        requires
            0 <= r1 < r2,
            0 < width,
    ;
}

/// Writes the image doubled in both directions to the front of `output`:
/// the pixel in column `c` of row `r` there is the input's pixel in column
/// `c / 2` of row `r / 2`. What lies behind the doubled image stays.
pub fn magnify_rgb565(input: &[u16], width: usize, height: usize, output: &mut [u16])
    requires
        width * height <= input@.len(),
        4 * width * height <= old(output)@.len(),
        2 * width <= usize::MAX,
    ensures
        final(output)@.len() == old(output)@.len(),
        forall|r: int, c: int|
            0 <= r < 2 * height && 0 <= c < 2 * width ==> #[trigger] final(output)@[cell(
                r,
                c,
                2 * width,
            )] == input@[cell(r / 2, c / 2, width as int)],
        forall|p: int|
            4 * width * height <= p < old(output)@.len() ==> final(output)@[p] == old(output)@[p],
{
    let new_width: usize = width * 2;
    if width == 0 || output.len() == 0 || input.len() == 0 {
        assert(4 * width * height == 0 || width * height == 0 ==> height == 0 || width == 0)
            by (nonlinear_arith);
        return ;
    }
    let ghost orig = output@;
    let ghost w2 = 2 * width as int;
    let mut y: usize = 0;
    while y < height
        invariant
            y <= height,
            width > 0,
            new_width == 2 * width,
            w2 == 2 * width,
            width * height <= input@.len() <= usize::MAX,
            4 * width * height <= orig.len() <= usize::MAX,
            output@.len() == orig.len(),
            forall|r: int, c: int|
                0 <= r < 2 * y && 0 <= c < w2 ==> #[trigger] output@[cell(r, c, w2)] == input@[cell(
                    r / 2,
                    c / 2,
                    width as int,
                )],
            forall|p: int| cell(2 * y, 0, w2) <= p < orig.len() ==> output@[p] == orig[p],
        decreases height - y,
    {
        let ghost t0 = cell(2 * y, 0, w2);
        let ghost t1 = cell(2 * y + 1, 0, w2);
        let ghost t2 = cell(2 * y + 2, 0, w2);
        proof {
            lemma_cell_order(2 * y, 0, 2 * y + 1, w2);
            lemma_cell_order(2 * y + 1, 0, 2 * y + 2, w2);
            lemma_cell_order(y as int, 0, y + 1, width as int);
            assert(2 * y <= (2 * y) * w2) by (nonlinear_arith)
                requires
                    w2 >= 1,
                    y >= 0,
            ;
            assert(t2 <= 4 * width * height && (y + 1) * width <= width * height && t2 == 4 * ((y
                + 1) * width)) by (nonlinear_arith)
                requires
                    t2 == (2 * y + 2) * w2 + 0,
                    w2 == 2 * width,
                    y < height,
            ;
        }
        let mut x: usize = 0;
        while x < width
            invariant
                x <= width,
                y < height,
                width > 0,
                2 * y <= t0,
                new_width == 2 * width,
                w2 == 2 * width,
                width * height <= input@.len() <= usize::MAX,
                4 * width * height <= orig.len() <= usize::MAX,
                output@.len() == orig.len(),
                t0 == cell(2 * y, 0, w2),
                t1 == cell(2 * y + 1, 0, w2),
                t2 == cell(2 * y + 2, 0, w2),
                0 <= t0 && t1 == t0 + w2 && t2 == t1 + w2,
                t2 <= 4 * width * height,
                cell(y as int, 0, width as int) + width == cell(y + 1, 0, width as int),
                0 <= cell(y as int, 0, width as int),
                (y + 1) * width <= width * height,
                forall|r: int, c: int|
                    0 <= r < 2 * y && 0 <= c < w2 ==> #[trigger] output@[cell(r, c, w2)]
                        == input@[cell(r / 2, c / 2, width as int)],
                forall|c: int|
                    0 <= c < 2 * x ==> #[trigger] output@[t0 + c] == input@[cell(
                        y as int,
                        c / 2,
                        width as int,
                    )],
                forall|c: int|
                    0 <= c < 2 * x ==> #[trigger] output@[t1 + c] == input@[cell(
                        y as int,
                        c / 2,
                        width as int,
                    )],
                forall|p: int| t0 + 2 * x <= p < t1 ==> output@[p] == orig[p],
                forall|p: int| t1 + 2 * x <= p < orig.len() ==> output@[p] == orig[p],
            decreases width - x,
        {
            proof {
                assert forall|r: int, c: int| 0 <= r < 2 * y && 0 <= c < w2 implies #[trigger] cell(
                    r,
                    c,
                    w2,
                ) < t0 by {
                    lemma_cell_order(r, c, 2 * y, w2);
                }
                assert(cell(y as int, 0, width as int) == y * width);
                assert(cell(y + 1, 0, width as int) == (y + 1) * width);
                assert(t0 == (2 * y) * new_width);
            }
            let src_index: usize = y * width + x;
            let dst_start_index: usize = (y * 2) * new_width + (x * 2);
            let pixel: u16 = input[src_index];
            let ghost before = output@;
            output[dst_start_index] = pixel;
            output[dst_start_index + 1] = pixel;
            output[dst_start_index + new_width] = pixel;
            output[dst_start_index + new_width + 1] = pixel;
            x += 1;
            proof {
                assert(output@ =~= before.update(t0 + 2 * (x - 1), pixel).update(
                    t0 + 2 * (x - 1) + 1,
                    pixel,
                ).update(t1 + 2 * (x - 1), pixel).update(t1 + 2 * (x - 1) + 1, pixel));
                assert forall|c: int| 0 <= c < 2 * x implies #[trigger] output@[t0 + c]
                    == input@[cell(y as int, c / 2, width as int)] by {
                    if c < 2 * (x - 1) {
                        assert(before[t0 + c] == input@[cell(y as int, c / 2, width as int)]);
                    }
                }
                assert forall|c: int| 0 <= c < 2 * x implies #[trigger] output@[t1 + c]
                    == input@[cell(y as int, c / 2, width as int)] by {
                    if c < 2 * (x - 1) {
                        assert(before[t1 + c] == input@[cell(y as int, c / 2, width as int)]);
                    }
                }
            }
        }
        proof {
            assert forall|r: int, c: int| 0 <= r < 2 * (y + 1) && 0 <= c < w2 implies #[trigger] output@[cell(
                r,
                c,
                w2,
            )] == input@[cell(r / 2, c / 2, width as int)] by {
                if r == 2 * y {
                    assert(cell(r, c, w2) == t0 + c);
                } else if r == 2 * y + 1 {
                    assert(cell(r, c, w2) == t1 + c);
                }
            }
        }
        y += 1;
    }
    proof {
        assert(cell(2 * height, 0, w2) == 4 * width * height) by (nonlinear_arith)
            requires
                w2 == 2 * width,
        ;
    }
}

} // verus!
