//! Gathering pixels into rows and rows into blocks, so that a run of pixels
//! that lie side by side goes to the panel in one window.
//!
//! A row is a run of pixels on one line, each one column right of the one
//! before. A block is a run of rows with the same first and last column,
//! each one line below the one before. Both are bounded in size. The
//! colours of a row or block are held in a `heapless::Vec`.

use vstd::prelude::*;

verus! {

/// The most pixels in a row.
pub const MAX_ROW_SIZE: usize = 50;

/// The most pixels in a block, and the capacity of a colour list.
pub const MAX_BLOCK_SIZE: usize = 100;

/// The fixed-capacity vector of the `heapless` crate.
#[verifier::external_type_specification]
#[verifier::external_body]
#[verifier::reject_recursive_types(T)]
pub struct ExHeaplessVec<T, const N: usize>(heapless::Vec<T, N>);

/// The colours that a list holds, in order.
pub uninterp spec fn colors_of(list: heapless::Vec<u16, 100>) -> Seq<u16>;

/// Calls `heapless::Vec::new`.
///
/// Taken on trust: the new list is empty.
#[verifier::external_body]
fn colors_new() -> (list: heapless::Vec<u16, 100>)
    ensures
        colors_of(list) == Seq::<u16>::empty(),
{
    heapless::Vec::new()
}

/// Calls `heapless::Vec::push`.
///
/// Taken on trust: below the capacity of 100 the item is appended;
/// at capacity the item comes back and the list is as before.
#[verifier::external_body]
fn colors_push(list: &mut heapless::Vec<u16, 100>, item: u16) -> (r: Result<(), u16>)
    ensures
        colors_of(*old(list)).len() < 100 ==> r is Ok
            && colors_of(*final(list)) == colors_of(*old(list)).push(item),
        colors_of(*old(list)).len() >= 100 ==> r is Err && r->Err_0 == item
            && colors_of(*final(list)) == colors_of(*old(list)),
{
    list.push(item)
}

/// Calls `heapless::Vec::extend_from_slice`.
///
/// Taken on trust: where all of the slice fits within the capacity of 100
/// it is appended; where it does not, nothing changes and the result is
/// an error.
#[verifier::external_body]
fn colors_extend(list: &mut heapless::Vec<u16, 100>, other: &[u16]) -> (r: Result<(), ()>)
    ensures
        colors_of(*old(list)).len() + other@.len() <= 100 ==> r is Ok
            && colors_of(*final(list)) == colors_of(*old(list)) + other@,
        colors_of(*old(list)).len() + other@.len() > 100 ==> r is Err
            && colors_of(*final(list)) == colors_of(*old(list)),
{
    list.extend_from_slice(other)
}

/// Calls `heapless::Vec::clear`.
///
/// Taken on trust: the list is empty afterwards.
#[verifier::external_body]
fn colors_clear(list: &mut heapless::Vec<u16, 100>)
    ensures
        colors_of(*final(list)) == Seq::<u16>::empty(),
{
    list.clear()
}

/// Calls `Clone::clone` of `heapless::Vec`.
///
/// Taken on trust: the copy holds the same colours in the same order.
#[verifier::external_body]
fn colors_clone(list: &heapless::Vec<u16, 100>) -> (copy: heapless::Vec<u16, 100>)
    ensures
        colors_of(copy) == colors_of(*list),
{
    list.clone()
}

/// Calls `heapless::Vec::as_slice`.
///
/// Taken on trust: the slice is what the list holds, which is never more
/// than its capacity of 100.
#[verifier::external_body]
fn colors_slice<'a>(list: &'a heapless::Vec<u16, 100>) -> (s: &'a [u16])
    ensures
        s@ == colors_of(*list),
        s@.len() <= 100,
{
    list.as_slice()
}

/// A pixel to be drawn: where, and in which colour.
#[derive(Clone, Copy, Debug, PartialEq, Eq, Structural)]
pub struct Pixel {
    pub x: i32,
    pub y: i32,
    pub color: u16,
}

/// A coordinate as the panel takes it: its low 16 bits.
pub open spec fn panel_coord(v: i32) -> u16 {
    (v as int % 0x1_0000) as u16
}

/// Reduces a coordinate to its low 16 bits.
pub fn to_panel_coord(v: i32) -> (c: u16)
    ensures
        c == panel_coord(v),
{
    let c: u16 = (v & 0xffff) as u16;
    assert((v & 0xffff) as u16 == (v as int % 0x1_0000) as u16) by (bit_vector);
    c
}

/// A row of contiguous pixels.
#[derive(Debug)]
pub struct PixelRow {
    /// Start column number
    pub x_left: u16,
    /// End column number
    pub x_right: u16,
    /// Row number
    pub y: u16,
    /// List of pixel colours for the entire row
    pub colors: heapless::Vec<u16, 100>,
}

/// A block of contiguous pixel rows with the same start and end column
/// number.
#[derive(Debug)]
pub struct PixelBlock {
    /// Start column number
    pub x_left: u16,
    /// End column number
    pub x_right: u16,
    /// Start row number
    pub y_top: u16,
    /// End row number
    pub y_bottom: u16,
    /// List of pixel colours for the entire block, row by row
    pub colors: heapless::Vec<u16, 100>,
}

/// A row as plain values.
pub struct RowView {
    pub x_left: u16,
    pub x_right: u16,
    pub y: u16,
    pub colors: Seq<u16>,
}

/// A block as plain values.
pub struct BlockView {
    pub x_left: u16,
    pub x_right: u16,
    pub y_top: u16,
    pub y_bottom: u16,
    pub colors: Seq<u16>,
}

impl PixelRow {
    /// The row as plain values.
    pub open spec fn view(&self) -> RowView {
        RowView {
            x_left: self.x_left,
            x_right: self.x_right,
            y: self.y,
            colors: colors_of(self.colors),
        }
    }
}

impl PixelBlock {
    /// The block as plain values.
    pub open spec fn view(&self) -> BlockView {
        BlockView {
            x_left: self.x_left,
            x_right: self.x_right,
            y_top: self.y_top,
            y_bottom: self.y_bottom,
            colors: colors_of(self.colors),
        }
    }
}

/// The row that is being gathered.
pub struct RowState {
    /// No pixel has been taken for the row yet.
    pub first_pixel: bool,
    pub row: RowView,
}

/// The block that is being gathered.
pub struct BlockState {
    /// No row has been taken for the block yet.
    pub first_row: bool,
    pub block: BlockView,
}

/// A row of one pixel.
pub open spec fn row_of_pixel(p: Pixel) -> RowView {
    RowView { x_left: panel_coord(p.x), x_right: panel_coord(p.x), y: panel_coord(p.y), colors: seq![p.color] }
}

/// Whether the pixel carries the row on: it lies one column to the right
/// on the same line, and the row has room.
pub open spec fn extends_row(row: RowView, p: Pixel) -> bool {
    &&& panel_coord(p.x) as int == (row.x_right + 1) % 0x1_0000
    &&& panel_coord(p.y) == row.y
    &&& row.colors.len() < MAX_ROW_SIZE
}

/// The state after a pixel, and the row that the pixel completed, if it
/// did: a pixel that does not carry the row on ends it and starts the next.
pub open spec fn row_step(s: RowState, p: Pixel) -> (RowState, Option<RowView>) {
    if s.first_pixel {
        (RowState { first_pixel: false, row: row_of_pixel(p) }, None)
    } else if extends_row(s.row, p) {
        (
            RowState {
                first_pixel: false,
                row: RowView {
                    x_left: s.row.x_left,
                    x_right: panel_coord(p.x),
                    y: s.row.y,
                    colors: s.row.colors.push(p.color),
                },
            },
            None,
        )
    } else {
        (RowState { first_pixel: false, row: row_of_pixel(p) }, Some(s.row))
    }
}

/// The state after the last pixel, and the row that was still being
/// gathered, if one was.
pub open spec fn row_finish(s: RowState) -> (RowState, Option<RowView>) {
    if s.first_pixel {
        (s, None)
    } else {
        (
            RowState {
                first_pixel: true,
                row: RowView {
                    x_left: s.row.x_left,
                    x_right: s.row.x_right,
                    y: s.row.y,
                    colors: Seq::empty(),
                },
            },
            Some(s.row),
        )
    }
}

/// What holds of a row that is being gathered or was given out: it has
/// between one and `MAX_ROW_SIZE` pixels, and its last column is as many
/// columns right of its first as it has pixels after the first.
pub open spec fn row_ok(row: RowView) -> bool {
    &&& 1 <= row.colors.len() <= MAX_ROW_SIZE
    &&& row.x_right as int == (row.x_left + row.colors.len() - 1) % 0x1_0000
}

/// What holds of the row state at all times.
pub open spec fn row_state_ok(s: RowState) -> bool {
    if s.first_pixel {
        s.row.colors.len() == 0
    } else {
        row_ok(s.row)
    }
}

/// The colours that are held for the row being gathered.
pub open spec fn row_pending(s: RowState) -> Seq<u16> {
    if s.first_pixel {
        Seq::empty()
    } else {
        s.row.colors
    }
}

/// The colours of a row that was given out, or none.
pub open spec fn given(row: Option<RowView>) -> Seq<u16> {
    match row {
        Some(r) => r.colors,
        None => Seq::empty(),
    }
}

/// The next row from position `pos` of the pixels on: the state and the
/// position after it, and the row, if one is left.
pub open spec fn next_row(s: RowState, pixels: Seq<Pixel>, pos: int) -> (RowState, int, Option<
    RowView,
>)
    decreases pixels.len() - pos,
{
    if 0 <= pos < pixels.len() {
        let (after, row) = row_step(s, pixels[pos]);
        if row is Some {
            (after, pos + 1, row)
        } else {
            next_row(after, pixels, pos + 1)
        }
    } else {
        let (after, row) = row_finish(s);
        (after, pos, row)
    }
}

/// A block of one row.
pub open spec fn block_of_row(row: RowView) -> BlockView {
    BlockView {
        x_left: row.x_left,
        x_right: row.x_right,
        y_top: row.y,
        y_bottom: row.y,
        colors: row.colors,
    }
}

/// Whether the row carries the block on: it lies one line below with the
/// same first and last column, and the block has room for it.
pub open spec fn extends_block(block: BlockView, row: RowView) -> bool {
    &&& row.y == block.y_bottom + 1
    &&& row.x_left == block.x_left
    &&& row.x_right == block.x_right
    &&& block.colors.len() + row.colors.len() <= MAX_BLOCK_SIZE
}

/// The state after a row, and the block that the row completed, if it did.
pub open spec fn block_step(s: BlockState, row: RowView) -> (BlockState, Option<BlockView>) {
    if s.first_row {
        (BlockState { first_row: false, block: block_of_row(row) }, None)
    } else if extends_block(s.block, row) {
        (
            BlockState {
                first_row: false,
                block: BlockView {
                    x_left: s.block.x_left,
                    x_right: s.block.x_right,
                    y_top: s.block.y_top,
                    y_bottom: row.y,
                    colors: s.block.colors + row.colors,
                },
            },
            None,
        )
    } else {
        (BlockState { first_row: false, block: block_of_row(row) }, Some(s.block))
    }
}

/// The state after the last row, and the block that was still being
/// gathered, if one was.
pub open spec fn block_finish(s: BlockState) -> (BlockState, Option<BlockView>) {
    if s.first_row {
        (s, None)
    } else {
        (
            BlockState {
                first_row: true,
                block: BlockView {
                    x_left: s.block.x_left,
                    x_right: s.block.x_right,
                    y_top: s.block.y_top,
                    y_bottom: s.block.y_bottom,
                    colors: Seq::empty(),
                },
            },
            Some(s.block),
        )
    }
}

/// What holds of a block that is being gathered or was given out: it
/// holds no more than `MAX_BLOCK_SIZE` pixels, and its lines run downwards.
pub open spec fn block_ok(block: BlockView) -> bool {
    block.colors.len() <= MAX_BLOCK_SIZE && block.y_top <= block.y_bottom
}

/// The next block from position `pos` of the pixels on: the states and the
/// position after it, and the block, if one is left.
pub open spec fn next_block(b: BlockState, r: RowState, pixels: Seq<Pixel>, pos: int) -> (
    BlockState,
    RowState,
    int,
    Option<BlockView>,
)
    decreases pixels.len() - pos, (if r.first_pixel {
        0int
    } else {
        1int
    }),
{
    let (rows_after, pos_after, row) = next_row(r, pixels, pos);
    match row {
        None => {
            let (after, block) = block_finish(b);
            (after, rows_after, pos_after, block)
        },
        Some(taken) => {
            let (after, block) = block_step(b, taken);
            if block is Some {
                (after, rows_after, pos_after, block)
            } else if pos < pos_after <= pixels.len() || (pos_after == pos && !r.first_pixel
                && rows_after.first_pixel) {
                next_block(after, rows_after, pixels, pos_after)
            } else {
                (after, rows_after, pos_after, None)
            }
        },
    }
}

/// Taking a row uses up pixels or the row that was held: it never leaves
/// everything as it was.
pub proof fn lemma_next_row_advances(s: RowState, pixels: Seq<Pixel>, pos: int)
    requires
        0 <= pos <= pixels.len(),
    ensures
        pos <= next_row(s, pixels, pos).1 <= pixels.len(),
        next_row(s, pixels, pos).2 is Some ==> pos < next_row(s, pixels, pos).1 || (
        !s.first_pixel && next_row(s, pixels, pos).0.first_pixel),
    decreases pixels.len() - pos,
{
    if pos < pixels.len() {
        let (after, row) = row_step(s, pixels[pos]);
        if row is None {
            lemma_next_row_advances(after, pixels, pos + 1);
        }
    }
}

/// Gathers pixels into rows.
pub struct RowIterator<'a> {
    /// Pixels to be batched into rows
    pixels: &'a [Pixel],
    /// The next pixel to take
    pos: usize,
    /// Start column number
    x_left: u16,
    /// End column number
    x_right: u16,
    /// Row number
    y: u16,
    /// List of pixel colours for the entire row
    colors: heapless::Vec<u16, 100>,
    /// True if this is the first pixel for the row
    first_pixel: bool,
}

/// Gathers rows into blocks.
pub struct BlockIterator<'a> {
    /// Pixel Rows to be batched into blocks
    rows: RowIterator<'a>,
    /// Start column number
    x_left: u16,
    /// End column number
    x_right: u16,
    /// Start row number
    y_top: u16,
    /// End row number
    y_bottom: u16,
    /// List of pixel colours for the entire block, row by row
    colors: heapless::Vec<u16, 100>,
    /// True if this is the first row for the block
    first_row: bool,
}

/// Batch the pixels into Pixel Rows, which are contiguous pixels on the
/// same row.
pub fn to_rows<'a>(pixels: &'a [Pixel]) -> (rows: RowIterator<'a>)
    ensures
        rows.state().first_pixel,
        rows.state().row.colors == Seq::<u16>::empty(),
        row_state_ok(rows.state()),
        rows.pixels() == pixels@,
        rows.position() == 0,
{
    RowIterator {
        pixels,
        pos: 0,
        x_left: 0,
        x_right: 0,
        y: 0,
        colors: colors_new(),
        first_pixel: true,
    }
}

/// Batch the Pixel Rows into Pixel Blocks, which are contiguous Pixel Rows
/// with the same start and end column number.
pub fn to_blocks<'a>(rows: RowIterator<'a>) -> (blocks: BlockIterator<'a>)
    ensures
        blocks.state().first_row,
        blocks.state().block.colors == Seq::<u16>::empty(),
        blocks.rows() == rows,
{
    BlockIterator {
        rows,
        x_left: 0,
        x_right: 0,
        y_top: 0,
        y_bottom: 0,
        colors: colors_new(),
        first_row: true,
    }
}

impl<'a> RowIterator<'a> {
    /// The row that is being gathered.
    pub closed spec fn state(&self) -> RowState {
        RowState {
            first_pixel: self.first_pixel,
            row: RowView {
                x_left: self.x_left,
                x_right: self.x_right,
                y: self.y,
                colors: colors_of(self.colors),
            },
        }
    }

    /// The pixels that are gathered.
    pub closed spec fn pixels(&self) -> Seq<Pixel> {
        self.pixels@
    }

    /// The number of pixels taken so far.
    pub closed spec fn position(&self) -> int {
        self.pos as int
    }

    /// Takes one pixel. A pixel that does not carry the row on completes
    /// it: the row is returned, and the pixel starts the next one. No
    /// colour is lost or repeated on the way.
    pub fn push(&mut self, pixel: Pixel) -> (row: Option<PixelRow>)
        requires
            row_state_ok(old(self).state()),
        ensures
            row_state_ok(final(self).state()),
            final(self).pixels() == old(self).pixels(),
            final(self).position() == old(self).position(),
            final(self).state() == row_step(old(self).state(), pixel).0,
            match row {
                Some(r) => Some(r@) == row_step(old(self).state(), pixel).1 && row_ok(r@),
                None => row_step(old(self).state(), pixel).1 is None,
            },
            given(row_step(old(self).state(), pixel).1) + row_pending(final(self).state())
                == row_pending(old(self).state()).push(pixel.color),
    {
        let x: u16 = to_panel_coord(pixel.x);
        let y: u16 = to_panel_coord(pixel.y);
        let ghost before = self.state();
        if self.first_pixel {
            self.first_pixel = false;
            self.x_left = x;
            self.x_right = x;
            self.y = y;
            colors_clear(&mut self.colors);
            let _ = colors_push(&mut self.colors, pixel.color);
            proof {
                assert(colors_of(self.colors) =~= seq![pixel.color]);
                assert(Seq::<u16>::empty() + seq![pixel.color] =~= Seq::<u16>::empty().push(
                    pixel.color,
                ));
            }
            return None;
        }
        let held: usize = colors_slice(&self.colors).len();
        if x == self.x_right.wrapping_add(1) && y == self.y && held < MAX_ROW_SIZE {
            let _ = colors_push(&mut self.colors, pixel.color);
            self.x_right = x;
            proof {
                assert(Seq::<u16>::empty() + before.row.colors.push(pixel.color)
                    =~= before.row.colors.push(pixel.color));
            }
            return None;
        }
        let row = PixelRow {
            x_left: self.x_left,
            x_right: self.x_right,
            y: self.y,
            colors: colors_clone(&self.colors),
        };
        self.x_left = x;
        self.x_right = x;
        self.y = y;
        colors_clear(&mut self.colors);
        let _ = colors_push(&mut self.colors, pixel.color);
        proof {
            assert(colors_of(self.colors) =~= seq![pixel.color]);
            assert(before.row.colors + seq![pixel.color] =~= before.row.colors.push(pixel.color));
        }
        Some(row)
    }

    /// Ends the gathering: the row that was being gathered is returned, if
    /// there was one.
    pub fn finish(&mut self) -> (row: Option<PixelRow>)
        requires
            row_state_ok(old(self).state()),
        ensures
            row_state_ok(final(self).state()),
            final(self).pixels() == old(self).pixels(),
            final(self).position() == old(self).position(),
            final(self).state() == row_finish(old(self).state()).0,
            match row {
                Some(r) => Some(r@) == row_finish(old(self).state()).1 && row_ok(r@),
                None => row_finish(old(self).state()).1 is None,
            },
    {
        if self.first_pixel {
            return None;
        }
        let row = PixelRow {
            x_left: self.x_left,
            x_right: self.x_right,
            y: self.y,
            colors: colors_clone(&self.colors),
        };
        colors_clear(&mut self.colors);
        self.first_pixel = true;
        Some(row)
    }

    /// Return the next Pixel Row of contiguous pixels on the same row, or
    /// nothing when the pixels are used up.
    pub fn next(&mut self) -> (row: Option<PixelRow>)
        requires
            row_state_ok(old(self).state()),
            0 <= old(self).position() <= old(self).pixels().len(),
        ensures
            row_state_ok(final(self).state()),
            final(self).pixels() == old(self).pixels(),
            old(self).position() <= final(self).position() <= final(self).pixels().len(),
            (final(self).state(), final(self).position(), match row {
                Some(r) => Some(r@),
                None => None,
            }) == next_row(old(self).state(), old(self).pixels(), old(self).position()),
            row matches Some(r) ==> row_ok(r@),
    {
        loop
            invariant
                row_state_ok(self.state()),
                self.pixels() == old(self).pixels(),
                old(self).position() <= self.position() <= self.pixels().len(),
                next_row(self.state(), self.pixels(), self.position()) == next_row(
                    old(self).state(),
                    old(self).pixels(),
                    old(self).position(),
                ),
            decreases self.pixels().len() - self.position(),
        {
            if self.pos >= self.pixels.len() {
                return self.finish();
            }
            let pixel: Pixel = self.pixels[self.pos];
            self.pos = self.pos + 1;
            let done: Option<PixelRow> = self.push(pixel);
            if done.is_some() {
                return done;
            }
        }
    }
}

impl<'a> BlockIterator<'a> {
    /// The block that is being gathered.
    pub closed spec fn state(&self) -> BlockState {
        BlockState {
            first_row: self.first_row,
            block: BlockView {
                x_left: self.x_left,
                x_right: self.x_right,
                y_top: self.y_top,
                y_bottom: self.y_bottom,
                colors: colors_of(self.colors),
            },
        }
    }

    /// The rows that are gathered.
    pub closed spec fn rows(&self) -> RowIterator<'a> {
        self.rows
    }

    /// Takes one row. A row that does not carry the block on completes it:
    /// the block is returned, and the row starts the next one.
    pub fn push(&mut self, row: &PixelRow) -> (block: Option<PixelBlock>)
        ensures
            final(self).rows() == old(self).rows(),
            final(self).state() == block_step(old(self).state(), row@).0,
            match block {
                Some(b) => Some(b@) == block_step(old(self).state(), row@).1,
                None => block_step(old(self).state(), row@).1 is None,
            },
    {
        let colors: &[u16] = colors_slice(&row.colors);
        let held: usize = colors_slice(&self.colors).len();
        if self.first_row {
            self.first_row = false;
            self.x_left = row.x_left;
            self.x_right = row.x_right;
            self.y_top = row.y;
            self.y_bottom = row.y;
            colors_clear(&mut self.colors);
            let _ = colors_extend(&mut self.colors, colors);
            assert(colors_of(self.colors) =~= row@.colors);
            return None;
        }
        if self.y_bottom < u16::MAX && row.y == self.y_bottom + 1 && row.x_left == self.x_left
            && row.x_right == self.x_right && held + colors.len() <= MAX_BLOCK_SIZE {
            let _ = colors_extend(&mut self.colors, colors);
            self.y_bottom = row.y;
            return None;
        }
        let block = PixelBlock {
            x_left: self.x_left,
            x_right: self.x_right,
            y_top: self.y_top,
            y_bottom: self.y_bottom,
            colors: colors_clone(&self.colors),
        };
        self.x_left = row.x_left;
        self.x_right = row.x_right;
        self.y_top = row.y;
        self.y_bottom = row.y;
        colors_clear(&mut self.colors);
        let _ = colors_extend(&mut self.colors, colors);
        assert(colors_of(self.colors) =~= row@.colors);
        Some(block)
    }

    /// Ends the gathering: the block that was being gathered is returned,
    /// if there was one.
    pub fn finish(&mut self) -> (block: Option<PixelBlock>)
        ensures
            final(self).rows() == old(self).rows(),
            final(self).state() == block_finish(old(self).state()).0,
            match block {
                Some(b) => Some(b@) == block_finish(old(self).state()).1,
                None => block_finish(old(self).state()).1 is None,
            },
    {
        if self.first_row {
            return None;
        }
        let block = PixelBlock {
            x_left: self.x_left,
            x_right: self.x_right,
            y_top: self.y_top,
            y_bottom: self.y_bottom,
            colors: colors_clone(&self.colors),
        };
        colors_clear(&mut self.colors);
        self.first_row = true;
        Some(block)
    }

    /// Return the next Pixel Block of contiguous Pixel Rows with the same
    /// start and end column number, or nothing when the rows are used up.
    pub fn next(&mut self) -> (block: Option<PixelBlock>)
        requires
            row_state_ok(old(self).rows().state()),
            0 <= old(self).rows().position() <= old(self).rows().pixels().len(),
        ensures
            row_state_ok(final(self).rows().state()),
            final(self).rows().pixels() == old(self).rows().pixels(),
            old(self).rows().position() <= final(self).rows().position(),
            final(self).rows().position() <= final(self).rows().pixels().len(),
            (final(self).state(), final(self).rows().state(), final(self).rows().position(), match block {
                Some(b) => Some(b@),
                None => None,
            }) == next_block(
                old(self).state(),
                old(self).rows().state(),
                old(self).rows().pixels(),
                old(self).rows().position(),
            ),
    {
        loop
            invariant
                row_state_ok(self.rows().state()),
                self.rows().pixels() == old(self).rows().pixels(),
                old(self).rows().position() <= self.rows().position() <= self.rows().pixels().len(),
                next_block(
                    self.state(),
                    self.rows().state(),
                    self.rows().pixels(),
                    self.rows().position(),
                ) == next_block(
                    old(self).state(),
                    old(self).rows().state(),
                    old(self).rows().pixels(),
                    old(self).rows().position(),
                ),
            decreases
                    self.rows().pixels().len() - self.rows().position(),
                    (if self.rows().state().first_pixel {
                        0int
                    } else {
                        1int
                    }),
        {
            proof {
                lemma_next_row_advances(
                    self.rows().state(),
                    self.rows().pixels(),
                    self.rows().position(),
                );
            }
            match self.rows.next() {
                None => {
                    return self.finish();
                },
                Some(row) => {
                    let done: Option<PixelBlock> = self.push(&row);
                    if done.is_some() {
                        return done;
                    }
                },
            }
        }
    }
}

} // verus!
