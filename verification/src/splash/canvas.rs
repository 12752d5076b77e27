//! A drawing surface that owns its pixels, of the size of the small panel.

use vstd::prelude::*;
use crate::canvas::{blit, drawn, fill, filled, row_count, whole_rows, Flip};
use super::params::{WINDOW_HEIGHT, WINDOW_WIDTH};

verus! {

/// A surface of `WINDOW_WIDTH` by `WINDOW_HEIGHT` pixels.
pub struct Canvas {
    pub buf: Vec<u16>,
    pub width: usize,
    pub height: usize,
}

impl Canvas {
    /// A surface with every pixel zero.
    pub fn new() -> (c: Self)
        ensures
            c.buf@ == Seq::new((WINDOW_WIDTH * WINDOW_HEIGHT) as nat, |p: int| 0u16),
            c.width == WINDOW_WIDTH,
            c.height == WINDOW_HEIGHT,
    {
        let buf: Vec<u16> = vec![0u16; (WINDOW_WIDTH * WINDOW_HEIGHT) as usize];
        assert(buf@ =~= Seq::new((WINDOW_WIDTH * WINDOW_HEIGHT) as nat, |p: int| 0u16));
        Canvas { buf, width: WINDOW_WIDTH as usize, height: WINDOW_HEIGHT as usize }
    }

    /// Sets every pixel to `color`.
    pub fn clear(&mut self, color: u16)
        ensures
            final(self).buf@ == filled(old(self).buf@, color),
            final(self).width == old(self).width,
            final(self).height == old(self).height,
    {
        fill(self.buf.as_mut_slice(), color);
    }

    /// Draws an image of rows `image_width` wide with its first pixel at
    /// column `x` of row `y`.
    pub fn draw_image(&mut self, x: usize, y: usize, image: &[u16], image_width: usize)
        requires
            whole_rows(image@, image_width as int),
            y * old(self).width + x + row_count(image@, image_width as int) * old(self).width
                <= usize::MAX,
        ensures
            final(self).buf@ == drawn(
                old(self).buf@,
                old(self).width as int,
                y * old(self).width + x,
                image@,
                image_width as int,
                Flip::Upright,
                row_count(image@, image_width as int),
            ),
            final(self).width == old(self).width,
            final(self).height == old(self).height,
    {
        let stride: usize = self.width;
        blit(self.buf.as_mut_slice(), stride, x, y, image, image_width, Flip::Upright);
    }

    /// Draws an image upside down: its last row first.
    pub fn draw_image_flip_y(&mut self, x: usize, y: usize, image: &[u16], image_width: usize)
        requires
            whole_rows(image@, image_width as int),
            y * old(self).width + x + row_count(image@, image_width as int) * old(self).width
                <= usize::MAX,
        ensures
            final(self).buf@ == drawn(
                old(self).buf@,
                old(self).width as int,
                y * old(self).width + x,
                image@,
                image_width as int,
                Flip::Vertical,
                row_count(image@, image_width as int),
            ),
            final(self).width == old(self).width,
            final(self).height == old(self).height,
    {
        let stride: usize = self.width;
        blit(self.buf.as_mut_slice(), stride, x, y, image, image_width, Flip::Vertical);
    }

    /// Draws an image mirrored: every row back to front.
    pub fn draw_image_flip_x(&mut self, x: usize, y: usize, image: &[u16], image_width: usize)
        requires
            whole_rows(image@, image_width as int),
            y * old(self).width + x + row_count(image@, image_width as int) * old(self).width
                <= usize::MAX,
        ensures
            final(self).buf@ == drawn(
                old(self).buf@,
                old(self).width as int,
                y * old(self).width + x,
                image@,
                image_width as int,
                Flip::Horizontal,
                row_count(image@, image_width as int),
            ),
            final(self).width == old(self).width,
            final(self).height == old(self).height,
    {
        let stride: usize = self.width;
        blit(self.buf.as_mut_slice(), stride, x, y, image, image_width, Flip::Horizontal);
    }
}

} // verus!
