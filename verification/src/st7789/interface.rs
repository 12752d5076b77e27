//! What is written to the panel's serial bus for a piece of data, and the
//! pixels and window of the drawing operations.
//!
//! The bus takes bytes. Words of 16 bits go out in the byte order that the
//! data's format names; a format that names none leaves the words as the
//! machine holds them. Data that comes as a stream is written in pieces of
//! a fixed size.

use vstd::prelude::*;
use crate::bytes::{words_be, words_le};
use crate::chunks::{chunk_bytes, chunks_of, writes_view};
use crate::panel::{area, clip, clip_rect, clipped, inside, rect_on_panel, Clip, Panel, Window};
use crate::protocol::FrameHeader;

verus! {

/// The bytes of one write for a stream of bytes.
pub const U8_STREAM_WRITE: usize = 32;

/// The bytes of one write for a stream of little-endian words.
pub const U16LE_STREAM_WRITE: usize = 64;

/// The bytes of one write for a stream of big-endian words.
pub const U16BE_STREAM_WRITE: usize = 128;

/// Data for the panel, and the form in which it goes over the bus.
#[derive(Debug)]
pub enum DataFormat<'a> {
    /// Bytes, written at once.
    U8(&'a [u8]),
    /// Words in the machine's own byte order, written at once.
    U16(&'a [u16]),
    /// Words, most significant byte first, written at once.
    U16BE(&'a [u16]),
    /// Words, least significant byte first, written at once.
    U16LE(&'a [u16]),
    /// A stream of bytes.
    U8Iter(&'a [u8]),
    /// A stream of words, most significant byte first.
    U16BEIter(&'a [u16]),
    /// A stream of words, least significant byte first.
    U16LEIter(&'a [u16]),
}

/// Calls `byte_slice_cast::AsByteSlice::as_byte_slice` on 16-bit words.
///
/// Taken on trust: the bytes are the words in the byte order of the machine
/// that runs the code, so they are either every word least significant byte
/// first or every word most significant byte first.
#[verifier::external_body]
fn native_bytes<'a>(words: &'a [u16]) -> (bytes: &'a [u8])
    ensures
        bytes@ == words_le(words@) || bytes@ == words_be(words@),
{
    byte_slice_cast::AsByteSlice::as_byte_slice(words)
}

/// The words as bytes, most significant byte first.
pub fn be_bytes(words: &[u16]) -> (out: Vec<u8>)
    ensures
        out@ == words_be(words@),
{
    let mut out: Vec<u8> = Vec::new();
    let n: usize = words.len();
    let mut i: usize = 0;
    while i < n
        invariant
            i <= n,
            n == words@.len(),
            out@ == words_be(words@.subrange(0, i as int)),
        decreases n - i,
    {
        out.push((words[i] / 256) as u8);
        out.push((words[i] % 256) as u8);
        i += 1;
        assert(out@ =~= words_be(words@.subrange(0, i as int)));
    }
    assert(words@.subrange(0, n as int) =~= words@);
    out
}

/// The words as bytes, least significant byte first.
pub fn le_bytes(words: &[u16]) -> (out: Vec<u8>)
    ensures
        out@ == words_le(words@),
{
    let mut out: Vec<u8> = Vec::new();
    let n: usize = words.len();
    let mut i: usize = 0;
    while i < n
        invariant
            i <= n,
            n == words@.len(),
            out@ == words_le(words@.subrange(0, i as int)),
        decreases n - i,
    {
        out.push((words[i] % 256) as u8);
        out.push((words[i] / 256) as u8);
        i += 1;
        assert(out@ =~= words_le(words@.subrange(0, i as int)));
    }
    assert(words@.subrange(0, n as int) =~= words@);
    out
}

/// Whether `writes` are what goes over the bus for `words`. Data that is
/// written at once is one write, empty or not. A stream is cut into writes
/// of its size, with a shorter last one for what is left over, and none
/// where nothing is.
pub open spec fn sent(writes: Seq<Seq<u8>>, words: DataFormat) -> bool {
    match words {
        DataFormat::U8(s) => writes == seq![s@],
        DataFormat::U16(s) => writes == seq![words_le(s@)] || writes == seq![words_be(s@)],
        DataFormat::U16BE(s) => writes == seq![words_be(s@)],
        DataFormat::U16LE(s) => writes == seq![words_le(s@)],
        DataFormat::U8Iter(s) => chunks_of(writes, s@, U8_STREAM_WRITE as int),
        DataFormat::U16BEIter(s) => chunks_of(writes, words_be(s@), U16BE_STREAM_WRITE as int),
        DataFormat::U16LEIter(s) => chunks_of(writes, words_le(s@), U16LE_STREAM_WRITE as int),
    }
}

/// One write that holds `bytes`.
fn single(bytes: Vec<u8>) -> (writes: Vec<Vec<u8>>)
    ensures
        writes_view(writes@) == seq![bytes@],
{
    let mut writes: Vec<Vec<u8>> = Vec::new();
    writes.push(bytes);
    assert(writes_view(writes@) =~= seq![bytes@]);
    writes
}

/// Gives the writes that put `words` on the bus, in order.
pub fn send_u8(words: &DataFormat) -> (writes: Vec<Vec<u8>>)
    ensures
        sent(writes_view(writes@), *words),
{
    match words {
        DataFormat::U8(slice) => single(vstd::slice::slice_to_vec(slice)),
        DataFormat::U16(slice) => single(vstd::slice::slice_to_vec(native_bytes(slice))),
        DataFormat::U16LE(slice) => single(le_bytes(slice)),
        DataFormat::U16BE(slice) => single(be_bytes(slice)),
        DataFormat::U8Iter(items) => chunk_bytes(items, U8_STREAM_WRITE, false),
        DataFormat::U16LEIter(items) => {
            let bytes: Vec<u8> = le_bytes(items);
            chunk_bytes(bytes.as_slice(), U16LE_STREAM_WRITE, false)
        },
        DataFormat::U16BEIter(items) => {
            let bytes: Vec<u8> = be_bytes(items);
            chunk_bytes(bytes.as_slice(), U16BE_STREAM_WRITE, false)
        },
    }
}

/// What one transfer does on the bus: the level of the data/command line,
/// and the writes made while it is held.
#[derive(Debug)]
pub struct Transfer {
    /// High for data, low for commands.
    pub dc_high: bool,
    pub writes: Vec<Vec<u8>>,
}

/// The transfer that sends commands: the line is low.
pub fn send_commands(cmds: &DataFormat) -> (t: Transfer)
    ensures
        !t.dc_high,
        sent(writes_view(t.writes@), *cmds),
{
    Transfer { dc_high: false, writes: send_u8(cmds) }
}

/// The transfer that sends data: the line is high.
pub fn send_data(buf: &DataFormat) -> (t: Transfer)
    ensures
        t.dc_high,
        sent(writes_view(t.writes@), *buf),
{
    Transfer { dc_high: true, writes: send_u8(buf) }
}

/// The pixels of one row of a clipped image whose bytes are little-endian
/// pixels, as words.
pub open spec fn le_row_words(image: Seq<u8>, clip: Clip, r: int) -> Seq<u16> {
    Seq::new(
        (clip.row_bytes / 2) as nat,
        |c: int|
            crate::bytes::be16(
                image[r * clip.stride + 2 * c + 1],
                image[r * clip.stride + 2 * c],
            ),
    )
}

/// Where an image is drawn and which of its bytes: the image cut to the
/// panel. The bytes are streamed as they are, row by row, so an image in
/// wire order needs no conversion.
pub fn draw_rgb565_u8(panel: Panel, image: &[u8], x: u16, y: u16, width: u16, height: u16) -> (r:
    Option<Clip>)
    ensures
        r == clipped(panel, image@.len() as int, FrameHeader { width, height, x, y }),
        r matches Some(c) ==> crate::panel::inside(panel, c.window) && crate::panel::fits(
            c,
            image@.len() as int,
        ) && c.rows * c.row_bytes == 2 * crate::panel::area(c.window),
{
    clip(panel, image.len(), FrameHeader { width, height, x, y })
}

/// Where an image of little-endian pixel bytes is drawn, and the words of
/// row `r` of what is drawn.
pub fn draw_rgb565_le(
    panel: Panel,
    image: &[u8],
    x: u16,
    y: u16,
    width: u16,
    height: u16,
) -> (r: Option<(Clip, Vec<Vec<u16>>)>)
    ensures
        r is Some <==> clipped(panel, image@.len() as int, FrameHeader { width, height, x, y })
            is Some,
        r matches Some(p) ==> {
            &&& Some(p.0) == clipped(panel, image@.len() as int, FrameHeader { width, height, x, y })
            &&& crate::panel::inside(panel, p.0.window)
            &&& p.1@.len() == p.0.rows
            &&& forall|k: int|
                0 <= k < p.1@.len() ==> (#[trigger] p.1@[k])@ == le_row_words(image@, p.0, k)
        },
{
    match clip(panel, image.len(), FrameHeader { width, height, x, y }) {
        None => None,
        Some(c) => {
            let mut rows: Vec<Vec<u16>> = Vec::new();
            let mut k: u16 = 0;
            while k < c.rows
                invariant
                    k <= c.rows,
                    crate::panel::fits(c, image@.len() as int),
                    c.row_bytes % 2 == 0,
                    rows@.len() == k,
                    forall|j: int|
                        0 <= j < rows@.len() ==> (#[trigger] rows@[j])@ == le_row_words(
                            image@,
                            c,
                            j,
                        ),
                decreases c.rows - k,
            {
                let row: &[u8] = crate::panel::row_of(image, &c, k);
                let count: usize = c.row_bytes / 2;
                let mut words: Vec<u16> = Vec::new();
                let mut i: usize = 0;
                while i < count
                    invariant
                        i <= count,
                        count == c.row_bytes / 2,
                        row@.len() == c.row_bytes,
                        row@ == crate::panel::clip_row(image@, c, k as int),
                        words@.len() == i,
                        forall|j: int|
                            0 <= j < i ==> #[trigger] words@[j] == crate::bytes::be16(
                                row@[2 * j + 1],
                                row@[2 * j],
                            ),
                    decreases count - i,
                {
                    words.push(crate::bytes::u16_from_le(row[2 * i], row[2 * i + 1]));
                    i += 1;
                }
                proof {
                    assert(0 <= k * c.stride && (k + 1) * c.stride <= c.rows * c.stride && (k + 1)
                        * c.stride == k * c.stride + c.stride) by (nonlinear_arith)
                        requires
                            0 <= k < c.rows,
                            0 <= c.stride,
                    ;
                    assert(words@ =~= le_row_words(image@, c, k as int));
                }
                rows.push(words);
                k += 1;
            }
            Some((c, rows))
        },
    }
}

/// The colour of a test pattern in a round: red in the even rounds, blue
/// in the odd ones.
pub fn pattern_color(round: u32) -> (color: u16)
    ensures
        color == if round % 2 == 0 { 0xF800u16 } else { 0x001Fu16 },
{
    if round % 2 == 0 {
        0xF800
    } else {
        0x001F
    }
}

/// A rectangle of the panel to be filled with one colour.
#[derive(Clone, Copy, Debug, PartialEq, Eq, Structural)]
pub struct Fill {
    pub window: Window,
    pub color: u16,
    /// The number of words of the colour that fill the window.
    pub count: u32,
}

/// Where a rectangle of one colour is drawn, and how many words of the
/// colour fill it: as many as it has pixels on the panel.
pub fn clear_rect(panel: Panel, color: u16, x: u16, y: u16, width: u16, height: u16) -> (r: Option<
    Fill,
>)
    ensures
        match rect_on_panel(panel, FrameHeader { width, height, x, y }) {
            Some(w) => r == Some(Fill { window: w, color, count: area(w) as u32 }) && inside(
                panel,
                w,
            ) && area(w) <= u32::MAX,
            None => r is None,
        },
{
    match clip_rect(panel, FrameHeader { width, height, x, y }) {
        None => None,
        Some(w) => {
            let columns: u32 = (w.x1 - w.x0) as u32 + 1;
            let rows: u32 = (w.y1 - w.y0) as u32 + 1;
            assert(columns * rows <= 0x10000 * 0x10000 - 1) by (nonlinear_arith)
                requires
                    columns <= 0xffff,
                    rows <= 0xffff,
            ;
            Some(Fill { window: w, color, count: columns * rows })
        },
    }
}

} // verus!
