//! The wire protocol: three 8-byte markers, a 16-byte frame start, and the
//! state machine that assembles one payload at a time from the chunks that a
//! transport hands over.
//!
//! A message is the start marker followed by width, height, x and y (each a
//! big-endian 16-bit integer), then the payload in chunks of any size, then
//! the end marker in a chunk of its own. A chunk is told apart by its first
//! eight bytes alone.

use vstd::prelude::*;
use crate::bytes::{be16, be16_bytes, be64, be64_bytes, push_u16_be, push_u64_be, u16_from_be, u64_from_be};

verus! {

/// The marker that opens a frame.
pub const FRAME_START: u64 = 7596835243154170209;

/// The marker that closes a frame.
pub const FRAME_END: u64 = 7596835243154170466;

/// The marker that sends the device into its bootloader.
pub const REBOOT_TO_BOOTLOADER: u64 = 7093010483740242786;

/// The length of a marker in bytes.
pub const MARKER_LEN: usize = 8;

/// The length of a frame start: the marker and the four header fields.
pub const HEADER_LEN: usize = 16;

/// The most bytes that are ever held for one frame: the raw size of the
/// largest panel, 320 by 240 pixels of two bytes.
pub const MAX_FRAME_BYTES: usize = 320 * 240 * 2;

/// Size and placement of a frame on the panel.
#[derive(Clone, Copy, Debug, PartialEq, Eq, Structural)]
pub struct FrameHeader {
    pub width: u16,
    pub height: u16,
    pub x: u16,
    pub y: u16,
}

/// What a chunk is, judged by its first eight bytes.
#[derive(Clone, Copy, Debug, PartialEq, Eq, Structural)]
pub enum ChunkKind {
    /// The start marker, with the header that follows it.
    FrameStart(FrameHeader),
    /// The end marker.
    FrameEnd,
    /// The reboot marker.
    Reboot,
    /// Anything else: payload bytes.
    Data,
}

/// Byte `i` of a chunk, zero where the chunk has ended before it.
pub open spec fn byte_or_zero(chunk: Seq<u8>, i: int) -> u8 {
    if 0 <= i < chunk.len() {
        chunk[i]
    } else {
        0
    }
}

/// The header that follows a start marker in the same chunk. Bytes that the
/// chunk lacks count as zero.
pub open spec fn header_of(chunk: Seq<u8>) -> FrameHeader {
    FrameHeader {
        width: be16(byte_or_zero(chunk, 8), byte_or_zero(chunk, 9)),
        height: be16(byte_or_zero(chunk, 10), byte_or_zero(chunk, 11)),
        x: be16(byte_or_zero(chunk, 12), byte_or_zero(chunk, 13)),
        y: be16(byte_or_zero(chunk, 14), byte_or_zero(chunk, 15)),
    }
}

/// The kind of a chunk. One shorter than a marker is payload.
pub open spec fn classify(chunk: Seq<u8>) -> ChunkKind {
    if chunk.len() < MARKER_LEN {
        ChunkKind::Data
    } else if be64(chunk) == FRAME_START {
        ChunkKind::FrameStart(header_of(chunk))
    } else if be64(chunk) == FRAME_END {
        ChunkKind::FrameEnd
    } else if be64(chunk) == REBOOT_TO_BOOTLOADER {
        ChunkKind::Reboot
    } else {
        ChunkKind::Data
    }
}

/// The chunk that opens a frame with the given header.
pub open spec fn frame_start_bytes(h: FrameHeader) -> Seq<u8> {
    be64_bytes(FRAME_START) + be16_bytes(h.width) + be16_bytes(h.height) + be16_bytes(h.x)
        + be16_bytes(h.y)
}

/// The chunk that closes a frame.
pub open spec fn frame_end_bytes() -> Seq<u8> {
    be64_bytes(FRAME_END)
}

/// The chunk that reboots the device.
pub open spec fn reboot_bytes() -> Seq<u8> {
    be64_bytes(REBOOT_TO_BOOTLOADER)
}

/// What the receiver holds between two chunks.
pub struct ReceiverState {
    /// A start marker has been seen and no end marker since.
    pub in_frame: bool,
    /// The header of the last start marker.
    pub header: FrameHeader,
    /// The payload bytes gathered so far.
    pub buffer: Seq<u8>,
}

/// A completed frame as plain values.
pub struct FrameView {
    pub payload: Seq<u8>,
    pub header: FrameHeader,
}

/// What a chunk asks of the caller, as plain values.
pub enum Outcome {
    /// Nothing: read the next chunk.
    Continue,
    /// A frame is complete.
    Deliver(FrameView),
    /// Reset into the bootloader, now.
    Reboot,
}

/// The state before the first chunk.
pub open spec fn initial_state() -> ReceiverState {
    ReceiverState {
        in_frame: false,
        header: FrameHeader { width: 0, height: 0, x: 0, y: 0 },
        buffer: Seq::empty(),
    }
}

/// The buffer never holds more than `MAX_FRAME_BYTES`.
pub open spec fn well_formed(s: ReceiverState) -> bool {
    s.buffer.len() <= MAX_FRAME_BYTES
}

/// The buffer after a payload chunk: the chunk is appended as far as the
/// bound leaves room, and the rest of it is dropped.
pub open spec fn appended(buffer: Seq<u8>, chunk: Seq<u8>) -> Seq<u8> {
    let room = MAX_FRAME_BYTES - buffer.len();
    if chunk.len() <= room {
        buffer + chunk
    } else if room > 0 {
        buffer + chunk.subrange(0, room)
    } else {
        buffer
    }
}

/// One step of the receiver: the state after a chunk, and what the chunk
/// asks for.
///
/// A start marker takes the header and empties the buffer. An end marker
/// inside a frame hands the buffer over; outside a frame it is ignored. The
/// reboot marker discards everything. Any other chunk is payload.
pub open spec fn step(s: ReceiverState, chunk: Seq<u8>) -> (ReceiverState, Outcome) {
    match classify(chunk) {
        ChunkKind::FrameStart(h) => (
            ReceiverState { in_frame: true, header: h, buffer: Seq::empty() },
            Outcome::Continue,
        ),
        ChunkKind::FrameEnd => if s.in_frame {
            (
                ReceiverState { in_frame: false, header: s.header, buffer: Seq::empty() },
                Outcome::Deliver(FrameView { payload: s.buffer, header: s.header }),
            )
        } else {
            (s, Outcome::Continue)
        },
        ChunkKind::Reboot => (initial_state(), Outcome::Reboot),
        ChunkKind::Data => (
            ReceiverState {
                in_frame: s.in_frame,
                header: s.header,
                buffer: appended(s.buffer, chunk),
            },
            Outcome::Continue,
        ),
    }
}

/// The state after a run of chunks.
pub open spec fn run(s: ReceiverState, chunks: Seq<Seq<u8>>) -> ReceiverState
    decreases chunks.len(),
{
    if chunks.len() == 0 {
        s
    } else {
        step(run(s, chunks.drop_last()), chunks.last()).0
    }
}

/// All chunks joined in order.
pub open spec fn concat(chunks: Seq<Seq<u8>>) -> Seq<u8>
    decreases chunks.len(),
{
    if chunks.len() == 0 {
        Seq::empty()
    } else {
        concat(chunks.drop_last()) + chunks.last()
    }
}

/// A completed frame: the payload as it was received, and where it goes.
#[derive(Debug)]
pub struct Frame {
    pub payload: Vec<u8>,
    pub header: FrameHeader,
}

impl Frame {
    /// The frame as plain values.
    pub open spec fn view(&self) -> FrameView {
        FrameView { payload: self.payload@, header: self.header }
    }
}

/// What a chunk asks of the caller.
#[derive(Debug)]
pub enum Action {
    /// Nothing: read the next chunk.
    Continue,
    /// A frame is complete and is handed over.
    Deliver(Frame),
    /// Reset into the bootloader, now.
    Reboot,
}

impl Action {
    /// The action as plain values.
    pub open spec fn view(&self) -> Outcome {
        match self {
            Action::Continue => Outcome::Continue,
            Action::Deliver(f) => Outcome::Deliver(f@),
            Action::Reboot => Outcome::Reboot,
        }
    }
}

/// Reads byte `i` of a chunk, zero past its end.
fn byte_at(chunk: &[u8], i: usize) -> (b: u8)
    ensures
        b == byte_or_zero(chunk@, i as int),
{
    if i < chunk.len() {
        chunk[i]
    } else {
        0
    }
}

/// Reads the header that follows a start marker.
pub fn parse_header(chunk: &[u8]) -> (h: FrameHeader)
    ensures
        h == header_of(chunk@),
{
    FrameHeader {
        width: u16_from_be(byte_at(chunk, 8), byte_at(chunk, 9)),
        height: u16_from_be(byte_at(chunk, 10), byte_at(chunk, 11)),
        x: u16_from_be(byte_at(chunk, 12), byte_at(chunk, 13)),
        y: u16_from_be(byte_at(chunk, 14), byte_at(chunk, 15)),
    }
}

/// Tells what a chunk is.
pub fn classify_chunk(chunk: &[u8]) -> (kind: ChunkKind)
    ensures
        kind == classify(chunk@),
{
    if chunk.len() < MARKER_LEN {
        return ChunkKind::Data;
    }
    let marker: u64 = u64_from_be(chunk);
    if marker == FRAME_START {
        ChunkKind::FrameStart(parse_header(chunk))
    } else if marker == FRAME_END {
        ChunkKind::FrameEnd
    } else if marker == REBOOT_TO_BOOTLOADER {
        ChunkKind::Reboot
    } else {
        ChunkKind::Data
    }
}

/// Builds the chunk that opens a frame.
pub fn frame_start_packet(header: FrameHeader) -> (out: Vec<u8>)
    ensures
        out@ == frame_start_bytes(header),
        out@.len() == HEADER_LEN,
{
    let mut out: Vec<u8> = Vec::new();
    push_u64_be(&mut out, FRAME_START);
    push_u16_be(&mut out, header.width);
    push_u16_be(&mut out, header.height);
    push_u16_be(&mut out, header.x);
    push_u16_be(&mut out, header.y);
    out
}

/// Builds the chunk that closes a frame.
pub fn frame_end_packet() -> (out: Vec<u8>)
    ensures
        out@ == frame_end_bytes(),
        out@.len() == MARKER_LEN,
{
    let mut out: Vec<u8> = Vec::new();
    push_u64_be(&mut out, FRAME_END);
    out
}

/// Builds the chunk that reboots the device into its bootloader.
pub fn reboot_packet() -> (out: Vec<u8>)
    ensures
        out@ == reboot_bytes(),
        out@.len() == MARKER_LEN,
{
    let mut out: Vec<u8> = Vec::new();
    push_u64_be(&mut out, REBOOT_TO_BOOTLOADER);
    out
}

/// The receiving side of the protocol. It holds at most one payload, and
/// never more than `MAX_FRAME_BYTES` of it.
pub struct Receiver {
    in_frame: bool,
    header: FrameHeader,
    buffer: Vec<u8>,
}

impl Receiver {
    /// The receiver as plain values.
    pub closed spec fn view(&self) -> ReceiverState {
        ReceiverState { in_frame: self.in_frame, header: self.header, buffer: self.buffer@ }
    }

    /// A receiver that has seen no chunk.
    pub fn new() -> (r: Self)
        ensures
            r@ == initial_state(),
            well_formed(r@),
    {
        Receiver {
            in_frame: false,
            header: FrameHeader { width: 0, height: 0, x: 0, y: 0 },
            buffer: Vec::new(),
        }
    }

    /// The number of payload bytes held.
    pub fn buffered(&self) -> (n: usize)
        ensures
            n == self@.buffer.len(),
    {
        self.buffer.len()
    }

    /// Whether a frame has been opened and not yet closed.
    pub fn in_frame(&self) -> (b: bool)
        ensures
            b == self@.in_frame,
    {
        self.in_frame
    }

    /// Takes one chunk from the transport and says what it asks for.
    pub fn on_chunk(&mut self, chunk: &[u8]) -> (action: Action)
        requires
            well_formed(old(self)@),
        ensures
            well_formed(final(self)@),
            final(self)@ == step(old(self)@, chunk@).0,
            action@ == step(old(self)@, chunk@).1,
    {
        match classify_chunk(chunk) {
            ChunkKind::FrameStart(h) => {
                self.in_frame = true;
                self.header = h;
                self.buffer.clear();
                Action::Continue
            },
            ChunkKind::FrameEnd => {
                if self.in_frame {
                    let mut payload: Vec<u8> = Vec::new();
                    core::mem::swap(&mut payload, &mut self.buffer);
                    self.in_frame = false;
                    Action::Deliver(Frame { payload, header: self.header })
                } else {
                    Action::Continue
                }
            },
            ChunkKind::Reboot => {
                self.in_frame = false;
                self.header = FrameHeader { width: 0, height: 0, x: 0, y: 0 };
                self.buffer.clear();
                Action::Reboot
            },
            ChunkKind::Data => {
                let room: usize = MAX_FRAME_BYTES - self.buffer.len();
                if chunk.len() <= room {
                    self.buffer.extend_from_slice(chunk);
                    assert(self.buffer@ =~= old(self)@.buffer + chunk@);
                } else if room > 0 {
                    self.buffer.extend_from_slice(vstd::slice::slice_subrange(chunk, 0, room));
                    assert(self.buffer@ =~= old(self)@.buffer + chunk@.subrange(0, room as int));
                }
                Action::Continue
            },
        }
    }
}

/// The bytes of the three markers, most significant first.
proof fn lemma_marker_bytes()
    ensures
        be64_bytes(FRAME_START) == seq![0x69u8, 0x6d, 0x61, 0x67, 0x65, 0x5f, 0x61, 0x61],
        be64_bytes(FRAME_END) == seq![0x69u8, 0x6d, 0x61, 0x67, 0x65, 0x5f, 0x62, 0x62],
        be64_bytes(REBOOT_TO_BOOTLOADER) == seq![0x62u8, 0x6f, 0x6f, 0x74, 0x5f, 0x75, 0x73, 0x62],
{
    assert(7596835243154170209u64 == 0x696d_6167_655f_6161u64) by (bit_vector);
    assert(7596835243154170466u64 == 0x696d_6167_655f_6262u64) by (bit_vector);
    assert(7093010483740242786u64 == 0x626f_6f74_5f75_7362u64) by (bit_vector);
    assert(be64_bytes(0x696d_6167_655f_6161u64) =~= seq![
        0x69u8,
        0x6d,
        0x61,
        0x67,
        0x65,
        0x5f,
        0x61,
        0x61,
    ]);
    assert(be64_bytes(0x696d_6167_655f_6262u64) =~= seq![
        0x69u8,
        0x6d,
        0x61,
        0x67,
        0x65,
        0x5f,
        0x62,
        0x62,
    ]);
    assert(be64_bytes(0x626f_6f74_5f75_7362u64) =~= seq![
        0x62u8,
        0x6f,
        0x6f,
        0x74,
        0x5f,
        0x75,
        0x73,
        0x62,
    ]);
}

/// The chunks that a sender builds are read back as what they were built
/// for, with the header unchanged.
pub proof fn lemma_markers_classify(h: FrameHeader)
    ensures
        classify(frame_start_bytes(h)) == ChunkKind::FrameStart(h),
        classify(frame_end_bytes()) == ChunkKind::FrameEnd,
        classify(reboot_bytes()) == ChunkKind::Reboot,
{
    lemma_marker_bytes();
    let s = frame_start_bytes(h);
    let m = be64_bytes(FRAME_START);
    assert(s =~= seq![
        m[0],
        m[1],
        m[2],
        m[3],
        m[4],
        m[5],
        m[6],
        m[7],
        (h.width / 256) as u8,
        (h.width % 256) as u8,
        (h.height / 256) as u8,
        (h.height % 256) as u8,
        (h.x / 256) as u8,
        (h.x % 256) as u8,
        (h.y / 256) as u8,
        (h.y % 256) as u8,
    ]);
    assert(be64(s) == FRAME_START);
    assert(header_of(s) == h);
    assert(be64(frame_end_bytes()) == FRAME_END);
    assert(be64(reboot_bytes()) == REBOOT_TO_BOOTLOADER);
}

/// Whatever arrives, the buffer stays within its bound.
pub proof fn lemma_step_keeps_bound(s: ReceiverState, chunk: Seq<u8>)
    requires
        well_formed(s),
    ensures
        well_formed(step(s, chunk).0),
{
}

/// Payload chunks that fit are gathered in order, and nothing else changes.
pub proof fn lemma_payload_accumulates(s: ReceiverState, chunks: Seq<Seq<u8>>)
    requires
        forall|i: int| 0 <= i < chunks.len() ==> classify(#[trigger] chunks[i]) == ChunkKind::Data,
        s.buffer.len() + concat(chunks).len() <= MAX_FRAME_BYTES,
    ensures
        run(s, chunks) == (ReceiverState {
            in_frame: s.in_frame,
            header: s.header,
            buffer: s.buffer + concat(chunks),
        }),
    decreases chunks.len(),
{
    if chunks.len() == 0 {
        assert(s.buffer + concat(chunks) =~= s.buffer);
    } else {
        let front = chunks.drop_last();
        assert forall|i: int| 0 <= i < front.len() implies classify(#[trigger] front[i])
            == ChunkKind::Data by {
            assert(front[i] == chunks[i]);
        }
        lemma_payload_accumulates(s, front);
        assert(classify(chunks.last()) == ChunkKind::Data);
        assert((s.buffer + concat(front)) + chunks.last() =~= s.buffer + concat(chunks));
    }
}

/// A frame sent as start chunk, payload chunks and end chunk is delivered
/// exactly as sent, whatever the receiver held before: the start marker
/// clears what was there, so no bytes of an earlier frame are mixed in.
///
/// This holds of payloads within `MAX_FRAME_BYTES` whose chunks do not
/// themselves begin with a marker.
pub proof fn lemma_frame_delivered(before: ReceiverState, h: FrameHeader, chunks: Seq<Seq<u8>>)
    requires
        forall|i: int| 0 <= i < chunks.len() ==> classify(#[trigger] chunks[i]) == ChunkKind::Data,
        concat(chunks).len() <= MAX_FRAME_BYTES,
    ensures
        ({
            let opened = step(before, frame_start_bytes(h)).0;
            let filled = run(opened, chunks);
            let closed = step(filled, frame_end_bytes());
            &&& opened.buffer == Seq::<u8>::empty()
            &&& closed.1 == Outcome::Deliver(FrameView { payload: concat(chunks), header: h })
            &&& !closed.0.in_frame
            &&& closed.0.buffer == Seq::<u8>::empty()
        }),
{
    lemma_markers_classify(h);
    let opened = step(before, frame_start_bytes(h)).0;
    lemma_payload_accumulates(opened, chunks);
    assert(opened.buffer + concat(chunks) =~= concat(chunks));
}

/// The reboot marker ends everything at once, in the middle of a frame too:
/// the outcome is the reboot, what was gathered is gone, and an end marker
/// that still arrives delivers nothing.
pub proof fn lemma_reboot_discards(before: ReceiverState)
    ensures
        step(before, reboot_bytes()) == (initial_state(), Outcome::Reboot),
        step(step(before, reboot_bytes()).0, frame_end_bytes()).1 == Outcome::Continue,
{
    lemma_markers_classify(FrameHeader { width: 0, height: 0, x: 0, y: 0 });
}

/// An end marker with no frame open changes nothing.
pub proof fn lemma_stray_end_ignored(s: ReceiverState)
    requires
        !s.in_frame,
    ensures
        step(s, frame_end_bytes()) == (s, Outcome::Continue),
{
    lemma_markers_classify(FrameHeader { width: 0, height: 0, x: 0, y: 0 });
}

} // verus!
