//! The sending side: an image becomes the three transfers of a frame.

use vstd::prelude::*;
use crate::bytes::words_be;
use crate::codec::{decoded_payload, encode_payload, lz4_encoded, DecodeError, EncodeError};
use crate::pipeline::{prepared, DecodeMode};
use crate::protocol::{
    classify,
    concat,
    frame_end_bytes,
    frame_end_packet,
    frame_start_bytes,
    frame_start_packet,
    lemma_frame_delivered,
    run,
    step,
    ChunkKind,
    FrameHeader,
    FrameView,
    Outcome,
    ReceiverState,
    MAX_FRAME_BYTES,
};
use crate::render::expanded;
use crate::rgb565::{rgb565, rgb888_pixels, rgb888_to_rgb565_be, rgb_to_rgb565};

verus! {

/// The bulk endpoint to which frames are written.
pub const BULK_OUT_EP: u8 = 0x01;

/// The bulk endpoint that is reserved for answers.
pub const BULK_IN_EP: u8 = 0x81;

/// The baud rate of the virtual serial port.
pub const SERIAL_BAUD: u32 = 115_200;

/// The bytes with which the serial number of a screen begins.
pub open spec fn serial_prefix() -> Seq<u8> {
    seq![0x55u8, 0x53, 0x42, 0x53, 0x43, 0x52]
}

/// Tells whether a device with this serial number is a screen: whether the
/// number begins with `USBSCR`.
pub fn is_screen_serial(serial: &[u8]) -> (b: bool)
    ensures
        b == (serial@.len() >= 6 && serial@.subrange(0, 6) == serial_prefix()),
{
    if serial.len() < 6 {
        return false;
    }
    let b: bool = serial[0] == 0x55 && serial[1] == 0x53 && serial[2] == 0x42 && serial[3] == 0x53
        && serial[4] == 0x43 && serial[5] == 0x52;
    proof {
        let head = serial@.subrange(0, 6);
        if b {
            assert(head =~= serial_prefix());
        } else {
            assert(head[0] == serial@[0] && head[1] == serial@[1] && head[2] == serial@[2]
                && head[3] == serial@[3] && head[4] == serial@[4] && head[5] == serial@[5]);
        }
    }
    b
}

/// The three transfers that carry one frame, in the order in which they are
/// sent.
#[derive(Debug)]
pub struct Transfers {
    /// The start marker and the header.
    pub start: Vec<u8>,
    /// The compressed pixels behind their length.
    pub payload: Vec<u8>,
    /// The end marker.
    pub end: Vec<u8>,
}

/// `count` pixels of one colour.
pub open spec fn solid(color: u16, count: int) -> Seq<u16> {
    Seq::new(count as nat, |i: int| color)
}

/// Whether the transfers carry `pixels` to the place that `header` names.
pub open spec fn carries(t: Transfers, header: FrameHeader, pixels: Seq<u8>) -> bool {
    &&& t.start@ == frame_start_bytes(header)
    &&& t.payload@ == lz4_encoded(pixels)
    &&& decoded_payload(t.payload@) == Ok::<Seq<u8>, DecodeError>(pixels)
    &&& t.end@ == frame_end_bytes()
}

/// Builds the transfers for pixel bytes that are already in wire order.
/// More than `MAX_FRAME_BYTES` of them are refused.
pub fn encode_frame(rgb565: &[u8], header: FrameHeader) -> (r: Result<Transfers, EncodeError>)
    ensures
        r is Err <==> rgb565@.len() > MAX_FRAME_BYTES,
        r matches Err(e) ==> e == EncodeError::TooLarge,
        r matches Ok(t) ==> carries(t, header, rgb565@),
{
    match encode_payload(rgb565) {
        Ok(payload) => Ok(
            Transfers { start: frame_start_packet(header), payload, end: frame_end_packet() },
        ),
        Err(e) => Err(e),
    }
}

/// Builds the transfers for a packed RGB888 image of `width` by `height`
/// pixels, to be shown with its top left corner at `(x, y)`. Image data of
/// another size than `width * height` pixels is refused, and so is an
/// image of more than `MAX_FRAME_BYTES` on the wire.
pub fn encode_rgb_image(x: u16, y: u16, rgb888: &[u8], width: u16, height: u16) -> (r: Result<
    Transfers,
    EncodeError,
>)
    ensures
        rgb888@.len() != 3 * (width * height) ==> r == Err::<Transfers, EncodeError>(
            EncodeError::SizeMismatch,
        ),
        rgb888@.len() == 3 * (width * height) && 2 * (width * height) > MAX_FRAME_BYTES ==> r
            == Err::<Transfers, EncodeError>(EncodeError::TooLarge),
        rgb888@.len() == 3 * (width * height) && 2 * (width * height) <= MAX_FRAME_BYTES ==> r is Ok
            && carries(
            r->Ok_0,
            FrameHeader { width, height, x, y },
            words_be(rgb888_pixels(rgb888@)),
        ),
{
    assert(0 <= width * height <= 0xffff * 0xffff) by (nonlinear_arith)
        requires
            0 <= width <= 0xffff,
            0 <= height <= 0xffff,
    ;
    let pixels: u64 = (width as u64) * (height as u64);
    if rgb888.len() as u64 != 3 * pixels {
        return Err(EncodeError::SizeMismatch);
    }
    let wire: Vec<u8> = rgb888_to_rgb565_be(rgb888);
    encode_frame(wire.as_slice(), FrameHeader { width, height, x, y })
}

/// Builds the transfers that fill a `width` by `height` rectangle at the
/// top left of the panel with one colour.
pub fn encode_solid(r: u8, g: u8, b: u8, width: u16, height: u16) -> (res: Result<
    Transfers,
    EncodeError,
>)
    ensures
        res is Err <==> 2 * (width * height) > MAX_FRAME_BYTES,
        res matches Err(e) ==> e == EncodeError::TooLarge,
        res matches Ok(t) ==> carries(
            t,
            FrameHeader { width, height, x: 0, y: 0 },
            words_be(solid(rgb565(r, g, b), width * height)),
        ),
{
    assert(0 <= width * height <= 0xffff * 0xffff) by (nonlinear_arith)
        requires
            0 <= width <= 0xffff,
            0 <= height <= 0xffff,
    ;
    let pixels: u64 = (width as u64) * (height as u64);
    if pixels > (MAX_FRAME_BYTES / 2) as u64 {
        return Err(EncodeError::TooLarge);
    }
    let color: u16 = rgb_to_rgb565(r, g, b);
    let count: usize = pixels as usize;
    let mut wire: Vec<u8> = Vec::new();
    let mut i: usize = 0;
    while i < count
        invariant
            i <= count,
            count <= MAX_FRAME_BYTES / 2,
            wire@ == words_be(solid(color, i as int)),
        decreases count - i,
    {
        wire.push((color / 256) as u8);
        wire.push((color % 256) as u8);
        i += 1;
        assert(wire@ =~= words_be(solid(color, i as int)));
    }
    encode_frame(wire.as_slice(), FrameHeader { width, height, x: 0, y: 0 })
}

/// What is sent is what is drawn. Take pixel bytes and the payload that
/// the sender built for them. Let the start chunk, the payload cut into
/// chunks in any way, and the end chunk reach a receiver in any state.
/// Then exactly one frame comes out, at the end chunk, with the header
/// that was sent; and whichever side expands it, the pixel bytes drawn
/// are the ones that were sent, byte for byte.
///
/// This holds of payloads within `MAX_FRAME_BYTES` whose chunks do not
/// themselves begin with a marker.
pub proof fn lemma_sent_frame_is_drawn(
    before: ReceiverState,
    header: FrameHeader,
    pixels: Seq<u8>,
    payload: Seq<u8>,
    chunks: Seq<Seq<u8>>,
)
    requires
        decoded_payload(payload) == Ok::<Seq<u8>, DecodeError>(pixels),
        concat(chunks) == payload,
        payload.len() <= MAX_FRAME_BYTES,
        forall|i: int| 0 <= i < chunks.len() ==> classify(#[trigger] chunks[i]) == ChunkKind::Data,
    ensures
        ({
            let opened = step(before, frame_start_bytes(header));
            let closed = step(run(opened.0, chunks), frame_end_bytes());
            let sent = FrameView { payload, header };
            let drawn = FrameView { payload: pixels, header };
            &&& opened.1 == Outcome::Continue
            &&& closed.1 == Outcome::Deliver(sent)
            &&& prepared(DecodeMode::OnReceive, sent) == Ok::<FrameView, DecodeError>(drawn)
            &&& expanded(DecodeMode::OnRender, prepared(DecodeMode::OnRender, sent)->Ok_0) == Ok::<
                FrameView,
                DecodeError,
            >(drawn)
        }),
{
    lemma_frame_delivered(before, header, chunks);
    crate::protocol::lemma_markers_classify(header);
}

} // verus!
