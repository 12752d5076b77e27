//! The ST7735 panel controller: its instructions, its orientations, and the
//! byte streams that set it up and fill it.

use vstd::prelude::*;
use crate::bytes::{be16_bytes, words_be};
use crate::chunks::{chunk_bytes, chunks_closed, writes_view};
use crate::panel::{visible, Panel};

verus! {

/// The bytes of one write of buffered pixel data.
pub const WRITE_SIZE: usize = 32;

/// ST7735 instructions.
#[derive(Debug, Clone, Copy, PartialEq, Eq, Structural)]
pub enum Instruction {
    NOP,
    SWRESET,
    RDDID,
    RDDST,
    SLPIN,
    SLPOUT,
    PTLON,
    NORON,
    INVOFF,
    INVON,
    DISPOFF,
    DISPON,
    CASET,
    RASET,
    RAMWR,
    RAMRD,
    PTLAR,
    COLMOD,
    MADCTL,
    FRMCTR1,
    FRMCTR2,
    FRMCTR3,
    INVCTR,
    DISSET5,
    PWCTR1,
    PWCTR2,
    PWCTR3,
    PWCTR4,
    PWCTR5,
    VMCTR1,
    RDID1,
    RDID2,
    RDID3,
    RDID4,
    PWCTR6,
    GMCTRP1,
    GMCTRN1,
}

impl Instruction {
    /// The command byte of the instruction.
    pub open spec fn spec_code(self) -> u8 {
        match self {
            Instruction::NOP => 0x00,
            Instruction::SWRESET => 0x01,
            Instruction::RDDID => 0x04,
            Instruction::RDDST => 0x09,
            Instruction::SLPIN => 0x10,
            Instruction::SLPOUT => 0x11,
            Instruction::PTLON => 0x12,
            Instruction::NORON => 0x13,
            Instruction::INVOFF => 0x20,
            Instruction::INVON => 0x21,
            Instruction::DISPOFF => 0x28,
            Instruction::DISPON => 0x29,
            Instruction::CASET => 0x2A,
            Instruction::RASET => 0x2B,
            Instruction::RAMWR => 0x2C,
            Instruction::RAMRD => 0x2E,
            Instruction::PTLAR => 0x30,
            Instruction::COLMOD => 0x3A,
            Instruction::MADCTL => 0x36,
            Instruction::FRMCTR1 => 0xB1,
            Instruction::FRMCTR2 => 0xB2,
            Instruction::FRMCTR3 => 0xB3,
            Instruction::INVCTR => 0xB4,
            Instruction::DISSET5 => 0xB6,
            Instruction::PWCTR1 => 0xC0,
            Instruction::PWCTR2 => 0xC1,
            Instruction::PWCTR3 => 0xC2,
            Instruction::PWCTR4 => 0xC3,
            Instruction::PWCTR5 => 0xC4,
            Instruction::VMCTR1 => 0xC5,
            Instruction::RDID1 => 0xDA,
            Instruction::RDID2 => 0xDB,
            Instruction::RDID3 => 0xDC,
            Instruction::RDID4 => 0xDD,
            Instruction::PWCTR6 => 0xFC,
            Instruction::GMCTRP1 => 0xE0,
            Instruction::GMCTRN1 => 0xE1,
        }
    }

    /// The command byte of the instruction.
    #[verifier::when_used_as_spec(spec_code)]
    pub fn code(self) -> (b: u8)
        ensures
            b == self.spec_code(),
    {
        match self {
            Instruction::NOP => 0x00,
            Instruction::SWRESET => 0x01,
            Instruction::RDDID => 0x04,
            Instruction::RDDST => 0x09,
            Instruction::SLPIN => 0x10,
            Instruction::SLPOUT => 0x11,
            Instruction::PTLON => 0x12,
            Instruction::NORON => 0x13,
            Instruction::INVOFF => 0x20,
            Instruction::INVON => 0x21,
            Instruction::DISPOFF => 0x28,
            Instruction::DISPON => 0x29,
            Instruction::CASET => 0x2A,
            Instruction::RASET => 0x2B,
            Instruction::RAMWR => 0x2C,
            Instruction::RAMRD => 0x2E,
            Instruction::PTLAR => 0x30,
            Instruction::COLMOD => 0x3A,
            Instruction::MADCTL => 0x36,
            Instruction::FRMCTR1 => 0xB1,
            Instruction::FRMCTR2 => 0xB2,
            Instruction::FRMCTR3 => 0xB3,
            Instruction::INVCTR => 0xB4,
            Instruction::DISSET5 => 0xB6,
            Instruction::PWCTR1 => 0xC0,
            Instruction::PWCTR2 => 0xC1,
            Instruction::PWCTR3 => 0xC2,
            Instruction::PWCTR4 => 0xC3,
            Instruction::PWCTR5 => 0xC4,
            Instruction::VMCTR1 => 0xC5,
            Instruction::RDID1 => 0xDA,
            Instruction::RDID2 => 0xDB,
            Instruction::RDID3 => 0xDC,
            Instruction::RDID4 => 0xDD,
            Instruction::PWCTR6 => 0xFC,
            Instruction::GMCTRP1 => 0xE0,
            Instruction::GMCTRN1 => 0xE1,
        }
    }
}

/// Display orientation.
#[derive(Debug, Clone, Copy, PartialEq, Eq, Structural)]
pub enum Orientation {
    Portrait,
    Landscape,
    PortraitSwapped,
    LandscapeSwapped,
}

impl Orientation {
    /// The memory-access-control byte that selects the orientation.
    pub open spec fn spec_madctl(self) -> u8 {
        match self {
            Orientation::Portrait => 0x00,
            Orientation::Landscape => 0x60,
            Orientation::PortraitSwapped => 0xC0,
            Orientation::LandscapeSwapped => 0xA0,
        }
    }

    /// The memory-access-control byte that selects the orientation.
    #[verifier::when_used_as_spec(spec_madctl)]
    pub fn madctl(self) -> (b: u8)
        ensures
            b == self.spec_madctl(),
    {
        match self {
            Orientation::Portrait => 0x00,
            Orientation::Landscape => 0x60,
            Orientation::PortraitSwapped => 0xC0,
            Orientation::LandscapeSwapped => 0xA0,
        }
    }
}

/// One step on the panel's bus and lines.
#[derive(Debug)]
pub enum BusOp {
    /// A command byte, written with the data/command line low.
    Command(u8),
    /// Data bytes, written with the data/command line high.
    Data(Vec<u8>),
    /// A pause of so many milliseconds.
    DelayMs(u64),
    /// The reset line goes high.
    ResetHigh,
    /// The reset line goes low.
    ResetLow,
}

/// One step on the panel's bus and lines, as plain values.
pub enum BusOpView {
    Command(u8),
    Data(Seq<u8>),
    DelayMs(u64),
    ResetHigh,
    ResetLow,
}

impl BusOp {
    /// The step as plain values.
    pub open spec fn view(&self) -> BusOpView {
        match self {
            BusOp::Command(c) => BusOpView::Command(*c),
            BusOp::Data(d) => BusOpView::Data(d@),
            BusOp::DelayMs(ms) => BusOpView::DelayMs(*ms),
            BusOp::ResetHigh => BusOpView::ResetHigh,
            BusOp::ResetLow => BusOpView::ResetLow,
        }
    }
}

/// The steps as plain values.
pub open spec fn ops_view(ops: Seq<BusOp>) -> Seq<BusOpView> {
    Seq::new(ops.len(), |i: int| ops[i]@)
}

/// The steps of a command: its byte, and its parameters if it has any.
pub open spec fn command(instruction: Instruction, params: Seq<u8>) -> Seq<BusOpView> {
    if params.len() == 0 {
        seq![BusOpView::Command(instruction.spec_code())]
    } else {
        seq![BusOpView::Command(instruction.spec_code()), BusOpView::Data(params)]
    }
}

/// The step that writes one 16-bit word, most significant byte first.
pub open spec fn word(value: u16) -> Seq<BusOpView> {
    seq![BusOpView::Data(be16_bytes(value))]
}

/// The steps of a hardware reset: the line goes high, low and high again
/// with ten milliseconds in between. Without a reset line there are none.
pub open spec fn reset_steps(has_reset: bool) -> Seq<BusOpView> {
    if has_reset {
        seq![
            BusOpView::ResetHigh,
            BusOpView::DelayMs(10),
            BusOpView::ResetLow,
            BusOpView::DelayMs(10),
            BusOpView::ResetHigh,
        ]
    } else {
        Seq::empty()
    }
}

/// The steps that bring the panel up.
pub open spec fn init_steps(rgb: bool, inverted: bool, has_reset: bool) -> Seq<BusOpView> {
    reset_steps(has_reset) + command(Instruction::SWRESET, seq![]) + seq![BusOpView::DelayMs(200)]
        + command(Instruction::SLPOUT, seq![]) + seq![BusOpView::DelayMs(200)] + command(
        Instruction::FRMCTR1,
        seq![0x01, 0x2C, 0x2D],
    ) + command(Instruction::FRMCTR2, seq![0x01, 0x2C, 0x2D]) + command(
        Instruction::FRMCTR3,
        seq![0x01, 0x2C, 0x2D, 0x01, 0x2C, 0x2D],
    ) + command(Instruction::INVCTR, seq![0x07]) + command(
        Instruction::PWCTR1,
        seq![0xA2, 0x02, 0x84],
    ) + command(Instruction::PWCTR2, seq![0xC5]) + command(Instruction::PWCTR3, seq![0x0A, 0x00])
        + command(Instruction::PWCTR4, seq![0x8A, 0x2A]) + command(
        Instruction::PWCTR5,
        seq![0x8A, 0xEE],
    ) + command(Instruction::VMCTR1, seq![0x0E]) + command(
        if inverted {
            Instruction::INVON
        } else {
            Instruction::INVOFF
        },
        seq![],
    ) + command(
        Instruction::MADCTL,
        seq![
            if rgb {
                0x00u8
            } else {
                0x08u8
            },
        ],
    ) + command(Instruction::COLMOD, seq![0x05]) + command(Instruction::DISPON, seq![]) + seq![
        BusOpView::DelayMs(200),
    ]
}

/// The memory-access-control byte for an orientation and a colour order.
pub open spec fn madctl_byte(rgb: bool, orientation: Orientation) -> u8 {
    if rgb {
        orientation.spec_madctl()
    } else {
        orientation.spec_madctl() | 0x08
    }
}

/// The steps that set the window of the panel that is written next: the
/// first and last column, then the first and last row, each moved by the
/// panel's offset.
pub open spec fn window_steps(dx: u16, dy: u16, sx: u16, sy: u16, ex: u16, ey: u16) -> Seq<
    BusOpView,
> {
    command(Instruction::CASET, seq![]) + word((sx + dx) as u16) + word((ex + dx) as u16)
        + command(Instruction::RASET, seq![]) + word((sy + dy) as u16) + word((ey + dy) as u16)
}

/// The steps that write pixels one word at a time.
pub open spec fn word_steps(colors: Seq<u16>) -> Seq<BusOpView> {
    Seq::new(colors.len(), |i: int| BusOpView::Data(be16_bytes(colors[i])))
}

/// Appends one step.
fn push_op(ops: &mut Vec<BusOp>, op: BusOp)
    ensures
        ops_view(final(ops)@) == ops_view(old(ops)@).push(op@),
{
    ops.push(op);
    assert(ops_view(ops@) =~= ops_view(old(ops)@).push(op@));
}

/// Appends the steps of a command.
pub fn write_command(ops: &mut Vec<BusOp>, instruction: Instruction, params: &[u8])
    ensures
        ops_view(final(ops)@) == ops_view(old(ops)@) + command(instruction, params@),
{
    push_op(ops, BusOp::Command(instruction.code()));
    if params.len() > 0 {
        push_op(ops, BusOp::Data(vstd::slice::slice_to_vec(params)));
        assert(ops_view(ops@) =~= ops_view(old(ops)@) + command(instruction, params@));
    } else {
        assert(ops_view(ops@) =~= ops_view(old(ops)@) + command(instruction, params@));
    }
}

/// Appends the step that writes one word.
pub fn write_word(ops: &mut Vec<BusOp>, value: u16)
    ensures
        ops_view(final(ops)@) == ops_view(old(ops)@) + word(value),
{
    let mut bytes: Vec<u8> = Vec::new();
    bytes.push((value / 256) as u8);
    bytes.push((value % 256) as u8);
    assert(bytes@ =~= be16_bytes(value));
    push_op(ops, BusOp::Data(bytes));
    assert(ops_view(ops@) =~= ops_view(old(ops)@) + word(value));
}

/// Appends a pause.
fn delay(ops: &mut Vec<BusOp>, ms: u64)
    ensures
        ops_view(final(ops)@) == ops_view(old(ops)@) + seq![BusOpView::DelayMs(ms)],
{
    push_op(ops, BusOp::DelayMs(ms));
    assert(ops_view(ops@) =~= ops_view(old(ops)@) + seq![BusOpView::DelayMs(ms)]);
}

/// Pixel data on its way to the panel: the steps that say where it goes,
/// and the writes of the data itself.
#[derive(Debug)]
pub struct Burst {
    pub setup: Vec<BusOp>,
    pub writes: Vec<Vec<u8>>,
}

/// Whether the burst has these steps and carries these pixel words, cut
/// into writes of `WRITE_SIZE` bytes and one closing write.
pub open spec fn burst_is(burst: Burst, setup: Seq<BusOpView>, colors: Seq<u16>) -> bool {
    ops_view(burst.setup@) == setup && chunks_closed(
        writes_view(burst.writes@),
        words_be(colors),
        WRITE_SIZE as int,
    )
}

/// The words as bytes, most significant byte first, cut into writes of
/// `WRITE_SIZE` and one closing write that holds what is left over.
pub fn write_words_buffered(words: &[u16]) -> (writes: Vec<Vec<u8>>)
    ensures
        chunks_closed(writes_view(writes@), words_be(words@), WRITE_SIZE as int),
{
    let bytes: Vec<u8> = crate::st7789::interface::be_bytes(words);
    chunk_bytes(bytes.as_slice(), WRITE_SIZE, true)
}

/// The rows of an image of `len` pixels in rows of `width`: the last one
/// may be shorter than the others.
pub open spec fn image_rows(len: int, width: int) -> int {
    (len + width - 1) / width
}

/// The pixels in row `k` of such an image.
pub open spec fn row_len(len: int, width: int, k: int) -> int {
    if (k + 1) * width <= len {
        width
    } else {
        len - k * width
    }
}

/// The pixels of row `k` that are drawn when the image is placed at column
/// `x` of a panel `columns` wide: those that lie before the right edge.
pub open spec fn row_drawn(image: Seq<u16>, width: int, x: int, columns: int, k: int) -> Seq<u16> {
    image.subrange(k * width, k * width + visible(x, row_len(image.len() as int, width, k), columns))
}

/// `count` pixels of one colour.
pub open spec fn solid_row(color: u16, count: int) -> Seq<u16> {
    Seq::new(count as nat, |i: int| color)
}

/// So many whole rows and a part of one more make that many rows and one.
proof fn lemma_image_rows(len: int, width: int, k: int)
    requires
        width > 0,
        0 <= k,
        k * width >= len,
        k > 0 ==> (k - 1) * width < len,
        k == 0 ==> len == 0,
    ensures
        image_rows(len, width) == k,
{
    if k == 0 {
        assert((width - 1) / width == 0) by (nonlinear_arith)
            requires
                width > 0,
        ;
    } else {
        assert((len + width - 1) / width == k) by (nonlinear_arith)
            requires
                width > 0,
                (k - 1) * width < len,
                len <= k * width,
        ;
    }
}

/// What the driver knows of its panel.
#[derive(Clone, Copy, Debug, PartialEq, Eq, Structural)]
pub struct ST7735 {
    /// Whether a reset line is connected.
    has_reset: bool,
    /// Whether the display is RGB (true) or BGR (false)
    rgb: bool,
    /// Whether the colours are inverted (true) or not (false)
    inverted: bool,
    /// Global image offset
    dx: u16,
    dy: u16,
    width: u16,
    height: u16,
    orientation: Orientation,
}

impl ST7735 {
    /// The addressable area in the orientation that was set: in the two
    /// landscape orientations columns and rows change places.
    pub closed spec fn panel(&self) -> Panel {
        match self.orientation {
            Orientation::Portrait | Orientation::PortraitSwapped => Panel {
                width: self.width,
                height: self.height,
            },
            Orientation::Landscape | Orientation::LandscapeSwapped => Panel {
                width: self.height,
                height: self.width,
            },
        }
    }

    /// The offset of the image on the panel's memory.
    pub closed spec fn offset(&self) -> (u16, u16) {
        (self.dx, self.dy)
    }

    /// Whether the display is RGB.
    pub closed spec fn rgb(&self) -> bool {
        self.rgb
    }

    /// Whether the colours are inverted.
    pub closed spec fn inverted(&self) -> bool {
        self.inverted
    }

    /// Whether a reset line is connected.
    pub closed spec fn has_reset(&self) -> bool {
        self.has_reset
    }

    /// The orientation that was set last.
    pub closed spec fn orientation(&self) -> Orientation {
        self.orientation
    }

    /// Every address on the panel, moved by the offset, fits in 16 bits.
    pub open spec fn wf(&self) -> bool {
        &&& self.panel().width + self.offset().0 <= 0x1_0000
        &&& self.panel().height + self.offset().1 <= 0x1_0000
    }

    /// A driver state for a panel of `width` by `height` pixels, upright
    /// and without offset.
    pub fn new(has_reset: bool, rgb: bool, inverted: bool, width: u16, height: u16) -> (d: Self)
        ensures
            d.wf(),
            d.panel() == (Panel { width, height }),
            d.offset() == (0u16, 0u16),
            d.rgb() == rgb,
            d.inverted() == inverted,
            d.has_reset() == has_reset,
            d.orientation() == Orientation::Portrait,
    {
        ST7735 {
            has_reset,
            rgb,
            inverted,
            dx: 0,
            dy: 0,
            width,
            height,
            orientation: Orientation::Portrait,
        }
    }

    /// The addressable area in the orientation that was set.
    pub fn area(&self) -> (p: Panel)
        ensures
            p == self.panel(),
    {
        match self.orientation {
            Orientation::Portrait | Orientation::PortraitSwapped => Panel {
                width: self.width,
                height: self.height,
            },
            Orientation::Landscape | Orientation::LandscapeSwapped => Panel {
                width: self.height,
                height: self.width,
            },
        }
    }

    /// The steps of a hardware reset.
    pub fn hard_reset(&self) -> (ops: Vec<BusOp>)
        ensures
            ops_view(ops@) == reset_steps(self.has_reset()),
    {
        let mut ops: Vec<BusOp> = Vec::new();
        if self.has_reset {
            push_op(&mut ops, BusOp::ResetHigh);
            push_op(&mut ops, BusOp::DelayMs(10));
            push_op(&mut ops, BusOp::ResetLow);
            push_op(&mut ops, BusOp::DelayMs(10));
            push_op(&mut ops, BusOp::ResetHigh);
        }
        assert(ops_view(ops@) =~= reset_steps(self.has_reset()));
        ops
    }

    /// Runs commands to initialize the display.
    pub fn init(&self) -> (ops: Vec<BusOp>)
        ensures
            ops_view(ops@) == init_steps(self.rgb(), self.inverted(), self.has_reset()),
    {
        let rate: [u8; 3] = [0x01, 0x2C, 0x2D];
        let rates: [u8; 6] = [0x01, 0x2C, 0x2D, 0x01, 0x2C, 0x2D];
        let invctr: [u8; 1] = [0x07];
        let power1: [u8; 3] = [0xA2, 0x02, 0x84];
        let power2: [u8; 1] = [0xC5];
        let power3: [u8; 2] = [0x0A, 0x00];
        let power4: [u8; 2] = [0x8A, 0x2A];
        let power5: [u8; 2] = [0x8A, 0xEE];
        let vcom: [u8; 1] = [0x0E];
        let order: [u8; 1] = if self.rgb {
            [0x00]
        } else {
            [0x08]
        };
        let colmod: [u8; 1] = [0x05];
        proof {
            assert(rate@ =~= seq![0x01u8, 0x2C, 0x2D]);
            assert(rates@ =~= seq![0x01u8, 0x2C, 0x2D, 0x01, 0x2C, 0x2D]);
            assert(invctr@ =~= seq![0x07u8]);
            assert(power1@ =~= seq![0xA2u8, 0x02, 0x84]);
            assert(power2@ =~= seq![0xC5u8]);
            assert(power3@ =~= seq![0x0Au8, 0x00]);
            assert(power4@ =~= seq![0x8Au8, 0x2A]);
            assert(power5@ =~= seq![0x8Au8, 0xEE]);
            assert(vcom@ =~= seq![0x0Eu8]);
            assert(order@ =~= seq![
                if self.rgb {
                    0x00u8
                } else {
                    0x08u8
                },
            ]);
            assert(colmod@ =~= seq![0x05u8]);
        }
        let none: [u8; 0] = [];
        assert(none@ =~= Seq::<u8>::empty());
        let mut ops: Vec<BusOp> = self.hard_reset();
        write_command(&mut ops, Instruction::SWRESET, &none);
        delay(&mut ops, 200);
        write_command(&mut ops, Instruction::SLPOUT, &none);
        delay(&mut ops, 200);
        write_command(&mut ops, Instruction::FRMCTR1, &rate);
        write_command(&mut ops, Instruction::FRMCTR2, &rate);
        write_command(&mut ops, Instruction::FRMCTR3, &rates);
        write_command(&mut ops, Instruction::INVCTR, &invctr);
        write_command(&mut ops, Instruction::PWCTR1, &power1);
        write_command(&mut ops, Instruction::PWCTR2, &power2);
        write_command(&mut ops, Instruction::PWCTR3, &power3);
        write_command(&mut ops, Instruction::PWCTR4, &power4);
        write_command(&mut ops, Instruction::PWCTR5, &power5);
        write_command(&mut ops, Instruction::VMCTR1, &vcom);
        if self.inverted {
            write_command(&mut ops, Instruction::INVON, &none);
        } else {
            write_command(&mut ops, Instruction::INVOFF, &none);
        }
        write_command(&mut ops, Instruction::MADCTL, &order);
        write_command(&mut ops, Instruction::COLMOD, &colmod);
        write_command(&mut ops, Instruction::DISPON, &none);
        delay(&mut ops, 200);
        assert(ops_view(ops@) =~= init_steps(self.rgb(), self.inverted(), self.has_reset()));
        ops
    }

    /// Sets the orientation, and gives the steps that tell the panel.
    pub fn set_orientation(&mut self, orientation: Orientation) -> (ops: Vec<BusOp>)
        requires
            old(self).panel().width + old(self).offset().0 <= 0x1_0000,
            old(self).panel().height + old(self).offset().0 <= 0x1_0000,
            old(self).panel().width + old(self).offset().1 <= 0x1_0000,
            old(self).panel().height + old(self).offset().1 <= 0x1_0000,
        ensures
            final(self).wf(),
            final(self).orientation() == orientation,
            final(self).offset() == old(self).offset(),
            final(self).rgb() == old(self).rgb(),
            final(self).inverted() == old(self).inverted(),
            final(self).has_reset() == old(self).has_reset(),
            ops_view(ops@) == command(
                Instruction::MADCTL,
                seq![madctl_byte(old(self).rgb(), orientation)],
            ),
    {
        self.orientation = orientation;
        let mut ops: Vec<BusOp> = Vec::new();
        let byte: u8 = if self.rgb {
            orientation.madctl()
        } else {
            orientation.madctl() | 0x08
        };
        let params: [u8; 1] = [byte];
        write_command(&mut ops, Instruction::MADCTL, &params);
        assert(params@ =~= seq![byte]);
        assert(Seq::<BusOpView>::empty() + command(Instruction::MADCTL, seq![byte]) =~= command(
            Instruction::MADCTL,
            seq![byte],
        ));
        ops
    }

    /// Sets the global offset of the displayed image
    pub fn set_offset(&mut self, dx: u16, dy: u16)
        requires
            old(self).panel().width + dx <= 0x1_0000,
            old(self).panel().height + dy <= 0x1_0000,
        ensures
            final(self).wf(),
            final(self).offset() == (dx, dy),
            final(self).panel() == old(self).panel(),
            final(self).orientation() == old(self).orientation(),
            final(self).rgb() == old(self).rgb(),
            final(self).inverted() == old(self).inverted(),
            final(self).has_reset() == old(self).has_reset(),
    {
        self.dx = dx;
        self.dy = dy;
    }

    /// Sets the address window for the display.
    pub fn set_address_window(&self, sx: u16, sy: u16, ex: u16, ey: u16) -> (ops: Vec<BusOp>)
        requires
            sx + self.offset().0 <= u16::MAX,
            ex + self.offset().0 <= u16::MAX,
            sy + self.offset().1 <= u16::MAX,
            ey + self.offset().1 <= u16::MAX,
        ensures
            ops_view(ops@) == window_steps(self.offset().0, self.offset().1, sx, sy, ex, ey),
    {
        let mut ops: Vec<BusOp> = Vec::new();
        write_command(&mut ops, Instruction::CASET, &[]);
        write_word(&mut ops, sx + self.dx);
        write_word(&mut ops, ex + self.dx);
        write_command(&mut ops, Instruction::RASET, &[]);
        write_word(&mut ops, sy + self.dy);
        write_word(&mut ops, ey + self.dy);
        assert(ops_view(ops@) =~= window_steps(self.offset().0, self.offset().1, sx, sy, ex, ey));
        ops
    }

    /// Sets a pixel color at the given coords.
    pub fn set_pixel(&self, x: u16, y: u16, color: u16) -> (ops: Vec<BusOp>)
        requires
            x + self.offset().0 <= u16::MAX,
            y + self.offset().1 <= u16::MAX,
        ensures
            ops_view(ops@) == window_steps(self.offset().0, self.offset().1, x, y, x, y) + command(
                Instruction::RAMWR,
                seq![],
            ) + word(color),
    {
        let mut ops: Vec<BusOp> = self.set_address_window(x, y, x, y);
        write_command(&mut ops, Instruction::RAMWR, &[]);
        write_word(&mut ops, color);
        ops
    }

    /// Writes pixel colors sequentially into the current drawing window
    pub fn write_pixels(&self, colors: &[u16]) -> (ops: Vec<BusOp>)
        ensures
            ops_view(ops@) == command(Instruction::RAMWR, seq![]) + word_steps(colors@),
    {
        let mut ops: Vec<BusOp> = Vec::new();
        write_command(&mut ops, Instruction::RAMWR, &[]);
        let n: usize = colors.len();
        let mut i: usize = 0;
        while i < n
            invariant
                i <= n,
                n == colors@.len(),
                ops_view(ops@) == command(Instruction::RAMWR, seq![]) + word_steps(
                    colors@.subrange(0, i as int),
                ),
            decreases n - i,
        {
            write_word(&mut ops, colors[i]);
            i += 1;
            assert(ops_view(ops@) =~= command(Instruction::RAMWR, seq![]) + word_steps(
                colors@.subrange(0, i as int),
            ));
        }
        assert(colors@.subrange(0, n as int) =~= colors@);
        ops
    }

    /// Writes pixel colors into the current drawing window, in writes of
    /// `WRITE_SIZE` bytes.
    pub fn write_pixels_buffered(&self, colors: &[u16]) -> (burst: Burst)
        ensures
            burst_is(burst, command(Instruction::RAMWR, seq![]), colors@),
    {
        let mut setup: Vec<BusOp> = Vec::new();
        write_command(&mut setup, Instruction::RAMWR, &[]);
        assert(ops_view(setup@) =~= command(Instruction::RAMWR, seq![]));
        Burst { setup, writes: write_words_buffered(colors) }
    }

    /// Sets pixel colors at the given drawing window
    pub fn set_pixels(&self, sx: u16, sy: u16, ex: u16, ey: u16, colors: &[u16]) -> (ops: Vec<
        BusOp,
    >)
        requires
            sx + self.offset().0 <= u16::MAX,
            ex + self.offset().0 <= u16::MAX,
            sy + self.offset().1 <= u16::MAX,
            ey + self.offset().1 <= u16::MAX,
        ensures
            ops_view(ops@) == window_steps(self.offset().0, self.offset().1, sx, sy, ex, ey)
                + command(Instruction::RAMWR, seq![]) + word_steps(colors@),
    {
        let mut ops: Vec<BusOp> = self.set_address_window(sx, sy, ex, ey);
        let ghost head = ops_view(ops@);
        write_command(&mut ops, Instruction::RAMWR, &[]);
        let n: usize = colors.len();
        let mut i: usize = 0;
        while i < n
            invariant
                i <= n,
                n == colors@.len(),
                ops_view(ops@) == head + command(Instruction::RAMWR, seq![]) + word_steps(
                    colors@.subrange(0, i as int),
                ),
            decreases n - i,
        {
            write_word(&mut ops, colors[i]);
            i += 1;
            assert(ops_view(ops@) =~= head + command(Instruction::RAMWR, seq![]) + word_steps(
                colors@.subrange(0, i as int),
            ));
        }
        assert(colors@.subrange(0, n as int) =~= colors@);
        ops
    }

    /// Sets pixel colors at the given drawing window, in writes of
    /// `WRITE_SIZE` bytes.
    pub fn set_pixels_buffered(&self, sx: u16, sy: u16, ex: u16, ey: u16, colors: &[u16]) -> (burst:
        Burst)
        requires
            sx + self.offset().0 <= u16::MAX,
            ex + self.offset().0 <= u16::MAX,
            sy + self.offset().1 <= u16::MAX,
            ey + self.offset().1 <= u16::MAX,
        ensures
            burst_is(
                burst,
                window_steps(self.offset().0, self.offset().1, sx, sy, ex, ey) + command(
                    Instruction::RAMWR,
                    seq![],
                ),
                colors@,
            ),
    {
        let mut setup: Vec<BusOp> = self.set_address_window(sx, sy, ex, ey);
        write_command(&mut setup, Instruction::RAMWR, &[]);
        Burst { setup, writes: write_words_buffered(colors) }
    }
    /// The steps of one row of pixels: its window, the write command, and
    /// the row's place on the panel at line `sy` from column `x`.
    pub open spec fn row_setup(&self, x: u16, sy: int, count: int) -> Seq<BusOpView> {
        window_steps(
            self.offset().0,
            self.offset().1,
            x,
            sy as u16,
            (x + count - 1) as u16,
            sy as u16,
        ) + command(Instruction::RAMWR, seq![])
    }

    /// Draws an image of rows `width` wide with its top left corner at
    /// `(x, y)`, row by row. Rows that would lie below the panel are left
    /// out, and so are the pixels of a row past the right edge: nothing is
    /// written outside the panel.
    pub fn draw_image_at(&self, x: u16, y: u16, image: &[u16], width: u16) -> (bursts: Vec<Burst>)
        requires
            self.wf(),
            width > 0,
        ensures
            x >= self.panel().width ==> bursts@.len() == 0,
            x < self.panel().width ==> bursts@.len() == visible(
                y as int,
                image_rows(image@.len() as int, width as int),
                self.panel().height as int,
            ),
            forall|k: int|
                0 <= k < bursts@.len() ==> y + k < self.panel().height && 1 <= (#[trigger] row_drawn(
                    image@,
                    width as int,
                    x as int,
                    self.panel().width as int,
                    k,
                )).len() && x + row_drawn(
                    image@,
                    width as int,
                    x as int,
                    self.panel().width as int,
                    k,
                ).len() <= self.panel().width,
            forall|k: int|
                0 <= k < bursts@.len() ==> burst_is(
                    #[trigger] bursts@[k],
                    self.row_setup(
                        x,
                        y + k,
                        row_drawn(
                            image@,
                            width as int,
                            x as int,
                            self.panel().width as int,
                            k,
                        ).len() as int,
                    ),
                    row_drawn(image@, width as int, x as int, self.panel().width as int, k),
                ),
    {
        let panel: Panel = self.area();
        let mut bursts: Vec<Burst> = Vec::new();
        if x >= panel.width {
            return bursts;
        }
        let len: usize = image.len();
        let w: usize = width as usize;
        let room: usize = (panel.width - x) as usize;
        let mut start: usize = 0;
        let mut k: u16 = 0;
        while start < len && (y as u32) + (k as u32) < panel.height as u32
            invariant
                self.wf(),
                panel == self.panel(),
                x < panel.width,
                room == panel.width - x,
                w == width,
                w > 0,
                len == image@.len(),
                0 <= k,
                y + k <= panel.height || k == 0,
                start <= len,
                start == if k * w <= len {
                    k * w
                } else {
                    len as int
                },
                k > 0 ==> (k - 1) * w < len,
                bursts@.len() == k,
                forall|j: int|
                    0 <= j < bursts@.len() ==> y + j < self.panel().height && 1 <= (#[trigger] row_drawn(
                        image@,
                        width as int,
                        x as int,
                        self.panel().width as int,
                        j,
                    )).len() && x + row_drawn(
                        image@,
                        width as int,
                        x as int,
                        self.panel().width as int,
                        j,
                    ).len() <= self.panel().width,
                forall|j: int|
                    0 <= j < bursts@.len() ==> burst_is(
                        #[trigger] bursts@[j],
                        self.row_setup(
                            x,
                            y + j,
                            row_drawn(
                                image@,
                                width as int,
                                x as int,
                                self.panel().width as int,
                                j,
                            ).len() as int,
                        ),
                        row_drawn(image@, width as int, x as int, self.panel().width as int, j),
                    ),
            decreases len - start,
        {
            proof {
                assert((k + 1) * w == k * w + w) by (nonlinear_arith);
                assert(k * w >= 0) by (nonlinear_arith)
                    requires
                        k >= 0,
                        w > 0,
                ;
            }
            let remaining: usize = len - start;
            let count: usize = if remaining < w {
                remaining
            } else {
                w
            };
            let line_width: usize = if count <= room {
                count
            } else {
                room
            };
            let sy: u16 = y + k;
            let ghost drawn = row_drawn(
                image@,
                width as int,
                x as int,
                self.panel().width as int,
                k as int,
            );
            assert(start == k * w);
            assert(count == row_len(len as int, w as int, k as int));
            assert(line_width == visible(x as int, count as int, panel.width as int));
            let row: &[u16] = vstd::slice::slice_subrange(image, start, start + line_width);
            assert(row@ == drawn);
            assert(drawn.len() == line_width);
            let burst: Burst = self.set_pixels_buffered(
                x,
                sy,
                x + ((line_width - 1) as u16),
                sy,
                row,
            );
            assert(burst_is(burst, self.row_setup(x, y + k, drawn.len() as int), drawn));
            let ghost before = bursts@;
            bursts.push(burst);
            assert(forall|j: int| 0 <= j < k ==> bursts@[j] == before[j]);
            assert(bursts@[k as int] == burst);
            start = start + count;
            k = k + 1;
        }
        proof {
            if start >= len {
                assert(k * w >= 0) by (nonlinear_arith)
                    requires
                        k >= 0,
                        w > 0,
                ;
                lemma_image_rows(len as int, w as int, k as int);
            } else {
                assert(k * w < len);
                assert(image_rows(len as int, w as int) > k) by (nonlinear_arith)
                    requires
                        k * w < len,
                        w > 0,
                        k >= 0,
                        image_rows(len as int, w as int) == (len + w - 1) / (w as int),
                ;
            }
        }
        bursts
    }

    /// Fills the panel with one colour, line by line.
    pub fn clear_screen(&self, color: u16) -> (bursts: Vec<Burst>)
        requires
            self.wf(),
        ensures
            self.panel().width == 0 ==> bursts@.len() == 0,
            self.panel().width > 0 ==> bursts@.len() == self.panel().height,
            forall|l: int|
                0 <= l < bursts@.len() ==> burst_is(
                    #[trigger] bursts@[l],
                    self.row_setup(0, l, self.panel().width as int),
                    solid_row(color, self.panel().width as int),
                ),
    {
        let panel: Panel = self.area();
        let mut bursts: Vec<Burst> = Vec::new();
        if panel.width == 0 {
            return bursts;
        }
        let mut colors: Vec<u16> = Vec::new();
        let mut c: u16 = 0;
        while c < panel.width
            invariant
                c <= panel.width,
                colors@ == solid_row(color, c as int),
            decreases panel.width - c,
        {
            colors.push(color);
            c = c + 1;
            assert(colors@ =~= solid_row(color, c as int));
        }
        let mut l: u16 = 0;
        while l < panel.height
            invariant
                self.wf(),
                panel == self.panel(),
                panel.width > 0,
                l <= panel.height,
                colors@ == solid_row(color, panel.width as int),
                bursts@.len() == l,
                forall|j: int|
                    0 <= j < bursts@.len() ==> burst_is(
                        #[trigger] bursts@[j],
                        self.row_setup(0, j, self.panel().width as int),
                        solid_row(color, self.panel().width as int),
                    ),
            decreases panel.height - l,
        {
            let burst: Burst = self.set_pixels_buffered(0, l, panel.width - 1, l, colors.as_slice());
            bursts.push(burst);
            l = l + 1;
        }
        bursts
    }
}

} // verus!
