use usb_screen::panel::{clip, clip_rect, row_of, Clip, Panel, Window};
use usb_screen::protocol::FrameHeader;
use usb_screen::st7735::{BusOp, Instruction, Orientation, ST7735, WRITE_SIZE};

const SMALL: Panel = Panel { width: 160, height: 128 };

fn header(x: u16, y: u16, width: u16, height: u16) -> FrameHeader {
    FrameHeader { width, height, x, y }
}

fn ops(list: &[BusOp]) -> Vec<String> {
    list.iter().map(|op| format!("{:?}", op)).collect()
}

#[test]
fn image_inside_the_panel_is_not_cut() {
    let c = clip(SMALL, 2 * 20 * 10, header(5, 7, 20, 10)).unwrap();
    assert_eq!(
        c,
        Clip {
            window: Window { x0: 5, y0: 7, x1: 24, y1: 16 },
            rows: 10,
            row_bytes: 40,
            stride: 40,
        }
    );
}

#[test]
fn full_screen_image_fills_the_panel() {
    let c = clip(SMALL, 40960, header(0, 0, 160, 128)).unwrap();
    assert_eq!(c.window, Window { x0: 0, y0: 0, x1: 159, y1: 127 });
    assert_eq!((c.rows, c.row_bytes, c.stride), (128, 320, 320));
}

#[test]
fn image_past_the_right_and_bottom_edges_is_cut() {
    let c = clip(SMALL, 2 * 20 * 10, header(150, 120, 20, 10)).unwrap();
    assert_eq!(
        c,
        Clip {
            window: Window { x0: 150, y0: 120, x1: 159, y1: 127 },
            rows: 8,
            row_bytes: 20,
            stride: 40,
        }
    );
    assert_eq!(c.rows as usize * c.row_bytes, 2 * 10 * 8);
}

#[test]
fn image_beside_or_below_the_panel_draws_nothing() {
    assert_eq!(clip(SMALL, 800, header(160, 0, 20, 20)), None);
    assert_eq!(clip(SMALL, 800, header(0, 128, 20, 20)), None);
    assert_eq!(clip(SMALL, 800, header(65535, 65535, 20, 20)), None);
}

#[test]
fn empty_image_draws_nothing() {
    assert_eq!(clip(SMALL, 0, header(0, 0, 0, 10)), None);
    assert_eq!(clip(SMALL, 0, header(0, 0, 10, 0)), None);
    assert_eq!(clip(SMALL, 0, header(0, 0, 10, 10)), None);
    assert_eq!(clip(SMALL, 19, header(0, 0, 10, 10)), None);
}

#[test]
fn only_the_rows_that_are_there_are_drawn() {
    let c = clip(SMALL, 2 * 10 * 3 + 7, header(0, 0, 10, 10)).unwrap();
    assert_eq!(c.window, Window { x0: 0, y0: 0, x1: 9, y1: 2 });
    assert_eq!(c.rows, 3);
}

#[test]
fn huge_image_on_the_last_pixel() {
    let c = clip(SMALL, usize::MAX, header(159, 127, 65535, 65535)).unwrap();
    assert_eq!(c.window, Window { x0: 159, y0: 127, x1: 159, y1: 127 });
    assert_eq!((c.rows, c.row_bytes, c.stride), (1, 2, 131070));
}

#[test]
fn rows_of_a_cut_image_are_its_left_parts() {
    // 4 by 3 pixels at column 158: two columns of each row are seen.
    let image: Vec<u8> = (0..24u8).collect();
    let c = clip(SMALL, image.len(), header(158, 0, 4, 3)).unwrap();
    assert_eq!(c.row_bytes, 4);
    assert_eq!(row_of(&image, &c, 0), &[0, 1, 2, 3]);
    assert_eq!(row_of(&image, &c, 1), &[8, 9, 10, 11]);
    assert_eq!(row_of(&image, &c, 2), &[16, 17, 18, 19]);
}

#[test]
fn rectangle_is_cut_to_the_panel() {
    assert_eq!(
        clip_rect(SMALL, header(100, 100, 100, 100)),
        Some(Window { x0: 100, y0: 100, x1: 159, y1: 127 })
    );
    assert_eq!(
        clip_rect(SMALL, header(0, 0, 1, 1)),
        Some(Window { x0: 0, y0: 0, x1: 0, y1: 0 })
    );
    assert_eq!(clip_rect(SMALL, header(0, 0, 0, 1)), None);
    assert_eq!(clip_rect(SMALL, header(200, 0, 5, 5)), None);
}

#[test]
fn instruction_codes() {
    assert_eq!(Instruction::NOP.code(), 0x00);
    assert_eq!(Instruction::SWRESET.code(), 0x01);
    assert_eq!(Instruction::SLPOUT.code(), 0x11);
    assert_eq!(Instruction::CASET.code(), 0x2A);
    assert_eq!(Instruction::RASET.code(), 0x2B);
    assert_eq!(Instruction::RAMWR.code(), 0x2C);
    assert_eq!(Instruction::MADCTL.code(), 0x36);
    assert_eq!(Instruction::COLMOD.code(), 0x3A);
    assert_eq!(Instruction::GMCTRN1.code(), 0xE1);
    assert_eq!(Instruction::PWCTR6.code(), 0xFC);
}

#[test]
fn orientation_bytes() {
    assert_eq!(Orientation::Portrait.madctl(), 0x00);
    assert_eq!(Orientation::Landscape.madctl(), 0x60);
    assert_eq!(Orientation::PortraitSwapped.madctl(), 0xC0);
    assert_eq!(Orientation::LandscapeSwapped.madctl(), 0xA0);
}

#[test]
fn init_sequence_of_an_rgb_panel_with_reset() {
    let d = ST7735::new(true, true, false, 128, 160);
    let got = ops(&d.init());
    let want: Vec<String> = vec![
        "ResetHigh",
        "DelayMs(10)",
        "ResetLow",
        "DelayMs(10)",
        "ResetHigh",
        "Command(1)",
        "DelayMs(200)",
        "Command(17)",
        "DelayMs(200)",
        "Command(177)",
        "Data([1, 44, 45])",
        "Command(178)",
        "Data([1, 44, 45])",
        "Command(179)",
        "Data([1, 44, 45, 1, 44, 45])",
        "Command(180)",
        "Data([7])",
        "Command(192)",
        "Data([162, 2, 132])",
        "Command(193)",
        "Data([197])",
        "Command(194)",
        "Data([10, 0])",
        "Command(195)",
        "Data([138, 42])",
        "Command(196)",
        "Data([138, 238])",
        "Command(197)",
        "Data([14])",
        "Command(32)",
        "Command(54)",
        "Data([0])",
        "Command(58)",
        "Data([5])",
        "Command(41)",
        "DelayMs(200)",
    ]
    .into_iter()
    .map(String::from)
    .collect();
    assert_eq!(got, want);
}

#[test]
fn init_sequence_of_an_inverted_bgr_panel_without_reset() {
    let d = ST7735::new(false, false, true, 128, 160);
    let got = ops(&d.init());
    assert_eq!(got.len(), 31);
    assert_eq!(got[0], "Command(1)");
    assert_eq!(got[24], "Command(33)");
    assert_eq!(got[25], "Command(54)");
    assert_eq!(got[26], "Data([8])");
    assert!(d.hard_reset().is_empty());
}

#[test]
fn orientation_command_carries_the_colour_order() {
    let mut rgb = ST7735::new(true, true, false, 128, 160);
    assert_eq!(ops(&rgb.set_orientation(Orientation::Landscape)), ["Command(54)", "Data([96])"]);
    let mut bgr = ST7735::new(true, false, false, 128, 160);
    assert_eq!(ops(&bgr.set_orientation(Orientation::Landscape)), ["Command(54)", "Data([104])"]);
    assert_eq!(ops(&bgr.set_orientation(Orientation::Portrait)), ["Command(54)", "Data([8])"]);
}

#[test]
fn landscape_exchanges_columns_and_rows() {
    let mut d = ST7735::new(true, true, false, 128, 160);
    assert_eq!(d.area(), Panel { width: 128, height: 160 });
    d.set_orientation(Orientation::Landscape);
    assert_eq!(d.area(), Panel { width: 160, height: 128 });
    d.set_orientation(Orientation::PortraitSwapped);
    assert_eq!(d.area(), Panel { width: 128, height: 160 });
}

#[test]
fn address_window_is_moved_by_the_offset() {
    let mut d = ST7735::new(true, true, false, 128, 160);
    assert_eq!(
        ops(&d.set_address_window(1, 2, 0x0103, 4)),
        [
            "Command(42)",
            "Data([0, 1])",
            "Data([1, 3])",
            "Command(43)",
            "Data([0, 2])",
            "Data([0, 4])"
        ]
    );
    d.set_offset(2, 3);
    assert_eq!(
        ops(&d.set_address_window(1, 2, 10, 20)),
        [
            "Command(42)",
            "Data([0, 3])",
            "Data([0, 12])",
            "Command(43)",
            "Data([0, 5])",
            "Data([0, 23])"
        ]
    );
}

#[test]
fn single_pixel_and_pixel_runs() {
    let d = ST7735::new(true, true, false, 128, 160);
    assert_eq!(
        ops(&d.set_pixel(5, 6, 0xF800)),
        [
            "Command(42)",
            "Data([0, 5])",
            "Data([0, 5])",
            "Command(43)",
            "Data([0, 6])",
            "Data([0, 6])",
            "Command(44)",
            "Data([248, 0])"
        ]
    );
    assert_eq!(
        ops(&d.write_pixels(&[0x0102, 0x0304])),
        ["Command(44)", "Data([1, 2])", "Data([3, 4])"]
    );
    assert_eq!(ops(&d.write_pixels(&[])), ["Command(44)"]);
    assert_eq!(
        ops(&d.set_pixels(0, 0, 1, 0, &[0xAABB, 0xCCDD])),
        [
            "Command(42)",
            "Data([0, 0])",
            "Data([0, 1])",
            "Command(43)",
            "Data([0, 0])",
            "Data([0, 0])",
            "Command(44)",
            "Data([170, 187])",
            "Data([204, 221])"
        ]
    );
}

#[test]
fn buffered_pixels_go_out_in_writes_of_thirty_two_bytes() {
    let d = ST7735::new(true, true, false, 128, 160);
    assert_eq!(WRITE_SIZE, 32);
    let colors: Vec<u16> = (0..20u16).map(|i| 0x0100 + i).collect();
    let burst = d.write_pixels_buffered(&colors);
    assert_eq!(ops(&burst.setup), ["Command(44)"]);
    assert_eq!(burst.writes.len(), 2);
    assert_eq!(burst.writes[0].len(), 32);
    assert_eq!(burst.writes[0][..4], [1, 0, 1, 1]);
    assert_eq!(burst.writes[1], vec![1, 16, 1, 17, 1, 18, 1, 19]);
    // A whole number of writes is closed by an empty one.
    let exact = d.write_pixels_buffered(&colors[..16]);
    assert_eq!(exact.writes.len(), 2);
    assert_eq!(exact.writes[0].len(), 32);
    assert!(exact.writes[1].is_empty());
    let none = d.set_pixels_buffered(0, 0, 0, 0, &[]);
    assert_eq!(none.writes, vec![Vec::<u8>::new()]);
    assert_eq!(none.setup.len(), 7);
}

#[test]
fn image_is_drawn_row_by_row() {
    let mut d = ST7735::new(true, true, false, 128, 160);
    d.set_orientation(Orientation::Landscape);
    let image: Vec<u16> = (1..=6u16).collect();
    let bursts = d.draw_image_at(10, 20, &image, 3);
    assert_eq!(bursts.len(), 2);
    assert_eq!(
        ops(&bursts[0].setup),
        [
            "Command(42)",
            "Data([0, 10])",
            "Data([0, 12])",
            "Command(43)",
            "Data([0, 20])",
            "Data([0, 20])",
            "Command(44)"
        ]
    );
    assert_eq!(bursts[0].writes, vec![vec![0, 1, 0, 2, 0, 3]]);
    assert_eq!(ops(&bursts[1].setup)[4], "Data([0, 21])");
    assert_eq!(bursts[1].writes, vec![vec![0, 4, 0, 5, 0, 6]]);
}

#[test]
fn image_past_the_edges_is_cut_row_by_row() {
    let mut d = ST7735::new(true, true, false, 128, 160);
    d.set_orientation(Orientation::Landscape);
    // 4 by 4 pixels with the corner two columns and two rows from the edges.
    let image: Vec<u16> = (0..16u16).collect();
    let bursts = d.draw_image_at(158, 126, &image, 4);
    assert_eq!(bursts.len(), 2);
    assert_eq!(ops(&bursts[0].setup)[1..3], ["Data([0, 158])", "Data([0, 159])"]);
    assert_eq!(ops(&bursts[0].setup)[4..6], ["Data([0, 126])", "Data([0, 126])"]);
    assert_eq!(bursts[0].writes, vec![vec![0, 0, 0, 1]]);
    assert_eq!(ops(&bursts[1].setup)[4..6], ["Data([0, 127])", "Data([0, 127])"]);
    assert_eq!(bursts[1].writes, vec![vec![0, 4, 0, 5]]);
    assert!(d.draw_image_at(160, 0, &image, 4).is_empty());
    assert!(d.draw_image_at(0, 128, &image, 4).is_empty());
    assert!(d.draw_image_at(0, 0, &[], 4).is_empty());
}

#[test]
fn last_row_of_an_image_may_be_short() {
    let d = ST7735::new(true, true, false, 128, 160);
    let bursts = d.draw_image_at(0, 0, &[1, 2, 3, 4, 5], 3);
    assert_eq!(bursts.len(), 2);
    assert_eq!(ops(&bursts[1].setup)[1..3], ["Data([0, 0])", "Data([0, 1])"]);
    assert_eq!(bursts[1].writes, vec![vec![0, 4, 0, 5]]);
}

#[test]
fn clearing_writes_every_line() {
    let d = ST7735::new(true, true, false, 20, 3);
    let bursts = d.clear_screen(0x07E0);
    assert_eq!(bursts.len(), 3);
    for (l, burst) in bursts.iter().enumerate() {
        assert_eq!(ops(&burst.setup)[1..3], ["Data([0, 0])", "Data([0, 19])"]);
        assert_eq!(ops(&burst.setup)[4], format!("Data([0, {}])", l));
        assert_eq!(burst.writes.len(), 2);
        assert_eq!(burst.writes[0], [0x07u8, 0xE0].repeat(16));
        assert_eq!(burst.writes[1], [0x07u8, 0xE0].repeat(4));
    }
    assert!(ST7735::new(true, true, false, 0, 3).clear_screen(1).is_empty());
    assert!(ST7735::new(true, true, false, 3, 0).clear_screen(1).is_empty());
}
