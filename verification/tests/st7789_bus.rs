use usb_screen::chunks::{chunk_bytes, Chunker};
use usb_screen::panel::{Panel, Window};
use usb_screen::st7789::batch::{
    to_blocks, to_panel_coord, to_rows, Pixel, PixelBlock, PixelRow, MAX_BLOCK_SIZE, MAX_ROW_SIZE,
};
use usb_screen::st7789::graphics::{
    clear, draw_pixel, fill_contiguous, fill_solid, framebuffer_bounding_box, is_bounded,
    Orientation, PixelWrite, Rect,
};
use usb_screen::st7789::interface::{
    be_bytes, clear_rect, draw_rgb565_le, draw_rgb565_u8, le_bytes, pattern_color, send_commands,
    send_data, send_u8, DataFormat, Fill,
};

const LARGE: Panel = Panel { width: 320, height: 240 };

fn px(x: i32, y: i32, color: u16) -> Pixel {
    Pixel { x, y, color }
}

fn rows(pixels: &[Pixel]) -> Vec<(u16, u16, u16, Vec<u16>)> {
    let mut it = to_rows(pixels);
    let mut out = Vec::new();
    while let Some(PixelRow { x_left, x_right, y, colors }) = it.next() {
        out.push((x_left, x_right, y, colors.as_slice().to_vec()));
    }
    assert!(it.next().is_none());
    out
}

fn blocks(pixels: &[Pixel]) -> Vec<(u16, u16, u16, u16, Vec<u16>)> {
    let mut it = to_blocks(to_rows(pixels));
    let mut out = Vec::new();
    while let Some(PixelBlock { x_left, x_right, y_top, y_bottom, colors }) = it.next() {
        out.push((x_left, x_right, y_top, y_bottom, colors.as_slice().to_vec()));
    }
    assert!(it.next().is_none());
    out
}

#[test]
fn bytes_are_cut_into_writes() {
    let bytes: Vec<u8> = (0..70u8).collect();
    let writes = chunk_bytes(&bytes, 32, false);
    assert_eq!(writes.len(), 3);
    assert_eq!(writes[0], (0..32u8).collect::<Vec<u8>>());
    assert_eq!(writes[1], (32..64u8).collect::<Vec<u8>>());
    assert_eq!(writes[2], (64..70u8).collect::<Vec<u8>>());
    assert_eq!(chunk_bytes(&bytes[..64], 32, false).len(), 2);
    assert!(chunk_bytes(&[], 32, false).is_empty());
    assert_eq!(chunk_bytes(&[1, 2, 3], 1, false), vec![vec![1], vec![2], vec![3]]);
}

#[test]
fn closed_stream_ends_with_a_last_write() {
    let bytes: Vec<u8> = (0..64u8).collect();
    let writes = chunk_bytes(&bytes, 32, true);
    assert_eq!(writes.len(), 3);
    assert!(writes[2].is_empty());
    assert_eq!(chunk_bytes(&[], 32, true), vec![Vec::<u8>::new()]);
    assert_eq!(chunk_bytes(&[9; 5], 32, true), vec![vec![9; 5]]);
}

#[test]
fn chunker_gives_out_full_writes() {
    let mut chunker = Chunker::new(3);
    assert_eq!(chunker.push(1), None);
    assert_eq!(chunker.push(2), None);
    assert_eq!(chunker.push(3), Some(vec![1, 2, 3]));
    assert_eq!(chunker.push(4), None);
    assert_eq!(chunker.take_rest(), vec![4]);
    assert_eq!(chunker.take_rest(), Vec::<u8>::new());
    assert_eq!(chunker.push(5), None);
}

#[test]
fn words_in_both_byte_orders() {
    assert_eq!(be_bytes(&[0x1234, 0xABCD]), vec![0x12, 0x34, 0xAB, 0xCD]);
    assert_eq!(le_bytes(&[0x1234, 0xABCD]), vec![0x34, 0x12, 0xCD, 0xAB]);
    assert!(be_bytes(&[]).is_empty());
}

#[test]
fn data_written_at_once_is_one_write() {
    assert_eq!(send_u8(&DataFormat::U8(&[1, 2, 3])), vec![vec![1, 2, 3]]);
    assert_eq!(send_u8(&DataFormat::U8(&[])), vec![Vec::<u8>::new()]);
    assert_eq!(send_u8(&DataFormat::U16BE(&[0x0102, 0x0304])), vec![vec![1, 2, 3, 4]]);
    assert_eq!(send_u8(&DataFormat::U16LE(&[0x0102, 0x0304])), vec![vec![2, 1, 4, 3]]);
    let big = vec![0xAAu8; 1000];
    assert_eq!(send_u8(&DataFormat::U8(&big)), vec![big.clone()]);
}

#[test]
fn native_words_go_out_in_the_machines_order() {
    let writes = send_u8(&DataFormat::U16(&[0x0102, 0x0304]));
    assert_eq!(writes.len(), 1);
    assert_eq!(writes[0].len(), 4);
    assert_eq!(writes[0], 0x0102u16.to_ne_bytes().iter().chain(&0x0304u16.to_ne_bytes()).copied().collect::<Vec<u8>>());
    assert!(writes[0] == vec![1, 2, 3, 4] || writes[0] == vec![2, 1, 4, 3]);
}

#[test]
fn streams_are_cut_by_their_write_size() {
    let bytes: Vec<u8> = (0..40u8).collect();
    let writes = send_u8(&DataFormat::U8Iter(&bytes));
    assert_eq!(writes.iter().map(|w| w.len()).collect::<Vec<_>>(), vec![32, 8]);
    assert_eq!(writes.concat(), bytes);

    let words: Vec<u16> = (0..70u16).collect();
    let be = send_u8(&DataFormat::U16BEIter(&words));
    assert_eq!(be.iter().map(|w| w.len()).collect::<Vec<_>>(), vec![128, 12]);
    assert_eq!(be.concat(), be_bytes(&words));
    let le = send_u8(&DataFormat::U16LEIter(&words));
    assert_eq!(le.iter().map(|w| w.len()).collect::<Vec<_>>(), vec![64, 64, 12]);
    assert_eq!(le.concat(), le_bytes(&words));

    assert!(send_u8(&DataFormat::U8Iter(&[])).is_empty());
    assert_eq!(send_u8(&DataFormat::U16BEIter(&words[..64])).len(), 1);
}

#[test]
fn commands_and_data_differ_in_the_line() {
    let c = send_commands(&DataFormat::U8(&[0x2C]));
    assert!(!c.dc_high);
    assert_eq!(c.writes, vec![vec![0x2C]]);
    let d = send_data(&DataFormat::U16BE(&[0xF800]));
    assert!(d.dc_high);
    assert_eq!(d.writes, vec![vec![0xF8, 0x00]]);
}

#[test]
fn wire_order_image_is_streamed_as_it_is() {
    let image = vec![0u8; 2 * 320 * 240];
    let c = draw_rgb565_u8(LARGE, &image, 0, 0, 320, 240).unwrap();
    assert_eq!(c.window, Window { x0: 0, y0: 0, x1: 319, y1: 239 });
    assert_eq!((c.rows, c.row_bytes, c.stride), (240, 640, 640));
    let cut = draw_rgb565_u8(LARGE, &image, 300, 230, 320, 240).unwrap();
    assert_eq!(cut.window, Window { x0: 300, y0: 230, x1: 319, y1: 239 });
    assert_eq!((cut.rows, cut.row_bytes, cut.stride), (10, 40, 640));
    assert_eq!(draw_rgb565_u8(LARGE, &image, 320, 0, 320, 240), None);
}

#[test]
fn little_endian_image_becomes_words() {
    let image = [0x34u8, 0x12, 0x78, 0x56, 0xBC, 0x9A, 0xF0, 0xDE];
    let (c, rows) = draw_rgb565_le(LARGE, &image, 10, 20, 2, 2).unwrap();
    assert_eq!(c.window, Window { x0: 10, y0: 20, x1: 11, y1: 21 });
    assert_eq!(rows, vec![vec![0x1234, 0x5678], vec![0x9ABC, 0xDEF0]]);
    let (cut, seen) = draw_rgb565_le(LARGE, &image, 319, 239, 2, 2).unwrap();
    assert_eq!(cut.window, Window { x0: 319, y0: 239, x1: 319, y1: 239 });
    assert_eq!(seen, vec![vec![0x1234]]);
    assert!(draw_rgb565_le(LARGE, &image, 0, 240, 2, 2).is_none());
}

#[test]
fn rectangle_fill_counts_its_pixels_on_the_panel() {
    assert_eq!(
        clear_rect(LARGE, 0xFFFF, 0, 0, 320, 240),
        Some(Fill { window: Window { x0: 0, y0: 0, x1: 319, y1: 239 }, color: 0xFFFF, count: 76800 })
    );
    assert_eq!(
        clear_rect(LARGE, 7, 310, 235, 20, 20),
        Some(Fill { window: Window { x0: 310, y0: 235, x1: 319, y1: 239 }, color: 7, count: 50 })
    );
    assert_eq!(
        clear_rect(LARGE, 7, 5, 6, 1, 1),
        Some(Fill { window: Window { x0: 5, y0: 6, x1: 5, y1: 6 }, color: 7, count: 1 })
    );
    assert_eq!(clear_rect(LARGE, 7, 5, 6, 0, 1), None);
    assert_eq!(clear_rect(LARGE, 7, 400, 6, 10, 10), None);
    assert_eq!(
        clear_rect(Panel { width: 65535, height: 65535 }, 1, 0, 0, 65535, 65535).unwrap().count,
        4294836225
    );
}

#[test]
fn coordinates_keep_their_low_sixteen_bits() {
    assert_eq!(to_panel_coord(0), 0);
    assert_eq!(to_panel_coord(319), 319);
    assert_eq!(to_panel_coord(65536 + 5), 5);
    assert_eq!(to_panel_coord(-1), 65535);
    assert_eq!(to_panel_coord(i32::MIN), 0);
    assert_eq!(to_panel_coord(i32::MAX), 65535);
}

#[test]
fn pixels_side_by_side_make_a_row() {
    let pixels = [px(5, 7, 1), px(6, 7, 2), px(7, 7, 3)];
    assert_eq!(rows(&pixels), vec![(5, 7, 7, vec![1, 2, 3])]);
    assert!(rows(&[]).is_empty());
    assert_eq!(rows(&[px(1, 2, 9)]), vec![(1, 1, 2, vec![9])]);
}

#[test]
fn a_gap_or_a_new_line_ends_the_row() {
    let pixels = [px(5, 7, 1), px(6, 7, 2), px(8, 7, 3), px(9, 8, 4), px(8, 8, 5), px(9, 8, 6)];
    assert_eq!(
        rows(&pixels),
        vec![
            (5, 6, 7, vec![1, 2]),
            (8, 8, 7, vec![3]),
            (9, 9, 8, vec![4]),
            (8, 9, 8, vec![5, 6]),
        ]
    );
}

#[test]
fn a_row_holds_at_most_fifty_pixels() {
    assert_eq!(MAX_ROW_SIZE, 50);
    let pixels: Vec<Pixel> = (0..120).map(|i| px(i, 3, i as u16)).collect();
    let got = rows(&pixels);
    assert_eq!(got.len(), 3);
    assert_eq!((got[0].0, got[0].1, got[0].3.len()), (0, 49, 50));
    assert_eq!((got[1].0, got[1].1, got[1].3.len()), (50, 99, 50));
    assert_eq!((got[2].0, got[2].1), (100, 119));
    assert_eq!(got[2].3, (100..120u16).collect::<Vec<u16>>());
}

#[test]
fn row_pushed_pixel_by_pixel() {
    let mut it = to_rows(&[]);
    assert!(it.push(px(1, 1, 10)).is_none());
    assert!(it.push(px(2, 1, 11)).is_none());
    let done = it.push(px(1, 2, 12)).unwrap();
    assert_eq!((done.x_left, done.x_right, done.y), (1, 2, 1));
    assert_eq!(done.colors.as_slice(), &[10, 11]);
    let last = it.finish().unwrap();
    assert_eq!((last.x_left, last.x_right, last.y), (1, 1, 2));
    assert_eq!(last.colors.as_slice(), &[12]);
    assert!(it.finish().is_none());
}

#[test]
fn row_runs_over_the_sixteen_bit_edge() {
    let pixels = [px(65535, 0, 1), px(65536, 0, 2)];
    assert_eq!(rows(&pixels), vec![(65535, 0, 0, vec![1, 2])]);
}

#[test]
fn equal_rows_below_each_other_make_a_block() {
    let mut pixels = Vec::new();
    for y in 0..3 {
        for x in 0..4 {
            pixels.push(px(10 + x, 20 + y, (y * 4 + x) as u16));
        }
    }
    assert_eq!(blocks(&pixels), vec![(10, 13, 20, 22, (0..12u16).collect::<Vec<u16>>())]);
    assert!(blocks(&[]).is_empty());
}

#[test]
fn a_different_row_ends_the_block() {
    let pixels = [
        px(0, 0, 1),
        px(1, 0, 2),
        px(0, 1, 3),
        px(1, 1, 4),
        px(0, 2, 5),
        px(0, 4, 6),
        px(0, 5, 7),
    ];
    assert_eq!(
        blocks(&pixels),
        vec![
            (0, 1, 0, 1, vec![1, 2, 3, 4]),
            (0, 0, 2, 2, vec![5]),
            (0, 0, 4, 5, vec![6, 7]),
        ]
    );
}

#[test]
fn a_block_holds_at_most_a_hundred_pixels() {
    assert_eq!(MAX_BLOCK_SIZE, 100);
    let mut pixels = Vec::new();
    for y in 0..4 {
        for x in 0..30 {
            pixels.push(px(x, y, (y * 30 + x) as u16));
        }
    }
    let got = blocks(&pixels);
    assert_eq!(got.len(), 2);
    assert_eq!((got[0].0, got[0].1, got[0].2, got[0].3), (0, 29, 0, 2));
    assert_eq!(got[0].4, (0..90u16).collect::<Vec<u16>>());
    assert_eq!((got[1].0, got[1].1, got[1].2, got[1].3), (0, 29, 3, 3));
    assert_eq!(got[1].4, (90..120u16).collect::<Vec<u16>>());
}

#[test]
fn block_pushed_row_by_row() {
    let source = [px(0, 0, 1), px(1, 0, 2), px(0, 1, 3), px(1, 1, 4), px(5, 5, 9)];
    let mut row_it = to_rows(&source);
    let first = row_it.next().unwrap();
    let second = row_it.next().unwrap();
    let third = row_it.next().unwrap();
    let mut it = to_blocks(to_rows(&[]));
    assert!(it.push(&first).is_none());
    assert!(it.push(&second).is_none());
    let done = it.push(&third).unwrap();
    assert_eq!((done.x_left, done.x_right, done.y_top, done.y_bottom), (0, 1, 0, 1));
    assert_eq!(done.colors.as_slice(), &[1, 2, 3, 4]);
    let last = it.finish().unwrap();
    assert_eq!((last.x_left, last.x_right, last.y_top, last.y_bottom), (5, 5, 5, 5));
    assert_eq!(last.colors.as_slice(), &[9]);
    assert!(it.finish().is_none());
}

#[test]
fn framebuffer_follows_the_orientation() {
    assert_eq!(
        framebuffer_bounding_box(Orientation::Portrait),
        Rect { x: 0, y: 0, width: 240, height: 320 }
    );
    assert_eq!(
        framebuffer_bounding_box(Orientation::PortraitSwapped),
        Rect { x: 0, y: 0, width: 240, height: 320 }
    );
    assert_eq!(
        framebuffer_bounding_box(Orientation::Landscape),
        Rect { x: 0, y: 0, width: 320, height: 240 }
    );
    assert_eq!(
        framebuffer_bounding_box(Orientation::LandscapeSwapped),
        Rect { x: 0, y: 0, width: 320, height: 240 }
    );
}

#[test]
fn rectangle_gets_its_window() {
    assert_eq!(
        fill_contiguous(Rect { x: 10, y: 20, width: 30, height: 40 }),
        Some(PixelWrite { sx: 10, sy: 20, ex: 39, ey: 59, count: 1200 })
    );
    assert_eq!(
        fill_contiguous(Rect { x: 0, y: 0, width: 1, height: 1 }),
        Some(PixelWrite { sx: 0, sy: 0, ex: 0, ey: 0, count: 1 })
    );
    assert_eq!(fill_contiguous(Rect { x: 10, y: 20, width: 0, height: 40 }), None);
    assert_eq!(fill_contiguous(Rect { x: 10, y: 20, width: 30, height: 0 }), None);
    assert_eq!(
        fill_contiguous(Rect { x: -1, y: -2, width: 3, height: 3 }),
        Some(PixelWrite { sx: 65535, sy: 65534, ex: 1, ey: 0, count: 9 })
    );
}

#[test]
fn solid_fill_is_cut_to_the_framebuffer() {
    assert_eq!(
        fill_solid(Orientation::Landscape, Rect { x: 300, y: 230, width: 50, height: 50 }),
        Some(PixelWrite { sx: 300, sy: 230, ex: 319, ey: 239, count: 200 })
    );
    assert_eq!(
        fill_solid(Orientation::Portrait, Rect { x: 300, y: 230, width: 50, height: 50 }),
        None
    );
    assert_eq!(
        fill_solid(Orientation::Portrait, Rect { x: -10, y: -10, width: 20, height: 30 }),
        Some(PixelWrite { sx: 0, sy: 0, ex: 9, ey: 19, count: 200 })
    );
    assert_eq!(
        fill_solid(Orientation::Landscape, Rect { x: -100, y: -100, width: 1000, height: 1000 }),
        Some(PixelWrite { sx: 0, sy: 0, ex: 319, ey: 239, count: 76800 })
    );
    assert_eq!(
        fill_solid(Orientation::Landscape, Rect { x: 5, y: 5, width: 0, height: 9 }),
        None
    );
    assert_eq!(
        fill_solid(Orientation::Landscape, Rect { x: 320, y: 0, width: 5, height: 5 }),
        None
    );
}

#[test]
fn clearing_blanks_the_whole_memory() {
    assert_eq!(
        clear(Orientation::Portrait),
        PixelWrite { sx: 0, sy: 0, ex: 239, ey: 319, count: 76800 }
    );
    assert_eq!(
        clear(Orientation::LandscapeSwapped),
        PixelWrite { sx: 0, sy: 0, ex: 319, ey: 239, count: 76800 }
    );
}

#[test]
fn single_pixel_window() {
    assert_eq!(draw_pixel(3, 4), PixelWrite { sx: 3, sy: 4, ex: 3, ey: 4, count: 1 });
    assert_eq!(draw_pixel(-1, 65537), PixelWrite { sx: 65535, sy: 1, ex: 65535, ey: 1, count: 1 });
}

#[test]
fn rectangles_within_the_limit() {
    assert!(is_bounded(&Rect { x: 0, y: 0, width: 320, height: 240 }));
    assert!(is_bounded(&Rect { x: -32768, y: 32768, width: 32768, height: 0 }));
    assert!(!is_bounded(&Rect { x: 32769, y: 0, width: 1, height: 1 }));
    assert!(!is_bounded(&Rect { x: 0, y: -32769, width: 1, height: 1 }));
    assert!(!is_bounded(&Rect { x: 0, y: 0, width: 32769, height: 1 }));
    assert!(!is_bounded(&Rect { x: 0, y: 0, width: 1, height: u32::MAX }));
}

#[test]
fn test_pattern_alternates_red_and_blue() {
    assert_eq!(pattern_color(0), 0xF800);
    assert_eq!(pattern_color(1), 0x001F);
    assert_eq!(pattern_color(u32::MAX), 0x001F);
}
