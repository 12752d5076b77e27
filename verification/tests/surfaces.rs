use usb_screen::canvas::{blit, fill, Canvas, Flip};
use usb_screen::resize::magnify_rgb565;
use usb_screen::rgb2yuv::{clamp_u8, rgb_to_yuv420p, yuv_420p_to_rgb, yuv_420p_to_rgb565};
use usb_screen::splash::canvas::Canvas as SplashCanvas;
use usb_screen::splash::params::{WINDOW_HEIGHT, WINDOW_WIDTH};
use usb_screen::splash::sweeper::{last_pose, mouth, next_step, pose_picture};

#[test]
fn canvas_is_cleared_to_one_colour() {
    let mut buf = [1u16, 2, 3, 4, 5, 6];
    let mut canvas = Canvas { buf: &mut buf, width: 3, height: 2 };
    canvas.clear(0xF800);
    assert_eq!(canvas.width, 3);
    assert_eq!(canvas.height, 2);
    assert_eq!(buf, [0xF800; 6]);
}

#[test]
fn image_is_copied_row_by_row() {
    let mut buf = [0u16; 20];
    let mut canvas = Canvas { buf: &mut buf, width: 5, height: 4 };
    canvas.draw_image(1, 1, &[1, 2, 3, 4, 5, 6], 3);
    assert_eq!(buf, [0, 0, 0, 0, 0, 0, 1, 2, 3, 0, 0, 4, 5, 6, 0, 0, 0, 0, 0, 0]);
}

#[test]
fn image_drawn_upside_down() {
    let mut buf = [0u16; 20];
    let mut canvas = Canvas { buf: &mut buf, width: 5, height: 4 };
    canvas.draw_image_flip_y(1, 1, &[1, 2, 3, 4, 5, 6], 3);
    assert_eq!(buf, [0, 0, 0, 0, 0, 0, 4, 5, 6, 0, 0, 1, 2, 3, 0, 0, 0, 0, 0, 0]);
}

#[test]
fn image_drawn_mirrored() {
    let mut buf = [0u16; 20];
    let mut canvas = Canvas { buf: &mut buf, width: 5, height: 4 };
    canvas.draw_image_flip_x(1, 1, &[1, 2, 3, 4, 5, 6], 3);
    assert_eq!(buf, [0, 0, 0, 0, 0, 0, 3, 2, 1, 0, 0, 6, 5, 4, 0, 0, 0, 0, 0, 0]);
}

#[test]
fn a_row_past_the_end_of_the_buffer_is_cut() {
    let mut buf = [0u16; 10];
    let mut canvas = Canvas { buf: &mut buf, width: 5, height: 2 };
    canvas.draw_image(3, 1, &[1, 2, 3, 4, 5, 6], 3);
    assert_eq!(buf, [0, 0, 0, 0, 0, 0, 0, 0, 1, 2]);
    let mut far = [7u16; 10];
    let mut beyond = Canvas { buf: &mut far, width: 5, height: 2 };
    beyond.draw_image(0, 5, &[1, 2, 3], 3);
    assert_eq!(far, [7; 10]);
}

#[test]
fn a_row_wider_than_what_is_left_runs_into_the_next_line() {
    let mut buf = [0u16; 12];
    let mut canvas = Canvas { buf: &mut buf, width: 4, height: 3 };
    canvas.draw_image(3, 0, &[1, 2, 3, 4, 5, 6], 3);
    assert_eq!(buf, [0, 0, 0, 1, 2, 3, 0, 4, 5, 6, 0, 0]);
}

#[test]
fn image_drawn_where_every_row_starts_in_the_buffer() {
    let mut buf = [0u16; 12];
    let mut canvas = Canvas { buf: &mut buf, width: 4, height: 3 };
    canvas.draw_image_at(1, 1, &[1, 2, 3, 4], 2);
    assert_eq!(buf, [0, 0, 0, 0, 0, 1, 2, 0, 0, 3, 4, 0]);
}

#[test]
fn empty_image_changes_nothing() {
    let mut buf = [5u16; 6];
    let mut canvas = Canvas { buf: &mut buf, width: 3, height: 2 };
    canvas.draw_image(0, 0, &[], 4);
    canvas.draw_image_flip_x(0, 0, &[], 4);
    canvas.draw_image_flip_y(0, 0, &[], 4);
    assert_eq!(buf, [5; 6]);
}

#[test]
fn buffers_are_filled_and_copied_into() {
    let mut buf = [0u16; 6];
    fill(&mut buf, 9);
    assert_eq!(buf, [9; 6]);
    blit(&mut buf, 3, 1, 0, &[1, 2, 3, 4], 2, Flip::Vertical);
    assert_eq!(buf, [9, 3, 4, 9, 1, 2]);
    blit(&mut buf, 3, 0, 0, &[7, 8], 2, Flip::Horizontal);
    assert_eq!(buf, [8, 7, 4, 9, 1, 2]);
    blit(&mut buf, 3, 0, 1, &[5], 1, Flip::Upright);
    assert_eq!(buf, [8, 7, 4, 5, 1, 2]);
}

#[test]
fn idle_surface_has_the_size_of_the_small_panel() {
    assert_eq!((WINDOW_WIDTH, WINDOW_HEIGHT), (160, 128));
    let canvas = SplashCanvas::new();
    assert_eq!(canvas.width, 160);
    assert_eq!(canvas.height, 128);
    assert_eq!(canvas.buf, vec![0u16; 160 * 128]);
}

#[test]
fn idle_surface_draws_like_a_canvas() {
    let mut canvas = SplashCanvas::new();
    canvas.clear(3);
    assert!(canvas.buf.iter().all(|&p| p == 3));
    canvas.draw_image(158, 0, &[1, 2, 3, 4], 2);
    assert_eq!(canvas.buf[157..160], [3, 1, 2]);
    assert_eq!(canvas.buf[160 + 157..160 + 160], [3, 3, 4]);
    canvas.draw_image_flip_x(0, 127, &[5, 6], 2);
    assert_eq!(canvas.buf[127 * 160..127 * 160 + 3], [6, 5, 3]);
    canvas.draw_image_flip_y(10, 10, &[7, 8], 1);
    assert_eq!(canvas.buf[10 * 160 + 10], 8);
    assert_eq!(canvas.buf[11 * 160 + 10], 7);
    canvas.draw_image(159, 127, &[9, 9, 9], 3);
    assert_eq!(canvas.buf[160 * 128 - 1], 9);
    assert_eq!(canvas.buf.len(), 160 * 128);
}

#[test]
fn every_pixel_becomes_a_square() {
    let input = [1u16, 2, 3, 4, 5, 6];
    let mut output = [0u16; 26];
    output[24] = 77;
    output[25] = 88;
    magnify_rgb565(&input, 3, 2, &mut output);
    assert_eq!(
        output,
        [
            1, 1, 2, 2, 3, 3, //
            1, 1, 2, 2, 3, 3, //
            4, 4, 5, 5, 6, 6, //
            4, 4, 5, 5, 6, 6, //
            77, 88,
        ]
    );
}

#[test]
fn magnifying_nothing_changes_nothing() {
    let mut output = [5u16; 4];
    magnify_rgb565(&[], 0, 0, &mut output);
    magnify_rgb565(&[1, 2], 0, 3, &mut output);
    magnify_rgb565(&[1, 2], 2, 0, &mut output);
    assert_eq!(output, [5; 4]);
    magnify_rgb565(&[9], 1, 1, &mut output);
    assert_eq!(output, [9; 4]);
}

#[test]
fn numbers_are_held_to_a_byte() {
    assert_eq!(clamp_u8(-1), 0);
    assert_eq!(clamp_u8(i32::MIN), 0);
    assert_eq!(clamp_u8(0), 0);
    assert_eq!(clamp_u8(128), 128);
    assert_eq!(clamp_u8(255), 255);
    assert_eq!(clamp_u8(256), 255);
    assert_eq!(clamp_u8(i32::MAX), 255);
}

#[test]
fn colours_become_luma_and_chroma() {
    // Two by two pixels: white, black, blue, red.
    let rgb = [255u8, 255, 255, 0, 0, 0, 0, 0, 255, 255, 0, 0];
    let mut yuv = [9u8; 8];
    rgb_to_yuv420p(&mut yuv, &rgb, 2, 2);
    assert_eq!(yuv, [235, 16, 41, 82, 128, 128, 9, 9]);
}

#[test]
fn chroma_is_taken_from_the_top_left_of_each_square() {
    // Four by two pixels: blue and black in the first square, red and black in the second.
    let mut rgb = vec![0u8; 3 * 8];
    rgb[0..3].copy_from_slice(&[0, 0, 255]);
    rgb[6..9].copy_from_slice(&[255, 0, 0]);
    let mut yuv = [0u8; 12];
    rgb_to_yuv420p(&mut yuv, &rgb, 4, 2);
    assert_eq!(yuv[..8], [41, 16, 82, 16, 16, 16, 16, 16]);
    assert_eq!(yuv[8..10], [240, 90]);
    assert_eq!(yuv[10..12], [110, 240]);
}

#[test]
fn luma_and_chroma_become_colours() {
    let yuv = [235u8, 16, 41, 82, 128, 128];
    let mut rgb = [7u8; 14];
    yuv_420p_to_rgb(&mut rgb, &yuv, 2, 2);
    assert_eq!(rgb, [255, 255, 255, 0, 0, 0, 29, 29, 29, 77, 77, 77, 7, 7]);
}

#[test]
fn blue_survives_the_round_trip() {
    let rgb = [0u8, 0, 255].repeat(4);
    let mut yuv = [0u8; 6];
    rgb_to_yuv420p(&mut yuv, &rgb, 2, 2);
    assert_eq!(yuv, [41, 41, 41, 41, 240, 110]);
    let mut back = [0u8; 12];
    yuv_420p_to_rgb(&mut back, &yuv, 2, 2);
    assert_eq!(back, [0u8, 0, 255].repeat(4)[..]);
    let mut pixels = [0u8; 9];
    pixels[8] = 5;
    yuv_420p_to_rgb565(&mut pixels, &yuv, 2, 2);
    assert_eq!(pixels, [0x1F, 0x00, 0x1F, 0x00, 0x1F, 0x00, 0x1F, 0x00, 5]);
}

#[test]
fn empty_images_convert_to_nothing() {
    let mut out = [3u8; 4];
    rgb_to_yuv420p(&mut out, &[], 0, 0);
    yuv_420p_to_rgb(&mut out, &[], 0, 2);
    yuv_420p_to_rgb565(&mut out, &[], 2, 0);
    assert_eq!(out, [3; 4]);
}

#[test]
fn the_mouth_opens_and_shuts_every_sixth_tick() {
    assert_eq!(next_step(1, 0), 0);
    assert_eq!(next_step(5, 3), 3);
    assert_eq!(next_step(6, 0), 1);
    assert_eq!(next_step(12, 3), 4);
    assert_eq!(next_step(18, 4), 0);
    assert_eq!(next_step(0, 2), 3);
    let widths: Vec<usize> = (0..5).map(mouth).collect();
    assert_eq!(widths, vec![0, 1, 2, 1, 0]);
}

#[test]
fn a_sweeper_is_shown_by_direction() {
    assert_eq!(pose_picture(0), (0, Flip::Upright));
    assert_eq!(pose_picture(9), (9, Flip::Upright));
    assert_eq!(pose_picture(10), (0, Flip::Horizontal));
    assert_eq!(pose_picture(11), (9, Flip::Vertical));
    assert_eq!(pose_picture(20), (0, Flip::Vertical));
    assert_eq!(last_pose(3), 3);
    assert_eq!(last_pose(20), 20);
    assert_eq!(last_pose(21), 20);
    assert_eq!(last_pose(usize::MAX), 20);
}
