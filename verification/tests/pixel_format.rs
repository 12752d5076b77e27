use usb_screen::bytes::{push_u16_be, push_u64_be, u16_from_be, u16_from_le, u32_from_le, u64_from_be};
use usb_screen::rgb565::{
    rgb565_le_to_be, rgb888_to_rgb565_be, rgb888_to_rgb565_le, rgb_to_rgb565, Rgb565Pixel,
};

#[test]
fn primary_colours_pack_into_their_fields() {
    assert_eq!(rgb_to_rgb565(255, 0, 0), 0xF800);
    assert_eq!(rgb_to_rgb565(0, 255, 0), 0x07E0);
    assert_eq!(rgb_to_rgb565(0, 0, 255), 0x001F);
    assert_eq!(rgb_to_rgb565(255, 255, 255), 0xFFFF);
    assert_eq!(rgb_to_rgb565(0, 0, 0), 0x0000);
}

#[test]
fn low_bits_of_a_colour_are_dropped() {
    assert_eq!(rgb_to_rgb565(7, 3, 7), 0x0000);
    assert_eq!(rgb_to_rgb565(8, 4, 8), 0x0821);
    assert_eq!(rgb_to_rgb565(0x12, 0x34, 0x56), 0x11AA);
}

#[test]
fn pixel_from_rgb_matches_the_packing() {
    assert_eq!(Rgb565Pixel::from_rgb(0, 0, 255), Rgb565Pixel(0x001F));
    assert_eq!(Rgb565Pixel::from_rgb(255, 0, 0).0, rgb_to_rgb565(255, 0, 0));
}

#[test]
fn byte_order_is_exchanged_in_place() {
    let mut image = [0x1F, 0x00, 0x34, 0x12, 0xAA, 0xBB];
    rgb565_le_to_be(&mut image);
    assert_eq!(image, [0x00, 0x1F, 0x12, 0x34, 0xBB, 0xAA]);
}

#[test]
fn exchanging_twice_gives_the_image_back() {
    let before = [1u8, 2, 3, 4, 5, 6, 7, 8];
    let mut image = before;
    rgb565_le_to_be(&mut image);
    rgb565_le_to_be(&mut image);
    assert_eq!(image, before);
}

#[test]
fn empty_image_stays_empty() {
    let mut image: [u8; 0] = [];
    rgb565_le_to_be(&mut image);
    assert_eq!(image.len(), 0);
}

#[test]
fn rgb888_becomes_big_endian_pixels() {
    let rgb = [0u8, 0, 255, 255, 0, 0, 0, 255, 0];
    assert_eq!(rgb888_to_rgb565_be(&rgb), vec![0x00, 0x1F, 0xF8, 0x00, 0x07, 0xE0]);
}

#[test]
fn rgb888_becomes_little_endian_pixels() {
    let rgb = [0u8, 0, 255, 255, 0, 0, 0, 255, 0];
    assert_eq!(rgb888_to_rgb565_le(&rgb), vec![0x1F, 0x00, 0x00, 0xF8, 0xE0, 0x07]);
}

#[test]
fn trailing_partial_pixel_is_left_out() {
    let rgb = [0u8, 0, 255, 9, 9];
    assert_eq!(rgb888_to_rgb565_be(&rgb), vec![0x00, 0x1F]);
    assert_eq!(rgb888_to_rgb565_be(&[1, 2]), Vec::<u8>::new());
}

#[test]
fn the_two_byte_orders_differ_by_an_exchange() {
    let rgb: Vec<u8> = (0..30u8).collect();
    let mut le = rgb888_to_rgb565_le(&rgb);
    rgb565_le_to_be(&mut le);
    assert_eq!(le, rgb888_to_rgb565_be(&rgb));
}

#[test]
fn words_are_read_in_both_orders() {
    assert_eq!(u16_from_be(0x12, 0x34), 0x1234);
    assert_eq!(u16_from_le(0x34, 0x12), 0x1234);
    assert_eq!(u16_from_be(0xFF, 0xFF), 0xFFFF);
}

#[test]
fn length_prefix_is_read_little_endian() {
    assert_eq!(u32_from_le(&[0x00, 0xA0, 0x00, 0x00]), 40960);
    assert_eq!(u32_from_le(&[0x78, 0x56, 0x34, 0x12, 0xFF]), 0x12345678);
    assert_eq!(u32_from_le(&[0xFF, 0xFF, 0xFF, 0xFF]), u32::MAX);
}

#[test]
fn marker_is_read_big_endian() {
    assert_eq!(u64_from_be(b"image_aa"), 7596835243154170209);
    assert_eq!(u64_from_be(&[0, 0, 0, 0, 0, 0, 1, 2, 99]), 258);
    assert_eq!(u64_from_be(&[0xFF; 8]), u64::MAX);
}

#[test]
fn integers_are_appended_in_their_order() {
    let mut out = vec![9u8];
    push_u64_be(&mut out, 0x0102030405060708);
    push_u16_be(&mut out, 0xA1B2);
    assert_eq!(out, vec![9, 1, 2, 3, 4, 5, 6, 7, 8, 0xA1, 0xB2]);
}
