use ssd1322::framebuffer::{
    update_lower_nibble, update_upper_nibble, Framebuffer, BUFFER_SIZE, DISPLAY_HEIGHT,
    DISPLAY_WIDTH, ROW_BYTES,
};
use ssd1322::pixel::{Gray4, Pixel, Point};

#[test]
fn sizes_of_the_grid() {
    assert_eq!(DISPLAY_WIDTH, 256);
    assert_eq!(DISPLAY_HEIGHT, 64);
    assert_eq!(ROW_BYTES, 128);
    assert_eq!(BUFFER_SIZE, 8192);
}

#[test]
fn gray_keeps_the_low_four_bits() {
    assert_eq!(Gray4::new(0x0F).luma(), 0x0F);
    assert_eq!(Gray4::new(0x00).luma(), 0x00);
    assert_eq!(Gray4::new(0x1A).luma(), 0x0A);
    assert_eq!(Gray4::new(0xF0).luma(), 0x00);
}

#[test]
fn point_and_pixel_hold_what_they_are_given() {
    let Pixel(point, gray) = Pixel(Point::new(-3, 70), Gray4::new(9));
    assert_eq!(point, Point { x: -3, y: 70 });
    assert_eq!(gray.luma(), 9);
}

#[test]
fn nibbles_are_replaced_one_at_a_time() {
    assert_eq!(update_upper_nibble(0x00, 0x0F), 0xF0);
    assert_eq!(update_upper_nibble(0x3C, 0x0A), 0xAC);
    assert_eq!(update_lower_nibble(0x00, 0x0F), 0x0F);
    assert_eq!(update_lower_nibble(0x3C, 0x0A), 0x3A);
    assert_eq!(update_upper_nibble(0x3C, 0xFA), 0xAC);
    assert_eq!(update_lower_nibble(0x3C, 0xFA), 0x3A);
}

#[test]
fn new_buffer_is_black() {
    let fb = Framebuffer::new();
    assert!(fb.as_bytes().iter().all(|b| *b == 0));
    assert_eq!(fb.as_bytes().len(), 8192);
}

#[test]
fn even_column_goes_to_the_high_nibble() {
    let mut fb = Framebuffer::new();
    assert!(fb.set_pixel(2, 1, Gray4::new(0x0F)));
    assert_eq!(fb.as_bytes()[128 + 1], 0xF0);
    assert_eq!(fb.as_bytes().iter().filter(|b| **b != 0).count(), 1);
}

#[test]
fn odd_column_goes_to_the_low_nibble() {
    let mut fb = Framebuffer::new();
    assert!(fb.set_pixel(3, 2, Gray4::new(0x07)));
    assert_eq!(fb.as_bytes()[2 * 128 + 1], 0x07);
    assert_eq!(fb.as_bytes().iter().filter(|b| **b != 0).count(), 1);
}

#[test]
fn last_pixel_is_in_the_last_byte() {
    let mut fb = Framebuffer::new();
    assert!(fb.set_pixel(255, 63, Gray4::new(0x01)));
    assert_eq!(fb.as_bytes()[8191], 0x01);
}

#[test]
fn write_then_read_gives_the_gray_back() {
    let mut fb = Framebuffer::new();
    for y in 0..64 {
        for x in 0..256 {
            let gray = ((x * 7 + y * 3) % 16) as u8;
            fb.set_pixel(x, y, Gray4::new(gray));
        }
    }
    for y in 0..64 {
        for x in 0..256 {
            let gray = ((x * 7 + y * 3) % 16) as u8;
            assert_eq!(fb.pixel(x, y).unwrap().luma(), gray);
        }
    }
}

#[test]
fn neighbour_in_the_same_byte_is_untouched() {
    for gray in 0..16u8 {
        let mut fb = Framebuffer::new();
        fb.set_pixel(10, 5, Gray4::new(0x0C));
        fb.set_pixel(11, 5, Gray4::new(gray));
        assert_eq!(fb.pixel(10, 5).unwrap().luma(), 0x0C);
        assert_eq!(fb.pixel(11, 5).unwrap().luma(), gray);
        fb.set_pixel(10, 5, Gray4::new(15 - gray));
        assert_eq!(fb.pixel(11, 5).unwrap().luma(), gray);
        assert_eq!(fb.pixel(10, 5).unwrap().luma(), 15 - gray);
    }
}

#[test]
fn same_value_is_no_change() {
    let mut fb = Framebuffer::new();
    assert!(!fb.set_pixel(4, 4, Gray4::new(0)));
    assert!(fb.set_pixel(4, 4, Gray4::new(5)));
    assert!(!fb.set_pixel(4, 4, Gray4::new(5)));
    assert!(fb.set_pixel(4, 4, Gray4::new(6)));
}

#[test]
fn positions_off_the_grid_are_ignored() {
    let mut fb = Framebuffer::new();
    fb.clear(Gray4::new(3));
    let before = *fb.as_bytes();
    for (x, y) in [
        (-1, 0),
        (0, -1),
        (256, 0),
        (0, 64),
        (256, 64),
        (i32::MIN, i32::MIN),
        (i32::MAX, i32::MAX),
        (-1, 63),
        (255, 64),
    ] {
        assert!(!fb.set_pixel(x, y, Gray4::new(0x0F)));
        assert!(fb.pixel(x, y).is_none());
    }
    assert_eq!(*fb.as_bytes(), before);
}

#[test]
fn clear_fills_both_nibbles() {
    let mut fb = Framebuffer::new();
    fb.set_pixel(9, 9, Gray4::new(2));
    fb.clear(Gray4::new(0x0A));
    assert!(fb.as_bytes().iter().all(|b| *b == 0xAA));
    fb.clear(Gray4::new(0x00));
    assert!(fb.as_bytes().iter().all(|b| *b == 0x00));
    fb.clear(Gray4::new(0x0F));
    assert!(fb.as_bytes().iter().all(|b| *b == 0xFF));
    assert_eq!(fb.pixel(255, 63).unwrap().luma(), 0x0F);
}
