use rust_chip_8::display::{Display, HEIGHT, WIDTH};

fn lit_pixels(display: &Display) -> Vec<(usize, usize)> {
    let mut lit = Vec::new();
    for row in 0..HEIGHT {
        for col in 0..WIDTH {
            if display.pixel(row, col) == Some(true) {
                lit.push((row, col));
            }
        }
    }
    lit
}

#[test]
fn dimensions_are_64_by_32() {
    assert_eq!(WIDTH, 64);
    assert_eq!(HEIGHT, 32);
}

#[test]
fn new_display_is_dark() {
    let display = Display::new();
    for row in 0..HEIGHT {
        for col in 0..WIDTH {
            assert_eq!(display.pixel(row, col), Some(false));
        }
    }
}

#[test]
fn pixel_outside_the_grid_is_none() {
    let display = Display::new();
    assert_eq!(display.pixel(32, 0), None);
    assert_eq!(display.pixel(0, 64), None);
    assert_eq!(display.pixel(usize::MAX, usize::MAX), None);
    assert_eq!(display.pixel(31, 63), Some(false));
}

#[test]
fn clear_turns_every_pixel_off() {
    let mut display = Display::new();
    display.draw_sprite(&[0xFF, 0x81, 0xFF], 10, 5);
    display.draw_sprite(&[0xFF; 15], 60, 25);
    assert!(!lit_pixels(&display).is_empty());
    display.clear();
    assert_eq!(lit_pixels(&display), vec![]);
}

#[test]
fn clear_of_a_dark_display_stays_dark() {
    let mut display = Display::new();
    display.clear();
    assert_eq!(lit_pixels(&display), vec![]);
}

#[test]
fn draw_single_row_without_clipping_or_collision() {
    let mut display = Display::new();
    let collision = display.draw_sprite(&[0xF0], 0, 0);
    assert!(!collision);
    assert_eq!(lit_pixels(&display), vec![(0, 0), (0, 1), (0, 2), (0, 3)]);
    for col in 4..8 {
        assert_eq!(display.pixel(0, col), Some(false));
    }
}

#[test]
fn draw_same_sprite_twice_restores_and_collides() {
    let mut display = Display::new();
    assert!(!display.draw_sprite(&[0xF0], 0, 0));
    let collision = display.draw_sprite(&[0xF0], 0, 0);
    assert!(collision);
    assert_eq!(lit_pixels(&display), vec![]);
}

#[test]
fn draw_twice_restores_any_picture() {
    let mut display = Display::new();
    display.draw_sprite(&[0xAA, 0x55, 0xAA, 0x55], 3, 7);
    let before = display.snapshot();
    display.draw_sprite(&[0x3C, 0x7E, 0xFF], 5, 8);
    assert_ne!(display.snapshot(), before);
    display.draw_sprite(&[0x3C, 0x7E, 0xFF], 5, 8);
    assert_eq!(display.snapshot(), before);
}

#[test]
fn draw_clips_at_the_right_edge() {
    let mut display = Display::new();
    let collision = display.draw_sprite(&[0xFF], 61, 0);
    assert!(!collision);
    assert_eq!(lit_pixels(&display), vec![(0, 61), (0, 62), (0, 63)]);
    assert_eq!(display.pixel(0, 0), Some(false));
    assert_eq!(display.pixel(1, 0), Some(false));
}

#[test]
fn draw_clips_at_the_bottom_edge() {
    let mut display = Display::new();
    let collision = display.draw_sprite(&[0x80, 0x80, 0x80, 0x80], 0, 30);
    assert!(!collision);
    assert_eq!(lit_pixels(&display), vec![(30, 0), (31, 0)]);
}

#[test]
fn draw_clips_at_the_bottom_right_corner() {
    let mut display = Display::new();
    display.draw_sprite(&[0xFF, 0xFF, 0xFF], 63, 31);
    assert_eq!(lit_pixels(&display), vec![(31, 63)]);
}

#[test]
fn draw_at_last_unclipped_column() {
    let mut display = Display::new();
    display.draw_sprite(&[0x01], 56, 0);
    assert_eq!(lit_pixels(&display), vec![(0, 63)]);
}

#[test]
fn draw_puts_each_sprite_row_on_its_own_grid_row() {
    let mut display = Display::new();
    display.draw_sprite(&[0x80, 0x40, 0x20], 8, 4);
    assert_eq!(lit_pixels(&display), vec![(4, 8), (5, 9), (6, 10)]);
}

#[test]
fn draw_bit_seven_is_the_leftmost_pixel() {
    let mut display = Display::new();
    display.draw_sprite(&[0x81], 16, 2);
    assert_eq!(lit_pixels(&display), vec![(2, 16), (2, 23)]);
}

#[test]
fn draw_leaves_pixels_under_clear_bits_alone() {
    let mut display = Display::new();
    display.draw_sprite(&[0xFF], 0, 0);
    let collision = display.draw_sprite(&[0x00], 0, 0);
    assert!(!collision);
    assert_eq!(lit_pixels(&display).len(), 8);
}

#[test]
fn draw_empty_sprite_changes_nothing() {
    let mut display = Display::new();
    display.draw_sprite(&[0xFF], 0, 0);
    let before = display.snapshot();
    let collision = display.draw_sprite(&[], 0, 0);
    assert!(!collision);
    assert_eq!(display.snapshot(), before);
}

#[test]
fn draw_partial_overlap_collides_and_xors() {
    let mut display = Display::new();
    display.draw_sprite(&[0xF0], 0, 0);
    let collision = display.draw_sprite(&[0xF0], 2, 0);
    assert!(collision);
    assert_eq!(lit_pixels(&display), vec![(0, 0), (0, 1), (0, 4), (0, 5)]);
}

#[test]
fn draw_next_to_lit_pixels_does_not_collide() {
    let mut display = Display::new();
    display.draw_sprite(&[0xF0], 0, 0);
    let collision = display.draw_sprite(&[0xF0], 4, 0);
    assert!(!collision);
    assert_eq!(lit_pixels(&display).len(), 8);
}

#[test]
fn draw_collision_in_a_clipped_part_is_not_seen() {
    let mut display = Display::new();
    display.draw_sprite(&[0x80], 0, 0);
    // The sprite would reach column 64 if it wrapped round to column 0.
    let collision = display.draw_sprite(&[0x1F], 60, 0);
    assert!(!collision);
    assert_eq!(lit_pixels(&display), vec![(0, 0), (0, 63)]);
}

#[test]
fn draw_sprite_taller_than_fifteen_rows() {
    let mut display = Display::new();
    let sprite = [0x80u8; 40];
    display.draw_sprite(&sprite, 0, 0);
    assert_eq!(lit_pixels(&display).len(), 32);
    for row in 0..HEIGHT {
        assert_eq!(display.pixel(row, 0), Some(true));
    }
}

#[test]
fn snapshot_agrees_with_pixel() {
    let mut display = Display::new();
    display.draw_sprite(&[0xC3, 0x3C], 20, 10);
    let grid = display.snapshot();
    for row in 0..HEIGHT {
        for col in 0..WIDTH {
            assert_eq!(Some(grid[row][col]), display.pixel(row, col));
        }
    }
}
