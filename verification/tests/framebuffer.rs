use tide_clock_lib::epd4in2b_v2::{Color, DisplayBuffer};

fn bit(plane: &[u8], bytes_per_row: usize, x: usize, y: usize) -> bool {
    plane[y * bytes_per_row + x / 8] & (0x80 >> (x % 8)) != 0
}

fn color_at(buffer: &DisplayBuffer, x: usize, y: usize) -> (bool, bool) {
    let bytes_per_row = (buffer.width() as usize + 7) / 8;
    (
        bit(buffer.black_buffer(), bytes_per_row, x, y),
        bit(buffer.red_buffer(), bytes_per_row, x, y),
    )
}

#[test]
fn new_buffer_is_white() {
    let b = DisplayBuffer::new(400, 300);
    assert_eq!(b.width(), 400);
    assert_eq!(b.height(), 300);
    assert_eq!(b.black_buffer().len(), 15000);
    assert_eq!(b.red_buffer().len(), 15000);
    assert!(b.black_buffer().iter().all(|&x| x == 0xFF));
    assert!(b.red_buffer().iter().all(|&x| x == 0x00));
}

#[test]
fn new_buffer_rounds_rows_up_to_whole_bytes() {
    let b = DisplayBuffer::new(10, 3);
    assert_eq!(b.black_buffer().len(), 6);
    assert_eq!(b.red_buffer().len(), 6);
    let b = DisplayBuffer::new(8, 3);
    assert_eq!(b.black_buffer().len(), 3);
    let b = DisplayBuffer::new(1, 1);
    assert_eq!(b.black_buffer().len(), 1);
}

#[test]
fn new_buffer_without_pixels_is_empty() {
    let mut b = DisplayBuffer::new(0, 300);
    assert_eq!(b.black_buffer().len(), 0);
    b.set_pixel(0, 0, Color::Black);
    b.clear(Color::Red);
    assert_eq!(b.red_buffer().len(), 0);
    let b = DisplayBuffer::new(400, 0);
    assert_eq!(b.black_buffer().len(), 0);
}

#[test]
fn set_pixel_black_clears_the_black_bit() {
    let mut b = DisplayBuffer::new(400, 300);
    b.set_pixel(9, 1, Color::Black);
    assert_eq!(b.black_buffer()[51], 0b1011_1111);
    assert_eq!(b.red_buffer()[51], 0b0000_0000);
    assert_eq!(color_at(&b, 9, 1), (false, false));
}

#[test]
fn set_pixel_red_sets_both_bits() {
    let mut b = DisplayBuffer::new(400, 300);
    b.set_pixel(0, 0, Color::Red);
    assert_eq!(b.black_buffer()[0], 0b1111_1111);
    assert_eq!(b.red_buffer()[0], 0b1000_0000);
    b.set_pixel(399, 299, Color::Red);
    assert_eq!(b.black_buffer()[14999], 0b1111_1111);
    assert_eq!(b.red_buffer()[14999], 0b0000_0001);
}

#[test]
fn set_pixel_white_sets_black_bit_and_clears_red_bit() {
    let mut b = DisplayBuffer::new(16, 2);
    b.clear(Color::Black);
    b.set_pixel(3, 0, Color::White);
    assert_eq!(b.black_buffer(), &[0b0001_0000, 0, 0, 0]);
    assert_eq!(b.red_buffer(), &[0, 0, 0, 0]);
    b.clear(Color::Red);
    b.set_pixel(12, 1, Color::White);
    assert_eq!(b.black_buffer(), &[0xFF, 0xFF, 0xFF, 0xFF]);
    assert_eq!(b.red_buffer(), &[0xFF, 0xFF, 0xFF, 0b1111_0111]);
}

#[test]
fn set_pixel_uses_the_most_significant_bit_for_the_leftmost_pixel() {
    for x in 0..8u32 {
        let mut b = DisplayBuffer::new(8, 1);
        b.set_pixel(x, 0, Color::Black);
        assert_eq!(b.black_buffer()[0], !(0x80u8 >> x));
    }
}

#[test]
fn set_pixel_finds_the_byte_by_row_and_column() {
    let mut b = DisplayBuffer::new(20, 4);
    b.set_pixel(17, 3, Color::Black);
    let mut expected = vec![0xFFu8; 12];
    expected[3 * 3 + 2] = 0b1011_1111;
    assert_eq!(b.black_buffer(), &expected[..]);
}

#[test]
fn set_pixel_outside_the_buffer_changes_nothing() {
    let mut b = DisplayBuffer::new(20, 4);
    b.set_pixel(5, 1, Color::Red);
    let black = b.black_buffer().to_vec();
    let red = b.red_buffer().to_vec();
    for (x, y) in [(20, 0), (0, 4), (20, 4), (23, 3), (u32::MAX, 0), (0, u32::MAX), (u32::MAX, u32::MAX)] {
        for color in [Color::White, Color::Black, Color::Red] {
            b.set_pixel(x, y, color);
            assert_eq!(b.black_buffer(), &black[..]);
            assert_eq!(b.red_buffer(), &red[..]);
        }
    }
}

#[test]
fn the_last_write_to_a_pixel_wins() {
    let colors = [Color::White, Color::Black, Color::Red];
    let bits = [(true, false), (false, false), (true, true)];
    for first in 0..3 {
        for second in 0..3 {
            for third in 0..3 {
                let mut b = DisplayBuffer::new(24, 3);
                b.set_pixel(13, 2, colors[first]);
                b.set_pixel(13, 2, colors[second]);
                b.set_pixel(13, 2, colors[third]);
                assert_eq!(color_at(&b, 13, 2), bits[third]);
                assert_eq!(color_at(&b, 12, 2), (true, false));
                assert_eq!(color_at(&b, 14, 2), (true, false));
            }
        }
    }
}

#[test]
fn writes_to_different_pixels_do_not_depend_on_their_order() {
    let writes = [
        (0u32, 0u32, Color::Black),
        (1, 0, Color::Red),
        (7, 0, Color::Black),
        (8, 1, Color::Red),
        (15, 2, Color::Black),
        (23, 2, Color::Red),
    ];
    let mut forward = DisplayBuffer::new(24, 3);
    for &(x, y, c) in writes.iter() {
        forward.set_pixel(x, y, c);
    }
    let mut backward = DisplayBuffer::new(24, 3);
    for &(x, y, c) in writes.iter().rev() {
        backward.set_pixel(x, y, c);
    }
    assert_eq!(forward.black_buffer(), backward.black_buffer());
    assert_eq!(forward.red_buffer(), backward.red_buffer());
    assert_eq!(forward.black_buffer(), &[0b0111_1110, 0xFF, 0xFF, 0xFF, 0xFF, 0xFF, 0xFF, 0b1111_1110, 0xFF]);
    assert_eq!(forward.red_buffer(), &[0b0100_0000, 0, 0, 0, 0b1000_0000, 0, 0, 0, 0b0000_0001]);
}

#[test]
fn repeating_a_write_changes_nothing() {
    let mut b = DisplayBuffer::new(24, 3);
    b.set_pixel(5, 1, Color::Red);
    let black = b.black_buffer().to_vec();
    let red = b.red_buffer().to_vec();
    b.set_pixel(5, 1, Color::Red);
    assert_eq!(b.black_buffer(), &black[..]);
    assert_eq!(b.red_buffer(), &red[..]);
}

#[test]
fn clear_white_fills_black_plane_with_ones_and_red_plane_with_zeros() {
    let mut b = DisplayBuffer::new(400, 300);
    b.set_pixel(3, 3, Color::Red);
    b.set_pixel(4, 4, Color::Black);
    b.clear(Color::White);
    assert_eq!(b.black_buffer().len(), 15000);
    assert!(b.black_buffer().iter().all(|&x| x == 0xFF));
    assert!(b.red_buffer().iter().all(|&x| x == 0x00));
}

#[test]
fn clear_black_fills_both_planes_with_zeros() {
    let mut b = DisplayBuffer::new(400, 300);
    b.clear(Color::Black);
    assert!(b.black_buffer().iter().all(|&x| x == 0x00));
    assert!(b.red_buffer().iter().all(|&x| x == 0x00));
}

#[test]
fn clear_red_fills_both_planes_with_ones() {
    let mut b = DisplayBuffer::new(400, 300);
    b.clear(Color::Red);
    assert_eq!(b.red_buffer().len(), 15000);
    assert!(b.black_buffer().iter().all(|&x| x == 0xFF));
    assert!(b.red_buffer().iter().all(|&x| x == 0xFF));
}

#[test]
fn color_bits_follow_the_truth_table() {
    assert_eq!((Color::White.black_bit(), Color::White.red_bit()), (true, false));
    assert_eq!((Color::Black.black_bit(), Color::Black.red_bit()), (false, false));
    assert_eq!((Color::Red.black_bit(), Color::Red.red_bit()), (true, true));
}
