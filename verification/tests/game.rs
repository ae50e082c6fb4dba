use ghostos::game::{draw_rect, update_and_render, Framebuffer, State};
use ghostos::vga::Rgb;

#[test]
fn draw_rect_fills_blue_green_red() {
    let mut fb = Framebuffer::new(4, 3, 3, vec![0xAA; 36]);
    draw_rect(&mut fb, 1, 1, 2, 1, Rgb { red: 1, green: 2, blue: 3 });
    let data = fb.into_data();
    let mut expected = vec![0xAA; 36];
    for x in 1..3 {
        let at = 1 * 12 + x * 3;
        expected[at] = 3;
        expected[at + 1] = 2;
        expected[at + 2] = 1;
    }
    assert_eq!(data, expected);
}

#[test]
fn four_byte_pixels_keep_their_fourth_byte() {
    let mut fb = Framebuffer::new(2, 2, 4, vec![9; 16]);
    draw_rect(&mut fb, 0, 0, 2, 2, Rgb { red: 7, green: 8, blue: 6 });
    assert_eq!(fb.into_data(), vec![6, 8, 7, 9, 6, 8, 7, 9, 6, 8, 7, 9, 6, 8, 7, 9]);
}

#[test]
fn empty_rectangles_change_nothing() {
    let mut fb = Framebuffer::new(2, 2, 3, vec![5; 12]);
    draw_rect(&mut fb, 1, 1, 0, 1, Rgb { red: 0, green: 0, blue: 0 });
    draw_rect(&mut fb, 0, 2, 2, 0, Rgb { red: 0, green: 0, blue: 0 });
    assert_eq!(fb.into_data(), vec![5; 12]);
}

#[test]
fn a_frame_clears_the_screen_to_black() {
    let mut state = State::default();
    let mut fb = Framebuffer::new(3, 2, 3, vec![0xFF; 18]);
    update_and_render(&mut state, &mut fb);
    assert_eq!(fb.into_data(), vec![0; 18]);
    let mut again = Framebuffer::new(1, 1, 3, vec![1, 2, 3]);
    update_and_render(&mut state, &mut again);
    assert_eq!(again.into_data(), vec![0, 0, 0]);
}

#[test]
fn framebuffer_reports_its_dimensions() {
    let fb = Framebuffer::new(4, 3, 3, vec![0; 36]);
    assert_eq!((fb.width(), fb.height(), fb.bpp()), (4, 3, 3));
    assert_eq!((fb.size(), fb.byte_len(), fb.data().len()), (12, 36, 36));
}

#[test]
fn only_colour_bytes_inside_the_rectangle_change() {
    let mut fb = Framebuffer::new(3, 3, 4, vec![0x55; 36]);
    draw_rect(&mut fb, 1, 0, 1, 2, Rgb { red: 0x10, green: 0x20, blue: 0x30 });
    let data = fb.into_data();
    for (i, &byte) in data.iter().enumerate() {
        let (row, col, k) = (i / 12, (i % 12) / 4, (i % 12) % 4);
        let inside = row < 2 && col == 1 && k < 3;
        let expected = if inside { [0x30, 0x20, 0x10][k] } else { 0x55 };
        assert_eq!(byte, expected, "byte {}", i);
    }
}
