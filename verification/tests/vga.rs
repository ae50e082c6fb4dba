use ghostos::io::PortOp;
use ghostos::vga::{
    color_from_tag, print_rich, set_mode_320x200x256, write_mode, Color, ColorWriter, GraphicsMode,
    PixelFormat, Rgb, VGATextBuffer, BLANK, BUFFER_CELLS, MODE_320X200X256,
};

fn blank_screen() -> VGATextBuffer {
    VGATextBuffer::new(vec![BLANK; BUFFER_CELLS])
}

const BOTTOM: usize = BUFFER_CELLS - 80;

fn cell(ch: u8, fg: Color, bg: Color) -> u16 {
    ch as u16 | ((fg.value() as u16) << 8) | ((bg.value() as u16) << 12)
}

#[test]
fn write_puts_a_cell_on_the_bottom_row() {
    let mut screen = blank_screen();
    screen.write(b'A', Color::Yellow, Color::Blue);
    assert_eq!(screen.cells()[BOTTOM], 0x1E41);
    screen.write(b'B', Color::White, Color::Black);
    assert_eq!(screen.cells()[BOTTOM + 1], 0x0F42);
}

#[test]
fn newline_scrolls_up_one_row() {
    let mut screen = blank_screen();
    screen.write_str("hi\n", Color::Green, Color::Black);
    assert_eq!(screen.cells()[BOTTOM - 80], cell(b'h', Color::Green, Color::Black));
    assert_eq!(screen.cells()[BOTTOM - 79], cell(b'i', Color::Green, Color::Black));
    assert!(screen.cells()[BOTTOM..].iter().all(|&c| c == BLANK));
    screen.write(b'x', Color::Red, Color::Black);
    assert_eq!(screen.cells()[BOTTOM], cell(b'x', Color::Red, Color::Black));
}

#[test]
fn a_full_row_wraps_to_a_new_line() {
    let mut screen = blank_screen();
    for _ in 0..80 {
        screen.write(b'a', Color::White, Color::Black);
    }
    assert_eq!(screen.cells()[BUFFER_CELLS - 1], cell(b'a', Color::White, Color::Black));
    screen.write(b'b', Color::White, Color::Black);
    assert_eq!(screen.cells()[BOTTOM - 1], cell(b'a', Color::White, Color::Black));
    assert_eq!(screen.cells()[BOTTOM], cell(b'b', Color::White, Color::Black));
    assert_eq!(screen.cells()[BOTTOM + 1], BLANK);
}

#[test]
fn colour_tags_name_colours() {
    assert_eq!(color_from_tag(b"red"), Some(Color::Red));
    assert_eq!(color_from_tag(b"lightgreen"), Some(Color::LightGreen));
    assert_eq!(color_from_tag(b"/"), Some(Color::White));
    assert_eq!(color_from_tag(b"darkgray"), Some(Color::DarkGray));
    assert_eq!(color_from_tag(b"purple"), None);
    assert_eq!(color_from_tag(b""), None);
    assert_eq!(color_from_tag(b"Red"), None);
}

#[test]
fn tagged_text_changes_the_colour() {
    let mut screen = blank_screen();
    print_rich(&mut screen, "[<lightcyan>info</>] ok");
    let expected: Vec<u16> = "[info] ok"
        .bytes()
        .enumerate()
        .map(|(i, b)| {
            let fg = if (1..5).contains(&i) { Color::LightCyan } else { Color::White };
            cell(b, fg, Color::Black)
        })
        .collect();
    assert_eq!(&screen.cells()[BOTTOM..BOTTOM + expected.len()], &expected[..]);
}

#[test]
fn unknown_tags_print_as_text() {
    let mut screen = blank_screen();
    print_rich(&mut screen, "a<b>c");
    let expected: Vec<u16> = "a<b>c".bytes().map(|b| cell(b, Color::White, Color::Black)).collect();
    assert_eq!(&screen.cells()[BOTTOM..BOTTOM + 5], &expected[..]);
}

#[test]
fn an_open_tag_is_printed_when_flushed() {
    let mut screen = blank_screen();
    print_rich(&mut screen, "x<red");
    let expected: Vec<u16> = "x<red".bytes().map(|b| cell(b, Color::White, Color::Black)).collect();
    assert_eq!(&screen.cells()[BOTTOM..BOTTOM + 5], &expected[..]);
}

#[test]
fn an_overlong_tag_is_printed_with_the_next_byte() {
    let mut screen = blank_screen();
    let mut writer = ColorWriter::new();
    writer.write_str(&mut screen, "<0123456789abcdefg");
    writer.flush(&mut screen);
    let expected: Vec<u16> =
        "<0123456789abcdefg".bytes().map(|b| cell(b, Color::White, Color::Black)).collect();
    assert_eq!(&screen.cells()[BOTTOM..BOTTOM + expected.len()], &expected[..]);
}

#[test]
fn colour_carries_over_between_writes_of_one_writer() {
    let mut screen = blank_screen();
    let mut writer = ColorWriter::new();
    writer.write_str(&mut screen, "<yel");
    writer.write_str(&mut screen, "low>z");
    writer.write_rich_byte(&mut screen, b'!');
    writer.flush(&mut screen);
    assert_eq!(screen.cells()[BOTTOM], cell(b'z', Color::Yellow, Color::Black));
    assert_eq!(screen.cells()[BOTTOM + 1], cell(b'!', Color::Yellow, Color::Black));
}

#[test]
fn pixels_map_to_the_colour_cube() {
    let mode = GraphicsMode::new(320, 200, 320, 0xA0000, PixelFormat::IndexedRgb666 { palette_start_index: 16 });
    assert_eq!(mode.set_pixel(0, 0, Rgb { red: 0, green: 0, blue: 0 }), Some((0xA0000, 16)));
    assert_eq!(mode.set_pixel(3, 2, Rgb { red: 255, green: 255, blue: 255 }), Some((0xA0000 + 643, 231)));
    assert_eq!(mode.set_pixel(1, 0, Rgb { red: 128, green: 25, blue: 26 }), Some((0xA0001, 16 + 3 * 36 + 0 + 1)));
    assert_eq!(mode.set_pixel(320, 0, Rgb { red: 0, green: 0, blue: 0 }), None);
    assert_eq!(mode.set_pixel(0, 200, Rgb { red: 0, green: 0, blue: 0 }), None);
    assert_eq!(PixelFormat::IndexedRgb666 { palette_start_index: 16 }.bytes_per_pixel(), 1);
}

#[test]
fn pixels_past_the_end_of_memory_are_skipped() {
    let mode = GraphicsMode::new(10, 10, 10, usize::MAX - 5, PixelFormat::IndexedRgb666 { palette_start_index: 0 });
    assert_eq!(mode.set_pixel(5, 0, Rgb { red: 0, green: 0, blue: 0 }), Some((usize::MAX, 0)));
    assert_eq!(mode.set_pixel(6, 0, Rgb { red: 0, green: 0, blue: 0 }), None);
    assert_eq!(mode.set_pixel(0, 1, Rgb { red: 0, green: 0, blue: 0 }), None);
}

#[test]
fn mode_switch_writes_registers_and_palette() {
    let (mode, ops) = set_mode_320x200x256();
    assert_eq!(mode.set_pixel(1, 1, Rgb { red: 0, green: 0, blue: 0 }), Some((0xA0000 + 321, 16)));
    let registers = write_mode(&MODE_320X200X256);
    assert_eq!(ops.len(), registers.len() + 1 + 648);
    assert_eq!(&ops[..registers.len()], &registers[..]);
    assert_eq!(registers[0], PortOp::WriteU8 { port: 0x3C2, value: 0x63 });
    assert_eq!(registers[1], PortOp::WriteU8 { port: 0x3C4, value: 0 });
    assert_eq!(registers[2], PortOp::WriteU8 { port: 0x3C5, value: 0x03 });
    assert_eq!(registers[11], PortOp::WriteU8 { port: 0x3D4, value: 0x03 });
    assert_eq!(registers[12], PortOp::UpdateU8 { port: 0x3D5, set: 0x80, clear: 0 });
    assert_eq!(registers[14], PortOp::UpdateU8 { port: 0x3D5, set: 0, clear: 0x80 });
    assert_eq!(registers.len(), 1 + 10 + 4 + 50 + 18 + 63 + 2);
    assert_eq!(registers[registers.len() - 2], PortOp::ReadU8 { port: 0x3DA });
    assert_eq!(registers[registers.len() - 1], PortOp::WriteU8 { port: 0x3C0, value: 0x20 });
    let palette = &ops[registers.len()..];
    assert_eq!(palette[0], PortOp::WriteU8 { port: 0x3C8, value: 16 });
    assert_eq!(&palette[1..4], &[PortOp::WriteU8 { port: 0x3C9, value: 0 }; 3]);
    assert_eq!(palette[6], PortOp::WriteU8 { port: 0x3C9, value: 12 });
    assert_eq!(&palette[646..649], &[PortOp::WriteU8 { port: 0x3C9, value: 63 }; 3]);
}
