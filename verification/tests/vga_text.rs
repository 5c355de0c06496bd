use vga_text::color::{Color, ColorCode};
use vga_text::screen::{BUFFER_HEIGHT, BUFFER_WIDTH};
use vga_text::writer::{Writer, _print};

const WHITE_ON_BLACK: u8 = 0x0f;

fn fresh_writer() -> Writer {
    Writer::new(ColorCode::new(Color::White, Color::Black))
}

#[test]
fn color_packing_white_on_black() {
    assert_eq!(ColorCode::new(Color::White, Color::Black).as_byte(), 0x0f);
}

#[test]
fn color_packing_black_on_white() {
    assert_eq!(ColorCode::new(Color::Black, Color::White).as_byte(), 0xf0);
}

#[test]
fn color_codes_match_hardware_values() {
    assert_eq!(Color::Black.to_code(), 0);
    assert_eq!(Color::Blue.to_code(), 1);
    assert_eq!(Color::Green.to_code(), 2);
    assert_eq!(Color::Cyan.to_code(), 3);
    assert_eq!(Color::Red.to_code(), 4);
    assert_eq!(Color::Magenta.to_code(), 5);
    assert_eq!(Color::Brown.to_code(), 6);
    assert_eq!(Color::LightGray.to_code(), 7);
    assert_eq!(Color::DarkGray.to_code(), 8);
    assert_eq!(Color::LightBlue.to_code(), 9);
    assert_eq!(Color::LightGreen.to_code(), 10);
    assert_eq!(Color::LightCyan.to_code(), 11);
    assert_eq!(Color::LightRed.to_code(), 12);
    assert_eq!(Color::Pink.to_code(), 13);
    assert_eq!(Color::Yellow.to_code(), 14);
    assert_eq!(Color::White.to_code(), 15);
}

#[test]
fn color_round_trip_all_pairs() {
    for f in 0u8..16 {
        for b in 0u8..16 {
            let fg = Color::from_code(f);
            let bg = Color::from_code(b);
            let byte = ColorCode::new(fg, bg).as_byte();
            assert_eq!(Color::from_code(byte & 0x0f), fg);
            assert_eq!(Color::from_code(byte >> 4), bg);
        }
    }
}

#[test]
fn fresh_grid_is_blank() {
    let w = fresh_writer();
    assert_eq!(w.cursor_row(), 0);
    assert_eq!(w.cursor_column(), 0);
    for r in 0..BUFFER_HEIGHT {
        for c in 0..BUFFER_WIDTH {
            let cell = w.char_at(r, c);
            assert_eq!(cell.ascii_character, b' ');
            assert_eq!(cell.color_code.as_byte(), WHITE_ON_BLACK);
        }
    }
}

#[test]
fn eighty_bytes_fill_row_without_advance() {
    let mut w = fresh_writer();
    for _ in 0..BUFFER_WIDTH {
        w.write_byte(b'x');
    }
    assert_eq!(w.cursor_row(), 0);
    assert_eq!(w.cursor_column(), BUFFER_WIDTH);
    for c in 0..BUFFER_WIDTH {
        assert_eq!(w.char_at(0, c).ascii_character, b'x');
    }
}

#[test]
fn eighty_first_byte_wraps_to_next_row() {
    let mut w = fresh_writer();
    for _ in 0..BUFFER_WIDTH {
        w.write_byte(b'x');
    }
    w.write_byte(b'y');
    assert_eq!(w.cursor_row(), 1);
    assert_eq!(w.cursor_column(), 1);
    assert_eq!(w.char_at(1, 0).ascii_character, b'y');
    for c in 0..BUFFER_WIDTH {
        assert_eq!(w.char_at(0, c).ascii_character, b'x');
    }
}

#[test]
fn newline_splits_rows() {
    let mut w = fresh_writer();
    w.write_string("ab\ncd");
    assert_eq!(w.char_at(0, 0).ascii_character, b'a');
    assert_eq!(w.char_at(0, 1).ascii_character, b'b');
    assert_eq!(w.char_at(1, 0).ascii_character, b'c');
    assert_eq!(w.char_at(1, 1).ascii_character, b'd');
    for c in 2..BUFFER_WIDTH {
        assert_eq!(w.char_at(0, c).ascii_character, b' ');
    }
    assert_eq!(w.cursor_row(), 1);
    assert_eq!(w.cursor_column(), 2);
}

#[test]
fn newline_on_last_row_scrolls() {
    let mut w = fresh_writer();
    w.write_string("top");
    for _ in 0..(BUFFER_HEIGHT - 1) {
        w.write_byte(b'\n');
    }
    assert_eq!(w.cursor_row(), BUFFER_HEIGHT - 1);
    w.write_string("bottom");
    w.write_byte(b'\n');
    assert_eq!(w.cursor_row(), BUFFER_HEIGHT - 1);
    assert_eq!(w.cursor_column(), 0);
    let moved = b"bottom";
    for (i, expected) in moved.iter().enumerate() {
        assert_eq!(w.char_at(BUFFER_HEIGHT - 2, i).ascii_character, *expected);
    }
    for c in 0..BUFFER_WIDTH {
        let cell = w.char_at(BUFFER_HEIGHT - 1, c);
        assert_eq!(cell.ascii_character, b' ');
        assert_eq!(cell.color_code.as_byte(), WHITE_ON_BLACK);
    }
    assert_eq!(w.char_at(0, 0).ascii_character, b' ');
}

#[test]
fn control_byte_becomes_placeholder() {
    let mut w = fresh_writer();
    w.write_string("\u{1}");
    assert_eq!(w.char_at(0, 0).ascii_character, 0xfe);
}

#[test]
fn delete_byte_becomes_placeholder() {
    let mut w = fresh_writer();
    w.write_string("\u{7f}");
    assert_eq!(w.char_at(0, 0).ascii_character, 0xfe);
}

#[test]
fn multibyte_char_becomes_placeholder_per_byte() {
    let mut w = fresh_writer();
    w.write_string("\u{e9}");
    assert_eq!(w.char_at(0, 0).ascii_character, 0xfe);
    assert_eq!(w.char_at(0, 1).ascii_character, 0xfe);
    assert_eq!(w.cursor_column(), 2);
}

#[test]
fn write_byte_is_raw() {
    let mut w = fresh_writer();
    w.write_byte(0x01);
    assert_eq!(w.char_at(0, 0).ascii_character, 0x01);
}

#[test]
fn clear_row_twice_equals_once() {
    let mut w = fresh_writer();
    w.write_string("hello");
    w.clear_row(0);
    let once: Vec<(u8, u8)> = (0..BUFFER_WIDTH)
        .map(|c| {
            let cell = w.char_at(0, c);
            (cell.ascii_character, cell.color_code.as_byte())
        })
        .collect();
    let cursor_once = (w.cursor_row(), w.cursor_column());
    w.clear_row(0);
    let twice: Vec<(u8, u8)> = (0..BUFFER_WIDTH)
        .map(|c| {
            let cell = w.char_at(0, c);
            (cell.ascii_character, cell.color_code.as_byte())
        })
        .collect();
    let cursor_twice = (w.cursor_row(), w.cursor_column());
    assert_eq!(once, twice);
    assert_eq!(cursor_once, cursor_twice);
    assert_eq!(once[0], (b' ', WHITE_ON_BLACK));
}

#[test]
fn print_renders_through_writer() {
    let mut w = fresh_writer();
    _print(&mut w, "hi\nthere");
    assert_eq!(w.char_at(0, 0).ascii_character, b'h');
    assert_eq!(w.char_at(0, 1).ascii_character, b'i');
    assert_eq!(w.char_at(1, 0).ascii_character, b't');
    assert_eq!(w.cursor_row(), 1);
    assert_eq!(w.cursor_column(), 5);
}

#[test]
fn written_cells_carry_the_active_color() {
    let mut w = Writer::new(ColorCode::new(Color::Yellow, Color::Blue));
    w.write_string("q");
    let cell = w.char_at(0, 0);
    assert_eq!(cell.ascii_character, b'q');
    assert_eq!(cell.color_code.as_byte(), 0x1e);
}
