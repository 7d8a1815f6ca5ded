use blog_os::buffer::{Buffer, ScreenChar, BUFFER_HEIGHT, BUFFER_WIDTH};
use blog_os::color::{Color, ColorCode};
use blog_os::writer::{_print, Writer, PLACEHOLDER_GLYPH};

const ALL_COLORS: [Color; 16] = [
    Color::Black,
    Color::Blue,
    Color::Green,
    Color::Cyan,
    Color::Red,
    Color::Magenta,
    Color::Brown,
    Color::LightGray,
    Color::DarkGray,
    Color::LightBlue,
    Color::LightGreen,
    Color::LightCyan,
    Color::LightRed,
    Color::Pink,
    Color::Yellow,
    Color::White,
];

fn yellow_on_black() -> ColorCode {
    ColorCode::new(Color::Yellow, Color::Black)
}

fn cell(glyph: u8, color: ColorCode) -> ScreenChar {
    ScreenChar { ascii_character: glyph, color_code: color }
}

fn bottom_row_text(w: &Writer, len: usize) -> Vec<u8> {
    (0..len).map(|c| w.read_char(BUFFER_HEIGHT - 1, c).ascii_character).collect()
}

#[test]
fn color_values_are_hardware_numbers() {
    for (i, c) in ALL_COLORS.iter().enumerate() {
        assert_eq!(c.value() as usize, i);
    }
}

#[test]
fn pack_puts_background_in_high_nibble() {
    assert_eq!(yellow_on_black().0, 0x0e);
    assert_eq!(ColorCode::new(Color::Blue, Color::White).0, 0xf1);
    assert_eq!(ColorCode::new(Color::White, Color::Red).0, 0x4f);
}

#[test]
fn unpack_inverts_pack_for_all_pairs() {
    for fg in ALL_COLORS {
        for bg in ALL_COLORS {
            assert_eq!(ColorCode::new(fg, bg).unpack(), (fg, bg));
        }
    }
}

#[test]
fn screen_char_word_layout() {
    let c = cell(b'A', yellow_on_black());
    assert_eq!(c.to_raw(), 0x0e41);
    assert_eq!(ScreenChar::from_raw(0x0e41), c);
    assert_eq!(ScreenChar::from_raw(0xf1fe), cell(0xfe, ColorCode(0xf1)));
}

#[test]
fn buffer_write_then_read() {
    let fill = cell(b' ', yellow_on_black());
    let mut b = Buffer::new(fill);
    let x = cell(b'x', ColorCode(0x21));
    b.write(3, 7, x);
    assert_eq!(b.read(3, 7), x);
    assert_eq!(b.read(3, 8), fill);
    assert_eq!(b.read(7, 3), fill);
    b.write(BUFFER_HEIGHT - 1, BUFFER_WIDTH - 1, x);
    assert_eq!(b.read(BUFFER_HEIGHT - 1, BUFFER_WIDTH - 1), x);
}

#[test]
fn new_writer_is_blank_at_column_zero() {
    let w = Writer::new(yellow_on_black());
    assert_eq!(w.column_position(), 0);
    assert_eq!(w.color_code(), yellow_on_black());
    assert_eq!(w.read_char(0, 0), cell(b' ', yellow_on_black()));
    assert_eq!(w.read_char(BUFFER_HEIGHT - 1, BUFFER_WIDTH - 1), cell(b' ', yellow_on_black()));
}

#[test]
fn printable_text_reads_back() {
    let color = yellow_on_black();
    let mut w = Writer::new(color);
    w.write_string("Hello World!");
    assert_eq!(w.column_position(), 12);
    for (i, b) in "Hello World!".bytes().enumerate() {
        assert_eq!(w.read_char(BUFFER_HEIGHT - 1, i), cell(b, color));
    }
    assert_eq!(w.read_char(BUFFER_HEIGHT - 1, 12), cell(b' ', color));
    assert_eq!(w.read_char(BUFFER_HEIGHT - 2, 0), cell(b' ', color));
}

#[test]
fn text_with_newlines_reads_back_line_by_line() {
    let color = yellow_on_black();
    let mut w = Writer::new(color);
    w.write_string("ab\ncd\nef");
    assert_eq!(w.column_position(), 2);
    assert_eq!(bottom_row_text(&w, 3), b"ef ".to_vec());
    assert_eq!(w.read_char(BUFFER_HEIGHT - 2, 0), cell(b'c', color));
    assert_eq!(w.read_char(BUFFER_HEIGHT - 2, 1), cell(b'd', color));
    assert_eq!(w.read_char(BUFFER_HEIGHT - 3, 0), cell(b'a', color));
    assert_eq!(w.read_char(BUFFER_HEIGHT - 3, 1), cell(b'b', color));
    assert_eq!(w.read_char(BUFFER_HEIGHT - 4, 0), cell(b' ', color));
}

#[test]
fn unprintable_bytes_become_placeholder() {
    let color = yellow_on_black();
    for b in [0x00u8, 0x07, 0x1f, 0x7f, 0x80, 0xfe, 0xff] {
        let mut w = Writer::new(color);
        w.write_byte(b);
        assert_eq!(w.column_position(), 1);
        assert_eq!(w.read_char(BUFFER_HEIGHT - 1, 0), cell(PLACEHOLDER_GLYPH, color));
    }
}

#[test]
fn multibyte_character_gives_one_placeholder_per_byte() {
    let color = yellow_on_black();
    let mut w = Writer::new(color);
    w.write_string("aé");
    assert_eq!(w.column_position(), 3);
    assert_eq!(bottom_row_text(&w, 3), vec![b'a', 0xfe, 0xfe]);
}

#[test]
fn full_row_without_scroll_then_one_scroll() {
    let color = yellow_on_black();
    let mut w = Writer::new(color);
    w.write_string("x\n");
    let line: String = (0..BUFFER_WIDTH).map(|i| (b'A' + (i % 26) as u8) as char).collect();
    w.write_string(&line);
    assert_eq!(w.column_position(), BUFFER_WIDTH);
    assert_eq!(bottom_row_text(&w, BUFFER_WIDTH), line.as_bytes().to_vec());
    assert_eq!(w.read_char(BUFFER_HEIGHT - 2, 0), cell(b'x', color));
    w.write_byte(b'!');
    assert_eq!(w.column_position(), 1);
    assert_eq!(w.read_char(BUFFER_HEIGHT - 1, 0), cell(b'!', color));
    assert_eq!(w.read_char(BUFFER_HEIGHT - 1, 1), cell(b' ', color));
    for c in 0..BUFFER_WIDTH {
        assert_eq!(w.read_char(BUFFER_HEIGHT - 2, c), cell(line.as_bytes()[c], color));
    }
    assert_eq!(w.read_char(BUFFER_HEIGHT - 3, 0), cell(b'x', color));
}

#[test]
fn scroll_moves_every_row_up() {
    let color = yellow_on_black();
    let mut w = Writer::new(color);
    for r in 0..BUFFER_HEIGHT {
        w.write_byte(b'a' + r as u8);
        if r + 1 < BUFFER_HEIGHT {
            w.write_byte(b'\n');
        }
    }
    let before: Vec<ScreenChar> = (0..BUFFER_HEIGHT).map(|r| w.read_char(r, 0)).collect();
    assert_eq!(before[BUFFER_HEIGHT - 1], cell(b'a' + 24, color));
    w.write_byte(b'\n');
    assert_eq!(w.column_position(), 0);
    for r in 1..BUFFER_HEIGHT {
        assert_eq!(w.read_char(r - 1, 0), before[r]);
    }
    for c in 0..BUFFER_WIDTH {
        assert_eq!(w.read_char(BUFFER_HEIGHT - 1, c), cell(b' ', color));
    }
}

#[test]
fn consecutive_prints_are_contiguous() {
    let color = yellow_on_black();
    let mut w = Writer::new(color);
    _print(&mut w, "AA");
    _print(&mut w, "BB");
    assert_eq!(w.column_position(), 4);
    assert_eq!(bottom_row_text(&w, 5), b"AABB ".to_vec());
}

#[test]
fn last_line_reads_back_after_wrapped_text() {
    let color = yellow_on_black();
    let mut w = Writer::new(color);
    let long: String = std::iter::repeat('x').take(170).collect();
    w.write_string(&long);
    assert_eq!(w.column_position(), 10);
    w.write_string("\nhello");
    assert_eq!(w.column_position(), 5);
    assert_eq!(bottom_row_text(&w, 6), b"hello ".to_vec());
    for c in 5..BUFFER_WIDTH {
        assert_eq!(w.read_char(BUFFER_HEIGHT - 1, c), cell(b' ', color));
    }
    assert_eq!(w.read_char(BUFFER_HEIGHT - 2, 9), cell(b'x', color));
    assert_eq!(w.read_char(BUFFER_HEIGHT - 2, 10), cell(b' ', color));
    assert_eq!(w.read_char(BUFFER_HEIGHT - 3, 79), cell(b'x', color));
}
