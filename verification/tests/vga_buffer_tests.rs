use napos::vga_buffer::{
    Buffer, Color, ColorCode, ScreenChar, Writer, BLANK, BUFFER_HEIGHT, BUFFER_WIDTH, PLACEHOLDER,
};

fn blank_buffer() -> &'static mut Buffer {
    Box::leak(Box::new([[[0u8; 2]; BUFFER_WIDTH]; BUFFER_HEIGHT]))
}

fn cleared_writer() -> Writer {
    let mut writer = Writer::new(blank_buffer());
    writer.clear_screen(0, BUFFER_HEIGHT);
    writer
}

fn row_bytes(writer: &Writer, row: usize) -> Vec<u8> {
    (0..BUFFER_WIDTH).map(|col| writer.read_cell(row, col).ascii_character).collect()
}

fn snapshot(writer: &Writer) -> Vec<ScreenChar> {
    let mut cells = Vec::new();
    for row in 0..BUFFER_HEIGHT {
        for col in 0..BUFFER_WIDTH {
            cells.push(writer.read_cell(row, col));
        }
    }
    cells
}

fn blank_row() -> Vec<u8> {
    vec![BLANK; BUFFER_WIDTH]
}

fn row_starting(text: &[u8]) -> Vec<u8> {
    let mut row = blank_row();
    row[..text.len()].copy_from_slice(text);
    row
}

#[test]
fn color_numbers_follow_the_hardware() {
    let all = [
        Color::Black,
        Color::Blue,
        Color::Green,
        Color::Cyan,
        Color::Red,
        Color::Magenta,
        Color::Brown,
        Color::LightGrey,
        Color::DarkGrey,
        Color::LightBlue,
        Color::LightGreen,
        Color::LightCyan,
        Color::LightRed,
        Color::Pink,
        Color::Yellow,
        Color::White,
    ];
    for (number, color) in all.iter().enumerate() {
        assert_eq!(color.code() as usize, number);
    }
}

#[test]
fn color_code_packs_background_above_foreground() {
    assert_eq!(ColorCode::new(Color::Yellow, Color::Black).byte(), 0x0e);
    assert_eq!(ColorCode::new(Color::White, Color::Blue).byte(), 0x1f);
    assert_eq!(ColorCode::new(Color::Black, Color::White).byte(), 0xf0);
    assert_eq!(ColorCode::new(Color::Red, Color::DarkGrey).byte(), 0x84);
}

#[test]
fn new_writer_is_yellow_on_black() {
    let mut writer = Writer::new(blank_buffer());
    assert_eq!(writer.get_color_code(), 0x0e);
}

#[test]
fn new_writer_keeps_what_the_grid_held() {
    let buffer = blank_buffer();
    buffer[3][4] = [b'x', 0x2a];
    let writer = Writer::new(buffer);
    let cell = writer.read_cell(3, 4);
    assert_eq!(cell.ascii_character, b'x');
    assert_eq!(cell.color_code.byte(), 0x2a);
}

#[test]
fn set_colors_change_one_nibble_each() {
    let mut writer = Writer::new(blank_buffer());
    writer.set_bg_color(Color::Blue);
    assert_eq!(writer.get_color_code(), 0x1e);
    writer.set_fg_color(Color::White);
    assert_eq!(writer.get_color_code(), 0x1f);
    writer.set_bg_color(Color::Black);
    assert_eq!(writer.get_color_code(), 0x0f);
    writer.set_fg_color(Color::Black);
    assert_eq!(writer.get_color_code(), 0x00);
}

#[test]
fn clear_screen_blanks_the_band_in_the_active_color() {
    let mut writer = Writer::new(blank_buffer());
    writer.set_fg_color(Color::Cyan);
    writer.clear_screen(1, 23);
    for row in 1..24 {
        for col in 0..BUFFER_WIDTH {
            let cell = writer.read_cell(row, col);
            assert_eq!(cell.ascii_character, b' ');
            assert_eq!(cell.color_code.byte(), 0x03);
        }
    }
    for row in [0, 24] {
        for col in 0..BUFFER_WIDTH {
            assert_eq!(writer.read_cell(row, col).ascii_character, 0);
        }
    }
}

#[test]
fn clear_screen_of_an_empty_band_changes_nothing() {
    let mut writer = cleared_writer();
    writer.write_string(0, 25, 0, "keep");
    let before = snapshot(&writer);
    writer.clear_screen(5, 0);
    writer.clear_screen(25, 0);
    assert_eq!(snapshot(&writer), before);
}

#[test]
fn write_byte_places_a_printable_byte_on_the_last_row() {
    let mut writer = cleared_writer();
    let col = writer.write_byte(1, 23, 5, b'Q');
    assert_eq!(col, 6);
    let cell = writer.read_cell(23, 5);
    assert_eq!(cell.ascii_character, b'Q');
    assert_eq!(cell.color_code.byte(), 0x0e);
    assert_eq!(row_bytes(&writer, 22), blank_row());
}

#[test]
fn write_byte_carriage_return_goes_to_column_0_and_changes_no_cell() {
    let mut writer = cleared_writer();
    writer.write_string(1, 23, 0, "abc");
    let before = snapshot(&writer);
    let col = writer.write_byte(1, 23, 3, b'\r');
    assert_eq!(col, 0);
    assert_eq!(snapshot(&writer), before);
}

#[test]
fn write_byte_line_feed_scrolls_and_goes_to_column_0() {
    let mut writer = cleared_writer();
    writer.write_string(1, 23, 0, "abc");
    let col = writer.write_byte(1, 23, 3, b'\n');
    assert_eq!(col, 0);
    assert_eq!(row_bytes(&writer, 22), row_starting(b"abc"));
    assert_eq!(row_bytes(&writer, 23), blank_row());
}

#[test]
fn write_byte_at_the_end_of_the_row_scrolls_first() {
    let mut writer = cleared_writer();
    writer.write_string(1, 23, 0, "abc");
    let col = writer.write_byte(1, 23, 80, b'Z');
    assert_eq!(col, 1);
    assert_eq!(row_bytes(&writer, 22), row_starting(b"abc"));
    assert_eq!(row_bytes(&writer, 23), row_starting(b"Z"));
}

#[test]
fn write_byte_shows_unprintable_bytes_as_the_placeholder() {
    for byte in [0x00u8, 0x01, 0x07, 0x08, 0x09, 0x0b, 0x1b, 0x1f, 0x7f, 0x80, 0xc3, 0xfe, 0xff] {
        let mut writer = cleared_writer();
        let col = writer.write_byte(0, 25, 0, byte);
        assert_eq!(col, 1);
        assert_eq!(writer.read_cell(24, 0).ascii_character, PLACEHOLDER);
        assert_eq!(PLACEHOLDER, 0xfe);
    }
}

#[test]
fn write_byte_shows_every_printable_byte_as_itself() {
    for byte in 0x20u8..=0x7e {
        let mut writer = cleared_writer();
        writer.write_byte(0, 25, 0, byte);
        assert_eq!(writer.read_cell(24, 0).ascii_character, byte);
    }
}

#[test]
fn write_string_shows_a_carriage_return_as_the_placeholder() {
    let mut writer = cleared_writer();
    let col = writer.write_string(1, 23, 0, "a\rb");
    assert_eq!(col, 3);
    assert_eq!(row_bytes(&writer, 23), row_starting(&[b'a', 0xfe, b'b']));
}

#[test]
fn write_string_shows_each_byte_of_a_wide_character_as_the_placeholder() {
    let mut writer = cleared_writer();
    let col = writer.write_string(1, 23, 0, "h\u{e9}\u{20ac}!");
    assert_eq!(col, 7);
    assert_eq!(
        row_bytes(&writer, 23),
        row_starting(&[b'h', 0xfe, 0xfe, 0xfe, 0xfe, 0xfe, b'!'])
    );
}

#[test]
fn write_string_of_nothing_changes_nothing() {
    let mut writer = cleared_writer();
    let before = snapshot(&writer);
    assert_eq!(writer.write_string(1, 23, 17, ""), 17);
    assert_eq!(snapshot(&writer), before);
}

#[test]
fn ab_line_feed_in_a_fresh_window() {
    let mut writer = Writer::new(blank_buffer());
    writer.clear_screen(1, 23);
    let col = writer.write_string(1, 23, 0, "AB\n");
    assert_eq!(col, 0);
    assert_eq!(row_bytes(&writer, 22), row_starting(b"AB"));
    assert_eq!(row_bytes(&writer, 23), blank_row());
    for row in 1..22 {
        assert_eq!(row_bytes(&writer, row), blank_row());
    }
    assert_eq!(row_bytes(&writer, 0), vec![0u8; BUFFER_WIDTH]);
    assert_eq!(row_bytes(&writer, 24), vec![0u8; BUFFER_WIDTH]);
}

#[test]
fn a_full_row_leaves_the_cursor_at_the_width() {
    let mut writer = cleared_writer();
    let text: String = (0..80).map(|i| (b'a' + (i % 26) as u8) as char).collect();
    let col = writer.write_string(1, 23, 0, &text);
    assert_eq!(col, 80);
    assert_eq!(row_bytes(&writer, 23), text.as_bytes().to_vec());
    assert_eq!(row_bytes(&writer, 22), blank_row());
}

#[test]
fn one_byte_more_than_a_row_scrolls_once() {
    let mut writer = cleared_writer();
    let text: String = (0..81).map(|i| (b'a' + (i % 26) as u8) as char).collect();
    let col = writer.write_string(1, 23, 0, &text);
    assert_eq!(col, 1);
    assert_eq!(row_bytes(&writer, 22), text.as_bytes()[..80].to_vec());
    assert_eq!(row_bytes(&writer, 23), row_starting(&text.as_bytes()[80..]));
    assert_eq!(row_bytes(&writer, 21), blank_row());
}

#[test]
fn scrolling_a_cleared_band_leaves_it_blank() {
    let mut writer = Writer::new(blank_buffer());
    writer.write_string(0, 25, 0, "noise everywhere\nand more\n");
    writer.clear_screen(1, 23);
    let before = snapshot(&writer);
    let col = writer.write_string(1, 23, 0, "\n");
    assert_eq!(col, 0);
    assert_eq!(snapshot(&writer), before);
    writer.write_byte(1, 23, 0, b'\n');
    assert_eq!(snapshot(&writer), before);
}

#[test]
fn scrolling_loses_the_first_row_of_the_band_only() {
    let mut writer = cleared_writer();
    writer.write_string(0, 1, 0, "top");
    writer.write_string(24, 1, 0, "bottom");
    writer.write_string(1, 3, 0, "one\ntwo\nthree");
    assert_eq!(row_bytes(&writer, 1), row_starting(b"one"));
    assert_eq!(row_bytes(&writer, 2), row_starting(b"two"));
    assert_eq!(row_bytes(&writer, 3), row_starting(b"three"));
    let col = writer.write_string(1, 3, 5, "\n");
    assert_eq!(col, 0);
    assert_eq!(row_bytes(&writer, 1), row_starting(b"two"));
    assert_eq!(row_bytes(&writer, 2), row_starting(b"three"));
    assert_eq!(row_bytes(&writer, 3), blank_row());
    assert_eq!(row_bytes(&writer, 0), row_starting(b"top"));
    assert_eq!(row_bytes(&writer, 24), row_starting(b"bottom"));
}

#[test]
fn a_one_row_band_scrolls_to_blank() {
    let mut writer = cleared_writer();
    writer.write_string(0, 1, 0, "gone");
    let col = writer.write_string(0, 1, 4, "\nnew");
    assert_eq!(col, 3);
    assert_eq!(row_bytes(&writer, 0), row_starting(b"new"));
    assert_eq!(row_bytes(&writer, 1), blank_row());
}

#[test]
fn a_write_to_one_band_changes_no_row_outside_it() {
    let mut writer = cleared_writer();
    writer.write_string(0, 1, 0, "banner");
    writer.write_string(24, 1, 0, "status");
    let top = row_bytes(&writer, 0);
    let bottom = row_bytes(&writer, 24);
    let long: String = (0..3000).map(|i| if i % 37 == 0 { '\n' } else { 'x' }).collect();
    writer.write_string(1, 23, 0, &long);
    assert_eq!(row_bytes(&writer, 0), top);
    assert_eq!(row_bytes(&writer, 24), bottom);
}

#[test]
fn the_column_after_a_text_counts_the_bytes_since_the_last_line_feed() {
    let cases: [(usize, &str, usize); 8] = [
        (0, "", 0),
        (0, "abc", 3),
        (5, "abc", 8),
        (79, "a", 80),
        (80, "a", 1),
        (0, "abc\nde", 2),
        (70, "0123456789012345", 6),
        (3, "\n", 0),
    ];
    for (start, text, expected) in cases {
        let mut writer = cleared_writer();
        assert_eq!(writer.write_string(1, 23, start, text), expected);
    }
    let mut writer = cleared_writer();
    let long: String = (0..200).map(|_| 'y').collect();
    assert_eq!(writer.write_string(1, 23, 0, &long), 40);
    let mut writer = cleared_writer();
    let long: String = (0..160).map(|_| 'y').collect();
    assert_eq!(writer.write_string(1, 23, 0, &long), 80);
}

#[test]
fn two_writes_are_one_write_of_the_joined_text() {
    let mut split = cleared_writer();
    let col = split.write_string(1, 23, 0, "first half,\n");
    let col = split.write_string(1, 23, col, " second half");
    let mut joined = cleared_writer();
    let same = joined.write_string(1, 23, 0, "first half,\n second half");
    assert_eq!(col, same);
    assert_eq!(snapshot(&split), snapshot(&joined));
}

#[test]
fn cells_are_written_in_the_active_color() {
    let mut writer = cleared_writer();
    writer.set_fg_color(Color::Red);
    writer.set_bg_color(Color::LightGrey);
    writer.write_string(1, 23, 0, "r");
    assert_eq!(writer.read_cell(23, 0).color_code.byte(), 0x74);
    assert_eq!(writer.read_cell(23, 1).color_code.byte(), 0x0e);
    writer.write_string(1, 23, 1, "\n");
    assert_eq!(writer.read_cell(22, 0).color_code.byte(), 0x74);
    assert_eq!(writer.read_cell(23, 0).color_code.byte(), 0x74);
    assert_eq!(writer.read_cell(23, 0).ascii_character, b' ');
}

#[test]
fn new_line_scrolls_the_band_by_one_row() {
    let mut writer = cleared_writer();
    writer.write_string(0, 1, 0, "top");
    writer.write_string(1, 3, 0, "one\ntwo\nthree");
    writer.write_string(24, 1, 0, "bottom");
    writer.set_fg_color(Color::Green);
    writer.new_line(1, 3);
    assert_eq!(row_bytes(&writer, 1), row_starting(b"two"));
    assert_eq!(row_bytes(&writer, 2), row_starting(b"three"));
    assert_eq!(row_bytes(&writer, 3), blank_row());
    assert_eq!(writer.read_cell(3, 0).color_code.byte(), 0x02);
    assert_eq!(writer.read_cell(2, 0).color_code.byte(), 0x0e);
    assert_eq!(row_bytes(&writer, 0), row_starting(b"top"));
    assert_eq!(row_bytes(&writer, 24), row_starting(b"bottom"));
    assert_eq!(row_bytes(&writer, 4), blank_row());
    assert_eq!(writer.get_color_code(), 0x02);
}

#[test]
fn new_line_on_a_blank_band_changes_no_cell() {
    let mut writer = Writer::new(blank_buffer());
    writer.write_string(0, 25, 0, "noise\neverywhere\n");
    writer.set_bg_color(Color::Blue);
    writer.clear_screen(1, 23);
    let before = snapshot(&writer);
    writer.new_line(1, 23);
    assert_eq!(snapshot(&writer), before);
    writer.new_line(1, 23);
    assert_eq!(snapshot(&writer), before);
    assert_eq!(writer.get_color_code(), 0x1e);
}
