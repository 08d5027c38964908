use napos::console::{init_console, Console, _print, ANNOUNCE, BODY, SUBTEXT};
use napos::vga_buffer::{Buffer, Color, Writer, BUFFER_HEIGHT, BUFFER_WIDTH};
use std::fmt::Write;

fn empty_buffer() -> &'static mut Buffer {
    Box::leak(Box::new([[[0u8; 2]; BUFFER_WIDTH]; BUFFER_HEIGHT]))
}

fn started_console() -> Console {
    let mut console = Console::new(Writer::new(empty_buffer()));
    init_console(&mut console);
    console
}

fn line(console: &Console, row: usize) -> String {
    let bytes: Vec<u8> =
        (0..BUFFER_WIDTH).map(|col| console.read_cell(row, col).ascii_character).collect();
    String::from_utf8_lossy(&bytes).trim_end().to_string()
}

fn colors(console: &Console, row: usize) -> Vec<u8> {
    (0..BUFFER_WIDTH).map(|col| console.read_cell(row, col).color_code.byte()).collect()
}

#[test]
fn a_new_console_has_three_windows_over_the_whole_screen() {
    let console = Console::new(Writer::new(empty_buffer()));
    let tops_and_heights: Vec<(usize, usize)> =
        (0..3).map(|i| (console.window(i).top, console.window(i).height)).collect();
    assert_eq!(tops_and_heights, vec![(0, 1), (1, 23), (24, 1)]);
    for idx in 0..3 {
        let window = console.window(idx);
        assert_eq!(window.cur, 0);
        assert_eq!(window.bg_color, Color::Black);
        assert_eq!(window.fg_color, Color::White);
    }
    assert_eq!(console.current_window(), 1);
    assert_eq!((ANNOUNCE, BODY, SUBTEXT), (0, 1, 2));
}

#[test]
fn init_console_paints_each_window_in_its_colors() {
    let console = started_console();
    assert_eq!(colors(&console, 0), vec![0x8f; BUFFER_WIDTH]);
    for row in 1..24 {
        assert_eq!(colors(&console, row), vec![0x03; BUFFER_WIDTH]);
    }
    assert_eq!(colors(&console, 24), vec![0x8e; BUFFER_WIDTH]);
    for row in 0..BUFFER_HEIGHT {
        assert_eq!(line(&console, row), "");
        assert_eq!(console.read_cell(row, 79).ascii_character, b' ');
    }
    assert_eq!(console.window(0).bg_color, Color::DarkGrey);
    assert_eq!(console.window(0).fg_color, Color::White);
    assert_eq!(console.window(1).bg_color, Color::Black);
    assert_eq!(console.window(1).fg_color, Color::Cyan);
    assert_eq!(console.window(2).bg_color, Color::DarkGrey);
    assert_eq!(console.window(2).fg_color, Color::Yellow);
    assert_eq!(console.current_window(), 1);
}

#[test]
fn set_colors_take_effect_on_the_next_write() {
    let mut console = started_console();
    console.write_string(BODY, "a");
    console.set_fg_color(BODY, Color::Red);
    console.set_bg_color(BODY, Color::Blue);
    assert_eq!(console.read_cell(23, 0).color_code.byte(), 0x03);
    console.write_string(BODY, "b");
    assert_eq!(console.read_cell(23, 0).color_code.byte(), 0x03);
    assert_eq!(console.read_cell(23, 1).color_code.byte(), 0x14);
    assert_eq!(console.window(BODY).fg_color, Color::Red);
    assert_eq!(console.window(BODY).bg_color, Color::Blue);
}

#[test]
fn write_string_moves_the_cursor_of_its_window_only() {
    let mut console = started_console();
    console.write_string(BODY, "hello");
    assert_eq!(console.window(BODY).cur, 5);
    assert_eq!(console.window(ANNOUNCE).cur, 0);
    assert_eq!(console.window(SUBTEXT).cur, 0);
    console.write_string(ANNOUNCE, "title");
    console.write_string(BODY, ", world");
    assert_eq!(console.window(BODY).cur, 12);
    assert_eq!(console.window(ANNOUNCE).cur, 5);
    assert_eq!(line(&console, 23), "hello, world");
    assert_eq!(line(&console, 0), "title");
    assert_eq!(line(&console, 24), "");
}

#[test]
fn clear_window_blanks_its_rows_and_resets_its_cursor() {
    let mut console = started_console();
    console.write_string(ANNOUNCE, "announce");
    console.write_string(BODY, "line one\nline two");
    console.write_string(SUBTEXT, "small");
    console.clear_window(BODY);
    assert_eq!(console.window(BODY).cur, 0);
    for row in 1..24 {
        assert_eq!(line(&console, row), "");
    }
    assert_eq!(line(&console, 0), "announce");
    assert_eq!(line(&console, 24), "small");
    assert_eq!(console.window(ANNOUNCE).cur, 8);
    assert_eq!(console.window(SUBTEXT).cur, 5);
}

#[test]
fn interleaved_writes_leave_each_window_as_its_own_writes_do() {
    let mut mixed = started_console();
    mixed.write_string(BODY, "one\n");
    mixed.write_string(ANNOUNCE, "A");
    mixed.write_string(BODY, "two");
    mixed.write_string(SUBTEXT, "s1");
    mixed.write_string(BODY, "\nthree");
    mixed.write_string(ANNOUNCE, "B");
    mixed.write_string(SUBTEXT, "s2");

    let mut body_only = started_console();
    body_only.write_string(BODY, "one\n");
    body_only.write_string(BODY, "two");
    body_only.write_string(BODY, "\nthree");
    for row in 1..24 {
        assert_eq!(line(&mixed, row), line(&body_only, row));
    }
    assert_eq!(mixed.window(BODY).cur, body_only.window(BODY).cur);
    assert_eq!(line(&mixed, 21), "one");
    assert_eq!(line(&mixed, 22), "two");
    assert_eq!(line(&mixed, 23), "three");
    assert_eq!(line(&mixed, 0), "AB");
    assert_eq!(line(&mixed, 24), "s1s2");
}

#[test]
fn a_long_write_to_the_body_leaves_the_other_rows_alone() {
    let mut console = started_console();
    console.write_string(ANNOUNCE, "stay");
    console.write_string(SUBTEXT, "put");
    for _ in 0..100 {
        console.write_string(BODY, "a line that is written again and again\n");
    }
    assert_eq!(line(&console, 0), "stay");
    assert_eq!(line(&console, 24), "put");
    assert_eq!(line(&console, 22), "a line that is written again and again");
    assert_eq!(line(&console, 23), "");
}

#[test]
fn set_window_routes_formatted_output() {
    let mut console = started_console();
    console.set_window(SUBTEXT).write_str("below").unwrap();
    assert_eq!(console.current_window(), 2);
    assert_eq!(line(&console, 24), "below");
    console.set_window(ANNOUNCE).write_str(&format!("{}-{:02}", "n", 7)).unwrap();
    assert_eq!(line(&console, 0), "n-07");
    assert_eq!(console.current_window(), 0);
    assert_eq!(console.window(ANNOUNCE).cur, 4);
}

#[test]
fn print_sets_the_window_and_writes() {
    let mut console = started_console();
    _print(&mut console, ANNOUNCE, "up");
    assert_eq!(console.current_window(), 0);
    _print(&mut console, BODY, "mid");
    assert_eq!(console.current_window(), 1);
    assert_eq!(line(&console, 0), "up");
    assert_eq!(line(&console, 23), "mid");
}

#[test]
fn test_println_simple() {
    let mut console = started_console();
    _print(&mut console, BODY, "test_println_simple output\n");
    assert_eq!(line(&console, 22), "test_println_simple output");
    assert_eq!(line(&console, 23), "");
    assert_eq!(console.window(BODY).cur, 0);
}

#[test]
fn test_println_many() {
    let mut console = started_console();
    for _ in 0..200 {
        _print(&mut console, BODY, "test_println_many output\n");
    }
    for row in 1..23 {
        assert_eq!(line(&console, row), "test_println_many output");
    }
    assert_eq!(line(&console, 23), "");
    assert_eq!(line(&console, 0), "");
    assert_eq!(line(&console, 24), "");
}

#[test]
fn test_println() {
    let mut console = started_console();
    _print(&mut console, BODY, "test_println output\n");
    assert_eq!(line(&console, 22), "test_println output");
}

#[test]
fn the_width_and_one_more_in_a_window() {
    let mut console = started_console();
    let full: String = (0..80).map(|_| 'w').collect();
    console.write_string(BODY, &full);
    assert_eq!(console.window(BODY).cur, 80);
    assert_eq!(line(&console, 23), full);
    assert_eq!(line(&console, 22), "");
    console.write_string(BODY, "x");
    assert_eq!(console.window(BODY).cur, 1);
    assert_eq!(line(&console, 22), full);
    assert_eq!(line(&console, 23), "x");
}
