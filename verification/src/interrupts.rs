//! What the interrupt and exception handlers do to the console.
//!
//! A handler here takes what the hardware handed over as plain values, and the
//! console it writes to. Reading ports, acknowledging the interrupt controller and
//! holding the console's lock with interrupts masked are its caller's part.

use crate::console::{Console, ConsoleView, _print, ANNOUNCE, BODY, SUBTEXT};
use crate::screen::{
    lemma_put_text_concat, lemma_put_text_within_row, lemma_shape_kept, put_byte, put_text,
    text_byte, text_cell,
};
use crate::keyboard::{
    add_byte, bytes_fed, char_text, event_decoded, events_processed, key_decoded,
    process_keyevent, Decoder, Key,
};
use pc_keyboard::KeyEvent;
use crate::rtc::{digit, digit_str, ClockTime};
use crate::vga_buffer::{Color, ColorCode, ScreenChar};
use vstd::prelude::*;
use vstd::string::{StringExecFns, StringSliceAdditionalSpecFns};
use vstd::utf8::encode_utf8;

verus! {

/// The vector of the first line of the first interrupt controller.
pub const PIC_1_OFFSET: u8 = 32;

/// The vector of the first line of the second interrupt controller.
pub const PIC_2_OFFSET: u8 = PIC_1_OFFSET + 8;

/// The port from which a scancode is read.
pub const KEYBOARD_DATA_PORT: u16 = 0x60;

/// The hardware interrupts that are handled.
#[derive(Debug, Clone, Copy)]
pub enum InterruptIndex {
    Timer,
    Keyboard,
    RTC,
}

impl InterruptIndex {
    /// The vector on which the interrupt arrives: the timer on the first line of
    /// the first controller, the keyboard on the line after it, the clock on the
    /// first line of the second controller.
    pub open spec fn vector(self) -> u8 {
        match self {
            InterruptIndex::Timer => PIC_1_OFFSET,
            InterruptIndex::Keyboard => (PIC_1_OFFSET + 1) as u8,
            InterruptIndex::RTC => PIC_2_OFFSET,
        }
    }

    /// The vector as a byte.
    pub fn as_u8(self) -> (vector: u8)
        ensures
            vector == self.vector(),
    {
        match self {
            InterruptIndex::Timer => PIC_1_OFFSET,
            InterruptIndex::Keyboard => PIC_1_OFFSET + 1,
            InterruptIndex::RTC => PIC_2_OFFSET,
        }
    }

    /// The vector as an index into the table of handlers.
    pub fn as_usize(self) -> (vector: usize)
        ensures
            vector == self.vector(),
    {
        self.as_u8() as usize
    }
}

/// A number in decimal digits, without leading zeros.
pub open spec fn decimal(n: nat) -> Seq<char>
    decreases n,
{
    if n < 10 {
        seq![digit(n as int)]
    } else {
        decimal(n / 10).push(digit((n % 10) as int))
    }
}

/// Appends a number in decimal digits.
pub fn append_decimal(line: &mut String, n: u64)
    ensures
        final(line)@ == old(line)@ + decimal(n as nat),
    decreases n,
{
    if n >= 10 {
        append_decimal(line, n / 10);
    }
    line.append(digit_str((n % 10) as u8));
}

/// The message of a double fault: the error code that the processor pushed, in
/// decimal, and under it the interrupted state as `frame` describes it.
pub fn double_fault_message(error_code: u64, frame: &str) -> (message: String)
    ensures
        message@ == "CPU: DOUBLE FAULT["@ + decimal(error_code as nat) + "]\n"@ + frame@,
{
    let mut message: String = String::from_str("CPU: DOUBLE FAULT[");
    append_decimal(&mut message, error_code);
    message.append("]\n");
    message.append(frame);
    message
}

/// What a breakpoint shows: a heading, the interrupted state as `frame` describes
/// it, and a line feed.
pub open spec fn breakpoint_report(frame: &str) -> Seq<u8> {
    "CPU: BREAKPOINT\n".spec_bytes() + frame.spec_bytes() + "\n".spec_bytes()
}

/// The breakpoint exception: reports it in the body. Nothing else changes, and the
/// interrupted code goes on.
pub fn breakpoint_handler(console: &mut Console, frame: &str)
    requires
        old(console).wf(),
    ensures
        final(console)@ == old(console)@.with_current(BODY as int).write(
            BODY as int,
            breakpoint_report(frame),
        ),
        final(console).driver_color() == old(console)@.windows[BODY as int].color(),
        final(console).wf(),
{
    proof {
        let start = old(console)@.with_current(BODY as int);
        let heading = "CPU: BREAKPOINT\n".spec_bytes();
        start.lemma_write_concat(BODY as int, heading, frame.spec_bytes());
        start.lemma_write_concat(BODY as int, heading + frame.spec_bytes(), "\n".spec_bytes());
    }
    _print(console, BODY, "CPU: BREAKPOINT\n");
    _print(console, BODY, frame);
    _print(console, BODY, "\n");
}

/// What a fatal fault shows: its message on a line of its own.
pub open spec fn panic_report(message: &str) -> Seq<u8> {
    "\n".spec_bytes() + message.spec_bytes() + "\n".spec_bytes()
}

/// A fatal fault: turns the body's foreground red and shows the message there, on a
/// line of its own, so that it is the last thing the body shows. Halting is the
/// caller's part.
pub fn report_panic(console: &mut Console, message: &str)
    requires
        old(console).wf(),
    ensures
        final(console)@ == old(console)@.with_foreground(BODY as int, Color::Red).with_current(
            BODY as int,
        ).write(BODY as int, panic_report(message)),
        final(console).driver_color() == old(console)@.with_foreground(
            BODY as int,
            Color::Red,
        ).windows[BODY as int].color(),
        final(console).wf(),
{
    proof {
        let start = old(console)@.with_foreground(BODY as int, Color::Red).with_current(
            BODY as int,
        );
        let feed = "\n".spec_bytes();
        start.lemma_write_concat(BODY as int, feed, message.spec_bytes());
        start.lemma_write_concat(BODY as int, feed + message.spec_bytes(), feed);
    }
    console.set_fg_color(BODY, Color::Red);
    _print(console, BODY, "\n");
    _print(console, BODY, message);
    _print(console, BODY, "\n");
}

/// What the clock's interrupt shows for three register values: the clock's line, in
/// the top window.
pub open spec fn clock_line(sec: u8, min: u8, hour: u8) -> Seq<u8> {
    encode_utf8(
        (ClockTime { hour: (hour % 12) as u8, min: (min % 60) as u8, sec: (sec % 60) as u8 }).status_text(),
    )
}

/// The row that the clock's line fills: each of its bytes as a cell in `color`.
pub open spec fn clock_row(sec: u8, min: u8, hour: u8, color: ColorCode) -> Seq<ScreenChar> {
    Seq::new(80, |c: int| text_cell(clock_line(sec, min, hour)[c], color))
}

/// The clock's line refreshes its row and does not scroll into view what was there:
/// written to the top window with the cursor at the start of the row, or at its end
/// where the last line left it, the line fills the row from column 0, the
/// placeholder first where its carriage return stood, and leaves the cursor at the
/// end of the row again.
pub proof fn lemma_clock_fills_its_row(view: ConsoleView, sec: u8, min: u8, hour: u8)
    requires
        view.wf(),
        view.standard_layout(),
        view.windows[ANNOUNCE as int].cur == 0 || view.windows[ANNOUNCE as int].cur == 80,
    ensures
        ({
            let after = view.with_current(ANNOUNCE as int).write(
                ANNOUNCE as int,
                clock_line(sec, min, hour),
            );
            &&& after.windows[ANNOUNCE as int].cur == 80
            &&& after.grid[0] == clock_row(sec, min, hour, view.windows[ANNOUNCE as int].color())
            &&& after.grid[0][0].ascii_character == 0xfe
        }),
{
    let time = ClockTime { hour: (hour % 12) as u8, min: (min % 60) as u8, sec: (sec % 60) as u8 };
    time.lemma_status_text();
    let line = clock_line(sec, min, hour);
    let window = view.windows[ANNOUNCE as int];
    let color = window.color();
    let after = put_text(view.grid, 0, 1, window.cur as int, color, line);
    if window.cur == 0 {
        lemma_put_text_within_row(view.grid, 0, 1, 0, color, line);
        assert(after.grid[0] =~= clock_row(sec, min, hour, color));
    } else {
        let first = line.take(1);
        let rest = line.skip(1);
        assert(line =~= first + rest);
        lemma_put_text_concat(view.grid, 0, 1, 80, color, first, rest);
        assert(first.drop_last() =~= Seq::<u8>::empty());
        let start = put_text(view.grid, 0, 1, 80, color, first.drop_last());
        assert(start.grid == view.grid && start.column == 80);
        let lifted = put_text(view.grid, 0, 1, 80, color, first);
        assert(lifted == put_byte(view.grid, 0, 1, 80, color, text_byte(line[0])));
        lemma_shape_kept(view.grid, 0, 1, 80, color, first);
        lemma_put_text_within_row(lifted.grid, 0, 1, 1, color, rest);
        assert(after.grid[0] =~= clock_row(sec, min, hour, color));
    }
}

/// The clock's interrupt: shows the time that the three registers hold, each taken
/// within its range, on the clock's line in the top window.
pub fn rtc_handler(console: &mut Console, sec: u8, min: u8, hour: u8)
    requires
        old(console).wf(),
    ensures
        final(console)@ == old(console)@.with_current(ANNOUNCE as int).write(
            ANNOUNCE as int,
            clock_line(sec, min, hour),
        ),
        final(console).driver_color() == old(console)@.windows[ANNOUNCE as int].color(),
        final(console).wf(),
        final(console)@.same_window(old(console)@, BODY as int),
        final(console)@.same_window(old(console)@, SUBTEXT as int),
{
    let time: ClockTime = ClockTime::from_registers(sec, min, hour);
    let line: String = time.status_line();
    proof {
        let start = old(console)@.with_current(ANNOUNCE as int);
        start.lemma_other_window_kept(ANNOUNCE as int, clock_line(sec, min, hour), BODY as int);
        start.lemma_other_window_kept(ANNOUNCE as int, clock_line(sec, min, hour), SUBTEXT as int);
    }
    _print(console, ANNOUNCE, line.as_str());
}

/// The console after a decoded key is shown: a character goes to the body as it
/// is; a key without a character, or no key at all, leaves the console as it was.
pub open spec fn key_shown(view: ConsoleView, key: Option<Key>) -> ConsoleView {
    match key {
        Some(Key::Unicode(character)) => view.with_current(BODY as int).write(
            BODY as int,
            encode_utf8(seq![character]),
        ),
        _ => view,
    }
}

/// A decoded key is shown: it is a character.
pub open spec fn is_shown(key: Option<Key>) -> bool {
    key matches Some(Key::Unicode(_))
}

/// Shows a decoded key: a character goes to the body as it is, and a key without a
/// character shows nothing.
pub fn echo_key(console: &mut Console, key: Key)
    requires
        old(console).wf(),
    ensures
        final(console)@ == key_shown(old(console)@, Some(key)),
        final(console).driver_color() == (if is_shown(Some(key)) {
            old(console)@.windows[BODY as int].color()
        } else {
            old(console).driver_color()
        }),
        final(console).wf(),
        final(console)@.same_window(old(console)@, ANNOUNCE as int),
        final(console)@.same_window(old(console)@, SUBTEXT as int),
{
    match key {
        Key::Unicode(character) => {
            let text: String = char_text(character);
            proof {
                let start = old(console)@.with_current(BODY as int);
                start.lemma_other_window_kept(BODY as int, encode_utf8(text@), ANNOUNCE as int);
                start.lemma_other_window_kept(BODY as int, encode_utf8(text@), SUBTEXT as int);
            }
            _print(console, BODY, text.as_str());
        },
        Key::RawKey(_) => {},
    }
}

/// The key that a decoder makes of one more scancode: the key event that the byte
/// completes, if it completes one, decoded under the events processed before.
pub open spec fn key_for(keyboard: Decoder, scancode: u8) -> Option<Key> {
    match event_decoded(bytes_fed(keyboard).push(scancode)) {
        Ok(Some(event)) => key_decoded(events_processed(keyboard), event),
        _ => None,
    }
}

/// The key events that a decoder has processed after one more scancode: the event
/// that the byte completes, if it completes one, comes behind those before it.
pub open spec fn events_after(keyboard: Decoder, scancode: u8) -> Seq<KeyEvent> {
    match event_decoded(bytes_fed(keyboard).push(scancode)) {
        Ok(Some(event)) => events_processed(keyboard).push(event),
        _ => events_processed(keyboard),
    }
}

/// The keyboard's interrupt: feeds the scancode to the decoder and, where the byte
/// completes a key event, has the decoder process it. A key that decodes to a
/// character is shown in the body; a byte that completes no key, an error, or a key
/// without a character leaves the console as it was.
pub fn keyboard_handler(console: &mut Console, keyboard: &mut Decoder, scancode: u8)
    requires
        old(console).wf(),
    ensures
        final(console)@ == key_shown(old(console)@, key_for(*old(keyboard), scancode)),
        bytes_fed(*final(keyboard)) == bytes_fed(*old(keyboard)).push(scancode),
        events_processed(*final(keyboard)) == events_after(*old(keyboard), scancode),
        final(console).driver_color() == (if is_shown(key_for(*old(keyboard), scancode)) {
            old(console)@.windows[BODY as int].color()
        } else {
            old(console).driver_color()
        }),
        final(console).wf(),
        final(console)@.same_window(old(console)@, ANNOUNCE as int),
        final(console)@.same_window(old(console)@, SUBTEXT as int),
{
    if let Ok(Some(key_event)) = add_byte(keyboard, scancode) {
        if let Some(key) = process_keyevent(keyboard, key_event) {
            echo_key(console, key);
        }
    }
}

} // verus!
