//! The real-time clock: what its registers say, and the line that shows it.

use crate::screen::is_printable;
use vstd::prelude::*;
use vstd::string::{StrSliceExecFns, StringExecFns};
use vstd::utf8::{encode_utf8, is_ascii_chars, is_ascii_chars_encode_utf8};

verus! {

/// The port that selects a register of the clock.
pub const RTC_INDEX_PORT: u16 = 0x70;

/// The port through which the selected register is read and written.
pub const RTC_DATA_PORT: u16 = 0x71;

/// The register of the seconds.
pub const RTC_SECONDS: u8 = 0x00;

/// The register of the minutes.
pub const RTC_MINUTES: u8 = 0x02;

/// The register of the hours.
pub const RTC_HOURS: u8 = 0x04;

/// Status register C: reading it acknowledges the clock's interrupt.
pub const RTC_STATUS_C: u8 = 0x0c;

/// The title shown on the clock's line.
pub open spec fn title() -> Seq<char> {
    "NapOS [v0.0.2]"@
}

/// The width to which the title is padded.
pub const TITLE_WIDTH: usize = 68;

/// A time of day as the clock's line shows it.
#[derive(Debug, Clone, Copy, PartialEq, Eq, Structural)]
pub struct ClockTime {
    pub hour: u8,
    pub min: u8,
    pub sec: u8,
}

/// The character of a decimal digit.
pub open spec fn digit(d: int) -> char {
    (48 + d) as u8 as char
}

/// A number below 100 in two decimal digits.
pub open spec fn two_digits(n: int) -> Seq<char> {
    seq![digit(n / 10), digit(n % 10)]
}

/// `text` followed by as many spaces as it lacks to `width` characters.
pub open spec fn padded(text: Seq<char>, width: int) -> Seq<char> {
    if text.len() >= width {
        text
    } else {
        text + Seq::new((width - text.len()) as nat, |i: int| ' ')
    }
}

impl ClockTime {
    /// The hour is below 12, the minute and the second below 60.
    pub open spec fn wf(self) -> bool {
        self.hour < 12 && self.min < 60 && self.sec < 60
    }

    /// The time as `[hh:mm:ss]`.
    pub open spec fn text(self) -> Seq<char> {
        seq!['['] + two_digits(self.hour as int) + seq![':'] + two_digits(self.min as int)
            + seq![':'] + two_digits(self.sec as int) + seq![']']
    }

    /// The clock's line: a carriage return and a space, the title padded to its
    /// width, and the time.
    pub open spec fn status_text(self) -> Seq<char> {
        seq!['\r', ' '] + padded(title(), TITLE_WIDTH as int) + self.text()
    }

    /// The clock's line is as wide as a row of the screen. It is ASCII, so that its
    /// bytes are its characters; the first is the carriage return, and all that follow
    /// are printable.
    pub proof fn lemma_status_text(self)
        requires
            self.wf(),
        ensures
            self.status_text().len() == 80,
            encode_utf8(self.status_text()).len() == 80,
            forall|i: int|
                0 <= i < 80 ==> (#[trigger] encode_utf8(self.status_text())[i])
                    == self.status_text()[i] as u8,
            encode_utf8(self.status_text())[0] == 0x0d,
            forall|i: int|
                1 <= i < 80 ==> is_printable(#[trigger] encode_utf8(self.status_text())[i]),
    {
        reveal_strlit("NapOS [v0.0.2]");
        let text = self.status_text();
        assert forall|i: int| 0 <= i < 80 implies 0x20 <= #[trigger] text[i] as u8 <= 0x7e || (i
            == 0 && text[i] == '\r') by {
            assert(padded(title(), TITLE_WIDTH as int).len() == 68);
            assert(self.text().len() == 10);
        }
        assert(is_ascii_chars(text));
        is_ascii_chars_encode_utf8(text);
    }

    /// The clock's line for this time.
    pub fn status_line(&self) -> (line: String)
        requires
            self.wf(),
        ensures
            line@ == self.status_text(),
            line@.len() == 80,
    {
        let mut line: String = String::from_str("\r ");
        proof {
            reveal_strlit("\r ");
            reveal_strlit("NapOS [v0.0.2]");
            reveal_strlit("[");
            reveal_strlit(":");
            reveal_strlit("]");
        }
        append_padded(&mut line, "NapOS [v0.0.2]", TITLE_WIDTH);
        line.append("[");
        append_two_digits(&mut line, self.hour);
        line.append(":");
        append_two_digits(&mut line, self.min);
        line.append(":");
        append_two_digits(&mut line, self.sec);
        line.append("]");
        line
    }

    /// The time that three register values stand for. Whatever the registers hold,
    /// the seconds and minutes are taken modulo 60 and the hours modulo 12.
    pub fn from_registers(sec: u8, min: u8, hour: u8) -> (time: ClockTime)
        ensures
            time.sec == sec % 60,
            time.min == min % 60,
            time.hour == hour % 12,
            time.wf(),
    {
        ClockTime { hour: hour % 12, min: min % 60, sec: sec % 60 }
    }
}

/// The text of one decimal digit.
pub fn digit_str(d: u8) -> (s: &'static str)
    requires
        d < 10,
    ensures
        s@ == seq![digit(d as int)],
{
    proof {
        reveal_strlit("0");
        reveal_strlit("1");
        reveal_strlit("2");
        reveal_strlit("3");
        reveal_strlit("4");
        reveal_strlit("5");
        reveal_strlit("6");
        reveal_strlit("7");
        reveal_strlit("8");
        reveal_strlit("9");
    }
    let s: &'static str = match d {
        0 => "0",
        1 => "1",
        2 => "2",
        3 => "3",
        4 => "4",
        5 => "5",
        6 => "6",
        7 => "7",
        8 => "8",
        _ => "9",
    };
    s
}

/// Appends `text` and the spaces that it lacks to `width` characters.
pub fn append_padded(line: &mut String, text: &str, width: usize)
    ensures
        final(line)@ == old(line)@ + padded(text@, width as int),
{
    line.append(text);
    let mut n: usize = text.unicode_len();
    while n < width
        invariant
            text@.len() <= n,
            text@.len() < width ==> n <= width,
            text@.len() >= width ==> n == text@.len(),
            line@ == old(line)@ + text@ + Seq::new((n - text@.len()) as nat, |i: int| ' '),
        decreases width - n,
    {
        proof {
            reveal_strlit(" ");
        }
        line.append(" ");
        n += 1;
    }
}

/// Appends a number below 100 in two decimal digits.
pub fn append_two_digits(line: &mut String, n: u8)
    requires
        n < 100,
    ensures
        final(line)@ == old(line)@ + two_digits(n as int),
{
    line.append(digit_str(n / 10));
    line.append(digit_str(n % 10));
}

} // verus!
