//! The cell model and the driver of the memory-mapped character grid.

use crate::screen::{
    blank_cell, bottom_row, cleared, glyph, grid_wf, in_region, lemma_column_after_text,
    lemma_rows_outside_kept, pen_moves, put_byte, put_text, row_of, scrolled, valid_region,
    with_cell, wrapped_column, Grid,
};
use vstd::prelude::*;
use vstd::string::StringSliceAdditionalSpecFns;

verus! {

/// Rows on the screen.
pub const BUFFER_HEIGHT: usize = 25;

/// Cells in a row.
pub const BUFFER_WIDTH: usize = 80;

/// The character of an empty cell.
pub const BLANK: u8 = 0x20;

/// The glyph shown in place of a byte that cannot be printed.
pub const PLACEHOLDER: u8 = 0xfe;

/// Line feed: scroll and go back to column 0.
pub const LINE_FEED: u8 = 0x0a;

/// Carriage return: go back to column 0.
pub const CARRIAGE_RETURN: u8 = 0x0d;

/// The sixteen colours of the text mode, in the order of their hardware numbers.
#[allow(dead_code)]
#[derive(Debug, Clone, Copy, PartialEq, Eq, Structural)]
pub enum Color {
    Black,
    Blue,
    Green,
    Cyan,
    Red,
    Magenta,
    Brown,
    LightGrey,
    DarkGrey,
    LightBlue,
    LightGreen,
    LightCyan,
    LightRed,
    Pink,
    Yellow,
    White,
}

impl Color {
    /// The hardware number of the colour, 0 to 15.
    pub open spec fn nibble(self) -> u8 {
        match self {
            Color::Black => 0,
            Color::Blue => 1,
            Color::Green => 2,
            Color::Cyan => 3,
            Color::Red => 4,
            Color::Magenta => 5,
            Color::Brown => 6,
            Color::LightGrey => 7,
            Color::DarkGrey => 8,
            Color::LightBlue => 9,
            Color::LightGreen => 10,
            Color::LightCyan => 11,
            Color::LightRed => 12,
            Color::Pink => 13,
            Color::Yellow => 14,
            Color::White => 15,
        }
    }

    /// The hardware number of the colour.
    pub fn code(self) -> (n: u8)
        ensures
            n == self.nibble(),
            n < 16,
    {
        match self {
            Color::Black => 0,
            Color::Blue => 1,
            Color::Green => 2,
            Color::Cyan => 3,
            Color::Red => 4,
            Color::Magenta => 5,
            Color::Brown => 6,
            Color::LightGrey => 7,
            Color::DarkGrey => 8,
            Color::LightBlue => 9,
            Color::LightGreen => 10,
            Color::LightCyan => 11,
            Color::LightRed => 12,
            Color::Pink => 13,
            Color::Yellow => 14,
            Color::White => 15,
        }
    }
}

/// The attribute byte of a cell: background colour in the high four bits,
/// foreground colour in the low four.
#[derive(Debug, Clone, Copy, PartialEq, Eq, Structural)]
pub struct ColorCode(u8);

impl ColorCode {
    /// The attribute byte.
    pub closed spec fn value(self) -> u8 {
        self.0
    }

    /// The number of the background colour: the high four bits.
    pub open spec fn background(self) -> int {
        self.value() as int / 16
    }

    /// The number of the foreground colour: the low four bits.
    pub open spec fn foreground(self) -> int {
        self.value() as int % 16
    }

    /// The code made of two colours.
    pub closed spec fn of(foreground: Color, background: Color) -> ColorCode {
        ColorCode((background.nibble() * 16 + foreground.nibble()) as u8)
    }

    /// This code with another background.
    pub closed spec fn with_background(self, color: Color) -> ColorCode {
        ColorCode((color.nibble() * 16 + self.0 % 16) as u8)
    }

    /// This code with another foreground.
    pub closed spec fn with_foreground(self, color: Color) -> ColorCode {
        ColorCode((self.0 / 16 * 16 + color.nibble()) as u8)
    }

    /// Setting the foreground and then the background of any code gives the code
    /// made of the two colours.
    pub proof fn lemma_built_from_parts(start: ColorCode, foreground: Color, background: Color)
        ensures
            start.with_foreground(foreground).with_background(background) == ColorCode::of(
                foreground,
                background,
            ),
    {
    }

    /// What the two colours of a code are after one of them is set, and the byte
    /// that two colours make.
    pub proof fn lemma_parts(self, foreground: Color, background: Color)
        ensures
            self.with_foreground(foreground).foreground() == foreground.nibble(),
            self.with_foreground(foreground).background() == self.background(),
            self.with_background(background).background() == background.nibble(),
            self.with_background(background).foreground() == self.foreground(),
            ColorCode::of(foreground, background).foreground() == foreground.nibble(),
            ColorCode::of(foreground, background).background() == background.nibble(),
            ColorCode::of(foreground, background).value() == background.nibble() * 16
                + foreground.nibble(),
    {
    }

    /// Packs two colours into one attribute byte.
    pub fn new(foreground: Color, background: Color) -> (code: ColorCode)
        ensures
            code == ColorCode::of(foreground, background),
            code.value() == (background.nibble() << 4) | foreground.nibble(),
            code.value() == background.nibble() * 16 + foreground.nibble(),
            code.background() == background.nibble(),
            code.foreground() == foreground.nibble(),
    {
        let bg: u8 = background.code();
        let fg: u8 = foreground.code();
        assert((bg << 4) | fg == bg * 16 + fg) by (bit_vector)
            requires
                bg < 16,
                fg < 16,
        ;
        ColorCode((bg << 4) | fg)
    }

    /// The attribute byte.
    pub fn byte(self) -> (b: u8)
        ensures
            b == self.value(),
    {
        self.0
    }
}

/// One character position of the screen: a glyph and its colours.
#[derive(Debug, Clone, Copy, PartialEq, Eq, Structural)]
pub struct ScreenChar {
    pub ascii_character: u8,
    pub color_code: ColorCode,
}

/// The grid as the display hardware reads it: row after row, cell after cell, and in
/// each cell the character byte followed by the attribute byte.
pub type Buffer = [[[u8; 2]; BUFFER_WIDTH]; BUFFER_HEIGHT];

/// The cells that a buffer holds.
pub closed spec fn grid_of(buffer: Buffer) -> Grid {
    Seq::new(
        BUFFER_HEIGHT as nat,
        |r: int|
            Seq::new(
                BUFFER_WIDTH as nat,
                |c: int|
                    ScreenChar {
                        ascii_character: buffer[r][c][0],
                        color_code: ColorCode(buffer[r][c][1]),
                    },
            ),
    )
}

/// A buffer holds `BUFFER_HEIGHT` rows of `BUFFER_WIDTH` cells, and each cell is the
/// two bytes that stand at its place: the character, then the attribute.
pub proof fn lemma_grid_of(buffer: Buffer)
    ensures
        grid_wf(grid_of(buffer)),
        forall|r: int, c: int|
            0 <= r < BUFFER_HEIGHT && 0 <= c < BUFFER_WIDTH ==> {
                &&& (#[trigger] grid_of(buffer)[r][c]).ascii_character == buffer[r][c][0]
                &&& grid_of(buffer)[r][c].color_code.value() == buffer[r][c][1]
            },
{
}

/// The driver: the one owner of the grid, with the colours in which it writes.
pub struct Writer {
    column_position: usize,
    color_code: ColorCode,
    buffer: &'static mut Buffer,
}

impl Writer {
    /// The cells now on the screen.
    pub closed spec fn grid(&self) -> Grid {
        grid_of(*self.buffer)
    }

    /// The colours in which the next cell is written.
    pub closed spec fn color(&self) -> ColorCode {
        self.color_code
    }

    /// The column at which the last byte written left the pen.
    pub closed spec fn column(&self) -> int {
        self.column_position as int
    }

    /// The pen never stands beyond the end of a row.
    pub closed spec fn wf(&self) -> bool {
        self.column_position <= BUFFER_WIDTH
    }

    /// The grid of any driver has the hardware's shape.
    pub proof fn lemma_grid_wf(&self)
        ensures
            grid_wf(self.grid()),
    {
    }

    /// A driver for the grid behind `buffer`, writing yellow on black from column 0.
    /// The grid keeps what it held.
    pub fn new(buffer: &'static mut Buffer) -> (writer: Writer)
        ensures
            writer.wf(),
            writer.column() == 0,
            writer.color() == ColorCode::of(Color::Yellow, Color::Black),
            writer.grid() == grid_of(*old(buffer)),
            grid_wf(writer.grid()),
    {
        Writer {
            column_position: 0,
            color_code: ColorCode::new(Color::Yellow, Color::Black),
            buffer,
        }
    }

    /// Changes the background of what is written from now on; the foreground stays.
    pub fn set_bg_color(&mut self, color: Color)
        ensures
            final(self).color() == old(self).color().with_background(color),
            final(self).color().value() == color.nibble() * 16 + old(self).color().value() % 16,
            final(self).color().background() == color.nibble(),
            final(self).color().foreground() == old(self).color().foreground(),
            final(self).grid() == old(self).grid(),
            final(self).column() == old(self).column(),
            final(self).wf() == old(self).wf(),
    {
        let code: u8 = color.code();
        let kept: u8 = self.color_code.0;
        assert((code << 4) | (kept & 0x0f) == code * 16 + kept % 16) by (bit_vector)
            requires
                code < 16,
        ;
        self.color_code = ColorCode((code << 4) | (kept & 0x0f));
    }

    /// Changes the foreground of what is written from now on; the background stays.
    pub fn set_fg_color(&mut self, color: Color)
        ensures
            final(self).color() == old(self).color().with_foreground(color),
            final(self).color().value() == old(self).color().value() / 16 * 16 + color.nibble(),
            final(self).color().foreground() == color.nibble(),
            final(self).color().background() == old(self).color().background(),
            final(self).grid() == old(self).grid(),
            final(self).column() == old(self).column(),
            final(self).wf() == old(self).wf(),
    {
        let code: u8 = color.code();
        let kept: u8 = self.color_code.0;
        assert((kept & 0xf0) | code == kept / 16 * 16 + code) by (bit_vector)
            requires
                code < 16,
        ;
        self.color_code = ColorCode((kept & 0xf0) | code);
    }

    /// The attribute byte in which the next cell is written.
    pub fn get_color_code(&mut self) -> (byte: u8)
        ensures
            byte == old(self).color().value(),
            *final(self) == *old(self),
    {
        self.color_code.0
    }

    /// The cell at `row`, `col`.
    pub fn read_cell(&self, row: usize, col: usize) -> (cell: ScreenChar)
        requires
            row < BUFFER_HEIGHT,
            col < BUFFER_WIDTH,
        ensures
            cell == self.grid()[row as int][col as int],
    {
        let raw: [u8; 2] = self.buffer[row][col];
        ScreenChar { ascii_character: raw[0], color_code: ColorCode(raw[1]) }
    }

    /// Writes one byte into the band of rows `top .. top + height`, the pen at `col`,
    /// and returns the pen's new column.
    ///
    /// A carriage return takes the pen back to column 0 and changes no cell. A line
    /// feed scrolls the band and takes the pen back to column 0. Any other byte is
    /// placed on the band's last row in the current colours, as itself if it is
    /// printable and as the placeholder if not, after a scroll if the pen stood at
    /// the end of the row.
    pub fn write_byte(&mut self, top: usize, height: usize, col: usize, byte: u8) -> (new_col: usize)
        requires
            valid_region(top as int, height as int),
        ensures
            final(self).grid() == put_byte(
                old(self).grid(),
                top as int,
                height as int,
                col as int,
                old(self).color(),
                byte,
            ).grid,
            new_col == put_byte(
                old(self).grid(),
                top as int,
                height as int,
                col as int,
                old(self).color(),
                byte,
            ).column,
            new_col <= BUFFER_WIDTH,
            byte != CARRIAGE_RETURN && byte != LINE_FEED ==> final(self).grid()[bottom_row(
                top as int,
                height as int,
            )][new_col - 1] == (ScreenChar {
                ascii_character: glyph(byte),
                color_code: old(self).color(),
            }),
            forall|r: int|
                0 <= r < BUFFER_HEIGHT && !in_region(r, top as int, height as int)
                    ==> final(self).grid()[r] == old(self).grid()[r],
            final(self).column() == new_col,
            final(self).color() == old(self).color(),
            final(self).wf(),
            grid_wf(final(self).grid()),
    {
        proof {
            assert forall|r: int|
                0 <= r < BUFFER_HEIGHT && !in_region(r, top as int, height as int) implies put_byte(
                old(self).grid(),
                top as int,
                height as int,
                col as int,
                old(self).color(),
                byte,
            ).grid[r] == old(self).grid()[r] by {
                lemma_rows_outside_kept(
                    old(self).grid(),
                    top as int,
                    height as int,
                    col as int,
                    old(self).color(),
                    Seq::empty(),
                    r,
                );
            }
        }
        let mut new_col: usize = col;
        if byte == CARRIAGE_RETURN {
            new_col = 0;
        } else if byte == LINE_FEED {
            self.new_line(top, height);
            new_col = 0;
        } else {
            if new_col >= BUFFER_WIDTH {
                self.new_line(top, height);
                new_col = 0;
            }
            let row: usize = top + (height - 1);
            let color_code: ColorCode = self.color_code;
            let shown: u8 = if 0x20 <= byte && byte <= 0x7e {
                byte
            } else {
                PLACEHOLDER
            };
            let ghost before: Grid = self.grid();
            self.buffer[row][new_col] = [shown, color_code.0];
            assert(self.grid() =~~= with_cell(
                before,
                row as int,
                new_col as int,
                ScreenChar { ascii_character: shown, color_code },
            ));
            new_col = new_col + 1;
        }
        self.column_position = new_col;
        new_col
    }

    /// Blanks every row of the band `top .. top + height` in the current colours.
    /// An empty band changes nothing.
    pub fn clear_screen(&mut self, top: usize, height: usize)
        requires
            top + height <= BUFFER_HEIGHT,
        ensures
            final(self).grid() == cleared(
                old(self).grid(),
                top as int,
                height as int,
                old(self).color(),
            ),
            final(self).color() == old(self).color(),
            final(self).column() == old(self).column(),
            final(self).wf() == old(self).wf(),
            grid_wf(final(self).grid()),
    {
        let mut line_num: usize = top;
        while line_num < (top + height)
            invariant
                top <= line_num <= top + height <= BUFFER_HEIGHT,
                self.grid() == cleared(
                    old(self).grid(),
                    top as int,
                    line_num - top,
                    old(self).color(),
                ),
                self.color() == old(self).color(),
                self.column() == old(self).column(),
                self.wf() == old(self).wf(),
            decreases top + height - line_num,
        {
            self.fill_line(line_num, BLANK);
            line_num += 1;
        }
    }

    /// Writes a text into the band of rows `top .. top + height`, the pen at `col`,
    /// and returns the pen's new column.
    ///
    /// The bytes of the text are written one after the other as `write_byte` writes
    /// them. Printable bytes and line feeds are written as they are; every other byte,
    /// the carriage return too, is written as the placeholder.
    pub fn write_string(&mut self, top: usize, height: usize, col: usize, s: &str) -> (new_col: usize)
        requires
            valid_region(top as int, height as int),
        ensures
            final(self).grid() == put_text(
                old(self).grid(),
                top as int,
                height as int,
                col as int,
                old(self).color(),
                s.spec_bytes(),
            ).grid,
            new_col == put_text(
                old(self).grid(),
                top as int,
                height as int,
                col as int,
                old(self).color(),
                s.spec_bytes(),
            ).column,
            col <= BUFFER_WIDTH ==> new_col == wrapped_column(
                pen_moves(col as int, s.spec_bytes()),
            ),
            forall|r: int|
                0 <= r < BUFFER_HEIGHT && !in_region(r, top as int, height as int)
                    ==> final(self).grid()[r] == old(self).grid()[r],
            final(self).color() == old(self).color(),
            s.spec_bytes().len() > 0 ==> final(self).column() == new_col && final(self).wf(),
            s.spec_bytes().len() == 0 ==> *final(self) == *old(self),
            grid_wf(final(self).grid()),
    {
        proof {
            if col <= BUFFER_WIDTH {
                lemma_column_after_text(
                    old(self).grid(),
                    top as int,
                    height as int,
                    col as int,
                    old(self).color(),
                    s.spec_bytes(),
                );
            }
            assert forall|r: int|
                0 <= r < BUFFER_HEIGHT && !in_region(r, top as int, height as int) implies put_text(
                old(self).grid(),
                top as int,
                height as int,
                col as int,
                old(self).color(),
                s.spec_bytes(),
            ).grid[r] == old(self).grid()[r] by {
                lemma_rows_outside_kept(
                    old(self).grid(),
                    top as int,
                    height as int,
                    col as int,
                    old(self).color(),
                    s.spec_bytes(),
                    r,
                );
            }
        }
        let bytes: &[u8] = s.as_bytes();
        let mut new_col: usize = col;
        let mut i: usize = 0;
        while i < bytes.len()
            invariant
                i <= bytes.len(),
                bytes@ == s.spec_bytes(),
                valid_region(top as int, height as int),
                self.grid() == put_text(
                    old(self).grid(),
                    top as int,
                    height as int,
                    col as int,
                    old(self).color(),
                    bytes@.take(i as int),
                ).grid,
                new_col == put_text(
                    old(self).grid(),
                    top as int,
                    height as int,
                    col as int,
                    old(self).color(),
                    bytes@.take(i as int),
                ).column,
                self.color() == old(self).color(),
                i > 0 ==> self.column() == new_col && self.wf(),
                i == 0 ==> *self == *old(self),
            decreases bytes.len() - i,
        {
            let byte: u8 = bytes[i];
            assert(bytes@.take(i + 1).drop_last() == bytes@.take(i as int));
            new_col =
            match byte {
                // printable ASCII byte or newline
                0x20..=0x7e | 0x0a => self.write_byte(top, height, new_col, byte),
                // not part of printable ASCII range
                _ => self.write_byte(top, height, new_col, PLACEHOLDER),
            };
            i += 1;
        }
        assert(bytes@.take(i as int) == bytes@);
        new_col
    }

    /// Fills one row with `byte` in the current colours.
    fn fill_line(&mut self, line_num: usize, byte: u8)
        requires
            line_num < BUFFER_HEIGHT,
        ensures
            final(self).grid() == old(self).grid().update(
                line_num as int,
                row_of(ScreenChar { ascii_character: byte, color_code: old(self).color() }),
            ),
            final(self).color() == old(self).color(),
            final(self).column() == old(self).column(),
    {
        let old_color: u8 = self.get_color_code();
        let character: [u8; 2] = [byte, old_color];
        self.buffer[line_num] = [character; BUFFER_WIDTH];
        assert(self.grid() =~~= old(self).grid().update(
            line_num as int,
            row_of(ScreenChar { ascii_character: byte, color_code: old(self).color() }),
        ));
    }

    /// Scrolls the band `top .. top + height` by one row and takes the pen back to
    /// column 0: each row of the band but the last takes what the row below it
    /// holds, and the last row is blank in the current colours. What the band's first
    /// row held is lost. Rows outside the band keep what they hold, and a band that
    /// is blank in the current colours stays as it is.
    pub fn new_line(&mut self, top: usize, height: usize)
        requires
            valid_region(top as int, height as int),
        ensures
            final(self).grid() == scrolled(
                old(self).grid(),
                top as int,
                height as int,
                old(self).color(),
            ),
            forall|r: int|
                0 <= r < BUFFER_HEIGHT && !in_region(r, top as int, height as int)
                    ==> final(self).grid()[r] == old(self).grid()[r],
            (forall|r: int|
                in_region(r, top as int, height as int) ==> old(self).grid()[r] == row_of(
                    blank_cell(old(self).color()),
                )) ==> final(self).grid() == old(self).grid(),
            final(self).color() == old(self).color(),
            final(self).column() == 0,
            final(self).wf(),
            grid_wf(final(self).grid()),
    {
        proof {
            let before = old(self).grid();
            let lifted = scrolled(before, top as int, height as int, old(self).color());
            if forall|r: int|
                in_region(r, top as int, height as int) ==> before[r] == row_of(
                    blank_cell(old(self).color()),
                ) {
                assert forall|r: int| 0 <= r < BUFFER_HEIGHT implies lifted[r] == before[r] by {
                    if in_region(r, top as int, height as int) && r != bottom_row(
                        top as int,
                        height as int,
                    ) {
                        assert(in_region(r + 1, top as int, height as int));
                    }
                }
                assert(lifted =~= before);
            }
        }
        let last_line: usize = top + height;
        let mut line_num: usize = top + 1;
        while line_num < last_line
            invariant
                top + 1 <= line_num <= last_line == top + height <= BUFFER_HEIGHT,
                self.color() == old(self).color(),
                self.grid().len() == BUFFER_HEIGHT,
                forall|r: int|
                    0 <= r < BUFFER_HEIGHT ==> #[trigger] self.grid()[r] == (if top <= r
                        < line_num - 1 {
                        old(self).grid()[r + 1]
                    } else {
                        old(self).grid()[r]
                    }),
            decreases last_line - line_num,
        {
            let ghost before: Grid = self.grid();
            let row: [[u8; 2]; BUFFER_WIDTH] = self.buffer[line_num];
            self.buffer[line_num - 1] = row;
            assert(self.grid() =~~= before.update(line_num - 1, before[line_num as int]));
            line_num += 1;
        }
        self.fill_line(last_line - 1, BLANK);
        self.column_position = 0;
    }
}

} // verus!
