//! The ghost picture of the screen: a grid of cells, and what scrolling, clearing and
//! writing do to it. The driver's contracts are stated over these functions.

use crate::vga_buffer::{
    ColorCode, ScreenChar, BLANK, BUFFER_HEIGHT, BUFFER_WIDTH, CARRIAGE_RETURN, LINE_FEED,
    PLACEHOLDER,
};
use vstd::prelude::*;

verus! {

/// The screen as rows of cells, top row first.
pub type Grid = Seq<Seq<ScreenChar>>;

/// A grid has the hardware's shape: `BUFFER_HEIGHT` rows of `BUFFER_WIDTH` cells.
pub open spec fn grid_wf(grid: Grid) -> bool {
    &&& grid.len() == BUFFER_HEIGHT
    &&& forall|r: int| 0 <= r < BUFFER_HEIGHT ==> (#[trigger] grid[r]).len() == BUFFER_WIDTH
}

/// Rows `top .. top + height` form a non-empty band that lies on the screen.
pub open spec fn valid_region(top: int, height: int) -> bool {
    0 <= top && 1 <= height && top + height <= BUFFER_HEIGHT
}

/// Row `row` lies in the band `top .. top + height`.
pub open spec fn in_region(row: int, top: int, height: int) -> bool {
    top <= row < top + height
}

/// The row on which a band is written: its last one.
pub open spec fn bottom_row(top: int, height: int) -> int {
    top + height - 1
}

/// Bytes that are shown as they are: printable ASCII.
pub open spec fn is_printable(byte: u8) -> bool {
    0x20 <= byte <= 0x7e
}

/// What is shown for a byte: itself if printable, the placeholder otherwise.
pub open spec fn glyph(byte: u8) -> u8 {
    if is_printable(byte) {
        byte
    } else {
        PLACEHOLDER
    }
}

/// What a byte of text becomes before it is written: printable bytes and the line
/// feed stay, every other byte (the carriage return too) becomes the placeholder.
pub open spec fn text_byte(byte: u8) -> u8 {
    if is_printable(byte) || byte == LINE_FEED {
        byte
    } else {
        PLACEHOLDER
    }
}

/// A blank cell in the given colour.
pub open spec fn blank_cell(color: ColorCode) -> ScreenChar {
    ScreenChar { ascii_character: BLANK, color_code: color }
}

/// A full row of one cell.
pub open spec fn row_of(cell: ScreenChar) -> Seq<ScreenChar> {
    Seq::new(BUFFER_WIDTH as nat, |c: int| cell)
}

/// The grid with every row of the band blank in `color`.
pub open spec fn cleared(grid: Grid, top: int, height: int, color: ColorCode) -> Grid {
    Seq::new(
        grid.len(),
        |r: int|
            if in_region(r, top, height) {
                row_of(blank_cell(color))
            } else {
                grid[r]
            },
    )
}

/// The grid after one scroll of the band: each row but the last takes the row below
/// it, and the last row is blank in `color`. The band's first row is lost.
pub open spec fn scrolled(grid: Grid, top: int, height: int, color: ColorCode) -> Grid {
    Seq::new(
        grid.len(),
        |r: int|
            if r == bottom_row(top, height) {
                row_of(blank_cell(color))
            } else if in_region(r, top, height) {
                grid[r + 1]
            } else {
                grid[r]
            },
    )
}

/// The grid with one cell replaced.
pub open spec fn with_cell(grid: Grid, row: int, col: int, cell: ScreenChar) -> Grid {
    grid.update(row, grid[row].update(col, cell))
}

/// A grid together with the column at which the next byte goes.
pub struct Pen {
    pub grid: Grid,
    pub column: int,
}

/// One byte written into the band at `column`.
///
/// A carriage return only takes the column back to 0. A line feed scrolls the band
/// and takes the column back to 0. Any other byte is placed as its glyph on the
/// band's last row, after a scroll if the row is full, and the column moves on by one.
pub open spec fn put_byte(
    grid: Grid,
    top: int,
    height: int,
    column: int,
    color: ColorCode,
    byte: u8,
) -> Pen {
    if byte == CARRIAGE_RETURN {
        Pen { grid, column: 0 }
    } else if byte == LINE_FEED {
        Pen { grid: scrolled(grid, top, height, color), column: 0 }
    } else {
        let cell = ScreenChar { ascii_character: glyph(byte), color_code: color };
        if column >= BUFFER_WIDTH {
            Pen {
                grid: with_cell(
                    scrolled(grid, top, height, color),
                    bottom_row(top, height),
                    0,
                    cell,
                ),
                column: 1,
            }
        } else {
            Pen { grid: with_cell(grid, bottom_row(top, height), column, cell), column: column + 1 }
        }
    }
}

/// A text written into the band byte by byte, first byte first, each as `text_byte`
/// makes it, the column carried from one byte to the next.
pub open spec fn put_text(
    grid: Grid,
    top: int,
    height: int,
    column: int,
    color: ColorCode,
    text: Seq<u8>,
) -> Pen
    decreases text.len(),
{
    if text.len() == 0 {
        Pen { grid, column }
    } else {
        let before = put_text(grid, top, height, column, color, text.drop_last());
        put_byte(before.grid, top, height, before.column, color, text_byte(text.last()))
    }
}

/// Scrolling, clearing and writing keep the shape of the grid.
pub proof fn lemma_shape_kept(
    grid: Grid,
    top: int,
    height: int,
    column: int,
    color: ColorCode,
    text: Seq<u8>,
)
    requires
        grid_wf(grid),
        valid_region(top, height),
        0 <= column,
    ensures
        grid_wf(cleared(grid, top, height, color)),
        grid_wf(scrolled(grid, top, height, color)),
        forall|byte: u8| grid_wf(#[trigger] put_byte(grid, top, height, column, color, byte).grid),
        grid_wf(put_text(grid, top, height, column, color, text).grid),
        0 <= put_text(grid, top, height, column, color, text).column,
    decreases text.len(),
{
    if text.len() > 0 {
        lemma_shape_kept(grid, top, height, column, color, text.drop_last());
        let before = put_text(grid, top, height, column, color, text.drop_last());
        lemma_shape_kept(before.grid, top, height, before.column, color, Seq::empty());
    }
}

/// A write into one band changes no row outside it, and neither does a scroll or a
/// clearing of the band.
pub proof fn lemma_rows_outside_kept(
    grid: Grid,
    top: int,
    height: int,
    column: int,
    color: ColorCode,
    text: Seq<u8>,
    row: int,
)
    requires
        grid_wf(grid),
        valid_region(top, height),
        0 <= column,
        0 <= row < BUFFER_HEIGHT,
        !in_region(row, top, height),
    ensures
        cleared(grid, top, height, color)[row] == grid[row],
        scrolled(grid, top, height, color)[row] == grid[row],
        forall|byte: u8| (#[trigger] put_byte(grid, top, height, column, color, byte)).grid[row] == grid[row],
        put_text(grid, top, height, column, color, text).grid[row] == grid[row],
    decreases text.len(),
{
    if text.len() > 0 {
        lemma_rows_outside_kept(grid, top, height, column, color, text.drop_last(), row);
        lemma_shape_kept(grid, top, height, column, color, text.drop_last());
        let before = put_text(grid, top, height, column, color, text.drop_last());
        lemma_rows_outside_kept(before.grid, top, height, before.column, color, Seq::empty(), row);
    }
}

/// Writing two texts one after the other is writing them joined.
pub proof fn lemma_put_text_concat(
    grid: Grid,
    top: int,
    height: int,
    column: int,
    color: ColorCode,
    first: Seq<u8>,
    second: Seq<u8>,
)
    ensures
        put_text(grid, top, height, column, color, first + second) == ({
            let before = put_text(grid, top, height, column, color, first);
            put_text(before.grid, top, height, before.column, color, second)
        }),
    decreases second.len(),
{
    if second.len() > 0 {
        assert((first + second).drop_last() == first + second.drop_last());
        lemma_put_text_concat(grid, top, height, column, color, first, second.drop_last());
    }
}

/// What a write does inside a band depends on nothing outside it: on two grids that
/// agree on the rows of the band, the same text from the same column leaves the same
/// rows in the band and the pen at the same column.
pub proof fn lemma_put_text_local(
    one: Grid,
    other: Grid,
    top: int,
    height: int,
    column: int,
    color: ColorCode,
    text: Seq<u8>,
)
    requires
        grid_wf(one),
        grid_wf(other),
        valid_region(top, height),
        0 <= column,
        forall|r: int| in_region(r, top, height) ==> one[r] == other[r],
    ensures
        put_text(one, top, height, column, color, text).column == put_text(
            other,
            top,
            height,
            column,
            color,
            text,
        ).column,
        forall|r: int|
            in_region(r, top, height) ==> put_text(one, top, height, column, color, text).grid[r]
                == put_text(other, top, height, column, color, text).grid[r],
    decreases text.len(),
{
    if text.len() > 0 {
        let shorter = text.drop_last();
        lemma_put_text_local(one, other, top, height, column, color, shorter);
        lemma_shape_kept(one, top, height, column, color, shorter);
        lemma_shape_kept(other, top, height, column, color, shorter);
        let a = put_text(one, top, height, column, color, shorter);
        let b = put_text(other, top, height, column, color, shorter);
        let byte = text_byte(text.last());
        assert forall|r: int| in_region(r, top, height) implies put_byte(
            a.grid,
            top,
            height,
            a.column,
            color,
            byte,
        ).grid[r] == put_byte(b.grid, top, height, b.column, color, byte).grid[r] by {
            if r != bottom_row(top, height) {
                assert(in_region(r + 1, top, height));
            }
        }
    }
}

/// Clearing a band and then scrolling it leaves it as the clearing left it: all blank.
pub proof fn lemma_scroll_of_cleared(grid: Grid, top: int, height: int, color: ColorCode)
    requires
        grid_wf(grid),
        valid_region(top, height),
    ensures
        scrolled(cleared(grid, top, height, color), top, height, color) == cleared(
            grid,
            top,
            height,
            color,
        ),
{
}

/// The bytes of `text` that moved the pen since its last line feed, the starting
/// column counted with them where the text holds no line feed. In a text every byte
/// but the line feed moves the pen.
pub open spec fn pen_moves(column: int, text: Seq<u8>) -> int
    decreases text.len(),
{
    if text.len() == 0 {
        column
    } else if text.last() == LINE_FEED {
        0
    } else {
        pen_moves(column, text.drop_last()) + 1
    }
}

/// The column of a pen that has moved `moves` times from the start of a row: it runs
/// from 1 to the width, and the move after the width starts a new row at 1.
pub open spec fn wrapped_column(moves: int) -> int {
    if moves <= 0 {
        0
    } else {
        (moves - 1) % (BUFFER_WIDTH as int) + 1
    }
}

/// The column after a text is the number of bytes that moved the pen since the last
/// line feed, wrapped at the width of the row.
pub proof fn lemma_column_after_text(
    grid: Grid,
    top: int,
    height: int,
    column: int,
    color: ColorCode,
    text: Seq<u8>,
)
    requires
        0 <= column <= BUFFER_WIDTH,
    ensures
        put_text(grid, top, height, column, color, text).column == wrapped_column(
            pen_moves(column, text),
        ),
        0 <= pen_moves(column, text) <= column + text.len(),
        0 <= put_text(grid, top, height, column, color, text).column <= BUFFER_WIDTH,
    decreases text.len(),
{
    if text.len() > 0 {
        lemma_column_after_text(grid, top, height, column, color, text.drop_last());
    }
}

/// A text without a line feed moves the pen once for each of its bytes.
pub proof fn lemma_pen_moves_without_line_feed(column: int, text: Seq<u8>)
    requires
        forall|i: int| 0 <= i < text.len() ==> text[i] != LINE_FEED,
    ensures
        pen_moves(column, text) == column + text.len(),
    decreases text.len(),
{
    if text.len() > 0 {
        lemma_pen_moves_without_line_feed(column, text.drop_last());
    }
}

/// The cell in which a byte of text is shown.
pub open spec fn text_cell(byte: u8, color: ColorCode) -> ScreenChar {
    ScreenChar { ascii_character: glyph(text_byte(byte)), color_code: color }
}

/// The row `row` with the cells from `column` on replaced by those of `text`.
pub open spec fn row_with_text(
    row: Seq<ScreenChar>,
    column: int,
    color: ColorCode,
    text: Seq<u8>,
) -> Seq<ScreenChar> {
    Seq::new(
        row.len(),
        |c: int|
            if column <= c < column + text.len() {
                text_cell(text[c - column], color)
            } else {
                row[c]
            },
    )
}

/// A text without a line feed that fits in what is left of the row changes the cells
/// under it on the band's last row, and nothing else: there is no scroll.
pub proof fn lemma_put_text_within_row(
    grid: Grid,
    top: int,
    height: int,
    column: int,
    color: ColorCode,
    text: Seq<u8>,
)
    requires
        grid_wf(grid),
        valid_region(top, height),
        0 <= column,
        column + text.len() <= BUFFER_WIDTH,
        forall|i: int| 0 <= i < text.len() ==> text[i] != LINE_FEED,
    ensures
        put_text(grid, top, height, column, color, text).grid == grid.update(
            bottom_row(top, height),
            row_with_text(grid[bottom_row(top, height)], column, color, text),
        ),
        put_text(grid, top, height, column, color, text).column == column + text.len(),
    decreases text.len(),
{
    let bottom = bottom_row(top, height);
    if text.len() == 0 {
        assert(row_with_text(grid[bottom], column, color, text) =~= grid[bottom]);
    } else {
        lemma_put_text_within_row(grid, top, height, column, color, text.drop_last());
        let after = put_text(grid, top, height, column, color, text);
        assert(after.grid[bottom] =~= row_with_text(grid[bottom], column, color, text));
    }
}

/// Writing exactly one row's width of printable bytes into a band, from column 0,
/// fills the band's last row with them, scrolls nothing and leaves the pen at the
/// width.
pub proof fn lemma_full_row(grid: Grid, top: int, height: int, color: ColorCode, text: Seq<u8>)
    requires
        grid_wf(grid),
        valid_region(top, height),
        text.len() == BUFFER_WIDTH,
        forall|i: int| 0 <= i < text.len() ==> is_printable(#[trigger] text[i]),
    ensures
        put_text(grid, top, height, 0, color, text).column == BUFFER_WIDTH,
        put_text(grid, top, height, 0, color, text).grid == grid.update(
            bottom_row(top, height),
            Seq::new(
                BUFFER_WIDTH as nat,
                |c: int| ScreenChar { ascii_character: text[c], color_code: color },
            ),
        ),
{
    lemma_put_text_within_row(grid, top, height, 0, color, text);
    assert(row_with_text(grid[bottom_row(top, height)], 0, color, text) =~= Seq::new(
        BUFFER_WIDTH as nat,
        |c: int| ScreenChar { ascii_character: text[c], color_code: color },
    ));
}

/// Writing one printable byte more than a row's width, from column 0, scrolls the
/// band exactly once: the first bytes fill the last row, the scroll lifts them one row
/// up, and the last byte stands alone at column 0, the pen at column 1.
pub proof fn lemma_full_row_and_one(
    grid: Grid,
    top: int,
    height: int,
    color: ColorCode,
    text: Seq<u8>,
)
    requires
        grid_wf(grid),
        valid_region(top, height),
        text.len() == BUFFER_WIDTH + 1,
        forall|i: int| 0 <= i < text.len() ==> is_printable(#[trigger] text[i]),
    ensures
        put_text(grid, top, height, 0, color, text).column == 1,
        put_text(grid, top, height, 0, color, text).grid == with_cell(
            scrolled(
                put_text(grid, top, height, 0, color, text.drop_last()).grid,
                top,
                height,
                color,
            ),
            bottom_row(top, height),
            0,
            ScreenChar { ascii_character: text.last(), color_code: color },
        ),
        put_text(grid, top, height, 0, color, text.drop_last()).grid == grid.update(
            bottom_row(top, height),
            Seq::new(
                BUFFER_WIDTH as nat,
                |c: int| ScreenChar { ascii_character: text[c], color_code: color },
            ),
        ),
{
    let first = text.drop_last();
    lemma_full_row(grid, top, height, color, first);
    assert(Seq::new(
        BUFFER_WIDTH as nat,
        |c: int| ScreenChar { ascii_character: first[c], color_code: color },
    ) =~= Seq::new(
        BUFFER_WIDTH as nat,
        |c: int| ScreenChar { ascii_character: text[c], color_code: color },
    ));
}

/// A cell shows a printable character or the placeholder.
pub open spec fn is_displayable(cell: ScreenChar) -> bool {
    is_printable(cell.ascii_character) || cell.ascii_character == PLACEHOLDER
}

/// Every cell of the rows `top .. top + height` is displayable.
pub open spec fn region_displayable(grid: Grid, top: int, height: int) -> bool {
    forall|r: int, c: int|
        in_region(r, top, height) && 0 <= c < BUFFER_WIDTH ==> is_displayable(
            #[trigger] grid[r][c],
        )
}

/// A byte that is neither printable nor a line feed nor a carriage return is placed
/// as the placeholder, never as itself.
pub proof fn lemma_unprintable_shown_as_placeholder(
    grid: Grid,
    top: int,
    height: int,
    column: int,
    color: ColorCode,
    byte: u8,
)
    requires
        grid_wf(grid),
        valid_region(top, height),
        0 <= column,
        !is_printable(byte),
        byte != LINE_FEED,
        byte != CARRIAGE_RETURN,
    ensures
        ({
            let after = put_byte(grid, top, height, column, color, byte);
            after.grid[bottom_row(top, height)][after.column - 1] == ScreenChar {
                ascii_character: PLACEHOLDER,
                color_code: color,
            }
        }),
        glyph(byte) == PLACEHOLDER,
        text_byte(byte) == PLACEHOLDER,
{
}

/// Whatever is written into a band whose cells are displayable, its cells stay
/// displayable: no raw unprintable byte ever reaches the grid.
pub proof fn lemma_displayable_kept(
    grid: Grid,
    top: int,
    height: int,
    column: int,
    color: ColorCode,
    text: Seq<u8>,
)
    requires
        grid_wf(grid),
        valid_region(top, height),
        0 <= column,
        region_displayable(grid, top, height),
    ensures
        region_displayable(cleared(grid, top, height, color), top, height),
        region_displayable(scrolled(grid, top, height, color), top, height),
        forall|byte: u8|
            region_displayable(
                #[trigger] put_byte(grid, top, height, column, color, byte).grid,
                top,
                height,
            ),
        region_displayable(put_text(grid, top, height, column, color, text).grid, top, height),
    decreases text.len(),
{
    let lifted = scrolled(grid, top, height, color);
    assert forall|r: int, c: int|
        in_region(r, top, height) && 0 <= c < BUFFER_WIDTH implies is_displayable(
        #[trigger] lifted[r][c],
    ) by {
        if r != bottom_row(top, height) {
            assert(is_displayable(grid[r + 1][c]));
        }
    }
    if text.len() > 0 {
        lemma_displayable_kept(grid, top, height, column, color, text.drop_last());
        lemma_shape_kept(grid, top, height, column, color, text.drop_last());
        let before = put_text(grid, top, height, column, color, text.drop_last());
        lemma_displayable_kept(before.grid, top, height, before.column, color, Seq::empty());
    }
}

} // verus!
