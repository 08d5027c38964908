//! Three windows over the one character grid.
//!
//! Each window is a band of rows with its own cursor and colours. All writing goes
//! through the console, which sets the driver's colours from the window before it
//! writes or clears.

use crate::screen::{
    blank_cell, cleared, grid_wf, in_region, lemma_column_after_text, lemma_put_text_concat,
    lemma_put_text_local, lemma_rows_outside_kept, lemma_scroll_of_cleared, lemma_shape_kept,
    pen_moves, put_text, row_of, valid_region, wrapped_column, Grid,
};
use crate::vga_buffer::{
    Color, ColorCode, ScreenChar, Writer, BUFFER_HEIGHT, BUFFER_WIDTH, LINE_FEED,
};
use vstd::prelude::*;
use vstd::string::StringSliceAdditionalSpecFns;

verus! {

/// The number of windows.
pub const WINDOWS: usize = 3;

/// The one-row window on the top row, where announcements stand: the title and
/// the clock.
pub const ANNOUNCE: usize = 0;

/// The tall window in the middle, in which text scrolls.
pub const BODY: usize = 1;

/// The one-row window on the last row, for the small print.
pub const SUBTEXT: usize = 2;

/// A band of rows of the screen with a cursor and colours of its own.
#[derive(Debug, Clone, Copy)]
pub struct Window {
    pub top: usize,
    pub height: usize,
    pub cur: usize,
    pub bg_color: Color,
    pub fg_color: Color,
}

impl Window {
    /// The attribute byte in which the window is written and cleared.
    pub open spec fn color(self) -> ColorCode {
        ColorCode::of(self.fg_color, self.bg_color)
    }

    /// The window lies on the screen, is not empty, and its cursor is within a row
    /// or just behind its end.
    pub open spec fn wf(self) -> bool {
        valid_region(self.top as int, self.height as int) && self.cur <= BUFFER_WIDTH
    }

    /// The window holds row `row`.
    pub open spec fn holds_row(self, row: int) -> bool {
        in_region(row, self.top as int, self.height as int)
    }

    /// The two windows share no row.
    pub open spec fn apart_from(self, other: Window) -> bool {
        self.top + self.height <= other.top || other.top + other.height <= self.top
    }
}

/// What a console is to its callers: its windows, the window that formatted output
/// goes to, and the cells on the screen.
pub struct ConsoleView {
    pub windows: Seq<Window>,
    pub current: int,
    pub grid: Grid,
}

impl ConsoleView {
    /// The windows lie on the screen and no two of them share a row.
    pub open spec fn wf(self) -> bool {
        &&& self.windows.len() == WINDOWS
        &&& grid_wf(self.grid)
        &&& forall|i: int| 0 <= i < WINDOWS ==> (#[trigger] self.windows[i]).wf()
        &&& forall|i: int, j: int|
            0 <= i < WINDOWS && 0 <= j < WINDOWS && i != j ==> (#[trigger] self.windows[i]).apart_from(
                #[trigger] self.windows[j],
            )
    }

    /// This console with window `idx` replaced.
    pub open spec fn with_window(self, idx: int, window: Window) -> ConsoleView {
        ConsoleView { windows: self.windows.update(idx, window), ..self }
    }

    /// This console with another background for window `idx`.
    pub open spec fn with_background(self, idx: int, color: Color) -> ConsoleView {
        self.with_window(idx, Window { bg_color: color, ..self.windows[idx] })
    }

    /// This console with another foreground for window `idx`.
    pub open spec fn with_foreground(self, idx: int, color: Color) -> ConsoleView {
        self.with_window(idx, Window { fg_color: color, ..self.windows[idx] })
    }

    /// This console with formatted output going to window `idx`.
    pub open spec fn with_current(self, idx: int) -> ConsoleView {
        ConsoleView { current: idx, ..self }
    }

    /// This console after window `idx` is cleared: its rows blank in its colours, its
    /// cursor at 0.
    pub open spec fn clear(self, idx: int) -> ConsoleView {
        let window = self.windows[idx];
        ConsoleView {
            windows: self.windows.update(idx, Window { cur: 0, ..window }),
            grid: cleared(self.grid, window.top as int, window.height as int, window.color()),
            ..self
        }
    }

    /// This console after `text` is written to window `idx`: the text goes into the
    /// window's rows in its colours, from its cursor, and the cursor follows.
    pub open spec fn write(self, idx: int, text: Seq<u8>) -> ConsoleView {
        let window = self.windows[idx];
        let pen = put_text(
            self.grid,
            window.top as int,
            window.height as int,
            window.cur as int,
            window.color(),
            text,
        );
        ConsoleView {
            windows: self.windows.update(idx, Window { cur: pen.column as usize, ..window }),
            grid: pen.grid,
            ..self
        }
    }

    /// The three windows stand where the design puts them: one on row 0, the body
    /// on rows 1 to 23, one on row 24.
    pub open spec fn standard_layout(self) -> bool {
        &&& self.windows.len() == WINDOWS
        &&& self.windows[0].top == 0 && self.windows[0].height == 1
        &&& self.windows[1].top == 1 && self.windows[1].height == 23
        &&& self.windows[2].top == 24 && self.windows[2].height == 1
    }

    /// This console after the writes `ops`, first one first.
    pub open spec fn write_all(self, ops: Seq<WriteOp>) -> ConsoleView
        decreases ops.len(),
    {
        if ops.len() == 0 {
            self
        } else {
            self.write_all(ops.drop_last()).write(ops.last().window, ops.last().text)
        }
    }

    /// Windows `idx` of the two consoles are the same and their rows hold the same.
    pub open spec fn same_window(self, other: ConsoleView, idx: int) -> bool {
        &&& self.windows[idx] == other.windows[idx]
        &&& forall|r: int| self.windows[idx].holds_row(r) ==> self.grid[r] == other.grid[r]
    }
}

/// One write to a console: a text for a window.
pub struct WriteOp {
    pub window: int,
    pub text: Seq<u8>,
}

/// Those of `ops` that write to window `idx`, in their order.
pub open spec fn ops_for(ops: Seq<WriteOp>, idx: int) -> Seq<WriteOp>
    decreases ops.len(),
{
    if ops.len() == 0 {
        ops
    } else if ops.last().window == idx {
        ops_for(ops.drop_last(), idx).push(ops.last())
    } else {
        ops_for(ops.drop_last(), idx)
    }
}

/// The texts of `ops`, joined in their order.
pub open spec fn joined(ops: Seq<WriteOp>) -> Seq<u8>
    decreases ops.len(),
{
    if ops.len() == 0 {
        Seq::empty()
    } else {
        joined(ops.drop_last()) + ops.last().text
    }
}

/// The writes that `ops_for` picks are all for the window asked for.
pub proof fn lemma_ops_for(ops: Seq<WriteOp>, idx: int)
    ensures
        forall|k: int| 0 <= k < ops_for(ops, idx).len() ==> (#[trigger] ops_for(ops, idx)[k]).window == idx,
    decreases ops.len(),
{
    if ops.len() > 0 {
        lemma_ops_for(ops.drop_last(), idx);
        let earlier = ops_for(ops.drop_last(), idx);
        assert forall|k: int| 0 <= k < ops_for(ops, idx).len() implies (#[trigger] ops_for(
            ops,
            idx,
        )[k]).window == idx by {
            if k < earlier.len() {
                assert(ops_for(ops, idx)[k] == earlier[k]);
            }
        }
    }
}

impl ConsoleView {
    /// A write or a clearing keeps a console well formed, moves no window and changes
    /// no window's colours.
    pub proof fn lemma_write_keeps_wf(self, idx: int, text: Seq<u8>)
        requires
            self.wf(),
            0 <= idx < WINDOWS,
        ensures
            self.write(idx, text).wf(),
            self.clear(idx).wf(),
            self.write(idx, text).standard_layout() == self.standard_layout(),
            self.clear(idx).standard_layout() == self.standard_layout(),
            self.write(idx, text).current == self.current,
            self.write(idx, text).windows[idx] == (Window {
                cur: self.write(idx, text).windows[idx].cur,
                ..self.windows[idx]
            }),
    {
        let window = self.windows[idx];
        lemma_shape_kept(
            self.grid,
            window.top as int,
            window.height as int,
            window.cur as int,
            window.color(),
            text,
        );
        lemma_column_after_text(
            self.grid,
            window.top as int,
            window.height as int,
            window.cur as int,
            window.color(),
            text,
        );
    }

    /// A write to one window, or its clearing, leaves every other window as it was:
    /// its cursor, its colours and every cell of its rows.
    pub proof fn lemma_other_window_kept(self, idx: int, text: Seq<u8>, other: int)
        requires
            self.wf(),
            0 <= idx < WINDOWS,
            0 <= other < WINDOWS,
            idx != other,
        ensures
            self.write(idx, text).same_window(self, other),
            self.clear(idx).same_window(self, other),
    {
        let window = self.windows[idx];
        assert forall|r: int| self.windows[other].holds_row(r) implies self.write(
            idx,
            text,
        ).grid[r] == self.grid[r] && self.clear(idx).grid[r] == self.grid[r] by {
            lemma_rows_outside_kept(
                self.grid,
                window.top as int,
                window.height as int,
                window.cur as int,
                window.color(),
                text,
                r,
            );
        }
    }

    /// Two writes to one window, one after the other, are one write of the joined
    /// texts.
    pub proof fn lemma_write_concat(self, idx: int, first: Seq<u8>, second: Seq<u8>)
        requires
            self.wf(),
            0 <= idx < WINDOWS,
        ensures
            self.write(idx, first).write(idx, second) == self.write(idx, first + second),
    {
        let window = self.windows[idx];
        lemma_put_text_concat(
            self.grid,
            window.top as int,
            window.height as int,
            window.cur as int,
            window.color(),
            first,
            second,
        );
        lemma_column_after_text(
            self.grid,
            window.top as int,
            window.height as int,
            window.cur as int,
            window.color(),
            first,
        );
        assert(self.write(idx, first).write(idx, second).windows =~= self.write(
            idx,
            first + second,
        ).windows);
    }

    /// What a write does to its window depends on that window alone: on two consoles
    /// whose windows `idx` are the same, the same text leaves them the same.
    pub proof fn lemma_write_local(self, other: ConsoleView, idx: int, text: Seq<u8>)
        requires
            self.wf(),
            other.wf(),
            0 <= idx < WINDOWS,
            self.same_window(other, idx),
        ensures
            self.write(idx, text).same_window(other.write(idx, text), idx),
    {
        let window = self.windows[idx];
        lemma_put_text_local(
            self.grid,
            other.grid,
            window.top as int,
            window.height as int,
            window.cur as int,
            window.color(),
            text,
        );
    }

    /// However writes to the windows are interleaved, each window ends as if the
    /// writes to it had been made alone: the cells of its rows and its cursor are
    /// those that its own writes, in their order, leave.
    pub proof fn lemma_interleaved_writes(self, ops: Seq<WriteOp>, idx: int)
        requires
            self.wf(),
            0 <= idx < WINDOWS,
            forall|k: int| 0 <= k < ops.len() ==> 0 <= (#[trigger] ops[k]).window < WINDOWS,
        ensures
            self.write_all(ops).wf(),
            self.write_all(ops_for(ops, idx)).wf(),
            self.write_all(ops).same_window(self.write_all(ops_for(ops, idx)), idx),
        decreases ops.len(),
    {
        if ops.len() > 0 {
            let earlier = ops.drop_last();
            let last = ops.last();
            self.lemma_interleaved_writes(earlier, idx);
            let all = self.write_all(earlier);
            let own = self.write_all(ops_for(earlier, idx));
            all.lemma_write_keeps_wf(last.window, last.text);
            if last.window == idx {
                own.lemma_write_keeps_wf(idx, last.text);
                all.lemma_write_local(own, idx, last.text);
                assert(ops_for(ops, idx).drop_last() == ops_for(earlier, idx));
            } else {
                all.lemma_other_window_kept(last.window, last.text, idx);
            }
        }
    }

    /// Writes that are all for one window are one write of their joined texts.
    pub proof fn lemma_own_writes_are_one(self, ops: Seq<WriteOp>, idx: int)
        requires
            self.wf(),
            0 <= idx < WINDOWS,
            forall|k: int| 0 <= k < ops.len() ==> (#[trigger] ops[k]).window == idx,
        ensures
            self.write_all(ops) == self.write(idx, joined(ops)),
        decreases ops.len(),
    {
        if ops.len() == 0 {
            assert(self.write(idx, joined(ops)).windows =~= self.windows);
        } else {
            let earlier = ops.drop_last();
            self.lemma_own_writes_are_one(earlier, idx);
            self.lemma_write_concat(idx, joined(earlier), ops.last().text);
        }
    }

    /// After any writes, however interleaved, the cursor of a window stands where
    /// the bytes written to it since its last line feed have moved it: at their
    /// number, wrapped at the width of the row.
    pub proof fn lemma_cursor_after_writes(self, ops: Seq<WriteOp>, idx: int)
        requires
            self.wf(),
            0 <= idx < WINDOWS,
            forall|k: int| 0 <= k < ops.len() ==> 0 <= (#[trigger] ops[k]).window < WINDOWS,
        ensures
            self.write_all(ops).windows[idx].cur == wrapped_column(
                pen_moves(self.windows[idx].cur as int, joined(ops_for(ops, idx))),
            ),
    {
        let own = ops_for(ops, idx);
        let window = self.windows[idx];
        self.lemma_interleaved_writes(ops, idx);
        lemma_ops_for(ops, idx);
        self.lemma_own_writes_are_one(own, idx);
        lemma_column_after_text(
            self.grid,
            window.top as int,
            window.height as int,
            window.cur as int,
            window.color(),
            joined(own),
        );
    }

    /// A line feed in a window that was just cleared changes no cell: the window
    /// stays blank, its cursor at 0.
    pub proof fn lemma_line_feed_after_clear(self, idx: int)
        requires
            self.wf(),
            0 <= idx < WINDOWS,
        ensures
            self.clear(idx).write(idx, seq![LINE_FEED]) == self.clear(idx),
    {
        let window = self.windows[idx];
        lemma_scroll_of_cleared(self.grid, window.top as int, window.height as int, window.color());
        let blank = self.clear(idx);
        let feed = seq![LINE_FEED];
        let start = put_text(
            blank.grid,
            window.top as int,
            window.height as int,
            0,
            window.color(),
            feed.drop_last(),
        );
        assert(feed.drop_last() =~= Seq::<u8>::empty());
        assert(start.grid == blank.grid && start.column == 0);
        assert(blank.write(idx, feed).grid == blank.grid);
        assert(blank.write(idx, feed).windows =~= blank.windows);
    }

    /// Writes that are all for other windows leave a window as it was.
    pub proof fn lemma_untouched_by_other_writes(self, ops: Seq<WriteOp>, idx: int)
        requires
            self.wf(),
            0 <= idx < WINDOWS,
            forall|k: int|
                0 <= k < ops.len() ==> 0 <= (#[trigger] ops[k]).window < WINDOWS && ops[k].window
                    != idx,
        ensures
            self.write_all(ops).same_window(self, idx),
        decreases ops.len(),
    {
        if ops.len() > 0 {
            let earlier = ops.drop_last();
            self.lemma_untouched_by_other_writes(earlier, idx);
            self.lemma_interleaved_writes(earlier, idx);
            self.write_all(earlier).lemma_other_window_kept(ops.last().window, ops.last().text, idx);
        }
    }
}

/// The console: the windows, and the driver through which alone they reach the grid.
pub struct Console {
    windows: [Window; WINDOWS],
    cur_window: usize,
    writer: Writer,
}

impl View for Console {
    type V = ConsoleView;

    closed spec fn view(&self) -> ConsoleView {
        ConsoleView {
            windows: self.windows@,
            current: self.cur_window as int,
            grid: self.writer.grid(),
        }
    }
}

impl Console {
    /// The windows stand where the design puts them, so that no two of them share a
    /// row, and each cursor is within a row or just behind its end.
    pub open spec fn wf(&self) -> bool {
        self@.wf() && self@.standard_layout()
    }

    /// The colours that the driver now writes in: those of the window that was last
    /// written or cleared.
    pub closed spec fn driver_color(&self) -> ColorCode {
        self.writer.color()
    }

    /// A console over the grid of `writer`: a one-row window on row 0, the body on
    /// rows 1 to 23 and a one-row window on row 24, each white on black with its
    /// cursor at 0. Formatted output goes to the body. The grid keeps what it held.
    pub fn new(writer: Writer) -> (console: Console)
        ensures
            console.wf(),
            console.driver_color() == writer.color(),
            console@.grid == writer.grid(),
            console@.current == BODY,
            console@.windows == seq![
                Window { top: 0, height: 1, cur: 0, bg_color: Color::Black, fg_color: Color::White },
                Window { top: 1, height: 23, cur: 0, bg_color: Color::Black, fg_color: Color::White },
                Window { top: 24, height: 1, cur: 0, bg_color: Color::Black, fg_color: Color::White },
            ],
    {
        proof {
            writer.lemma_grid_wf();
        }
        Console {
            windows: [
                Window { top: 0, height: 1, cur: 0, bg_color: Color::Black, fg_color: Color::White },
                Window { top: 1, height: 23, cur: 0, bg_color: Color::Black, fg_color: Color::White },
                Window { top: 24, height: 1, cur: 0, bg_color: Color::Black, fg_color: Color::White },
            ],
            cur_window: BODY,
            writer,
        }
    }

    /// Window `window_idx` as it is now.
    pub fn window(&self, window_idx: usize) -> (window: Window)
        requires
            window_idx < WINDOWS,
        ensures
            window == self@.windows[window_idx as int],
    {
        self.windows[window_idx]
    }

    /// The window that formatted output goes to.
    pub fn current_window(&self) -> (window_idx: usize)
        ensures
            window_idx == self@.current,
    {
        self.cur_window
    }

    /// The cell at `row`, `col` of the screen.
    pub fn read_cell(&self, row: usize, col: usize) -> (cell: ScreenChar)
        requires
            row < BUFFER_HEIGHT,
            col < BUFFER_WIDTH,
        ensures
            cell == self@.grid[row as int][col as int],
    {
        self.writer.read_cell(row, col)
    }

    /// Changes the background in which window `window_idx` is written and cleared
    /// from now on. No cell changes.
    pub fn set_bg_color(&mut self, window_idx: usize, color: Color)
        requires
            window_idx < WINDOWS,
        ensures
            final(self)@ == old(self)@.with_background(window_idx as int, color),
            final(self).driver_color() == old(self).driver_color(),
            old(self).wf() ==> final(self).wf(),
    {
        self.windows[window_idx].bg_color = color;
    }

    /// Changes the foreground in which window `window_idx` is written and cleared
    /// from now on. No cell changes.
    pub fn set_fg_color(&mut self, window_idx: usize, color: Color)
        requires
            window_idx < WINDOWS,
        ensures
            final(self)@ == old(self)@.with_foreground(window_idx as int, color),
            final(self).driver_color() == old(self).driver_color(),
            old(self).wf() ==> final(self).wf(),
    {
        self.windows[window_idx].fg_color = color;
    }

    /// Sends formatted output to window `window_idx` from now on, and hands the
    /// console back for the write that follows.
    pub fn set_window(&mut self, window_idx: usize) -> (console: &mut Console)
        ensures
            console@ == old(self)@.with_current(window_idx as int),
            console.driver_color() == old(self).driver_color(),
            *final(self) == *final(console),
    {
        self.cur_window = window_idx;
        self
    }

    /// Blanks the rows of window `window_idx` in its colours and takes its cursor
    /// back to 0.
    pub fn clear_window(&mut self, window_idx: usize)
        requires
            window_idx < WINDOWS,
            old(self).wf(),
        ensures
            final(self)@ == old(self)@.clear(window_idx as int),
            final(self).driver_color() == old(self)@.windows[window_idx as int].color(),
            final(self).wf(),
            forall|other: int|
                0 <= other < WINDOWS && other != window_idx ==> final(self)@.same_window(
                    old(self)@,
                    other,
                ),
    {
        proof {
            assert forall|other: int| 0 <= other < WINDOWS && other != window_idx implies old(
                self,
            )@.clear(window_idx as int).same_window(old(self)@, other) by {
                old(self)@.lemma_other_window_kept(window_idx as int, Seq::empty(), other);
            }
        }
        let window: Window = self.windows[window_idx];
        self.writer.set_fg_color(window.fg_color);
        self.writer.set_bg_color(window.bg_color);
        proof {
            ColorCode::lemma_built_from_parts(old(self).writer.color(), window.fg_color, window.bg_color);
        }
        self.writer.clear_screen(window.top, window.height);
        self.windows[window_idx].cur = 0;
        proof {
            lemma_shape_kept(
                old(self)@.grid,
                window.top as int,
                window.height as int,
                0,
                window.color(),
                Seq::empty(),
            );
        }
    }

    /// Writes `s` to window `window_idx`: into its rows, in its colours, from its
    /// cursor, which follows the text.
    pub fn write_string(&mut self, window_idx: usize, s: &str)
        requires
            window_idx < WINDOWS,
            old(self).wf(),
        ensures
            final(self)@ == old(self)@.write(window_idx as int, s.spec_bytes()),
            final(self).driver_color() == old(self)@.windows[window_idx as int].color(),
            final(self).wf(),
            final(self)@.windows[window_idx as int].cur == wrapped_column(
                pen_moves(old(self)@.windows[window_idx as int].cur as int, s.spec_bytes()),
            ),
            forall|other: int|
                0 <= other < WINDOWS && other != window_idx ==> final(self)@.same_window(
                    old(self)@,
                    other,
                ),
    {
        proof {
            assert forall|other: int| 0 <= other < WINDOWS && other != window_idx implies old(
                self,
            )@.write(window_idx as int, s.spec_bytes()).same_window(old(self)@, other) by {
                old(self)@.lemma_other_window_kept(window_idx as int, s.spec_bytes(), other);
            }
        }
        let window: Window = self.windows[window_idx];
        self.writer.set_fg_color(window.fg_color);
        self.writer.set_bg_color(window.bg_color);
        proof {
            ColorCode::lemma_built_from_parts(old(self).writer.color(), window.fg_color, window.bg_color);
            lemma_shape_kept(
                old(self)@.grid,
                window.top as int,
                window.height as int,
                window.cur as int,
                window.color(),
                s.spec_bytes(),
            );
            lemma_column_after_text(
                old(self)@.grid,
                window.top as int,
                window.height as int,
                window.cur as int,
                window.color(),
                s.spec_bytes(),
            );
        }
        let cur: usize = self.writer.write_string(window.top, window.height, window.cur, s);
        self.windows[window_idx].cur = cur;
        assert(self@.windows =~= old(self)@.write(window_idx as int, s.spec_bytes()).windows);
    }
}

/// Sends `s` to window `window`, which formatted output goes to from then on.
pub fn _print(console: &mut Console, window: usize, s: &str)
    requires
        window < WINDOWS,
        old(console).wf(),
    ensures
        final(console)@ == old(console)@.with_current(window as int).write(
            window as int,
            s.spec_bytes(),
        ),
        final(console).driver_color() == old(console)@.windows[window as int].color(),
        final(console).wf(),
{
    let routed: &mut Console = console.set_window(window);
    routed.write_string(window, s);
}

/// The windows at start: the top row white on dark grey, the body cyan on black,
/// the last row yellow on dark grey, each cursor at 0.
pub open spec fn start_windows() -> Seq<Window> {
    seq![
        Window { top: 0, height: 1, cur: 0, bg_color: Color::DarkGrey, fg_color: Color::White },
        Window { top: 1, height: 23, cur: 0, bg_color: Color::Black, fg_color: Color::Cyan },
        Window { top: 24, height: 1, cur: 0, bg_color: Color::DarkGrey, fg_color: Color::Yellow },
    ]
}

/// The screen at start: every cell blank, each row in the colours of its window.
pub open spec fn start_grid() -> Grid {
    Seq::new(
        BUFFER_HEIGHT as nat,
        |r: int|
            row_of(
                blank_cell(
                    if r == 0 {
                        ColorCode::of(Color::White, Color::DarkGrey)
                    } else if r < 24 {
                        ColorCode::of(Color::Cyan, Color::Black)
                    } else {
                        ColorCode::of(Color::Yellow, Color::DarkGrey)
                    },
                ),
            ),
    )
}

/// Paints the screen as it is at start: the top row white on dark grey, the body
/// cyan on black, the last row yellow on dark grey, every cell blank and every
/// cursor at 0.
pub fn init_console(console: &mut Console)
    requires
        old(console).wf(),
    ensures
        final(console)@.windows == start_windows(),
        final(console)@.grid == start_grid(),
        final(console)@.current == old(console)@.current,
        final(console).driver_color() == start_windows()[SUBTEXT as int].color(),
        final(console).wf(),
{
    console.set_bg_color(ANNOUNCE, Color::DarkGrey);
    console.set_fg_color(ANNOUNCE, Color::White);
    console.clear_window(ANNOUNCE);
    console.set_bg_color(BODY, Color::Black);
    console.set_fg_color(BODY, Color::Cyan);
    console.clear_window(BODY);
    console.set_bg_color(SUBTEXT, Color::DarkGrey);
    console.set_fg_color(SUBTEXT, Color::Yellow);
    console.clear_window(SUBTEXT);
}

/// `core::fmt::Error`, the error of formatted output. It holds nothing.
#[verifier::external_type_specification]
#[verifier::external_body]
pub struct ExFmtError(core::fmt::Error);

impl core::fmt::Write for Console {
    /// Writes `s` to the window that formatted output goes to. It never fails.
    fn write_str(&mut self, s: &str) -> (result: core::fmt::Result)
        requires
            old(self)@.current < WINDOWS,
            old(self).wf(),
        ensures
            result is Ok,
            final(self)@ == old(self)@.write(old(self)@.current, s.spec_bytes()),
            final(self).driver_color() == old(self)@.windows[old(self)@.current].color(),
            final(self).wf(),
    {
        self.write_string(self.cur_window, s);
        Ok(())
    }
}

} // verus!
