//! Text-mode display and interrupt-to-display core of a small bare-metal kernel.
//!
//! The crate is layered, leaves first:
//!
//! * [`vga_buffer`]: colours, cells and the driver that owns the character grid;
//! * [`screen`]: the mathematical picture of that grid and of every operation on it;
//! * [`console`]: three windows over the one grid, each with its own cursor and colours;
//! * [`interrupts`]: what each interrupt and exception handler does to the console,
//!   with [`keyboard`] and [`rtc`] for the scancode decoder and the clock;
//! * [`boot`]: the start-up sequence, as a machine that its caller steps through.
//!
//! Nothing here reads a port or takes a lock. The grid is handed in as a reference,
//! register and port values come in as plain bytes, and what has to be done on the
//! hardware goes out as a value for the caller to act on.

pub mod boot;
pub mod console;
pub mod interrupts;
pub mod keyboard;
pub mod rtc;
pub mod screen;
pub mod vga_buffer;
