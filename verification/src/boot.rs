//! The start-up sequence, one step at a time.
//!
//! Start-up alternates between telling the user what happens and acting on the
//! hardware. The sequence is kept here as a machine: each call of [`Boot::next`]
//! shows what the step has to show and hands back the one thing that its caller has to
//! do on the hardware before it calls again.

use crate::console::{Console, ConsoleView, _print, BODY, SUBTEXT};
use crate::rtc::{append_padded, padded, RTC_DATA_PORT, RTC_INDEX_PORT};
use vstd::prelude::*;
use vstd::string::{StringExecFns, StringSliceAdditionalSpecFns};
use vstd::utf8::encode_utf8;

verus! {

/// Selects status register A of the clock, with the non-maskable interrupt held off.
pub const RTC_SELECT_A: u8 = 0x8a;

/// Selects status register B of the clock, with the non-maskable interrupt held off.
pub const RTC_SELECT_B: u8 = 0x8b;

/// The number of steps of the sequence.
pub const BOOT_STEPS: usize = 14;

/// The width to which the carriage return that opens the small print is padded.
pub const SMALL_PRINT_INDENT: usize = 29;

/// What the caller of the sequence has to do next.
#[derive(Debug, Clone, Copy, PartialEq, Eq, Structural)]
pub enum BootAction {
    /// Load the table of interrupt handlers.
    LoadInterruptTable,
    /// Remap and unmask the two interrupt controllers.
    InitializeControllers,
    /// Let hardware interrupts through.
    EnableInterrupts,
    /// Hold interrupts off, remembering whether they were let through.
    MaskInterrupts,
    /// Let interrupts through again if they were before they were held off.
    RestoreInterrupts,
    /// Write `value` to `port`.
    WritePort { port: u16, value: u8 },
    /// Read a byte from `port` and hand it to the next step.
    ReadPort { port: u16 },
    /// Nothing: the sequence is over.
    Finished,
}

/// Status register A with the rate of the periodic interrupt set: the high four bits
/// of what the register held, and the rate 0x0b in the low four.
pub open spec fn with_rate(register_a: u8) -> u8 {
    (register_a & 0xf0) | 0x0b
}

/// Status register B with the periodic interrupt switched on: what the register
/// held, and bit 6.
pub open spec fn with_periodic_interrupt(register_b: u8) -> u8 {
    register_b | 0x40
}

/// The action of step `step`, where `held` is the byte that the last read handed
/// over.
pub open spec fn action_at(step: int, held: u8) -> BootAction {
    if step == 0 {
        BootAction::LoadInterruptTable
    } else if step == 1 {
        BootAction::InitializeControllers
    } else if step == 2 {
        BootAction::EnableInterrupts
    } else if step == 3 {
        BootAction::MaskInterrupts
    } else if step == 4 || step == 6 {
        BootAction::WritePort { port: RTC_INDEX_PORT, value: RTC_SELECT_A }
    } else if step == 5 || step == 9 {
        BootAction::ReadPort { port: RTC_DATA_PORT }
    } else if step == 7 {
        BootAction::WritePort { port: RTC_DATA_PORT, value: with_rate(held) }
    } else if step == 8 || step == 10 {
        BootAction::WritePort { port: RTC_INDEX_PORT, value: RTC_SELECT_B }
    } else if step == 11 {
        BootAction::WritePort { port: RTC_DATA_PORT, value: with_periodic_interrupt(held) }
    } else if step == 12 {
        BootAction::RestoreInterrupts
    } else {
        BootAction::Finished
    }
}

/// The step takes in the byte that the step before it asked its caller to read.
pub open spec fn follows_read(step: int) -> bool {
    step == 6 || step == 10
}

/// The small print of the last row.
pub open spec fn small_print() -> Seq<char> {
    padded("\r"@, SMALL_PRINT_INDENT as int)
        + "Copyright (c) 2023 Brian Szmyd, All rights reserved."@
}

/// The console after step `step` has shown what it has to show.
pub open spec fn shown_at(view: ConsoleView, step: int) -> ConsoleView {
    let body = view.with_current(BODY as int);
    if step == 0 {
        body.write(
            BODY as int,
            "Starting NapOS...\n".spec_bytes() + "Initializing Interrupts.".spec_bytes(),
        )
    } else if step == 1 || step == 2 || step == 4 || step == 6 || step == 10 {
        body.write(BODY as int, ".".spec_bytes())
    } else if step == 3 {
        body.write(BODY as int, "done.\n".spec_bytes() + "Initializing RTC.".spec_bytes())
    } else if step == 13 {
        body.write(BODY as int, "done.\n".spec_bytes()).with_current(SUBTEXT as int).write(
            SUBTEXT as int,
            encode_utf8(small_print()),
        )
    } else {
        view
    }
}

/// The window in whose colours the driver writes after step `step`, if the step
/// shows anything: the body, or at the last step the window on the last row.
pub open spec fn window_shown_at(step: int) -> Option<int> {
    if step == 0 || step == 1 || step == 2 || step == 3 || step == 4 || step == 6 || step == 10 {
        Some(BODY as int)
    } else if step == 13 {
        Some(SUBTEXT as int)
    } else {
        None
    }
}

/// The order of start-up: interrupts are let through only after the table of
/// handlers is loaded and the controllers are initialised; every access to a port
/// stands between the step that holds interrupts off and the step that restores them;
/// and after `BOOT_STEPS` steps nothing is left to do.
pub proof fn lemma_boot_order(step: int, held: u8)
    ensures
        action_at(step, held) == BootAction::EnableInterrupts ==> step == 2,
        action_at(0, held) == BootAction::LoadInterruptTable,
        action_at(1, held) == BootAction::InitializeControllers,
        action_at(step, held) is WritePort || action_at(step, held) is ReadPort ==> 3 < step < 12,
        action_at(3, held) == BootAction::MaskInterrupts,
        action_at(12, held) == BootAction::RestoreInterrupts,
        step >= BOOT_STEPS ==> action_at(step, held) == BootAction::Finished && forall|
            view: ConsoleView,
        | shown_at(view, step) == view,
        follows_read(step) ==> action_at(step - 1, held) is ReadPort,
{
}

/// The place in the start-up sequence.
pub struct Boot {
    step: usize,
    held: u8,
}

impl Boot {
    /// The number of the step that comes next; from `BOOT_STEPS` on the sequence is
    /// over.
    pub closed spec fn step(&self) -> int {
        self.step as int
    }

    /// The byte that the last read handed over.
    pub closed spec fn held(&self) -> u8 {
        self.held
    }

    /// The sequence at its start.
    pub fn new() -> (boot: Boot)
        ensures
            boot.step() == 0,
    {
        Boot { step: 0, held: 0 }
    }

    /// Whether the sequence is over.
    pub fn is_finished(&self) -> (finished: bool)
        ensures
            finished == (self.step() >= BOOT_STEPS),
    {
        self.step >= BOOT_STEPS
    }

    /// Takes the next step: shows on the console what the step has to show and hands
    /// back what the caller has to do before it calls again. `read` is the byte that
    /// the caller read where the step before asked for a read; elsewhere it is not
    /// looked at.
    pub fn next(&mut self, console: &mut Console, read: u8) -> (action: BootAction)
        requires
            old(console).wf(),
        ensures
            final(console)@ == shown_at(old(console)@, old(self).step()),
            final(console).driver_color() == (match window_shown_at(old(self).step()) {
                Some(window) => old(console)@.windows[window].color(),
                None => old(console).driver_color(),
            }),
            final(console).wf(),
            final(self).held() == (if follows_read(old(self).step()) {
                read
            } else {
                old(self).held()
            }),
            action == action_at(old(self).step(), final(self).held()),
            final(self).step() == (if old(self).step() < BOOT_STEPS {
                old(self).step() + 1
            } else {
                old(self).step()
            }),
    {
        let step: usize = self.step;
        if step == 6 || step == 10 {
            self.held = read;
        }
        if step < BOOT_STEPS {
            self.step = step + 1;
        }
        let held: u8 = self.held;
        proof {
                let body = old(console)@.with_current(BODY as int);
            body.lemma_write_concat(
                BODY as int,
                "Starting NapOS...\n".spec_bytes(),
                "Initializing Interrupts.".spec_bytes(),
            );
            body.lemma_write_concat(
                BODY as int,
                "done.\n".spec_bytes(),
                "Initializing RTC.".spec_bytes(),
            );
        }
        match step {
            0 => {
                _print(console, BODY, "Starting NapOS...\n");
                _print(console, BODY, "Initializing Interrupts.");
                BootAction::LoadInterruptTable
            },
            1 => {
                _print(console, BODY, ".");
                BootAction::InitializeControllers
            },
            2 => {
                _print(console, BODY, ".");
                BootAction::EnableInterrupts
            },
            3 => {
                _print(console, BODY, "done.\n");
                _print(console, BODY, "Initializing RTC.");
                BootAction::MaskInterrupts
            },
            4 => {
                _print(console, BODY, ".");
                BootAction::WritePort { port: RTC_INDEX_PORT, value: RTC_SELECT_A }
            },
            5 => BootAction::ReadPort { port: RTC_DATA_PORT },
            6 => {
                _print(console, BODY, ".");
                BootAction::WritePort { port: RTC_INDEX_PORT, value: RTC_SELECT_A }
            },
            7 => BootAction::WritePort { port: RTC_DATA_PORT, value: (held & 0xf0) | 0x0b },
            8 => BootAction::WritePort { port: RTC_INDEX_PORT, value: RTC_SELECT_B },
            9 => BootAction::ReadPort { port: RTC_DATA_PORT },
            10 => {
                _print(console, BODY, ".");
                BootAction::WritePort { port: RTC_INDEX_PORT, value: RTC_SELECT_B }
            },
            11 => BootAction::WritePort { port: RTC_DATA_PORT, value: held | 0x40 },
            12 => BootAction::RestoreInterrupts,
            13 => {
                _print(console, BODY, "done.\n");
                let mut line: String = String::new();
                append_padded(&mut line, "\r", SMALL_PRINT_INDENT);
                line.append("Copyright (c) 2023 Brian Szmyd, All rights reserved.");
                _print(console, SUBTEXT, line.as_str());
                BootAction::Finished
            },
            _ => BootAction::Finished,
        }
    }
}

} // verus!
