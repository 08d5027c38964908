use napos::boot::{Boot, BootAction, BOOT_STEPS, RTC_SELECT_A, RTC_SELECT_B};
use napos::console::{init_console, Console, BODY, SUBTEXT};
use napos::vga_buffer::{Buffer, ScreenChar, Writer, BUFFER_HEIGHT, BUFFER_WIDTH};

fn clean_buffer() -> &'static mut Buffer {
    Box::leak(Box::new([[[0u8; 2]; BUFFER_WIDTH]; BUFFER_HEIGHT]))
}

fn painted_console() -> Console {
    let mut console = Console::new(Writer::new(clean_buffer()));
    init_console(&mut console);
    console
}

fn text_of(console: &Console, row: usize) -> String {
    let bytes: Vec<u8> =
        (0..BUFFER_WIDTH).map(|col| console.read_cell(row, col).ascii_character).collect();
    String::from_utf8_lossy(&bytes).trim_end().to_string()
}

fn every_cell(console: &Console) -> Vec<ScreenChar> {
    let mut all = Vec::new();
    for row in 0..BUFFER_HEIGHT {
        for col in 0..BUFFER_WIDTH {
            all.push(console.read_cell(row, col));
        }
    }
    all
}

fn run(console: &mut Console, register_a: u8, register_b: u8) -> Vec<BootAction> {
    let mut boot = Boot::new();
    let mut actions = Vec::new();
    let mut read = 0u8;
    let mut reads = vec![register_b, register_a];
    while !boot.is_finished() {
        let action = boot.next(console, read);
        if let BootAction::ReadPort { .. } = action {
            read = reads.pop().unwrap();
        } else {
            read = 0xff;
        }
        actions.push(action);
    }
    actions
}

#[test]
fn the_sequence_of_actions() {
    let mut console = painted_console();
    let actions = run(&mut console, 0x26, 0x02);
    assert_eq!(
        actions,
        vec![
            BootAction::LoadInterruptTable,
            BootAction::InitializeControllers,
            BootAction::EnableInterrupts,
            BootAction::MaskInterrupts,
            BootAction::WritePort { port: 0x70, value: 0x8a },
            BootAction::ReadPort { port: 0x71 },
            BootAction::WritePort { port: 0x70, value: 0x8a },
            BootAction::WritePort { port: 0x71, value: 0x2b },
            BootAction::WritePort { port: 0x70, value: 0x8b },
            BootAction::ReadPort { port: 0x71 },
            BootAction::WritePort { port: 0x70, value: 0x8b },
            BootAction::WritePort { port: 0x71, value: 0x42 },
            BootAction::RestoreInterrupts,
            BootAction::Finished,
        ]
    );
    assert_eq!(actions.len(), BOOT_STEPS);
    assert_eq!((RTC_SELECT_A, RTC_SELECT_B), (0x8a, 0x8b));
}

#[test]
fn the_register_values_keep_the_bits_they_must() {
    for (register_a, register_b) in [(0x00u8, 0x00u8), (0xff, 0xff), (0xa6, 0x82), (0x5f, 0x40)] {
        let mut console = painted_console();
        let actions = run(&mut console, register_a, register_b);
        assert_eq!(
            actions[7],
            BootAction::WritePort { port: 0x71, value: (register_a & 0xf0) | 0x0b }
        );
        assert_eq!(actions[11], BootAction::WritePort { port: 0x71, value: register_b | 0x40 });
    }
}

#[test]
fn what_the_sequence_shows() {
    let mut console = painted_console();
    run(&mut console, 0x26, 0x02);
    assert_eq!(text_of(&console, 20), "Starting NapOS...");
    assert_eq!(text_of(&console, 21), "Initializing Interrupts...done.");
    assert_eq!(text_of(&console, 22), "Initializing RTC....done.");
    assert_eq!(text_of(&console, 23), "");
    assert_eq!(text_of(&console, 19), "");
    assert_eq!(text_of(&console, 0), "");
    assert_eq!(console.window(BODY).cur, 0);
    assert_eq!(console.current_window(), 2);
}

#[test]
fn the_small_print_is_one_byte_longer_than_its_row() {
    let mut console = painted_console();
    run(&mut console, 0, 0);
    assert_eq!(text_of(&console, 24), ".");
    assert_eq!(console.window(SUBTEXT).cur, 1);
    assert_eq!(console.read_cell(24, 0).color_code.byte(), 0x8e);
}

#[test]
fn what_each_step_shows() {
    let mut console = painted_console();
    let mut boot = Boot::new();
    assert!(!boot.is_finished());
    boot.next(&mut console, 0);
    assert_eq!(text_of(&console, 22), "Starting NapOS...");
    assert_eq!(text_of(&console, 23), "Initializing Interrupts.");
    boot.next(&mut console, 0);
    assert_eq!(text_of(&console, 23), "Initializing Interrupts..");
    boot.next(&mut console, 0);
    assert_eq!(text_of(&console, 23), "Initializing Interrupts...");
    boot.next(&mut console, 0);
    assert_eq!(text_of(&console, 22), "Initializing Interrupts...done.");
    assert_eq!(text_of(&console, 23), "Initializing RTC.");
    boot.next(&mut console, 0);
    assert_eq!(text_of(&console, 23), "Initializing RTC..");
    boot.next(&mut console, 0);
    assert_eq!(text_of(&console, 23), "Initializing RTC..");
    boot.next(&mut console, 0);
    assert_eq!(text_of(&console, 23), "Initializing RTC...");
    for _ in 7..10 {
        boot.next(&mut console, 0);
        assert_eq!(text_of(&console, 23), "Initializing RTC...");
    }
    boot.next(&mut console, 0);
    assert_eq!(text_of(&console, 23), "Initializing RTC....");
    boot.next(&mut console, 0);
    boot.next(&mut console, 0);
    assert_eq!(text_of(&console, 23), "Initializing RTC....");
    assert_eq!(text_of(&console, 24), "");
    assert!(!boot.is_finished());
    assert_eq!(boot.next(&mut console, 0), BootAction::Finished);
    assert!(boot.is_finished());
    assert_eq!(text_of(&console, 22), "Initializing RTC....done.");
}

#[test]
fn a_finished_sequence_does_nothing() {
    let mut console = painted_console();
    let mut boot = Boot::new();
    for _ in 0..BOOT_STEPS {
        boot.next(&mut console, 0);
    }
    assert!(boot.is_finished());
    console.set_window(BODY);
    let before = every_cell(&console);
    for _ in 0..3 {
        assert_eq!(boot.next(&mut console, 0x55), BootAction::Finished);
    }
    assert_eq!(every_cell(&console), before);
    assert_eq!(console.current_window(), 1);
    assert!(boot.is_finished());
}
