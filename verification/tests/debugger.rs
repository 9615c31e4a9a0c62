use balancebeam::debugger::{
    align_addr_to_word, parse_address, parse_breakpoint, parse_number, patch_word, plan,
    still_running, BreakTarget, Breakpoints, Command, Plan, SavedBytes, Status, TRAP_INSTRUCTION,
    WORD_BYTES,
};

#[test]
fn addresses_align_down_to_a_word() {
    assert_eq!(WORD_BYTES, 8);
    assert_eq!(align_addr_to_word(0), 0);
    assert_eq!(align_addr_to_word(7), 0);
    assert_eq!(align_addr_to_word(8), 8);
    assert_eq!(align_addr_to_word(0x401237), 0x401230);
    assert_eq!(align_addr_to_word(usize::MAX), usize::MAX - 7);
}

#[test]
fn one_byte_of_a_word_is_swapped() {
    let word: u64 = 0x8877_6655_4433_2211;
    assert_eq!(patch_word(word, 0x1000, 0xcc), (0x11, 0x8877_6655_4433_22cc));
    assert_eq!(patch_word(word, 0x1001, 0xcc), (0x22, 0x8877_6655_4433_cc11));
    assert_eq!(patch_word(word, 0x1007, 0xcc), (0x88, 0xcc77_6655_4433_2211));
    assert_eq!(patch_word(word, 0x1003, 0x00), (0x44, 0x8877_6655_0033_2211));
    assert_eq!(TRAP_INSTRUCTION, 0xcc);
}

#[test]
fn swapping_back_restores_the_word() {
    let word: u64 = 0x0123_4567_89ab_cdef;
    for addr in 0x2000..0x2008usize {
        let (orig, trapped) = patch_word(word, addr, TRAP_INSTRUCTION);
        assert_eq!(patch_word(trapped, addr, orig), (TRAP_INSTRUCTION, word));
    }
}

#[test]
fn addresses_in_hexadecimal() {
    assert_eq!(parse_address(b"0x401136"), Some(0x401136));
    assert_eq!(parse_address(b"0X10"), Some(16));
    assert_eq!(parse_address(b"ff"), Some(255));
    assert_eq!(parse_address(b"0xFF"), Some(255));
    assert_eq!(parse_address(b"0x+a"), Some(10));
    assert_eq!(parse_address(b"+a"), Some(10));
    assert_eq!(parse_address(b""), None);
    assert_eq!(parse_address(b"0x"), None);
    assert_eq!(parse_address(b"0x+"), None);
    assert_eq!(parse_address(b"main"), None);
    assert_eq!(parse_address(b"0x0x1"), None);
    assert_eq!(parse_address(b"-1"), None);
    assert_eq!(parse_address(b"0"), Some(0));
    let over = format!("0x1{:x}", usize::MAX);
    assert_eq!(parse_address(over.as_bytes()), None);
}

#[test]
fn numbers_with_an_optional_plus() {
    assert_eq!(parse_number(b"15", 10), Some(15));
    assert_eq!(parse_number(b"+15", 10), Some(15));
    assert_eq!(parse_number(b"++15", 10), None);
    assert_eq!(parse_number(b"+", 10), None);
    assert_eq!(parse_number(b"", 10), None);
    assert_eq!(parse_number(b"1f", 10), None);
}

#[test]
fn breakpoint_targets() {
    assert_eq!(parse_breakpoint(b"*0x401136"), BreakTarget::Address(0x401136));
    assert_eq!(parse_breakpoint(b"*401136"), BreakTarget::Address(0x401136));
    assert_eq!(parse_breakpoint(b"*main"), BreakTarget::InvalidAddress);
    assert_eq!(parse_breakpoint(b"*"), BreakTarget::InvalidAddress);
    assert_eq!(parse_breakpoint(b"15"), BreakTarget::Line(15));
    assert_eq!(parse_breakpoint(b"+15"), BreakTarget::Line(15));
    assert_eq!(parse_breakpoint(b"main"), BreakTarget::Function);
    assert_eq!(parse_breakpoint(b"0x10"), BreakTarget::Function);
    assert_eq!(parse_breakpoint(b""), BreakTarget::Function);
}

#[test]
fn commands_and_what_they_lead_to() {
    assert_eq!(plan(Command::Run, false), Plan::Start);
    assert_eq!(plan(Command::Run, true), Plan::KillAndStart);
    assert_eq!(plan(Command::Continue, true), Plan::Resume);
    assert_eq!(plan(Command::Continue, false), Plan::ReportNotRunning);
    assert_eq!(plan(Command::Quit, true), Plan::KillAndExit);
    assert_eq!(plan(Command::Quit, false), Plan::Exit);
    assert_eq!(plan(Command::Backtrace, true), Plan::ShowBacktrace);
    assert_eq!(plan(Command::Backtrace, false), Plan::ReportNotRunning);
    assert_eq!(plan(Command::Break, true), Plan::SetBreakpoint);
    assert_eq!(plan(Command::Break, false), Plan::SetBreakpoint);
}

#[test]
fn only_a_stopped_program_is_still_there() {
    assert!(still_running(Status::Stopped(0x401136)));
    assert!(!still_running(Status::Exited(0)));
    assert!(!still_running(Status::Exited(1)));
    assert!(!still_running(Status::Signaled));
}

#[test]
fn breakpoints_are_numbered_in_order() {
    let mut breakpoints = Breakpoints::new();
    assert_eq!(breakpoints.add(0x401136), 0);
    assert_eq!(breakpoints.add(0x401200), 1);
    assert_eq!(breakpoints.add(0x401136), 2);
    assert_eq!(breakpoints.addresses(), &vec![0x401136, 0x401200, 0x401136]);
}

#[test]
fn saved_byte_is_found_one_behind_the_instruction_pointer() {
    let mut saved = SavedBytes::new();
    saved.record(0x401136, 0x55);
    saved.record(0, 0x90);
    assert_eq!(saved.behind(0x401137), Some((0x401136, 0x55)));
    assert_eq!(saved.behind(0x401136), None);
    assert_eq!(saved.behind(0x401138), None);
    assert_eq!(saved.behind(1), Some((0, 0x90)));
    assert_eq!(saved.behind(0), None);
    saved.record(0x401136, 0xcc);
    assert_eq!(saved.behind(0x401137), Some((0x401136, 0xcc)));
}

#[test]
fn words_at_the_prompt() {
    let command = |word: &str| Command::from_keyword(&String::from(word));
    assert_eq!(command("q"), Some(Command::Quit));
    assert_eq!(command("quit"), Some(Command::Quit));
    assert_eq!(command("r"), Some(Command::Run));
    assert_eq!(command("run"), Some(Command::Run));
    assert_eq!(command("c"), Some(Command::Continue));
    assert_eq!(command("cont"), Some(Command::Continue));
    assert_eq!(command("continue"), Some(Command::Continue));
    assert_eq!(command("bt"), Some(Command::Backtrace));
    assert_eq!(command("back"), Some(Command::Backtrace));
    assert_eq!(command("backtrace"), Some(Command::Backtrace));
    assert_eq!(command("b"), Some(Command::Break));
    assert_eq!(command("break"), Some(Command::Break));
    assert_eq!(command(""), None);
    assert_eq!(command("Quit"), None);
    assert_eq!(command("breakpoint"), None);
    assert_eq!(command("x"), None);
}
