use deet::bits::{align_addr_to_word, extract_byte, patch_byte_in_word, TRAP_BYTE};
use deet::inferior::{classify_wait, Status};
use deet::trace::WaitEvent;
use deet::command::{parse_break_location, parse_command, BreakLocation, Command};
use deet::errors::DebugError;
use deet::parse::{parse_address, parse_line_number};
use deet::session::{describe_stop, Debugger, StopDescription};

fn toks(words: &[&str]) -> Vec<String> {
    words.iter().map(|w| w.to_string()).collect()
}

#[test]
fn align_rounds_down_to_word() {
    assert_eq!(align_addr_to_word(0x100f), 0x1008);
    assert_eq!(align_addr_to_word(0x1008), 0x1008);
    assert_eq!(align_addr_to_word(7), 0);
    assert_eq!(align_addr_to_word(0), 0);
}

#[test]
fn byte_extraction_and_patching() {
    let w: u64 = 0x1122334455667788;
    assert_eq!(extract_byte(w, 0), 0x88);
    assert_eq!(extract_byte(w, 3), 0x55);
    assert_eq!(extract_byte(w, 7), 0x11);
    assert_eq!(patch_byte_in_word(w, 0, TRAP_BYTE), 0x11223344556677cc);
    assert_eq!(patch_byte_in_word(w, 7, TRAP_BYTE), 0xcc22334455667788);
    assert_eq!(patch_byte_in_word(w, 3, 0x00), 0x1122334400667788);
}

#[test]
fn hex_addresses_parse() {
    assert_eq!(parse_address("0x40105f"), Some(0x40105f));
    assert_eq!(parse_address("40105F"), Some(0x40105f));
    assert_eq!(parse_address("0XdeadBEEF"), Some(0xdeadbeef));
    assert_eq!(parse_address("deadbeef"), Some(0xdeadbeef));
    assert_eq!(parse_address(""), None);
    assert_eq!(parse_address("0x"), None);
    assert_eq!(parse_address("xyz"), None);
    assert_eq!(parse_address("0xffffffffffffffff"), Some(u64::MAX));
    assert_eq!(parse_address("1ffffffffffffffff"), None);
}

#[test]
fn line_numbers_parse() {
    assert_eq!(parse_line_number("10"), Some(10));
    assert_eq!(parse_line_number("0"), Some(0));
    assert_eq!(parse_line_number("10x"), None);
    assert_eq!(parse_line_number(""), None);
    assert_eq!(parse_line_number("184467440737095516159"), None);
}

#[test]
fn commands_parse() {
    match parse_command(&toks(&["run", "a", "b"])) {
        Some(Command::Run(args)) => assert_eq!(args, toks(&["a", "b"])),
        _ => panic!("run did not parse"),
    }
    assert!(matches!(parse_command(&toks(&["continue"])), Some(Command::Cont)));
    assert!(matches!(parse_command(&toks(&["c"])), Some(Command::Cont)));
    assert!(matches!(parse_command(&toks(&["backtrace"])), Some(Command::Backtrace)));
    assert!(matches!(parse_command(&toks(&["bt"])), Some(Command::Backtrace)));
    match parse_command(&toks(&["breakpoint", "foo"])) {
        Some(Command::Breakpoint(loc)) => assert_eq!(loc, "foo"),
        _ => panic!("breakpoint did not parse"),
    }
    assert!(matches!(parse_command(&toks(&["b", "*0x1"])), Some(Command::Breakpoint(_))));
    assert!(matches!(parse_command(&toks(&["break", "10"])), Some(Command::Breakpoint(_))));
    assert!(matches!(parse_command(&toks(&["quit"])), Some(Command::Quit)));
    assert!(matches!(parse_command(&toks(&["q"])), Some(Command::Quit)));
    assert!(parse_command(&toks(&[])).is_none());
    assert!(parse_command(&toks(&["wibble"])).is_none());
    assert!(parse_command(&toks(&["continue", "extra"])).is_none());
    assert!(parse_command(&toks(&["breakpoint"])).is_none());
    assert!(parse_command(&toks(&["breakpoint", "a", "b"])).is_none());
}

#[test]
fn break_locations_parse() {
    assert!(matches!(parse_break_location("*0xdeadbeef"), BreakLocation::Address(0xdeadbeef)));
    assert!(matches!(parse_break_location("*401020"), BreakLocation::Address(0x401020)));
    assert!(matches!(parse_break_location("*zz"), BreakLocation::InvalidAddress));
    assert!(matches!(parse_break_location("*"), BreakLocation::InvalidAddress));
    assert!(matches!(parse_break_location("10"), BreakLocation::Line(10)));
    match parse_break_location("foo") {
        BreakLocation::Function(f) => assert_eq!(f, "foo"),
        _ => panic!("function name did not parse"),
    }
}

#[test]
fn duplicate_breakpoint_keeps_one_entry_and_ordinal() {
    let mut session = Debugger::new();
    assert_eq!(session.add_breakpoint(0x1000), Ok(1));
    assert_eq!(session.add_breakpoint(0x2000), Ok(2));
    assert_eq!(session.add_breakpoint(0x1000), Ok(1));
    assert_eq!(session.breakpoints().len(), 2);
    assert_eq!(session.breakpoints().addr_at(0), 0x1000);
    assert_eq!(session.breakpoints().addr_at(1), 0x2000);
}

#[test]
fn deferred_breakpoints_await_next_run() {
    // Before any run the breakpoint is recorded by address only: no trap is
    // installed, so no original byte is saved yet.
    let mut session = Debugger::new();
    assert_eq!(session.add_breakpoint(0xdeadbeef), Ok(1));
    assert_eq!(session.breakpoints().lookup(0xdeadbeef), Some(None));
    assert_eq!(session.breakpoints().orig_at(0), None);
    assert_eq!(session.breakpoints().lookup(0x1234), None);
}

#[test]
fn continue_without_run_reports_no_active_process() {
    let mut session = Debugger::new();
    assert_eq!(session.continue_(), Err(DebugError::NoActiveProcess));
    // The session stays ready: commands still work afterwards.
    assert_eq!(session.add_breakpoint(0x1000), Ok(1));
    assert_eq!(session.continue_(), Err(DebugError::NoActiveProcess));
}

#[test]
fn backtrace_without_run_reports_no_active_process() {
    let session = Debugger::new();
    assert!(matches!(session.backtrace(), Err(DebugError::NoActiveProcess)));
}

#[test]
fn quit_leaves_no_process_behind() {
    let mut session = Debugger::new();
    session.add_breakpoint(0x1000).unwrap();
    session.quit();
    assert!(!session.has_live_process());
    assert_eq!(session.continue_(), Err(DebugError::NoActiveProcess));
}

#[test]
fn run_on_unlaunchable_target_fails_cleanly() {
    // The driver could not really spawn this process identifier; attaching
    // to it fails with a tracing error and leaves the session empty but
    // usable.
    let mut session = Debugger::new();
    session.prepare_run();
    let r = session.attach_run(999_999_99);
    assert!(matches!(r, Err(DebugError::TraceError(_))));
    assert!(!session.has_live_process());
    assert_eq!(session.continue_(), Err(DebugError::NoActiveProcess));
}

#[test]
fn stops_describe_symbols_when_both_resolve() {
    match describe_stop(0x401020, 5, Some("foo".to_string()), Some(10)) {
        StopDescription::AtSymbol { signal, func, line } => {
            assert_eq!(signal, 5);
            assert_eq!(func, "foo");
            assert_eq!(line, 10);
        },
        _ => panic!("expected a symbolic stop report"),
    }
    match describe_stop(0x401020, 5, Some("foo".to_string()), None) {
        StopDescription::Raw { signal, addr } => {
            assert_eq!(signal, 5);
            assert_eq!(addr, 0x401020);
        },
        _ => panic!("expected a raw stop report"),
    }
    match describe_stop(0x401020, 11, None, Some(10)) {
        StopDescription::Raw { signal, addr } => {
            assert_eq!(signal, 11);
            assert_eq!(addr, 0x401020);
        },
        _ => panic!("expected a raw stop report"),
    }
}

#[test]
fn breakpoints_persist_across_runs() {
    // Breakpoints recorded before any run stay in the table through run
    // preparation and teardown, so each new run installs all of them.
    let mut session = Debugger::new();
    assert_eq!(session.add_breakpoint(0x1000), Ok(1));
    assert_eq!(session.add_breakpoint(0x2000), Ok(2));
    session.prepare_run();
    assert_eq!(session.breakpoints().len(), 2);
    assert_eq!(session.breakpoints().addr_at(0), 0x1000);
    assert_eq!(session.breakpoints().addr_at(1), 0x2000);
    session.quit();
    assert_eq!(session.breakpoints().len(), 2);
}

#[test]
fn function_breakpoint_scenario() {
    // `breakpoint foo` parses as a function name; once the symbol provider
    // resolves it to foo's entry address the session records it, and a stop
    // there that resolves to foo at line 10 is reported symbolically.
    let mut session = Debugger::new();
    let foo_entry: u64 = 0x401136;
    match parse_break_location("foo") {
        BreakLocation::Function(name) => assert_eq!(name, "foo"),
        _ => panic!("expected a function-name location"),
    }
    assert_eq!(session.add_breakpoint(foo_entry), Ok(1));
    assert_eq!(session.breakpoints().lookup(foo_entry), Some(None));
    match describe_stop(foo_entry, 5, Some("foo".to_string()), Some(10)) {
        StopDescription::AtSymbol { func, line, .. } => {
            assert_eq!(func, "foo");
            assert_eq!(line, 10);
        },
        _ => panic!("expected a symbolic stop report"),
    }
}

#[test]
fn wait_events_classify_exactly() {
    // The status handed to the operator carries exactly what the OS wait
    // reported: the exit code, the signal number, or the stopped signal with
    // the instruction pointer read at that moment; an unmodeled wait
    // category is the fatal error, never a made-up status.
    assert_eq!(classify_wait(WaitEvent::Exited(3), 0), Ok(Status::Exited(3)));
    assert_eq!(classify_wait(WaitEvent::Exited(0), 7), Ok(Status::Exited(0)));
    assert_eq!(classify_wait(WaitEvent::Signaled(9), 0), Ok(Status::Signaled(9)));
    assert_eq!(classify_wait(WaitEvent::Stopped(5), 0x401020), Ok(Status::Stopped(5, 0x401020)));
    assert_eq!(classify_wait(WaitEvent::Other, 0), Err(DebugError::UnexpectedWaitStatus));
}
