use imo::command::{parse_command, parse_unsigned, Command, InfoTopic, Location};
use imo::menu::MenuAction;
use imo::session::DebugSession;
use imo::types::CurrentStopCmd;

#[test]
fn empty_line_is_no_command() {
    assert!(matches!(parse_command("   "), Command::Empty));
    assert!(matches!(parse_command(""), Command::Empty));
}

#[test]
fn aliases_name_the_same_command() {
    assert!(matches!(parse_command("run"), Command::Run));
    assert!(matches!(parse_command("c"), Command::Continue));
    assert!(matches!(parse_command("continue"), Command::Continue));
    assert!(matches!(parse_command("si"), Command::StepInstruction));
    assert!(matches!(parse_command("stepi"), Command::StepInstruction));
    assert!(matches!(parse_command("s"), Command::Step));
    assert!(matches!(parse_command("n"), Command::Next));
    assert!(matches!(parse_command("fin"), Command::Finish));
    assert!(matches!(parse_command("bt"), Command::Backtrace));
    assert!(matches!(parse_command("ls"), Command::List));
    assert!(matches!(parse_command("q"), Command::Quit));
    assert!(matches!(parse_command("frobnicate"), Command::Unsupported));
}

#[test]
fn break_reads_its_location() {
    match parse_command("b 6") {
        Command::Break(Some(Location::Word { text, line })) => {
            assert_eq!(text, "6");
            assert_eq!(line, Some(6));
        }
        _ => panic!("break with a line"),
    }
    match parse_command("break main.rs:12") {
        Command::Break(Some(Location::FileLine { file, line_text, line })) => {
            assert_eq!(file, "main.rs");
            assert_eq!(line_text, "12");
            assert_eq!(line, Some(12));
        }
        _ => panic!("break with a file and a line"),
    }
    assert!(matches!(parse_command("b *0x1f"), Command::Break(Some(Location::Address(Some(0x1f))))));
    assert!(matches!(parse_command("b *42"), Command::Break(Some(Location::Address(Some(42))))));
    assert!(matches!(parse_command("b *0xzz"), Command::Break(Some(Location::Address(None)))));
    assert!(matches!(parse_command("break"), Command::Break(None)));
    match parse_command("b my_function") {
        Command::Break(Some(Location::Word { text, line })) => {
            assert_eq!(text, "my_function");
            assert_eq!(line, None);
        }
        _ => panic!("break at a function"),
    }
}

#[test]
fn clear_prefers_file_and_line() {
    match parse_command("clear *a:3") {
        Command::Clear(Some(Location::FileLine { file, line, .. })) => {
            assert_eq!(file, "*a");
            assert_eq!(line, Some(3));
        }
        _ => panic!("clear with a file and a line"),
    }
    match parse_command("clear *0x10") {
        Command::Clear(Some(Location::StarWord { text, address })) => {
            assert_eq!(text, "*0x10");
            assert_eq!(address, Some(0x10));
        }
        _ => panic!("clear at an address"),
    }
}

#[test]
fn index_arguments() {
    match parse_command("d 2") {
        Command::Delete(Some(a)) => assert_eq!(a.value, Some(2)),
        _ => panic!("delete"),
    }
    match parse_command("enable x") {
        Command::Enable(Some(a)) => {
            assert_eq!(a.text, "x");
            assert_eq!(a.value, None);
        }
        _ => panic!("enable"),
    }
    assert!(matches!(parse_command("dis"), Command::Disable(None)));
}

#[test]
fn info_topics() {
    assert!(matches!(parse_command("i b"), Command::Info(Some(InfoTopic::Breakpoints))));
    assert!(matches!(parse_command("info registers"), Command::Info(Some(InfoTopic::Registers))));
    assert!(matches!(parse_command("info locals"), Command::Info(Some(InfoTopic::Locals))));
    assert!(matches!(parse_command("info args"), Command::Info(Some(InfoTopic::Arguments))));
    assert!(matches!(parse_command("info l"), Command::Info(Some(InfoTopic::Locals))));
    assert!(matches!(parse_command("info breakpoint"), Command::Info(Some(InfoTopic::Breakpoints))));
    assert!(matches!(parse_command("info nothing"), Command::Info(Some(InfoTopic::Unsupported))));
    assert!(matches!(parse_command("cont"), Command::Continue));
    assert!(matches!(parse_command("info"), Command::Info(None)));
}

#[test]
fn print_and_help_take_a_word() {
    match parse_command("  p   counter  extra") {
        Command::Print(Some(name)) => assert_eq!(name, "counter"),
        _ => panic!("print"),
    }
    match parse_command("help break") {
        Command::Help(Some(topic)) => assert_eq!(topic, "break"),
        _ => panic!("help"),
    }
    assert!(matches!(parse_command("h"), Command::Help(None)));
}

#[test]
fn numbers_read_as_std_does() {
    assert_eq!(parse_unsigned("42", 10, u64::MAX), Some(42));
    assert_eq!(parse_unsigned("+7", 10, u64::MAX), Some(7));
    assert_eq!(parse_unsigned("+", 10, u64::MAX), None);
    assert_eq!(parse_unsigned("", 10, u64::MAX), None);
    assert_eq!(parse_unsigned("-1", 10, u64::MAX), None);
    assert_eq!(parse_unsigned("ff", 16, u64::MAX), Some(255));
    assert_eq!(parse_unsigned("FF", 16, u64::MAX), Some(255));
    assert_eq!(parse_unsigned("4294967296", 10, u32::MAX as u64), None);
    assert_eq!(parse_unsigned("18446744073709551615", 10, u64::MAX), Some(u64::MAX));
    assert_eq!(parse_unsigned("18446744073709551616", 10, u64::MAX), None);
    for s in ["0", "17", "+3", "x", "9z", "00012"] {
        assert_eq!(parse_unsigned(s, 10, u64::MAX), u64::from_str_radix(s, 10).ok());
    }
}

#[test]
fn the_menu_waits_for_the_session_to_start() {
    let mut s = DebugSession::from_pid(1);
    assert_eq!(s.menu_action(&parse_command("run")), MenuAction::Start);
    assert_eq!(s.menu_action(&parse_command("c")), MenuAction::NotStarted);
    assert_eq!(s.menu_action(&parse_command("n")), MenuAction::NotStarted);
    assert_eq!(s.menu_action(&parse_command("s")), MenuAction::NotStarted);
    assert_eq!(s.menu_action(&parse_command("si")), MenuAction::NotStarted);
    assert_eq!(s.menu_action(&parse_command("fin")), MenuAction::NotStarted);
    assert_eq!(s.menu_action(&parse_command("ls")), MenuAction::NotStarted);
    assert_eq!(s.menu_action(&parse_command("q")), MenuAction::Quit);
    assert_eq!(s.menu_action(&parse_command("b 3")), MenuAction::Handle);
    s.current_cmd = CurrentStopCmd::Running;
    assert_eq!(s.menu_action(&parse_command("run")), MenuAction::AlreadyRunning);
    assert_eq!(s.menu_action(&parse_command("cont")), MenuAction::Continue);
    assert_eq!(s.menu_action(&parse_command("n")), MenuAction::StepOver);
    assert_eq!(s.menu_action(&parse_command("s")), MenuAction::StepInto);
    assert_eq!(s.menu_action(&parse_command("si")), MenuAction::StepInstruction);
    assert_eq!(s.menu_action(&parse_command("fin")), MenuAction::Finish);
    assert_eq!(s.menu_action(&parse_command("ls")), MenuAction::ShowSource);
    assert_eq!(s.menu_action(&parse_command("q")), MenuAction::Quit);
}
