use usb_test::command::{parse_command, CommandAction};

fn chars(s: &str) -> Vec<char> {
    s.chars().collect()
}

#[test]
fn parses_no_argument_commands() {
    assert_eq!(parse_command(&chars("help")), CommandAction::Help);
    assert_eq!(parse_command(&chars("conn")), CommandAction::ConnectAndPrint);
    assert_eq!(parse_command(&chars("regs")), CommandAction::PrintRegs);
    assert_eq!(parse_command(&chars("")), CommandAction::Unknown);
    assert_eq!(parse_command(&chars("bogus")), CommandAction::Unknown);
    // case matters
    assert_eq!(parse_command(&chars("CONN")), CommandAction::Unknown);
}

#[test]
fn parses_conn_with_argument() {
    assert_eq!(parse_command(&chars("conn 1")), CommandAction::Connect(true));
    assert_eq!(parse_command(&chars("conn 0")), CommandAction::Connect(false));
    assert_eq!(parse_command(&chars("conn x")), CommandAction::ConnUsage(chars("x")));
    assert_eq!(parse_command(&chars("conn ")), CommandAction::ConnUsage(chars("")));
    // only the first space splits
    assert_eq!(parse_command(&chars("conn 1 0")), CommandAction::ConnUsage(chars("1 0")));
}

#[test]
fn parses_test_and_unknown_with_arguments() {
    assert_eq!(parse_command(&chars("test foo bar")), CommandAction::TestArg(chars("foo bar")));
    assert_eq!(parse_command(&chars("test ")), CommandAction::TestArg(chars("")));
    assert_eq!(parse_command(&chars("frob 1")), CommandAction::UnknownWithArgs(chars("frob")));
    assert_eq!(parse_command(&chars(" x")), CommandAction::UnknownWithArgs(chars("")));
}
