use nos3_io::BusKind;
use nos3_io::command::Command;
use nos3_io::command::Target;
use nos3_io::command::parse_line;

#[test]
fn help_is_recognized() {
    assert_eq!(parse_line("help".as_bytes()), Command::Help);
}

#[test]
fn help_ignores_surrounding_whitespace() {
    assert_eq!(parse_line("   help  \n".as_bytes()), Command::Help);
}

#[test]
fn uart_with_name_starts_that_link() {
    assert_eq!(
        parse_line("uart radio".as_bytes()),
        Command::Start(BusKind::Uart, Target::Name("radio".as_bytes().to_vec()))
    );
}

#[test]
fn i2c_with_name_starts_that_link() {
    assert_eq!(
        parse_line("i2c eps".as_bytes()),
        Command::Start(BusKind::I2c, Target::Name("eps".as_bytes().to_vec()))
    );
}

#[test]
fn uart_all_starts_every_uart_link() {
    assert_eq!(parse_line("uart all".as_bytes()), Command::Start(BusKind::Uart, Target::All));
}

#[test]
fn i2c_all_starts_every_i2c_link() {
    assert_eq!(parse_line("i2c all".as_bytes()), Command::Start(BusKind::I2c, Target::All));
}

#[test]
fn bus_verb_without_argument_asks_for_usage() {
    assert_eq!(parse_line("uart".as_bytes()), Command::Usage(BusKind::Uart));
    assert_eq!(parse_line("i2c  \n".as_bytes()), Command::Usage(BusKind::I2c));
}

#[test]
fn tokens_split_on_tabs_and_repeated_spaces() {
    assert_eq!(
        parse_line("\tuart\t\t radio \n".as_bytes()),
        Command::Start(BusKind::Uart, Target::Name("radio".as_bytes().to_vec()))
    );
}

#[test]
fn anything_after_the_argument_is_ignored() {
    assert_eq!(
        parse_line("uart radio trailing words".as_bytes()),
        Command::Start(BusKind::Uart, Target::Name("radio".as_bytes().to_vec()))
    );
}

#[test]
fn empty_line_is_unknown() {
    assert_eq!(parse_line("".as_bytes()), Command::Unknown);
    assert_eq!(parse_line("\n".as_bytes()), Command::Unknown);
    assert_eq!(parse_line("   ".as_bytes()), Command::Unknown);
}

#[test]
fn unrecognized_verb_is_unknown() {
    assert_eq!(parse_line("reboot".as_bytes()), Command::Unknown);
    assert_eq!(parse_line("uartx radio".as_bytes()), Command::Unknown);
    assert_eq!(parse_line("UART radio".as_bytes()), Command::Unknown);
}
