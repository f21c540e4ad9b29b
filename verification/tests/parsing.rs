//! Command splitting and control-code parsing.

use expectrl::cmd::split_command;
use expectrl::control::control_code_of;
use expectrl::control::ControlCode;
use expectrl::error::Error;

#[test]
fn split_plain_words() {
    let argv = split_command("echo Hello World").unwrap();
    assert_eq!(argv, vec!["echo", "Hello", "World"]);
}

#[test]
fn split_keeps_single_quoted_runs_together() {
    let argv = split_command("echo 'Hello World'").unwrap();
    assert_eq!(argv, vec!["echo", "'Hello World'"]);
}

#[test]
fn split_keeps_double_quoted_runs_together() {
    let argv = split_command("sh -c \"sleep 3\"").unwrap();
    assert_eq!(argv, vec!["sh", "-c", "\"sleep 3\""]);
}

#[test]
fn split_collapses_repeated_blanks() {
    let argv = split_command("  cat \t -  ").unwrap();
    assert_eq!(argv, vec!["cat", "-"]);
}

#[test]
fn split_empty_command_is_refused() {
    assert_eq!(split_command(""), Err(Error::CommandParse));
    assert_eq!(split_command("   "), Err(Error::CommandParse));
}

#[test]
fn split_unbalanced_quote_is_refused() {
    assert_eq!(split_command("echo 'Hello"), Err(Error::CommandParse));
    assert_eq!(split_command("echo \"Hello"), Err(Error::CommandParse));
}

#[test]
fn control_from_char_takes_both_cases() {
    assert_eq!(ControlCode::from_char('C'), Some(ControlCode::EndOfText));
    assert_eq!(ControlCode::from_char('c'), Some(ControlCode::EndOfText));
    assert_eq!(ControlCode::from_char('['), Some(ControlCode::Escape));
    assert_eq!(ControlCode::from_char('?'), Some(ControlCode::Delete));
    assert_eq!(ControlCode::from_char('0'), None);
}

#[test]
fn control_from_str_takes_caret_and_names() {
    assert_eq!(
        ControlCode::from_str_code("^C"),
        Some(ControlCode::EndOfText)
    );
    assert_eq!(ControlCode::from_str_code("C"), Some(ControlCode::EndOfText));
    assert_eq!(
        ControlCode::from_str_code("EndOfText"),
        Some(ControlCode::EndOfText)
    );
    assert_eq!(
        ControlCode::from_str_code("CarriageReturn"),
        Some(ControlCode::CarriageReturn)
    );
    assert_eq!(ControlCode::from_str_code("^!"), None);
    assert_eq!(ControlCode::from_str_code("NoSuchCode"), None);
    assert_eq!(ControlCode::from_str_code(""), None);
}

#[test]
fn control_bytes_cover_the_caret_set() {
    assert_eq!(ControlCode::Null.byte(), 0x00);
    assert_eq!(ControlCode::EndOfText.byte(), 0x03);
    assert_eq!(ControlCode::EndOfTransmission.byte(), 0x04);
    assert_eq!(ControlCode::Backspace.byte(), 0x08);
    assert_eq!(ControlCode::CarriageReturn.byte(), 0x0D);
    assert_eq!(ControlCode::Escape.byte(), 0x1B);
    assert_eq!(ControlCode::GroupSeparator.byte(), 0x1D);
    assert_eq!(ControlCode::UnitSeparator.byte(), 0x1F);
    assert_eq!(ControlCode::Delete.byte(), 0x7F);
}

#[test]
fn control_code_of_maps_bad_input_to_parse_control() {
    assert_eq!(control_code_of("^C"), Ok(ControlCode::EndOfText));
    assert_eq!(control_code_of("garbage"), Err(Error::ParseControl));
}

#[test]
fn error_kind_names() {
    assert_eq!(Error::ExpectTimeout.kind_name(), "expect timeout");
    assert_eq!(Error::Eof.kind_name(), "eof");
    assert_eq!(Error::ParseControl.kind_name(), "parse control");
    assert_eq!(Error::RegexCompile.kind_name(), "regex compile");
    assert_eq!(Error::WindowSize.kind_name(), "window size");
    assert_eq!(Error::CommandParse.kind_name(), "command parse");
    assert_eq!(Error::Io("gone".to_string()).kind_name(), "io");
}
