use mojrg::command::{parse_command, Command, DEFAULT_PORT};
use mojrg::text::{same_text, trim, words};

#[test]
fn text_is_trimmed_at_both_ends() {
    assert_eq!(trim("  a b \t\r\n"), "a b");
    assert_eq!(trim(""), "");
    assert_eq!(trim(" \u{3000}\u{a0} "), "");
    assert_eq!(trim("\u{2003}ß\u{85}"), "ß");
    for c in (0..=0x10ffffu32).filter_map(char::from_u32).filter(|c| c.is_whitespace()) {
        assert_eq!(trim(&format!("{c}x{c}")), "x");
    }
    assert_eq!(trim("\u{200b}x"), "\u{200b}x");
}

#[test]
fn a_line_falls_into_words() {
    assert_eq!(words("  chat   42\n"), vec!["chat", "42"]);
    assert_eq!(words(""), Vec::<String>::new());
    assert_eq!(words("\t\n"), Vec::<String>::new());
    assert_eq!(words("один два\u{2028}три"), vec!["один", "два", "три"]);
    assert!(same_text("ab", "ab"));
    assert!(!same_text("ab", "abc"));
}

#[test]
fn an_empty_line_is_no_command() {
    assert!(parse_command("").is_none());
    assert!(parse_command("  \n").is_none());
}

#[test]
fn commands_are_read() {
    assert!(matches!(parse_command("help"), Some(Command::Help)));
    assert!(matches!(parse_command(" quit \n"), Some(Command::Quit)));
    assert!(matches!(parse_command("quit now"), Some(Command::Quit)));
    assert!(matches!(parse_command("listen 8080"), Some(Command::Listen { port: 8080 })));
    assert!(matches!(parse_command("listen +80"), Some(Command::Listen { port: 80 })));
    assert!(matches!(parse_command("chat 12 34"), Some(Command::Chat { target: 12 })));
    match parse_command("connect 10.0.0.1:7331") {
        Some(Command::Connect { addr }) => assert_eq!(addr, "10.0.0.1:7331"),
        other => panic!("{other:?}"),
    }
}

#[test]
fn a_bad_port_gives_the_default() {
    assert_eq!(DEFAULT_PORT, 7331);
    for line in ["listen", "listen x", "listen 65536", "listen -1", "listen 99999999999999999999"] {
        assert!(matches!(parse_command(line), Some(Command::Listen { port: 7331 })));
    }
    assert!(matches!(parse_command("listen 65535"), Some(Command::Listen { port: 65535 })));
}

#[test]
fn a_missing_argument_is_pointed_out() {
    assert!(matches!(parse_command("chat"), Some(Command::ChatUsage)));
    assert!(matches!(parse_command("chat bob"), Some(Command::ChatUsage)));
    assert!(matches!(
        parse_command("chat 340282366920938463463374607431768211456"),
        Some(Command::ChatUsage)
    ));
    assert!(matches!(
        parse_command("chat 340282366920938463463374607431768211455"),
        Some(Command::Chat { target: u128::MAX })
    ));
    assert!(matches!(parse_command("connect"), Some(Command::ConnectUsage)));
}

#[test]
fn an_unknown_command_is_named() {
    match parse_command("Help me") {
        Some(Command::Unknown { name }) => assert_eq!(name, "Help"),
        other => panic!("{other:?}"),
    }
}
