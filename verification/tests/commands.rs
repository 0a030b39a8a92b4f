use bot_runner::bot_handler::variant_of;
use bot_runner::commands::{BotCommand, CommandError};
use bot_runner::text::{index_text, parse_index, split_words};

#[test]
fn test_botcommand_from_str_simple() {
    let cmdstr = "/start";

    let bc = BotCommand::from_str(cmdstr).unwrap();
    assert_eq!(bc.command(), "start");
    assert_eq!(bc.args(), None);
}

#[test]
fn test_botcommand_from_str_with_args() {
    let cmdstr = "/some_long_cmd arg1 arg2";

    let bc = BotCommand::from_str(cmdstr).unwrap();
    assert_eq!(bc.command(), "some_long_cmd");
    assert_eq!(bc.args(), Some("arg1 arg2"));
}

#[test]
fn test_botcommand_arg_list() {
    let cmdstr = "/some_long_cmd arg1 arg2";

    let bc = BotCommand::from_str(cmdstr).unwrap();
    assert_eq!(bc.command(), "some_long_cmd");
    assert_eq!(bc.args(), Some("arg1 arg2"));
    assert_eq!(bc.args_list(), vec!["arg1", "arg2"]);
}

#[test]
fn botcommand_without_slash_is_refused() {
    match BotCommand::from_str("start now") {
        Err(CommandError::ParseError(msg)) => assert_eq!(msg, "Not a command"),
        _ => panic!("a text without a slash was taken as a command"),
    }
    assert!(BotCommand::from_str("").is_err());
    assert!(BotCommand::from_str(" /start").is_err());
}

#[test]
fn botcommand_splits_at_the_first_space_only() {
    let bc = BotCommand::from_str("/a  b c").unwrap();
    assert_eq!(bc.command(), "a");
    assert_eq!(bc.args(), Some(" b c"));
    assert_eq!(bc.args_list(), vec!["b", "c"]);

    let bare = BotCommand::from_str("/").unwrap();
    assert_eq!(bare.command(), "");
    assert_eq!(bare.args(), None);
    assert!(bare.args_list().is_empty());
}

#[test]
fn botcommand_from_validate_checks_the_list() {
    let ok = BotCommand::from_validate("/start ref", &["help", "start"]).unwrap();
    assert_eq!(ok.command(), "start");
    assert_eq!(ok.args(), Some("ref"));

    match BotCommand::from_validate("/stop", &["help", "start"]) {
        Err(CommandError::ValidationError(msg)) => assert_eq!(msg, "invalid command stop"),
        _ => panic!("a command that is not listed was taken"),
    }
    match BotCommand::from_validate("stop", &["stop"]) {
        Err(CommandError::ParseError(msg)) => assert_eq!(msg, "Not a command"),
        _ => panic!("a text without a slash was taken as a command"),
    }
    assert!(BotCommand::from_validate("/start", &[]).is_err());
}

#[test]
fn words_are_split_at_any_white_space() {
    assert_eq!(split_words("  one\ttwo\nthree  "), vec!["one", "two", "three"]);
    assert_eq!(split_words("a\u{a0}b"), vec!["a", "b"]);
    assert!(split_words("").is_empty());
    assert!(split_words(" \t ").is_empty());
    assert_eq!(split_words("single"), vec!["single"]);
}

#[test]
fn variant_is_what_follows_the_command() {
    assert_eq!(variant_of("/start promo"), Some("promo".to_string()));
    assert_eq!(variant_of("/start"), None);
    assert_eq!(variant_of("hello there"), None);
    assert_eq!(variant_of(""), None);
}

#[test]
fn index_text_and_parse_index_round_trip() {
    assert_eq!(index_text(0), "0");
    assert_eq!(index_text(7), "7");
    assert_eq!(index_text(10), "10");
    assert_eq!(index_text(1234567890), "1234567890");
    for n in [0usize, 1, 9, 10, 99, 100, 4096, usize::MAX] {
        assert_eq!(parse_index(&index_text(n)), Some(n));
    }
    assert_eq!(parse_index("007"), Some(7));
    assert_eq!(parse_index(""), None);
    assert_eq!(parse_index("1a"), None);
    assert_eq!(parse_index("-1"), None);
    assert_eq!(parse_index("+1"), Some(1));
    assert_eq!(parse_index("+0"), Some(0));
    assert_eq!(parse_index("+007"), Some(7));
    assert_eq!(parse_index("+"), None);
    assert_eq!(parse_index("-"), None);
    assert_eq!(parse_index("-0"), None);
    assert_eq!(parse_index("++1"), None);
    assert_eq!(parse_index("1+"), None);
    assert_eq!(parse_index(" 1"), None);
    for text in ["0", "+0", "007", "+12", "", "+", "-0", "++1", "1a", "٣", "18446744073709551616"] {
        assert_eq!(parse_index(text), text.parse::<usize>().ok());
    }
    assert_eq!(parse_index("99999999999999999999999999"), None);
}

#[test]
fn botcommand_parses_through_the_standard_trait() {
    let bc: BotCommand = "/start one two".parse().unwrap();
    assert_eq!(bc.command(), "start");
    assert_eq!(bc.args(), Some("one two"));

    let bare = "/help".parse::<BotCommand>().unwrap();
    assert_eq!(bare.command(), "help");
    assert_eq!(bare.args(), None);

    let refused = "start".parse::<BotCommand>();
    assert!(matches!(refused, Err(CommandError::ParseError(msg)) if msg == "Not a command"));
}

#[test]
fn white_space_is_the_unicode_property() {
    let white: Vec<u32> = (0x0009..=0x000D)
        .chain([0x0020, 0x0085, 0x00A0, 0x1680])
        .chain(0x2000..=0x200A)
        .chain([0x2028, 0x2029, 0x202F, 0x205F, 0x3000])
        .collect();
    assert_eq!(white.len(), 25);
    for code in 0u32..0x4000 {
        let c = match char::from_u32(code) {
            Some(c) => c,
            None => continue,
        };
        let text = format!("a{c}b");
        let words = split_words(&text);
        if white.contains(&code) {
            assert_eq!(words, vec!["a", "b"], "U+{code:04X} parts words");
        } else {
            assert_eq!(words, vec![text.as_str()], "U+{code:04X} parts no words");
        }
    }
    // the zero width space and the Mongolian vowel separator are no white space
    assert_eq!(split_words("a\u{200B}b\u{180E}c"), vec!["a\u{200B}b\u{180E}c"]);
}
