use niri_zoom::command::{
    parse_argument, parse_request, parse_text, parse_word, request_line, Command, REQUEST_LIMIT,
};
use niri_zoom::socket_path;

const COMMANDS: [Command; 3] = [Command::In, Command::Out, Command::Reset];

#[test]
fn socket_path_uses_xdg_runtime_dir() {
    let dir = "/run/user/1000";
    assert_eq!(
        socket_path(Some(dir.to_string())),
        format!("{dir}/niri-zoomd.sock")
    );
}

#[test]
fn socket_path_falls_back_to_tmp() {
    assert_eq!(socket_path(None), "/tmp/niri-zoomd.sock");
}

#[test]
fn socket_path_joins_as_paths_do() {
    for dir in ["", "/", "/run/user/1000", "/run/user/1000/", "relative", "/\u{e9}t\u{e9}", "a//"] {
        let joined = std::path::PathBuf::from(dir).join("niri-zoomd.sock");
        assert_eq!(socket_path(Some(dir.to_string())), joined.to_string_lossy());
    }
}

#[test]
fn words_have_to_match_exactly() {
    assert_eq!(parse_word("in"), Some(Command::In));
    assert_eq!(parse_word("out"), Some(Command::Out));
    assert_eq!(parse_word("reset"), Some(Command::Reset));
    for word in ["", "In", "in ", " in", "in\n", "inn", "res", "zoom"] {
        assert_eq!(parse_word(word), None);
    }
    for command in COMMANDS {
        assert_eq!(parse_word(command.word()), Some(command));
    }
}

#[test]
fn arguments_are_words() {
    assert_eq!(parse_argument(Some("in")), Some(Command::In));
    assert_eq!(parse_argument(Some("out")), Some(Command::Out));
    assert_eq!(parse_argument(Some("reset")), Some(Command::Reset));
    assert_eq!(parse_argument(Some("in\n")), None);
    assert_eq!(parse_argument(Some("help")), None);
    assert_eq!(parse_argument(None), None);
}

#[test]
fn requests_are_lines() {
    assert_eq!(request_line(Command::In), b"in\n");
    assert_eq!(request_line(Command::Out), b"out\n");
    assert_eq!(request_line(Command::Reset), b"reset\n");
}

#[test]
fn requests_are_read_back() {
    for command in COMMANDS {
        let line = request_line(command);
        assert!(line.len() <= REQUEST_LIMIT);
        assert_eq!(parse_request(&line), Ok(command));
    }
}

#[test]
fn white_space_round_a_word_is_ignored() {
    assert_eq!(parse_request(b"  \t reset \r\n"), Ok(Command::Reset));
    assert_eq!(parse_request("\u{2003}out\u{3000}".as_bytes()), Ok(Command::Out));
    assert_eq!(parse_text("\n\nin"), Ok(Command::In));
}

#[test]
fn white_space_is_what_unicode_says() {
    for code in 0..=0x10ffff_u32 {
        if let Some(c) = char::from_u32(code) {
            let text = format!("{c}in{c}");
            assert_eq!(parse_request(text.as_bytes()).is_ok(), c.is_whitespace(), "{code:#x}");
        }
    }
}

#[test]
fn other_requests_come_back_as_text() {
    assert_eq!(parse_request(b"  zoom in \n"), Err("zoom in".to_string()));
    assert_eq!(parse_request(b""), Err(String::new()));
    assert_eq!(parse_request(b" \n"), Err(String::new()));
    assert_eq!(parse_text(" IN "), Err("IN".to_string()));
}

#[test]
fn bytes_that_are_not_utf8_are_no_command() {
    assert_eq!(parse_request(b"in\xff\n"), Err("in\u{fffd}".to_string()));
    assert_eq!(parse_request(b"\xc3"), Err("\u{fffd}".to_string()));
    assert_eq!(parse_request(b"o\x80ut"), Err("o\u{fffd}ut".to_string()));
}
