use microtile_app::device::cli::command::Command;
use microtile_app::device::cli::downlink::{CommandParser, IN_BUFFER_SIZE};
use microtile_app::device::cli::receiver::{execute, version_text, DriverError, HELP_TEXT};
use microtile_app::device::cli::uplink::MESSAGE_LENGTH;

#[test]
fn command_parse_keywords() {
    assert_eq!(Command::parse(b"ver").ok(), Some(Command::Version));
    assert_eq!(Command::parse(b"help").ok(), Some(Command::Help));
    assert!(Command::parse(b"version").is_err());
    assert!(Command::parse(b"").is_err());
    assert!(Command::parse(b"hel").is_err());
}

#[test]
fn downlink_ver_yields_one_version() {
    let mut parser = CommandParser::new();
    assert_eq!(parser.feed_all(b"ver;"), vec![Command::Version]);
}

#[test]
fn downlink_unknown_then_help() {
    let mut parser = CommandParser::new();
    let mut out = Vec::new();
    for &b in b"xyz;" {
        if let Some(c) = parser.feed(b) {
            out.push(c);
        }
    }
    assert!(out.is_empty());
    for &b in b"help;" {
        if let Some(c) = parser.feed(b) {
            out.push(c);
        }
    }
    assert_eq!(out, vec![Command::Help]);
}

#[test]
fn downlink_overflow_discards_and_recovers() {
    let mut parser = CommandParser::new();
    let filler = vec![b'a'; IN_BUFFER_SIZE];
    assert!(parser.feed_all(&filler).is_empty());
    assert_eq!(parser.feed_all(b"ver;"), vec![Command::Version]);
}

#[test]
fn downlink_overflow_keeps_only_recent_bytes() {
    let mut parser = CommandParser::new();
    assert!(parser.feed_all(b"abcdefghi").is_empty());
    assert!(parser.feed_all(b"help;").is_empty());
    assert_eq!(parser.feed_all(b"help;"), vec![Command::Help]);
}

#[test]
fn downlink_empty_command_is_dropped() {
    let mut parser = CommandParser::new();
    assert!(parser.feed_all(b";;").is_empty());
    assert_eq!(parser.feed_all(b"help;ver;"), vec![Command::Help, Command::Version]);
}

#[test]
fn version_text_is_formatted() {
    let text = version_text("v1.2-3-gabc").ok().unwrap();
    assert_eq!(text.as_str(), "\r\nThis microtile build is based on 'v1.2-3-gabc'.\r\n");
}

#[test]
fn version_text_too_long_is_encoding_error() {
    let describe = "x".repeat(100);
    assert_eq!(version_text(&describe).err(), Some(DriverError::Encoding));
    let fits = "x".repeat(128 - 36 - 4);
    assert!(version_text(&fits).is_ok());
    let over = "x".repeat(128 - 36 - 4 + 1);
    assert_eq!(version_text(&over).err(), Some(DriverError::Encoding));
}

#[test]
fn help_response_is_chunked_in_order() {
    let chunks = execute(Command::Help, "any").ok().unwrap();
    assert!(chunks.len() > 1);
    let mut joined = String::new();
    for c in &chunks {
        assert!(c.len() <= MESSAGE_LENGTH);
        joined.push_str(c.as_str());
    }
    assert_eq!(joined, HELP_TEXT);
    assert_eq!(chunks[0].as_str(), &HELP_TEXT[..MESSAGE_LENGTH]);
}

#[test]
fn version_response_chunks() {
    let chunks = execute(Command::Version, "v0.1.0").ok().unwrap();
    let joined: String = chunks.iter().map(|c| c.as_str()).collect();
    assert_eq!(joined, "\r\nThis microtile build is based on 'v0.1.0'.\r\n");
    assert_eq!(chunks.len(), 2);
    assert_eq!(chunks[0].len(), 32);
}

#[test]
fn version_response_too_long_fails() {
    let describe = "d".repeat(200);
    assert_eq!(execute(Command::Version, &describe).err(), Some(DriverError::Encoding));
}

#[test]
fn command_try_from_bytes() {
    assert_eq!(Command::try_from(&b"help"[..]).ok(), Some(Command::Help));
    assert_eq!(Command::try_from(&b"ver"[..]).ok(), Some(Command::Version));
    assert!(Command::try_from(&b"xyz"[..]).is_err());
}

#[test]
fn downlink_full_buffer_then_delimiter_yields_nothing() {
    let mut parser = CommandParser::new();
    assert!(parser.feed_all(b"helphelp;").is_empty());
    assert_eq!(parser.feed_all(b"ver;"), vec![Command::Version]);
}
