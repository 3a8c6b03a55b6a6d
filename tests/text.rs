use rat::format::{render_log, terminal_format, Color, TerminalFormatting};
use rat::hex::encode_hash;
use rat::meta::{parse_metadata, render_metadata};
use rat::nest::LogEntry;
use rat::refs::Head;

#[test]
fn encode_hash_writes_two_lowercase_digits_per_byte() {
    assert_eq!(encode_hash(&[0x00, 0x0f, 0xab, 0xff, 0x10]), "000fabff10");
    assert_eq!(encode_hash(&[]), "");
}

#[test]
fn terminal_format_wraps_text_in_escapes() {
    let f = TerminalFormatting { color: Some(Color::Yellow), bold: true };
    assert_eq!(terminal_format("hi", f), "\u{1b}[33m\u{1b}[1mhi\u{1b}[0m");
    let f = TerminalFormatting { color: Some(Color::Red), bold: false };
    assert_eq!(terminal_format("x", f), "\u{1b}[31mx\u{1b}[0m");
    let f = TerminalFormatting { color: Some(Color::Green), bold: false };
    assert_eq!(terminal_format("", f), "\u{1b}[32m\u{1b}[0m");
    assert_eq!(terminal_format("x", TerminalFormatting::default()), "x\u{1b}[0m");
}

#[test]
fn head_text_is_parsed_by_its_marker() {
    assert_eq!(Head::parse("ref: refs/heads/main"), Head::Symbolic("main".to_string()));
    assert_eq!(Head::parse("abc123"), Head::Direct("abc123".to_string()));
    assert_eq!(Head::parse("ref: other"), Head::Direct("ref: other".to_string()));
    assert_eq!(Head::Symbolic("dev".to_string()).to_text(), "ref: refs/heads/dev");
    assert_eq!(Head::Direct("abc".to_string()).to_text(), "abc");
    assert_eq!(Head::initial(), Head::Symbolic("main".to_string()));
}

#[test]
fn metadata_round_trips() {
    let m = render_metadata("abc", "line one\n\nline two");
    assert_eq!(m, "parent abc\n\nline one\n\nline two");
    assert_eq!(
        parse_metadata(&m),
        Some(("abc".to_string(), "line one\n\nline two".to_string()))
    );
    assert_eq!(parse_metadata("parent \n\nfirst"), Some((String::new(), "first".to_string())));
    assert_eq!(parse_metadata("parent abc\nfirst"), None);
    assert_eq!(parse_metadata("author x\n\nm"), None);
    assert_eq!(parse_metadata("parent abc"), None);
}

#[test]
fn log_is_rendered_with_headers_branches_and_indented_messages() {
    let entries = vec![
        LogEntry {
            hash: "h2".to_string(),
            message: "second\nmore".to_string(),
            branches: vec!["main".to_string(), "dev".to_string()],
        },
        LogEntry { hash: "h1".to_string(), message: "first".to_string(), branches: vec![] },
    ];
    let y = "\u{1b}[33m";
    let g = "\u{1b}[32m";
    let b = "\u{1b}[1m";
    let r = "\u{1b}[0m";
    let expected = format!(
        "{y}{b}commit h2{r}{y} ({r}{g}{b}main{r}, {g}{b}dev{r}{y}){r}\n    second\n    more\n\n{y}{b}commit h1{r}\n    first"
    );
    assert_eq!(render_log(&entries), expected);
    assert_eq!(render_log(&vec![]), "");
}
