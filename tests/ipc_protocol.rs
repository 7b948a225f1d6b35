use heats::ipc::{parse_context, strip_line_end, DmenuSession, IpcFormat};

fn lines(v: &[&str]) -> Vec<String> {
    v.iter().map(|s| s.to_string()).collect()
}

#[test]
fn text_session_keeps_positions_under_ranking() {
    let s = DmenuSession::from_lines(lines(&["{\"format\":\"text\"}\n", "a\n", "b\n", "c\n"])).unwrap();
    assert_eq!(s.format, IpcFormat::Text);
    assert_eq!(s.raw_lines, vec!["a", "b", "c"]);
    // ranking reorders the items; the selected entry carries its own id
    let ranked: Vec<&heats::source::SourceItem> = vec![&s.items[2], &s.items[1], &s.items[0]];
    let b = ranked.iter().find(|i| i.title == "b").unwrap();
    assert_eq!(s.reply_line(b.id), "b\n");
    assert_eq!(s.reply_line(ranked[0].id), "c\n");
}

#[test]
fn jsonl_skips_malformed_and_remaps() {
    let s = DmenuSession::from_lines(lines(&[
        "{\"format\":\"jsonl\"}\n",
        "{\"title\":\"First\",\"data\":\"F\"}\n",
        "{not json\n",
        "{\"title\":\"Third\",\"data\":\"T\"}\n",
    ]))
    .unwrap();
    assert_eq!(s.format, IpcFormat::Jsonl);
    assert_eq!(s.raw_lines.len(), 3);
    assert_eq!(s.items.len(), 2);
    assert_eq!(s.index_map, vec![0, 2]);
    assert_eq!(s.items[0].id, Some(0));
    assert_eq!(s.items[1].id, Some(1));
    assert_eq!(s.reply_line(Some(0)), "F\n");
    assert_eq!(s.reply_line(Some(1)), "T\n");
}

#[test]
fn jsonl_alpha_beta_scenario() {
    let s = DmenuSession::from_lines(lines(&[
        "{\"format\":\"jsonl\"}\n",
        "{\"title\":\"Alpha\",\"data\":\"A1\"}\n",
        "{\"title\":\"Beta\",\"data\":\"B1\"}\n",
    ]))
    .unwrap();
    let beta = s.items.iter().find(|i| i.title == "Beta").unwrap();
    assert_eq!(s.reply_line(beta.id), "B1\n");
    assert_eq!(beta.exec_path, "B1");
    assert_eq!(beta.source_name, "dmenu");
}

#[test]
fn jsonl_reply_without_data_is_title() {
    let s = DmenuSession::from_lines(lines(&["{\"format\":\"jsonl\"}\n", "{\"title\":\"Only\"}\n"])).unwrap();
    assert_eq!(s.reply_line(Some(0)), "Only\n");
}

#[test]
fn legacy_first_line_is_an_item() {
    let s = DmenuSession::from_lines(lines(&["  first  \n", "second\r\n", "\n", "third"])).unwrap();
    assert_eq!(s.format, IpcFormat::Text);
    assert_eq!(s.raw_lines, vec!["first", "second", "third"]);
    assert_eq!(s.reply_line(Some(1)), "second\n");
}

#[test]
fn unknown_format_is_text() {
    let s = DmenuSession::from_lines(lines(&["{\"format\":\"xml\"}", "x"])).unwrap();
    assert_eq!(s.format, IpcFormat::Text);
    assert_eq!(s.raw_lines, vec!["x"]);
    let padded = DmenuSession::from_lines(lines(&["   {\"format\":\"jsonl\"}  \n", "{\"title\":\"p\"}"])).unwrap();
    assert_eq!(padded.format, IpcFormat::Jsonl);
}

#[test]
fn sessions_without_items_are_ignored() {
    assert!(DmenuSession::from_lines(Vec::new()).is_none());
    assert!(DmenuSession::from_lines(lines(&["{\"format\":\"text\"}\n"])).is_none());
    assert!(DmenuSession::from_lines(lines(&["{\"format\":\"text\"}\n", "\n", "\r\n"])).is_none());
    assert!(DmenuSession::from_lines(lines(&["{\"format\":\"jsonl\"}\n", "bad\n"])).is_none());
}

#[test]
fn cancellation_and_unknown_ids_reply_empty_line() {
    let s = DmenuSession::from_lines(lines(&["a", "b"])).unwrap();
    assert_eq!(s.reply_line(None), "\n");
    assert_eq!(s.reply_line(Some(7)), "\n");
}

#[test]
fn context_lines() {
    assert_eq!(parse_context("{\"format\":\"jsonl\"}"), Some(IpcFormat::Jsonl));
    assert_eq!(parse_context("{\"format\":\"text\",\"x\":1}"), Some(IpcFormat::Text));
    assert_eq!(parse_context("{\"format\":1}"), None);
    assert_eq!(parse_context("{}"), None);
    assert_eq!(parse_context("hello"), None);
}

#[test]
fn line_endings_are_stripped() {
    assert_eq!(strip_line_end("abc\n"), "abc");
    assert_eq!(strip_line_end("abc\r\n"), "abc");
    assert_eq!(strip_line_end("abc\n\n"), "abc");
    assert_eq!(strip_line_end("a\rb"), "a\rb");
    assert_eq!(strip_line_end(""), "");
}
