use codex_tui::json::{JsonMember, JsonValue};
use codex_tui::session_meta::{
    conclude, read_rollout_meta_first_line, read_session_stats, rollout_created, rollout_id,
    rollout_lines, scan_line, stats_of_sidecar, Scan, SessionStats,
};

fn stats(text: &str, items: Vec<bool>) -> Option<u32> {
    read_session_stats(None, Some(text.as_bytes()), 1024, &items).message_count
}

fn object(members: Vec<(&str, Option<&str>, Option<u64>)>) -> JsonValue {
    JsonValue {
        members: Some(
            members
                .into_iter()
                .map(|(name, text, number)| JsonMember {
                    name: name.to_string(),
                    text: text.map(|t| t.to_string()),
                    number,
                })
                .collect(),
        ),
    }
}

#[test]
fn empty_file_returns_default() {
    let stats = read_session_stats(None, Some(&[]), 128 * 1024, &Vec::new());
    assert_eq!(stats.message_count, Some(0));
}

#[test]
fn sidecar_is_preferred() {
    let rollout = "{\"record_type\":\"state\",\"message_count\":7}\n";
    let read = |sidecar: &str| {
        read_session_stats(
            Some(sidecar.as_bytes()),
            Some(rollout.as_bytes()),
            1024,
            &Vec::new(),
        )
        .message_count
    };
    assert_eq!(read("{\"message_count\":42}"), Some(42));
    assert_eq!(read("{\"message_count\":4294967297}"), Some(1));
    assert_eq!(read("{\"message_count\":-1}"), Some(7));
    assert_eq!(read("{\"message_count\":1.5}"), Some(7));
    assert_eq!(read("{\"message_count\":\"3\"}"), Some(7));
    assert_eq!(read("{}"), Some(7));
    assert_eq!(read("[]"), Some(7));
    assert_eq!(read("{"), Some(7));
    assert_eq!(read(""), Some(7));
    let bare = read_session_stats(Some(b"{}"), Some(&[]), 1024, &Vec::new());
    assert_eq!(bare.message_count, Some(0));
    let alone = read_session_stats(Some(b"{}"), None, 1024, &Vec::new());
    assert_eq!(alone.message_count, None);
}

#[test]
fn unreadable_rollout_gives_nothing() {
    assert_eq!(
        read_session_stats(None, None, 1024, &Vec::new()),
        SessionStats { message_count: None }
    );
    assert_eq!(
        read_session_stats(None, Some(&[0xff, 0xfe]), 1024, &Vec::new()).message_count,
        None
    );
}

#[test]
fn latest_state_line_counts() {
    let text = "{\"record_type\":\"state\",\"message_count\":1}\n\
                {\"type\":\"message\"}\n\
                {\"record_type\":\"state\",\"message_count\":2}\n\
                {\"record_type\":\"state\"}\n";
    assert_eq!(stats(text, vec![false, true, false, false]), Some(2));
    assert_eq!(stats("{\"record_type\":\"state\",\"message_count\":4294967296}", vec![]), Some(0));
}

#[test]
fn items_are_counted_where_no_state_is() {
    let text = "{\"a\":1}\n\n  {\"b\":2}  \nnot json\n{\"record_type\":\"state\"}\n[1]";
    let items = vec![true, true, true, true, true, true];
    assert_eq!(stats(text, items), Some(3));
    assert_eq!(stats(text, vec![true]), Some(1));
    assert_eq!(stats(text, vec![]), Some(0));
}

#[test]
fn broken_state_lines_are_salvaged() {
    assert_eq!(
        stats("{\"record_type\":\"state\",\"message_count\":12, oops", vec![]),
        Some(12)
    );
    let two = "{\"record_type\":\"state\",\"message_count\":12,\n{\"record_type\":\"state\",\"message_count\":13,";
    assert_eq!(stats(two, vec![]), Some(13));
    let cut = "{\"record_type\":\"state\",\"message_count\":3\n{\"record_type\":\"state\",\"message_count\":5";
    assert_eq!(stats(cut, vec![]), Some(5));
    let no_count = "{\"record_type\":\"state\",\"message_count\":3\n{\"record_type\":\"state\",";
    assert_eq!(stats(no_count, vec![]), Some(3));
    let later = "{\"record_type\":\"state\",\"message_count\":12,\n{\"record_type\":\"state\",\"message_count\":13}";
    assert_eq!(stats(later, vec![]), Some(13));
    let earlier = "{\"record_type\":\"state\",\"message_count\":13}\n{\"record_type\":\"state\",\"message_count\":12,";
    assert_eq!(stats(earlier, vec![]), Some(12));
    assert_eq!(stats("{\"record_type\":\"state\",\"message_count\": 12,", vec![]), Some(0));
    assert_eq!(
        stats("{\"record_type\":\"state\",\"message_count\":4294967296,", vec![]),
        Some(0)
    );
    assert_eq!(
        stats("{\"record_type\":\"state\",\"message_count\":004294967295,", vec![]),
        Some(4294967295)
    );
    assert_eq!(stats("\"message_count\":5,", vec![]), Some(0));
}

#[test]
fn only_the_end_of_the_rollout_is_read() {
    let text = "{\"record_type\":\"state\",\"message_count\":9}\n{\"x\":1}\n";
    let read = |max: usize| {
        read_session_stats(None, Some(text.as_bytes()), max, &vec![true, true]).message_count
    };
    assert_eq!(read(1024), Some(9));
    assert_eq!(read(8), Some(1));
    assert_eq!(read(0), Some(0));
    let split = "é{}".as_bytes();
    assert_eq!(read_session_stats(None, Some(split), 3, &vec![]).message_count, None);
    assert_eq!(read_session_stats(None, Some(split), 2, &vec![true]).message_count, Some(1));
}

#[test]
fn lines_of_a_rollout_are_trimmed() {
    assert_eq!(
        rollout_lines(" a \r\n\n\tb\nc\r".as_bytes(), 1024),
        Some(vec!["a".to_string(), "".to_string(), "b".to_string(), "c".to_string()])
    );
    assert_eq!(rollout_lines(&[0x80], 1024), None);
    assert_eq!(rollout_lines("ab\ncd".as_bytes(), 4), Some(vec!["b".to_string(), "cd".to_string()]));
}

#[test]
fn scan_goes_line_by_line() {
    let start = Scan { items: 0, stated: None };
    let item = object(vec![("type", Some("message"), None)]);
    let state = object(vec![
        ("message_count", None, Some(5)),
        ("record_type", Some("state"), None),
    ]);
    assert_eq!(scan_line(start, "", Some(&item), true), start);
    assert_eq!(scan_line(start, "x", Some(&item), true), Scan { items: 1, stated: None });
    assert_eq!(scan_line(start, "x", Some(&item), false), start);
    assert_eq!(scan_line(start, "x", Some(&state), true), Scan { items: 0, stated: Some(5) });
    assert_eq!(scan_line(start, "x", None, true), start);
    let full = Scan { items: u32::MAX, stated: None };
    assert_eq!(scan_line(full, "x", Some(&item), true), full);
    assert_eq!(conclude(full).message_count, Some(u32::MAX));
    assert_eq!(conclude(Scan { items: 3, stated: Some(5) }).message_count, Some(5));
    assert_eq!(stats_of_sidecar(&state), Some(SessionStats { message_count: Some(5) }));
    assert_eq!(stats_of_sidecar(&item), None);
    assert_eq!(stats_of_sidecar(&JsonValue { members: None }), None);
}

#[test]
fn meta_line_gives_creation_and_id() {
    let line = "  {\"id\":\"550E8400-e29b-41d4-a716-446655440000\",\"timestamp\":\"2025-09-01T12:00:00.000Z\"}  \nrest";
    assert_eq!(
        read_rollout_meta_first_line(line.as_bytes()),
        Some((
            "2025-09-01 12:00:00.000".to_string(),
            Some(0x550e8400e29b41d4a716446655440000)
        ))
    );
    assert_eq!(
        read_rollout_meta_first_line("{\"id\":\"nonsense\"}".as_bytes()),
        Some(("".to_string(), None))
    );
    assert_eq!(
        read_rollout_meta_first_line("[1,2]".as_bytes()),
        Some(("".to_string(), None))
    );
    assert_eq!(read_rollout_meta_first_line("".as_bytes()), None);
    assert_eq!(read_rollout_meta_first_line("\n{}".as_bytes()), None);
    assert_eq!(read_rollout_meta_first_line("oops".as_bytes()), None);
    assert_eq!(read_rollout_meta_first_line(&[0xc0]), None);
}

#[test]
fn meta_members_are_read() {
    let value = object(vec![
        ("id", Some("00000000-0000-0000-0000-000000000001"), None),
        ("timestamp", Some("TZaTZ"), None),
    ]);
    assert_eq!(rollout_created(&value), " a ");
    assert_eq!(rollout_id(&value), Some(1));
    let number = object(vec![("timestamp", None, Some(3))]);
    assert_eq!(rollout_created(&number), "");
    assert_eq!(rollout_id(&number), None);
}
