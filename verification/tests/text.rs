use codex_tui::text::{
    chars_of, contains, decimal_text, find, indent, join, leading_u32, lines, remove, replace,
    space, text_of, trim,
};

fn cs(s: &str) -> Vec<char> {
    chars_of(s)
}

#[test]
fn white_space_is_that_of_the_standard_library() {
    for n in 0..=0x10ffffu32 {
        if let Some(c) = char::from_u32(n) {
            assert_eq!(space(c), c.is_whitespace(), "{n:x}");
        }
    }
}

#[test]
fn texts_are_handled_as_the_standard_library_does() {
    let samples = [
        "", " ", "a", " a ", "a\n", "a\r\n", "\n", "\r", "\r\n", "a\nb", "a\n\nb\r\n\r\n", "\ra\r",
        "a\r\r\n", " \t x y \u{3000}", "é\nü", "aab", "abab", "__", "a__b__c",
    ];
    for s in samples {
        let chars = cs(s);
        assert_eq!(text_of(&chars), s);
        assert_eq!(text_of(trim(&chars)), s.trim(), "{s:?}");
        assert_eq!(lines(&chars), s.lines().collect::<Vec<_>>(), "{s:?}");
        assert_eq!(text_of(&replace(&chars, '\r', '\n')), s.replace('\r', "\n"));
        assert_eq!(text_of(&remove(&chars, 'a')), s.replace('a', ""));
        for pat in samples {
            let p = cs(pat);
            let found = s.find(pat).map(|b| s[..b].chars().count());
            assert_eq!(find(&chars, &p), found, "{s:?} {pat:?}");
            assert_eq!(contains(&chars, pat), s.contains(pat));
        }
    }
}

#[test]
fn numbers_are_written_and_read() {
    for n in [0, 7, 10, 42, 99, 100, 4294967296, u64::MAX] {
        assert_eq!(decimal_text(n), n.to_string());
    }
    assert_eq!(leading_u32(&cs("12ab")), Some(12));
    assert_eq!(leading_u32(&cs("4294967295")), Some(4294967295));
    assert_eq!(leading_u32(&cs("4294967296")), None);
    assert_eq!(leading_u32(&cs("99999999999999999999999")), None);
    assert_eq!(leading_u32(&cs("x1")), None);
    assert_eq!(leading_u32(&cs("")), None);
    assert_eq!(leading_u32(&cs("0000000000001")), Some(1));
}

#[test]
fn parts_are_joined_and_indented() {
    let parts = |p: &[&str]| p.iter().map(|s| s.to_string()).collect::<Vec<_>>();
    assert_eq!(join(&parts(&[]), " "), "");
    assert_eq!(join(&parts(&["a"]), " "), "a");
    assert_eq!(join(&parts(&["a", "", "b"]), " "), "a  b");
    assert_eq!(indent(3, "x"), "   x");
}
