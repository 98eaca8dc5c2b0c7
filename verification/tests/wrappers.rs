use codex_tui::wrappers::{can_strip, strip_wrappers};

fn strip(s: &str) -> Option<String> {
    assert!(can_strip(s));
    strip_wrappers(s)
}

#[test]
fn plain_text_is_trimmed() {
    assert_eq!(strip("  hi there \n"), Some("hi there".to_string()));
    assert_eq!(strip("\u{2003}hi\u{85}"), Some("hi".to_string()));
    assert_eq!(strip(""), Some("".to_string()));
}

#[test]
fn instructions_are_unwrapped() {
    assert_eq!(
        strip("x <user_instructions>\n be brief \n</user_instructions> y"),
        Some("be brief".to_string())
    );
    assert_eq!(
        strip("<user_instructions>a</user_instructions>b</user_instructions>"),
        Some("a".to_string())
    );
    assert_eq!(
        strip("<user_instructions>open"),
        Some("<user_instructions>open".to_string())
    );
}

#[test]
fn interactions_are_unwrapped() {
    assert_eq!(
        strip("<user_interactions> a </user_interactions>"),
        Some("a".to_string())
    );
    assert_eq!(
        strip("<user_instructions> <user_interactions> é </user_interactions> </user_instructions>"),
        Some("é".to_string())
    );
    assert_eq!(
        strip("<user_interactions><user_instructions>a</user_instructions></user_interactions>"),
        Some("a".to_string())
    );
}

#[test]
fn environment_context_is_skipped() {
    assert_eq!(strip("<environment_context>x</environment_context>"), None);
    assert_eq!(strip(" \n<environment_context>\nx\n</environment_context> "), None);
    assert_eq!(strip("<environment_context></environment_context>"), None);
    assert_eq!(
        strip("environment_context"),
        Some("environment_context".to_string())
    );
    assert_eq!(
        strip("<environment_context></user_instructions><user_instructions></environment_context>"),
        None
    );
}

#[test]
fn messages_that_are_more_than_environment_context_are_kept() {
    for s in [
        "what does <environment_context> mean?",
        "text <environment_context>x</environment_context>",
        "<environment_context>x</environment_context> text",
        "<environment_context>",
        "</environment_context>",
    ] {
        assert_eq!(strip(s), Some(s.to_string()));
    }
    assert_eq!(
        strip("<user_instructions> on <environment_context> </user_instructions>"),
        Some("on <environment_context>".to_string())
    );
}

#[test]
fn wrapped_environment_context_is_skipped() {
    let block = "<environment_context>x</environment_context>";
    for s in [
        format!("<user_instructions>{block}</user_instructions>"),
        format!("<user_interactions> {block}\n</user_interactions>"),
        format!("<user_instructions><user_interactions>{block}</user_interactions></user_instructions>"),
    ] {
        assert_eq!(strip(&s), None, "{s}");
    }
    assert_eq!(
        strip(&format!("<user_instructions>a {block}</user_instructions>")),
        Some(format!("a {block}"))
    );
}

#[test]
fn stripping_twice_is_stripping_once() {
    let pieces = [
        "<user_instructions>",
        "</user_instructions>",
        "<user_interactions>",
        "</user_interactions>",
        "<environment_context>",
        "</environment_context>",
        " a ",
    ];
    for x in pieces {
        for y in pieces {
            for z in pieces {
                for w in pieces {
                    let s = format!("{x}{y}{z}{w}");
                    if can_strip(&s) {
                        if let Some(r) = strip_wrappers(&s) {
                            assert_eq!(strip(&r), Some(r.clone()), "{s}");
                        }
                    }
                }
            }
        }
    }
}

#[test]
fn wrappers_that_lack_a_tag_are_kept() {
    assert_eq!(
        strip(" </user_instructions> a <user_interactions> "),
        Some("</user_instructions> a <user_interactions>".to_string())
    );
}

#[test]
fn wrappers_have_to_open_before_they_close() {
    assert!(!can_strip("</user_instructions><user_instructions>"));
    assert!(!can_strip("</user_interactions> <user_interactions>"));
    assert!(can_strip("</user_interactions> <user_instructions>"));
    assert_eq!(strip("</user_instructions><user_instructions><environment_context>"), None);
    assert_eq!(
        strip("</user_interactions> <environment_context> <user_interactions>"),
        None
    );
}
