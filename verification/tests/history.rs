use codex_tui::history::{
    can_render, label_of_tool, recap, recent_highlights, render_jobs,
    render_lines_for_resumed_history, ContentItem, FunctionCallOutputPayload, LocalShellAction,
    LocalShellExecAction, RenderJob, RenderKind, ResponseItem, Resume,
};
use codex_tui::lines::{Color, Line, Span, Style, BOLD, DIM, ITALIC};
use ratatui::style::Stylize;

/// Lines for a text, one for each line of it, under a heading for a prompt.
fn lines_for(job: &RenderJob) -> Vec<Line> {
    let mut out: Vec<Line> = Vec::new();
    if job.kind == RenderKind::UserPrompt {
        out.push(Line::blank());
        out.push(Line::one(Span::styled("user", Some(Color::Cyan), BOLD)));
    }
    for line in job.text.lines() {
        out.push(Line::one(Span::raw(line)));
    }
    out
}

fn rendered(items: &Vec<ResponseItem>, resume: Option<&Resume>) -> Vec<Line> {
    assert!(can_render(items));
    let made: Vec<Vec<Line>> = render_jobs(items).iter().map(lines_for).collect();
    render_lines_for_resumed_history(items, resume, &made)
}

fn texts(lines: &[Line]) -> Vec<String> {
    lines
        .iter()
        .map(|l| l.spans.iter().map(|s| s.content.clone()).collect::<String>())
        .collect()
}

fn message(role: &str, text: &str) -> ResponseItem {
    ResponseItem::Message {
        role: role.to_string(),
        content: vec![ContentItem::OutputText { text: text.to_string() }],
    }
}

fn shell(call_id: Option<&str>, command: &[&str]) -> ResponseItem {
    ResponseItem::LocalShellCall {
        call_id: call_id.map(|s| s.to_string()),
        action: LocalShellAction::Exec(LocalShellExecAction {
            command: command.iter().map(|s| s.to_string()).collect(),
        }),
    }
}

fn call(name: &str, call_id: &str) -> ResponseItem {
    ResponseItem::FunctionCall {
        name: name.to_string(),
        arguments: "{}".to_string(),
        call_id: call_id.to_string(),
    }
}

fn output(call_id: &str, content: &str, success: Option<bool>) -> ResponseItem {
    ResponseItem::FunctionCallOutput {
        call_id: call_id.to_string(),
        output: FunctionCallOutputPayload { content: content.to_string(), success },
    }
}

#[test]
fn mcp_tool_call_replay_renders_text_output() {
    let call_id = "call-123".to_string();
    let items = vec![
        ResponseItem::FunctionCall {
            name: "server__echo".to_string(),
            arguments: "{\"text\":\"hi\"}".to_string(),
            call_id: call_id.clone(),
        },
        ResponseItem::FunctionCallOutput {
            call_id: call_id.clone(),
            output: FunctionCallOutputPayload {
                content: "{\"content\":[{\"type\":\"text\",\"text\":\"hello from tool\"}],\"is_error\":false}".to_string(),
                success: Some(true),
            },
        },
    ];

    let lines = rendered(&items, None);
    let blob = lines
        .iter()
        .flat_map(|l| l.spans.iter())
        .map(|s| s.content.clone())
        .collect::<String>();
    assert!(blob.contains("tool"), "expected tool header");
    assert!(
        blob.contains("hello from tool"),
        "expected tool output text"
    );
}

#[test]
fn resume_renders_mixed_items_contains_expected_markers() {
    let call_id_exec = "exec-1".to_string();
    let call_id_tool = "tool-1".to_string();
    let items = vec![
        ResponseItem::Message {
            role: "user".into(),
            content: vec![ContentItem::InputText { text: "Hello".into() }],
        },
        ResponseItem::Message {
            role: "assistant".into(),
            content: vec![ContentItem::OutputText { text: "Hi there".into() }],
        },
        ResponseItem::Reasoning,
        ResponseItem::LocalShellCall {
            call_id: Some(call_id_exec.clone()),
            action: LocalShellAction::Exec(LocalShellExecAction {
                command: vec!["bash".into(), "-lc".into(), "echo hi".into()],
            }),
        },
        ResponseItem::FunctionCallOutput {
            call_id: call_id_exec,
            output: FunctionCallOutputPayload { content: "hi".into(), success: Some(true) },
        },
        ResponseItem::FunctionCall {
            name: "server__echo".into(),
            arguments: "{\"text\":\"yo\"}".into(),
            call_id: call_id_tool.clone(),
        },
        ResponseItem::FunctionCallOutput {
            call_id: call_id_tool,
            output: FunctionCallOutputPayload {
                content: "{\"content\":[{\"type\":\"text\",\"text\":\"from tool\"}],\"is_error\":false}".into(),
                success: Some(true),
            },
        },
    ];

    let lines = rendered(&items, None);
    let blob = lines
        .iter()
        .flat_map(|l| l.spans.iter())
        .map(|s| s.content.clone())
        .collect::<Vec<_>>()
        .join("\n");
    assert!(blob.contains("user"));
    assert!(blob.contains("Hello"));
    assert!(blob.contains("codex"));
    assert!(blob.contains("⌨️"));
    assert!(blob.contains("echo hi"));
    assert!(blob.contains("tool"));
    assert!(blob.contains("from tool"));
}

#[test]
fn resume_recap_header_uses_sidecar_and_highlights() {
    let call_id_tool = "tool-abc".to_string();
    let items = vec![
        ResponseItem::LocalShellCall {
            call_id: Some("exec-123".into()),
            action: LocalShellAction::Exec(LocalShellExecAction {
                command: vec!["bash".into(), "-lc".into(), "rg foo".into()],
            }),
        },
        ResponseItem::FunctionCall {
            name: "server__echo".into(),
            arguments: "{\"text\":\"hi\"}".into(),
            call_id: call_id_tool.clone(),
        },
        ResponseItem::FunctionCallOutput {
            call_id: call_id_tool,
            output: FunctionCallOutputPayload {
                content: "{\"content\":[{\"type\":\"text\",\"text\":\"hello\"}],\"is_error\":false}"
                    .into(),
                success: Some(true),
            },
        },
    ];
    let resume = Resume {
        rollout: Some(
            "{\"id\":\"00000000-0000-0000-0000-000000000000\",\"timestamp\":\"2025-09-01T12:00:00.000Z\"}\n"
                .as_bytes()
                .to_vec(),
        ),
        sidecar: Some(r#"{"message_count":42}"#.as_bytes().to_vec()),
        items: vec![false],
        shown_path: "sessions/rollout.jsonl".to_string(),
    };

    let lines = rendered(&items, Some(&resume));
    let blob = lines
        .iter()
        .flat_map(|l| l.spans.iter())
        .map(|s| s.content.clone())
        .collect::<String>();
    assert!(blob.contains("Restored"), "expected recap header");
    assert!(blob.contains("(42)"), "expected message count from sidecar");
    assert!(blob.contains("exec"), "expected exec highlight");
    assert!(blob.contains("server/echo"), "expected tool highlight");
    assert_eq!(
        texts(&lines)[..6].to_vec(),
        vec![
            "",
            "Restored — 2025-09-01 12:00:00.000 (42)",
            "  • exec bash -lc rg foo",
            "  • tool server/echo",
            "id: 00000000-0000-0000-0000-000000000000",
            "path: sessions/rollout.jsonl",
        ]
    );
}

#[test]
fn conversation_renders_item_by_item() {
    let items = vec![
        message("user", "Hello"),
        message("assistant", "Hi\nthere"),
        ResponseItem::Reasoning,
        shell(Some("a"), &["ls", "-l"]),
        output("a", "", Some(false)),
        shell(None, &["pwd"]),
        shell(Some("missing"), &["id"]),
        call("server__echo", "b"),
        output("b", "done", None),
        call("server__lost", "c"),
        ResponseItem::Other,
    ];
    assert_eq!(
        texts(&rendered(&items, None)),
        vec![
            "",
            "user",
            "Hello",
            "",
            "codex",
            "Hi",
            "there",
            "",
            "thinking",
            "",
            "  ✗ ⌨️ ls -l",
            "",
            "  ✓ ⌨️ pwd",
            "",
            "  ✓ ⌨️ id",
            "",
            "tool server/echo ✓",
            "",
            "codex",
            "done",
        ]
    );
}

#[test]
fn last_output_of_a_call_decides() {
    let items = vec![
        call("s__t", "x"),
        output("x", "", Some(true)),
        output("x", "", Some(false)),
    ];
    assert_eq!(texts(&rendered(&items, None)), vec!["", "tool s/t ✗"]);
}

#[test]
fn message_texts_are_put_one_below_the_other() {
    let items = vec![ResponseItem::Message {
        role: "assistant".to_string(),
        content: vec![
            ContentItem::InputText { text: "".to_string() },
            ContentItem::OutputText { text: "a".to_string() },
            ContentItem::Other,
            ContentItem::InputText { text: "b".to_string() },
        ],
    }];
    let jobs = render_jobs(&items);
    assert_eq!(
        jobs,
        vec![RenderJob { kind: RenderKind::Assistant, text: "a\nb".to_string() }]
    );
}

#[test]
fn environment_context_is_not_shown() {
    let items = vec![
        message("user", "<environment_context>cwd</environment_context>"),
        message(
            "user",
            "<user_instructions><environment_context>x</environment_context></user_instructions>",
        ),
        message("user", "  about <environment_context> \n"),
        message("user", "<user_instructions>\n be brief \n</user_instructions>"),
        message("user", " \n "),
    ];
    let jobs = render_jobs(&items);
    assert_eq!(
        jobs,
        vec![
            RenderJob {
                kind: RenderKind::UserPrompt,
                text: "about <environment_context>".to_string(),
            },
            RenderJob { kind: RenderKind::UserPrompt, text: "be brief".to_string() },
        ]
    );
}

#[test]
fn wrappers_that_close_first_cannot_be_rendered() {
    assert!(!can_render(&vec![message(
        "user",
        "</user_instructions> x <user_instructions>"
    )]));
    assert!(can_render(&vec![message("user", "</user_instructions> x")]));
}

#[test]
fn long_answers_are_cut() {
    let text = |n: usize| (0..n).map(|i| i.to_string()).collect::<Vec<_>>().join("\n");
    let short = rendered(&vec![message("assistant", &text(18))], None);
    assert_eq!(short.len(), 2 + 18);
    let long = rendered(&vec![message("assistant", &text(19))], None);
    assert_eq!(long.len(), 2 + 19);
    let shown = texts(&long);
    assert_eq!(shown[19], "17");
    assert_eq!(shown[20], "… truncated; press Ctrl-T for full transcript");
    let tool = rendered(&vec![output("a", &text(30), None)], None);
    assert_eq!(tool.len(), 2 + 30);
    let user = rendered(&vec![message("user", &text(30))], None);
    assert_eq!(user.len(), 2 + 30);
}

#[test]
fn texts_without_lines_leave_nothing() {
    let items = vec![message("assistant", "x"), ResponseItem::Reasoning];
    let lines = render_lines_for_resumed_history(&items, None, &Vec::new());
    assert_eq!(texts(&lines), vec!["", "codex", "", "thinking"]);
}

#[test]
fn six_newest_actions_are_highlighted() {
    let mut items: Vec<ResponseItem> = Vec::new();
    for i in 0..4 {
        items.push(shell(None, &["run", &i.to_string()]));
        items.push(ResponseItem::Reasoning);
        items.push(call(&format!("s{i}__t"), "id"));
    }
    assert_eq!(
        texts(&recent_highlights(&items)),
        vec![
            "  • exec run 1",
            "  • tool s1/t",
            "  • exec run 2",
            "  • tool s2/t",
            "  • exec run 3",
            "  • tool s3/t",
        ]
    );
    items.push(call("new", "id"));
    let all = texts(&recent_highlights(&items));
    assert_eq!(all.len(), 6);
    assert_eq!(all[5], "  • tool new/");
    assert!(recent_highlights(&vec![ResponseItem::Reasoning]).is_empty());
}

#[test]
fn shell_calls_that_execute_nothing_are_not_shown() {
    let items = vec![ResponseItem::LocalShellCall {
        call_id: Some("a".to_string()),
        action: LocalShellAction::Other,
    }];
    assert!(rendered(&items, None).is_empty());
    assert!(recent_highlights(&items).is_empty());
}

#[test]
fn tool_names_are_split_at_the_first_bar() {
    assert_eq!(label_of_tool("server__echo"), "server/echo");
    assert_eq!(label_of_tool("a__b__c"), "a/b__c");
    assert_eq!(label_of_tool("a___b"), "a/_b");
    assert_eq!(label_of_tool("plain"), "plain/");
    assert_eq!(label_of_tool(""), "/");
}

#[test]
fn recap_stands_in_front() {
    let items = vec![call("a__b", "x"), output("x", "out", Some(true))];
    let resume = Resume {
        rollout: None,
        sidecar: None,
        items: Vec::new(),
        shown_path: "~/r.jsonl".to_string(),
    };
    let with = rendered(&items, Some(&resume));
    let without = rendered(&items, None);
    assert_eq!(
        texts(&with)[..4].to_vec(),
        vec!["", "Restored —  (2)", "  • tool a/b", "path: ~/r.jsonl"]
    );
    assert_eq!(with.len() - 4, without.len());
    assert_eq!(texts(&with[4..]), texts(&without));
}

#[test]
fn recap_shows_an_id_that_reads_back() {
    let id: u128 = 0x550e8400e29b41d4a716446655440000;
    let lines = recap(&Vec::new(), "now", Some(id), 4294967295, "p");
    assert_eq!(
        texts(&lines),
        vec![
            "",
            "Restored — now (4294967295)",
            "id: 550e8400-e29b-41d4-a716-446655440000",
            "path: p",
        ]
    );
    let shown = &lines[2].spans[1].content;
    assert_eq!(uuid::Uuid::parse_str(shown).unwrap().as_u128(), id);
}

fn same_style(ours: &Span, theirs: ratatui::text::Span<'static>) {
    let none = Style {
        fg: ours.style.fg,
        bg: None,
        underline_color: None,
        add_modifier: ours.style.add_modifier,
        sub_modifier: 0,
    };
    assert_eq!(ours.style, none);
    assert_eq!(ours.content, theirs.content.to_string());
    assert_eq!(ours.style.add_modifier, theirs.style.add_modifier.bits());
    assert_eq!(theirs.style.sub_modifier.bits(), 0);
    assert_eq!(theirs.style.bg, None);
    let fg = theirs.style.fg.map(|c| match c {
        ratatui::style::Color::Magenta => Color::Magenta,
        ratatui::style::Color::Cyan => Color::Cyan,
        ratatui::style::Color::Green => Color::Green,
        ratatui::style::Color::Red => Color::Red,
        ratatui::style::Color::LightBlue => Color::LightBlue,
        _ => Color::Reset,
    });
    assert_eq!(ours.style.fg, fg);
}

#[test]
fn styles_are_those_of_the_terminal_library() {
    let items = vec![
        message("assistant", "x"),
        ResponseItem::Reasoning,
        shell(Some("a"), &["ls"]),
        output("a", "", Some(false)),
        call("s__t", "b"),
        output("b", "", Some(true)),
    ];
    let lines = rendered(&items, None);
    assert_eq!(lines[0], Line::blank());
    assert_eq!(ratatui::text::Line::from("").spans.len(), lines[0].spans.len());
    same_style(&lines[1].spans[0], "codex".magenta().bold());
    same_style(&lines[4].spans[0], "thinking".magenta().italic());
    same_style(&lines[6].spans[1], "✗".red());
    same_style(&lines[6].spans[3], "⌨️ ls".to_string().light_blue());
    same_style(&lines[8].spans[0], "tool".magenta());
    same_style(&lines[8].spans[2], "s/t".into());
    same_style(&lines[8].spans[4], "✓".green());
    let head = recap(&items, "c", None, 7, "p");
    same_style(&head[1].spans[0], "Restored".magenta().bold());
    same_style(&head[1].spans[2], "c".dim());
    same_style(&head[1].spans[4], "(7)".cyan());
    assert_eq!(DIM, ratatui::style::Modifier::DIM.bits());
    assert_eq!(ITALIC, ratatui::style::Modifier::ITALIC.bits());
}
