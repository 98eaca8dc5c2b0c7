use codex_tui::status_line::{
    command_complaint, command_parts, padded_first_line, padding_of, run_status_line_command,
    CommandOutput, Phase, ReasoningEffort, SchedulerAction, SchedulerEvent, StatusLineContextUsage,
    StatusLineContextWindow, StatusLineCost, StatusLineInput, StatusLineInputArgs,
    StatusLineScheduler, STATUS_LINE_MIN_INTERVAL,
};

fn args(effort: Option<ReasoningEffort>) -> StatusLineInputArgs {
    StatusLineInputArgs {
        session_id: Some("s".to_string()),
        transcript_path: None,
        cwd: "/work".to_string(),
        project_dir: "/work/p".to_string(),
        model_id: "m-1".to_string(),
        model_display_name: "Model".to_string(),
        reasoning_effort: effort,
        version: "0.1".to_string(),
        context_window: Some(StatusLineContextWindow {
            context_window_size: Some(1000),
            current_usage: Some(StatusLineContextUsage {
                input_tokens: 1,
                cache_creation_input_tokens: 2,
                cache_read_input_tokens: 3,
                output_tokens: 4,
                reasoning_output_tokens: 5,
                total_tokens: 15,
            }),
            percent_remaining: Some(98),
        }),
    }
}

fn input(version: &str) -> StatusLineInput {
    let mut a = args(None);
    a.version = version.to_string();
    StatusLineInput::for_codex(a)
}

#[test]
fn input_for_the_command() {
    let r = StatusLineInput::for_codex(args(Some(ReasoningEffort::Named("high".to_string()))));
    assert_eq!(r.hook_event_name, "Status");
    assert_eq!(r.session_id, Some("s".to_string()));
    assert_eq!(r.transcript_path, None);
    assert_eq!(r.cwd, "/work");
    assert_eq!(r.workspace.current_dir, "/work");
    assert_eq!(r.workspace.project_dir, "/work/p");
    assert_eq!(r.model.id, "m-1");
    assert_eq!(r.model.display_name, "Model");
    assert_eq!(r.model.display_name_with_effort, "Model high");
    assert_eq!(r.model.reasoning_effort, Some(ReasoningEffort::Named("high".to_string())));
    assert_eq!(r.version, "0.1");
    assert_eq!(r.output_style.name, "default");
    assert_eq!(r.cost, StatusLineCost::default());
    assert_eq!(r.cost.total_duration_ms, None);
    assert_eq!(r.context_window, args(None).context_window);
}

#[test]
fn no_effort_is_not_named() {
    let absent = StatusLineInput::for_codex(args(Some(ReasoningEffort::Absent)));
    assert_eq!(absent.model.display_name_with_effort, "Model");
    assert_eq!(absent.model.reasoning_effort, Some(ReasoningEffort::Absent));
    let none = StatusLineInput::for_codex(args(None));
    assert_eq!(none.model.display_name_with_effort, "Model");
}

#[test]
fn runs_are_apart() {
    let i = STATUS_LINE_MIN_INTERVAL;
    assert_eq!(i, 300_000_000);
    let mut s = StatusLineScheduler::start(i, Some(0));
    assert_eq!(
        s.step(SchedulerEvent::Received { input: input("1"), now: i + 5 }),
        SchedulerAction::Run { input: input("1"), sleep_until: None }
    );
    assert_eq!(s.phase, Phase::Running);
    let line = Some("  x".to_string());
    assert_eq!(
        s.step(SchedulerEvent::Ended { line: line.clone() }),
        SchedulerAction::Send { line }
    );
    assert_eq!(s.phase, Phase::Sending);
    assert_eq!(s.step(SchedulerEvent::Finished { now: 2 * i }), SchedulerAction::Poll);
    assert_eq!(
        s.step(SchedulerEvent::Drained { now: 2 * i + 1 }),
        SchedulerAction::Receive
    );
    assert_eq!(
        s.step(SchedulerEvent::Received { input: input("2"), now: 3 * i - 1 }),
        SchedulerAction::Run { input: input("2"), sleep_until: Some(3 * i) }
    );
    assert_eq!(
        s.step(SchedulerEvent::Ended { line: None }),
        SchedulerAction::Send { line: None }
    );
    assert_eq!(s.step(SchedulerEvent::Finished { now: 4 * i }), SchedulerAction::Poll);
    assert_eq!(s.step(SchedulerEvent::Drained { now: 4 * i }), SchedulerAction::Receive);
    assert_eq!(
        s.step(SchedulerEvent::Received { input: input("3"), now: 5 * i }),
        SchedulerAction::Run { input: input("3"), sleep_until: None }
    );
}

#[test]
fn first_run_waits_without_an_earlier_time() {
    let mut s = StatusLineScheduler::start(7, None);
    assert_eq!(s.last_run, 7);
    assert_eq!(
        s.step(SchedulerEvent::Received { input: input("1"), now: 8 }),
        SchedulerAction::Run {
            input: input("1"),
            sleep_until: Some(7 + STATUS_LINE_MIN_INTERVAL)
        }
    );
}

#[test]
fn latest_input_is_run() {
    let mut s = StatusLineScheduler::start(0, None);
    s.step(SchedulerEvent::Received { input: input("1"), now: 0 });
    s.step(SchedulerEvent::Ended { line: None });
    s.step(SchedulerEvent::Finished { now: 10 });
    assert_eq!(s.step(SchedulerEvent::Polled { input: input("2") }), SchedulerAction::Poll);
    assert_eq!(s.step(SchedulerEvent::Polled { input: input("3") }), SchedulerAction::Poll);
    assert_eq!(
        s.step(SchedulerEvent::Drained { now: 11 }),
        SchedulerAction::Run {
            input: input("3"),
            sleep_until: Some(10 + STATUS_LINE_MIN_INTERVAL)
        }
    );
    assert_eq!(s.phase, Phase::Running);
}

#[test]
fn runs_follow_the_inputs_and_end_with_the_last() {
    let mut s = StatusLineScheduler::start(0, None);
    let mut run: Vec<String> = Vec::new();
    let mut sent: Vec<Option<String>> = Vec::new();
    for event in [
        SchedulerEvent::Received { input: input("1"), now: 0 },
        SchedulerEvent::Ended { line: Some("a".to_string()) },
        SchedulerEvent::Finished { now: 10 },
        SchedulerEvent::Polled { input: input("2") },
        SchedulerEvent::Polled { input: input("3") },
        SchedulerEvent::Drained { now: 11 },
        SchedulerEvent::Ended { line: None },
        SchedulerEvent::Finished { now: 20 },
        SchedulerEvent::Drained { now: 21 },
        SchedulerEvent::Received { input: input("4"), now: 30 },
        SchedulerEvent::Ended { line: Some("b".to_string()) },
        SchedulerEvent::Finished { now: 40 },
        SchedulerEvent::Drained { now: 41 },
        SchedulerEvent::Closed,
    ] {
        assert!(s.accepts(&event));
        match s.step(event) {
            SchedulerAction::Run { input, .. } => run.push(input.version),
            SchedulerAction::Send { line } => sent.push(line),
            _ => {}
        }
    }
    assert_eq!(run, vec!["1", "3", "4"]);
    assert_eq!(sent, vec![Some("a".to_string()), None, Some("b".to_string())]);
}

#[test]
fn closing_stops() {
    let mut s = StatusLineScheduler::start(0, None);
    assert_eq!(s.step(SchedulerEvent::Closed), SchedulerAction::Stop);
    assert_eq!(s.phase, Phase::Stopped);
}

#[test]
fn scheduler_takes_answers_to_what_it_asked_for() {
    let mut s = StatusLineScheduler::start(0, None);
    let received = || SchedulerEvent::Received { input: input("1"), now: 0 };
    let polled = || SchedulerEvent::Polled { input: input("2") };
    let finished = SchedulerEvent::Finished { now: 9 };
    let drained = SchedulerEvent::Drained { now: 9 };
    assert!(s.accepts(&received()));
    assert!(s.accepts(&SchedulerEvent::Closed));
    assert!(!s.accepts(&finished) && !s.accepts(&polled()) && !s.accepts(&drained));
    let ended = SchedulerEvent::Ended { line: None };
    assert!(!s.accepts(&ended));
    s.step(received());
    assert!(s.accepts(&ended) && !s.accepts(&finished));
    assert!(!s.accepts(&received()) && !s.accepts(&SchedulerEvent::Closed));
    s.step(ended);
    assert!(s.accepts(&finished) && !s.accepts(&polled()));
    s.step(finished);
    assert!(s.accepts(&polled()) && s.accepts(&drained));
    assert!(!s.accepts(&received()));
    let late = StatusLineScheduler::start(u128::MAX, None);
    assert!(!late.accepts(&received()));
    assert!(late.accepts(&SchedulerEvent::Closed));
}

#[test]
fn first_line_is_padded() {
    assert_eq!(padded_first_line("ok\nmore\n", 2), Some("  ok".to_string()));
    assert_eq!(padded_first_line(" ok \r\n", 0), Some(" ok ".to_string()));
    assert_eq!(padded_first_line("\nok", 2), None);
    assert_eq!(padded_first_line(" \t\nok", 2), None);
    assert_eq!(padded_first_line("", 2), None);
    assert_eq!(padded_first_line("x\ry", 1), Some(" x\ry".to_string()));
}

#[test]
fn output_of_a_command_decides() {
    let out = |success: bool, stdout: &[u8], stderr: &[u8]| CommandOutput {
        success,
        stdout: stdout.to_vec(),
        stderr: stderr.to_vec(),
    };
    assert_eq!(
        run_status_line_command(Some(&out(true, b"line\n", b"err")), 1),
        Some(" line".to_string())
    );
    assert_eq!(
        run_status_line_command(Some(&out(true, b"a\xffb", b"")), 1),
        Some(" a\u{fffd}b".to_string())
    );
    assert_eq!(run_status_line_command(Some(&out(false, b"line\n", b"")), 1), None);
    assert_eq!(run_status_line_command(Some(&out(true, b"\n", b"")), 1), None);
    assert_eq!(run_status_line_command(None, 1), None);
    assert_eq!(
        command_complaint(&out(false, b"", b" no such thing \n")),
        Some("no such thing".to_string())
    );
    assert_eq!(command_complaint(&out(false, b"", b" \n")), None);
    assert_eq!(command_complaint(&out(true, b"", b"warning")), None);
}

#[test]
fn stated_padding_is_preferred() {
    assert_eq!(padding_of(Some(0), 2), 0);
    assert_eq!(padding_of(Some(5), 2), 5);
    assert_eq!(padding_of(None, 2), 2);
}

#[test]
fn command_is_split() {
    let command = |parts: &[&str]| parts.iter().map(|s| s.to_string()).collect::<Vec<_>>();
    assert_eq!(command_parts(&command(&[])), None);
    assert_eq!(command_parts(&command(&["a"])), Some(("a".to_string(), vec![])));
    assert_eq!(
        command_parts(&command(&["a", "b", "c"])),
        Some(("a".to_string(), vec!["b".to_string(), "c".to_string()]))
    );
}
