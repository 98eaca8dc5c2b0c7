use codex_tui::app::{
    App, AppAction, AppEvent, BacktrackState, ChatFacts, DiffPager, KeyCode, KeyEvent,
    KeyEventKind, Overlay, TuiEvent, CONTROL,
};
use codex_tui::history::ResponseItem;
use codex_tui::lines::{Color, Line, Span, BOLD, DIM, ITALIC};

fn line(text: &str) -> Line {
    Line::one(Span::raw(text))
}

fn key(code: KeyCode, modifiers: u8, kind: KeyEventKind) -> KeyEvent {
    KeyEvent { code, modifiers, kind }
}

fn chat(normal_backtrack_mode: bool, composer_empty: bool) -> ChatFacts {
    ChatFacts { normal_backtrack_mode, composer_empty }
}

#[test]
fn lines_go_to_the_main_view() {
    let mut app = App::new(None);
    assert_eq!(
        app.handle_event(AppEvent::InsertHistoryLines(vec![line("a")])),
        (vec![AppAction::HistoryLines(vec![line("a")])], true)
    );
    assert_eq!(app.transcript_lines, vec![line("a")]);
    assert!(app.deferred_history_lines.is_empty());
}

#[test]
fn lines_wait_while_the_view_is_covered() {
    let mut app = App::new(None);
    app.overlay = Some(Overlay::Transcript);
    assert_eq!(
        app.handle_event(AppEvent::InsertHistoryLines(vec![line("a")])).0,
        vec![AppAction::OverlayLines(vec![line("a")]), AppAction::ScheduleFrame]
    );
    app.overlay = Some(Overlay::Static);
    assert_eq!(app.handle_event(AppEvent::InsertHistoryLines(vec![line("b")])).0, vec![]);
    assert_eq!(app.transcript_lines, vec![line("a"), line("b")]);
    assert_eq!(app.deferred_history_lines, vec![line("a"), line("b")]);
}

#[test]
fn cells_have_two_faces() {
    let cell = |display: Vec<Line>| AppEvent::InsertHistoryCell {
        transcript: vec![line("t")],
        display,
    };
    let mut app = App::new(None);
    assert_eq!(
        app.handle_event(cell(vec![line("d")])).0,
        vec![AppAction::HistoryLines(vec![line("d")])]
    );
    assert_eq!(app.handle_event(cell(vec![])).0, vec![]);
    assert_eq!(app.transcript_lines, vec![line("t"), line("t")]);
    app.overlay = Some(Overlay::Transcript);
    assert_eq!(
        app.handle_event(cell(vec![line("d")])).0,
        vec![AppAction::OverlayLines(vec![line("t")]), AppAction::ScheduleFrame]
    );
    assert_eq!(app.deferred_history_lines, vec![line("d")]);
}

#[test]
fn ticker_starts_once() {
    let mut app = App::new(None);
    assert_eq!(app.handle_event(AppEvent::StartCommitAnimation).0, vec![AppAction::StartTicker]);
    assert_eq!(app.handle_event(AppEvent::StartCommitAnimation).0, vec![]);
    assert!(app.commit_anim_running);
    assert_eq!(app.handle_event(AppEvent::StopCommitAnimation).0, vec![AppAction::StopTicker]);
    assert!(!app.commit_anim_running);
    assert_eq!(app.handle_event(AppEvent::StartCommitAnimation).0, vec![AppAction::StartTicker]);
}

#[test]
fn resumed_history_is_shown_once() {
    let history = |conversation_id: u128, session_id: Option<u128>| {
        AppEvent::ConversationHistory { conversation_id, session_id }
    };
    let mut app = App::new(None);
    assert_eq!(app.handle_event(history(1, Some(1))).0, vec![]);
    assert_eq!(
        app.handle_event(AppEvent::ResumeSession(b"r.jsonl".to_vec())).0,
        vec![AppAction::NewChatWidget, AppAction::ScheduleFrame]
    );
    assert_eq!(app.experimental_resume, Some(b"r.jsonl".to_vec()));
    assert_eq!(app.handle_event(history(1, Some(2))).0, vec![]);
    assert_eq!(app.handle_event(history(1, None)).0, vec![]);
    app.backtrack.pending = true;
    assert_eq!(app.handle_event(history(1, Some(1))).0, vec![AppAction::BacktrackHistory]);
    app.backtrack.pending = false;
    assert_eq!(
        app.handle_event(history(1, Some(1))).0,
        vec![AppAction::RenderResumed(b"r.jsonl".to_vec())]
    );
    assert_eq!(app.experimental_resume, None);
    assert_eq!(app.handle_event(history(1, Some(1))).0, vec![]);
}

#[test]
fn diff_opens_a_pager() {
    let mut app = App::new(None);
    let pager = |pager: DiffPager| {
        vec![
            AppAction::DiffComplete,
            AppAction::EnterAltScreen,
            AppAction::OpenPager { pager, title: "D I F F".to_string() },
            AppAction::ScheduleFrame,
        ]
    };
    assert_eq!(
        app.handle_event(AppEvent::DiffResult(" \n".to_string())).0,
        pager(DiffPager::Lines(vec![Line::one(Span::styled(
            "No changes detected.",
            None,
            ITALIC
        ))]))
    );
    assert_eq!(app.overlay, Some(Overlay::Static));
    assert_eq!(
        app.handle_event(AppEvent::DiffResult("+a\r\n-b".to_string())).0,
        pager(DiffPager::Escaped(vec!["+a".to_string(), "-b".to_string()]))
    );
}

#[test]
fn other_events_are_handed_on() {
    let mut app = App::new(None);
    for (event, action) in [
        (AppEvent::UpdateRepoInfo, AppAction::ApplyRepoInfo),
        (AppEvent::CommitTick, AppAction::CommitTick),
        (AppEvent::CodexEvent, AppAction::HandleCodexEvent),
        (AppEvent::CodexOp, AppAction::SubmitOp),
        (AppEvent::FileSearchResult, AppAction::ApplyFileSearchResult),
        (AppEvent::UpdateReasoningEffort, AppAction::SetReasoningEffort),
        (AppEvent::UpdateModel, AppAction::SetModel),
        (AppEvent::UpdateAskForApprovalPolicy, AppAction::SetApprovalPolicy),
        (AppEvent::UpdateSandboxPolicy, AppAction::SetSandboxPolicy),
        (
            AppEvent::StartFileSearch("q".to_string()),
            AppAction::SearchFiles("q".to_string()),
        ),
    ] {
        assert_eq!(app.handle_event(event), (vec![action], true));
    }
    assert_eq!(app.handle_event(AppEvent::StartFileSearch("".to_string())), (vec![], true));
    assert_eq!(
        app.handle_event(AppEvent::NewSession),
        (vec![AppAction::NewChatWidget, AppAction::ScheduleFrame], true)
    );
    assert_eq!(app.handle_event(AppEvent::ExitRequest), (vec![], false));
}

#[test]
fn control_t_opens_the_transcript() {
    let mut app = App::new(None);
    app.handle_event(AppEvent::InsertHistoryLines(vec![line("a")]));
    let press = key(KeyCode::Char('t'), CONTROL, KeyEventKind::Press);
    assert_eq!(
        app.handle_key_event(press, chat(true, true)),
        vec![
            AppAction::EnterAltScreen,
            AppAction::OpenTranscript(vec![line("a")]),
            AppAction::ScheduleFrame,
        ]
    );
    assert_eq!(app.overlay, Some(Overlay::Transcript));
    let mut app = App::new(None);
    for other in [
        key(KeyCode::Char('t'), CONTROL, KeyEventKind::Repeat),
        key(KeyCode::Char('t'), 0, KeyEventKind::Press),
        key(KeyCode::Char('t'), CONTROL | 1, KeyEventKind::Press),
        key(KeyCode::Char('T'), CONTROL, KeyEventKind::Press),
    ] {
        assert_eq!(app.handle_key_event(other, chat(true, true)), vec![AppAction::HandleKey]);
        assert_eq!(app.overlay, None);
    }
}

#[test]
fn escape_goes_back() {
    let mut app = App::new(None);
    for kind in [KeyEventKind::Press, KeyEventKind::Repeat] {
        let esc = key(KeyCode::Esc, 0, kind);
        assert_eq!(app.handle_key_event(esc, chat(true, true)), vec![AppAction::BacktrackEsc]);
        assert_eq!(app.handle_key_event(esc, chat(true, false)), vec![AppAction::HandleKey]);
        assert_eq!(app.handle_key_event(esc, chat(false, true)), vec![AppAction::HandleKey]);
    }
}

#[test]
fn enter_confirms_and_other_keys_reset() {
    let mut app = App::new(None);
    app.backtrack = BacktrackState { primed: true, count: 1, pending: false };
    let enter = key(KeyCode::Enter, 0, KeyEventKind::Press);
    let reset = vec![AppAction::ResetBacktrack, AppAction::HandleKey];
    assert_eq!(app.handle_key_event(enter, chat(true, true)), vec![AppAction::ConfirmBacktrack]);
    assert_eq!(app.handle_key_event(enter, chat(true, false)), reset);
    let repeat = key(KeyCode::Enter, 0, KeyEventKind::Repeat);
    assert_eq!(app.handle_key_event(repeat, chat(true, true)), reset);
    let other = key(KeyCode::Other, 0, KeyEventKind::Press);
    assert_eq!(app.handle_key_event(other, chat(true, true)), reset);
    app.backtrack.count = 0;
    assert_eq!(app.handle_key_event(enter, chat(true, true)), reset);
    app.backtrack.primed = false;
    assert_eq!(app.handle_key_event(enter, chat(true, true)), vec![AppAction::HandleKey]);
}

#[test]
fn released_keys_do_nothing() {
    let mut app = App::new(None);
    app.backtrack = BacktrackState { primed: true, count: 1, pending: false };
    for code in [KeyCode::Char('t'), KeyCode::Esc, KeyCode::Enter, KeyCode::Other] {
        let release = key(code, CONTROL, KeyEventKind::Release);
        assert_eq!(app.handle_key_event(release, chat(true, true)), vec![]);
    }
    assert_eq!(app.overlay, None);
}

#[test]
fn terminal_events_leave_the_history() {
    let mut app = App::new(Some(b"r.jsonl".to_vec()));
    app.handle_event(AppEvent::InsertHistoryLines(vec![line("a")]));
    app.overlay = Some(Overlay::Static);
    app.handle_event(AppEvent::InsertHistoryLines(vec![line("b")]));
    app.handle_tui_event(TuiEvent::Draw, chat(true, true));
    app.overlay = None;
    let press = key(KeyCode::Char('t'), CONTROL, KeyEventKind::Press);
    app.handle_tui_event(TuiEvent::Key(press), chat(true, true));
    assert_eq!(app.overlay, Some(Overlay::Transcript));
    assert_eq!(app.transcript_lines, vec![line("a"), line("b")]);
    assert_eq!(app.deferred_history_lines, vec![line("b")]);
    assert_eq!(app.experimental_resume, Some(b"r.jsonl".to_vec()));
}

#[test]
fn terminal_events_are_decided() {
    let mut app = App::new(None);
    let facts = chat(true, true);
    assert_eq!(
        app.handle_tui_event(TuiEvent::Paste("a\rb\r\nc".to_string()), facts),
        vec![AppAction::HandlePaste("a\nb\n\nc".to_string())]
    );
    assert_eq!(app.handle_tui_event(TuiEvent::Draw, facts), vec![AppAction::PasteBurstTick]);
    assert_eq!(app.after_paste_burst_tick(true), vec![]);
    assert_eq!(app.after_paste_burst_tick(false), vec![AppAction::Draw]);
    assert_eq!(app.handle_tui_event(TuiEvent::AttachImage, facts), vec![AppAction::AttachImage]);
    let esc = key(KeyCode::Esc, 0, KeyEventKind::Press);
    assert_eq!(app.handle_tui_event(TuiEvent::Key(esc), facts), vec![AppAction::BacktrackEsc]);
    app.overlay = Some(Overlay::Static);
    for event in [
        TuiEvent::Draw,
        TuiEvent::Key(esc),
        TuiEvent::Paste("a".to_string()),
        TuiEvent::AttachImage,
    ] {
        assert_eq!(app.handle_tui_event(event, facts), vec![AppAction::OverlayEvent]);
    }
}

#[test]
fn restored_history_is_in_the_transcript() {
    let mut app = App::new(None);
    let items = vec![ResponseItem::Reasoning, ResponseItem::Other];
    let actions = app.render_resumed_history(&items, None, &Vec::new());
    let notice = Line::of(vec![
        Span::styled("Restored session", Some(Color::Magenta), BOLD),
        Span::raw(" — "),
        Span::styled("2 messages", Some(Color::Cyan), 0),
        Span::styled(" • Press Ctrl-T to view transcript", None, DIM),
    ]);
    assert_eq!(
        actions,
        vec![
            AppAction::HistoryLines(vec![Line::blank(), notice]),
            AppAction::ScheduleFrame,
        ]
    );
    let thinking = Line::one(Span::styled("thinking", Some(Color::Magenta), ITALIC));
    assert_eq!(app.transcript_lines, vec![Line::blank(), thinking]);
    assert!(app.deferred_history_lines.is_empty());
}
