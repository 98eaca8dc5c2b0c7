//! The decisions of the chat client: what each event changes, and what is to be
//! done about it.

use vstd::prelude::*;
use crate::history;
use crate::history::{render_lines_for_resumed_history, ResponseItem, Resume};
use crate::lines;
use crate::lines::{duplicate, extend, Color, Line, LineView, Span, BOLD, DIM, ITALIC};
use crate::text;
use crate::text::{chars_of, decimal_text, replace, text_of, trim};

verus! {

/// What covers the main view.
#[derive(Debug, Clone, Copy, PartialEq, Eq, Structural)]
pub enum Overlay {
    /// The transcript.
    Transcript,
    /// A fixed text.
    Static,
}

/// How far going back to an earlier message has come.
#[derive(Debug, Clone, Copy, PartialEq, Eq)]
pub struct BacktrackState {
    /// Whether the escape key was pressed once.
    pub primed: bool,
    /// How many messages back.
    pub count: usize,
    /// Whether the history was asked for.
    pub pending: bool,
}

/// The state of the chat client, as far as it decides.
pub struct App {
    /// Every line of the history so far.
    pub transcript_lines: Vec<Line>,
    /// What covers the main view, if anything does.
    pub overlay: Option<Overlay>,
    /// The lines that the main view still lacks because it was covered.
    pub deferred_history_lines: Vec<Line>,
    /// Whether the thread that sends ticks runs.
    pub commit_anim_running: bool,
    /// The path of the rollout file that the session is resumed from, until its
    /// history has been shown.
    pub experimental_resume: Option<Vec<u8>>,
    /// Going back to an earlier message.
    pub backtrack: BacktrackState,
}

/// The mathematical view of an `App`.
#[verifier::ext_equal]
pub struct AppView {
    pub transcript_lines: Seq<LineView>,
    pub overlay: Option<Overlay>,
    pub deferred_history_lines: Seq<LineView>,
    pub commit_anim_running: bool,
    pub experimental_resume: Option<Seq<u8>>,
    pub backtrack: BacktrackState,
}

impl View for App {
    type V = AppView;

    open spec fn view(&self) -> AppView {
        AppView {
            transcript_lines: self.transcript_lines.deep_view(),
            overlay: self.overlay,
            deferred_history_lines: self.deferred_history_lines.deep_view(),
            commit_anim_running: self.commit_anim_running,
            experimental_resume: self.experimental_resume.deep_view(),
            backtrack: self.backtrack,
        }
    }
}

/// An event of the client. What an event carries only for others to read is left
/// out.
pub enum AppEvent {
    NewSession,
    UpdateRepoInfo,
    ResumeSession(Vec<u8>),
    InsertHistoryLines(Vec<Line>),
    InsertHistoryCell { transcript: Vec<Line>, display: Vec<Line> },
    StartCommitAnimation,
    StopCommitAnimation,
    CommitTick,
    CodexEvent,
    /// The history of a conversation came, while `session_id` is the session of
    /// the chat.
    ConversationHistory { conversation_id: u128, session_id: Option<u128> },
    ExitRequest,
    CodexOp,
    DiffResult(String),
    StartFileSearch(String),
    FileSearchResult,
    UpdateReasoningEffort,
    UpdateModel,
    UpdateAskForApprovalPolicy,
    UpdateSandboxPolicy,
}

/// A key.
#[derive(Debug, Clone, Copy, PartialEq, Eq, Structural)]
pub enum KeyCode {
    Char(char),
    Esc,
    Enter,
    Other,
}

/// What happened to a key.
#[derive(Debug, Clone, Copy, PartialEq, Eq, Structural)]
pub enum KeyEventKind {
    Press,
    Repeat,
    Release,
}

/// The modifier bits of the control key alone.
pub const CONTROL: u8 = 2;

/// An event of the keyboard. `modifiers` has a bit for each modifier key.
#[derive(Debug, Clone, Copy, PartialEq, Eq)]
pub struct KeyEvent {
    pub code: KeyCode,
    pub modifiers: u8,
    pub kind: KeyEventKind,
}

/// An event of the terminal.
pub enum TuiEvent {
    Key(KeyEvent),
    Paste(String),
    Draw,
    AttachImage,
}

/// What the decisions read of the chat.
#[derive(Debug, Clone, Copy, PartialEq, Eq)]
pub struct ChatFacts {
    /// Whether the escape key goes back to an earlier message.
    pub normal_backtrack_mode: bool,
    /// Whether nothing is being composed.
    pub composer_empty: bool,
}

/// The lines of the pager that shows a diff.
#[derive(Debug, PartialEq, Eq)]
pub enum DiffPager {
    /// These lines.
    Lines(Vec<Line>),
    /// These texts, each to be read for its escape sequences.
    Escaped(Vec<String>),
}

/// The mathematical view of a `DiffPager`.
#[verifier::ext_equal]
pub enum DiffPagerView {
    Lines(Seq<LineView>),
    Escaped(Seq<Seq<char>>),
}

impl DeepView for DiffPager {
    type V = DiffPagerView;

    open spec fn deep_view(&self) -> DiffPagerView {
        match self {
            DiffPager::Lines(l) => DiffPagerView::Lines(l.deep_view()),
            DiffPager::Escaped(t) => DiffPagerView::Escaped(t.deep_view()),
        }
    }
}

/// What is to be done about an event. An action without a payload hands on what
/// the event carried.
#[derive(Debug, PartialEq, Eq)]
pub enum AppAction {
    /// Make a new chat.
    NewChatWidget,
    /// Ask for a frame to be drawn.
    ScheduleFrame,
    /// Tell the chat of its repository.
    ApplyRepoInfo,
    /// Insert lines into the transcript that is open.
    OverlayLines(Vec<Line>),
    /// Insert lines into the main view.
    HistoryLines(Vec<Line>),
    /// Start the thread that sends ticks.
    StartTicker,
    /// Stop the thread that sends ticks.
    StopTicker,
    /// Tell the chat of a tick.
    CommitTick,
    /// Hand an event of the conversation to the chat.
    HandleCodexEvent,
    /// Go back to an earlier message in the history that came.
    BacktrackHistory,
    /// Show the history that came, of the session resumed from the path.
    RenderResumed(Vec<u8>),
    /// Submit an operation.
    SubmitOp,
    /// Tell the chat that the diff is complete.
    DiffComplete,
    /// Enter the alternate screen.
    EnterAltScreen,
    /// Open a pager under a title.
    OpenPager { pager: DiffPager, title: String },
    /// Search files.
    SearchFiles(String),
    /// Tell the chat what the search found.
    ApplyFileSearchResult,
    /// Tell the chat of the effort.
    SetReasoningEffort,
    /// Tell the chat of the model.
    SetModel,
    /// Tell the chat of the approval policy.
    SetApprovalPolicy,
    /// Tell the chat of the sandbox policy.
    SetSandboxPolicy,
    /// Hand the event to what covers the main view.
    OverlayEvent,
    /// Hand pasted text to the chat.
    HandlePaste(String),
    /// Let the chat go on with a burst of pasted text.
    PasteBurstTick,
    /// Draw the chat.
    Draw,
    /// Hand an image to the chat.
    AttachImage,
    /// Open the transcript.
    OpenTranscript(Vec<Line>),
    /// Go one message back.
    BacktrackEsc,
    /// Go back to the message that was chosen.
    ConfirmBacktrack,
    /// Forget about going back.
    ResetBacktrack,
    /// Hand the key to the chat.
    HandleKey,
}

/// The mathematical view of an `AppAction`.
#[verifier::ext_equal]
pub enum AppActionView {
    NewChatWidget,
    ScheduleFrame,
    ApplyRepoInfo,
    OverlayLines(Seq<LineView>),
    HistoryLines(Seq<LineView>),
    StartTicker,
    StopTicker,
    CommitTick,
    HandleCodexEvent,
    BacktrackHistory,
    RenderResumed(Seq<u8>),
    SubmitOp,
    DiffComplete,
    EnterAltScreen,
    OpenPager { pager: DiffPagerView, title: Seq<char> },
    SearchFiles(Seq<char>),
    ApplyFileSearchResult,
    SetReasoningEffort,
    SetModel,
    SetApprovalPolicy,
    SetSandboxPolicy,
    OverlayEvent,
    HandlePaste(Seq<char>),
    PasteBurstTick,
    Draw,
    AttachImage,
    OpenTranscript(Seq<LineView>),
    BacktrackEsc,
    ConfirmBacktrack,
    ResetBacktrack,
    HandleKey,
}

impl DeepView for AppAction {
    type V = AppActionView;

    open spec fn deep_view(&self) -> AppActionView {
        match self {
            AppAction::NewChatWidget => AppActionView::NewChatWidget,
            AppAction::ScheduleFrame => AppActionView::ScheduleFrame,
            AppAction::ApplyRepoInfo => AppActionView::ApplyRepoInfo,
            AppAction::OverlayLines(l) => AppActionView::OverlayLines(l.deep_view()),
            AppAction::HistoryLines(l) => AppActionView::HistoryLines(l.deep_view()),
            AppAction::StartTicker => AppActionView::StartTicker,
            AppAction::StopTicker => AppActionView::StopTicker,
            AppAction::CommitTick => AppActionView::CommitTick,
            AppAction::HandleCodexEvent => AppActionView::HandleCodexEvent,
            AppAction::BacktrackHistory => AppActionView::BacktrackHistory,
            AppAction::RenderResumed(p) => AppActionView::RenderResumed(p.deep_view()),
            AppAction::SubmitOp => AppActionView::SubmitOp,
            AppAction::DiffComplete => AppActionView::DiffComplete,
            AppAction::EnterAltScreen => AppActionView::EnterAltScreen,
            AppAction::OpenPager { pager, title } => AppActionView::OpenPager {
                pager: pager.deep_view(),
                title: title@,
            },
            AppAction::SearchFiles(q) => AppActionView::SearchFiles(q@),
            AppAction::ApplyFileSearchResult => AppActionView::ApplyFileSearchResult,
            AppAction::SetReasoningEffort => AppActionView::SetReasoningEffort,
            AppAction::SetModel => AppActionView::SetModel,
            AppAction::SetApprovalPolicy => AppActionView::SetApprovalPolicy,
            AppAction::SetSandboxPolicy => AppActionView::SetSandboxPolicy,
            AppAction::OverlayEvent => AppActionView::OverlayEvent,
            AppAction::HandlePaste(t) => AppActionView::HandlePaste(t@),
            AppAction::PasteBurstTick => AppActionView::PasteBurstTick,
            AppAction::Draw => AppActionView::Draw,
            AppAction::AttachImage => AppActionView::AttachImage,
            AppAction::OpenTranscript(l) => AppActionView::OpenTranscript(l.deep_view()),
            AppAction::BacktrackEsc => AppActionView::BacktrackEsc,
            AppAction::ConfirmBacktrack => AppActionView::ConfirmBacktrack,
            AppAction::ResetBacktrack => AppActionView::ResetBacktrack,
            AppAction::HandleKey => AppActionView::HandleKey,
        }
    }
}

/// What an event comes to: the state after it, what is to be done, and whether
/// the client goes on.
#[verifier::ext_equal]
pub struct Step {
    pub app: AppView,
    pub actions: Seq<AppActionView>,
    pub go_on: bool,
}

/// The client goes on in the state `app`.
pub open spec fn go_on(app: AppView, actions: Seq<AppActionView>) -> Step {
    Step { app, actions, go_on: true }
}

/// The pager that shows the diff `t`.
pub open spec fn diff_pager(t: Seq<char>) -> DiffPagerView {
    if text::trimmed(t).len() == 0 {
        DiffPagerView::Lines(
            seq![lines::line_of(seq![lines::styled("No changes detected."@, None, ITALIC)])],
        )
    } else {
        DiffPagerView::Escaped(text::lines_of(t))
    }
}

/// The state after lines came into the history: `transcript` go to the
/// transcript, and `display` wait where the main view is covered.
pub open spec fn with_history(
    app: AppView,
    transcript: Seq<LineView>,
    display: Seq<LineView>,
) -> AppView {
    AppView {
        transcript_lines: app.transcript_lines + transcript,
        deferred_history_lines: if app.overlay is Some {
            app.deferred_history_lines + display
        } else {
            app.deferred_history_lines
        },
        ..app
    }
}

/// What is to be done where the transcript is open and lines come into it.
pub open spec fn overlay_actions(app: AppView, transcript: Seq<LineView>) -> Seq<AppActionView> {
    if app.overlay == Some(Overlay::Transcript) {
        seq![AppActionView::OverlayLines(transcript), AppActionView::ScheduleFrame]
    } else {
        Seq::empty()
    }
}

/// What an event of the client comes to.
pub open spec fn on_event(app: AppView, event: AppEvent) -> Step {
    match event {
        AppEvent::NewSession => go_on(
            app,
            seq![AppActionView::NewChatWidget, AppActionView::ScheduleFrame],
        ),
        AppEvent::UpdateRepoInfo => go_on(app, seq![AppActionView::ApplyRepoInfo]),
        AppEvent::ResumeSession(path) => go_on(
            AppView { experimental_resume: Some(path.deep_view()), ..app },
            seq![AppActionView::NewChatWidget, AppActionView::ScheduleFrame],
        ),
        AppEvent::InsertHistoryLines(lines) => {
            let l = lines.deep_view();
            go_on(
                with_history(app, l, l),
                overlay_actions(app, l) + if app.overlay is Some {
                    Seq::empty()
                } else {
                    seq![AppActionView::HistoryLines(l)]
                },
            )
        },
        AppEvent::InsertHistoryCell { transcript, display } => {
            let t = transcript.deep_view();
            let d = display.deep_view();
            go_on(
                with_history(app, t, d),
                overlay_actions(app, t) + if app.overlay is Some || d.len() == 0 {
                    Seq::empty()
                } else {
                    seq![AppActionView::HistoryLines(d)]
                },
            )
        },
        AppEvent::StartCommitAnimation => go_on(
            AppView { commit_anim_running: true, ..app },
            if app.commit_anim_running {
                Seq::empty()
            } else {
                seq![AppActionView::StartTicker]
            },
        ),
        AppEvent::StopCommitAnimation => go_on(
            AppView { commit_anim_running: false, ..app },
            seq![AppActionView::StopTicker],
        ),
        AppEvent::CommitTick => go_on(app, seq![AppActionView::CommitTick]),
        AppEvent::CodexEvent => go_on(app, seq![AppActionView::HandleCodexEvent]),
        AppEvent::ConversationHistory { conversation_id, session_id } => {
            if app.backtrack.pending {
                go_on(app, seq![AppActionView::BacktrackHistory])
            } else {
                match app.experimental_resume {
                    Some(path) => if session_id == Some(conversation_id) {
                        go_on(
                            AppView { experimental_resume: None, ..app },
                            seq![AppActionView::RenderResumed(path)],
                        )
                    } else {
                        go_on(app, Seq::empty())
                    },
                    None => go_on(app, Seq::empty()),
                }
            }
        },
        AppEvent::ExitRequest => Step { app, actions: Seq::empty(), go_on: false },
        AppEvent::CodexOp => go_on(app, seq![AppActionView::SubmitOp]),
        AppEvent::DiffResult(t) => go_on(
            AppView { overlay: Some(Overlay::Static), ..app },
            seq![
                AppActionView::DiffComplete,
                AppActionView::EnterAltScreen,
                AppActionView::OpenPager { pager: diff_pager(t@), title: "D I F F"@ },
                AppActionView::ScheduleFrame,
            ],
        ),
        AppEvent::StartFileSearch(query) => go_on(
            app,
            if query@.len() == 0 {
                Seq::empty()
            } else {
                seq![AppActionView::SearchFiles(query@)]
            },
        ),
        AppEvent::FileSearchResult => go_on(app, seq![AppActionView::ApplyFileSearchResult]),
        AppEvent::UpdateReasoningEffort => go_on(app, seq![AppActionView::SetReasoningEffort]),
        AppEvent::UpdateModel => go_on(app, seq![AppActionView::SetModel]),
        AppEvent::UpdateAskForApprovalPolicy => go_on(app, seq![AppActionView::SetApprovalPolicy]),
        AppEvent::UpdateSandboxPolicy => go_on(app, seq![AppActionView::SetSandboxPolicy]),
    }
}

/// Whether a key is Ctrl-T, pressed.
pub open spec fn opens_transcript(key: KeyEvent) -> bool {
    key.code == KeyCode::Char('t') && key.modifiers == CONTROL && key.kind == KeyEventKind::Press
}

/// What a key comes to while nothing covers the main view.
pub open spec fn on_key(app: AppView, key: KeyEvent, chat: ChatFacts) -> Step {
    if opens_transcript(key) {
        go_on(
            AppView { overlay: Some(Overlay::Transcript), ..app },
            seq![
                AppActionView::EnterAltScreen,
                AppActionView::OpenTranscript(app.transcript_lines),
                AppActionView::ScheduleFrame,
            ],
        )
    } else if key.kind == KeyEventKind::Release {
        go_on(app, Seq::empty())
    } else if key.code == KeyCode::Esc {
        go_on(
            app,
            if chat.normal_backtrack_mode && chat.composer_empty {
                seq![AppActionView::BacktrackEsc]
            } else {
                seq![AppActionView::HandleKey]
            },
        )
    } else if key.code == KeyCode::Enter && key.kind == KeyEventKind::Press && app.backtrack.primed
        && app.backtrack.count > 0 && chat.composer_empty {
        go_on(app, seq![AppActionView::ConfirmBacktrack])
    } else if app.backtrack.primed {
        go_on(app, seq![AppActionView::ResetBacktrack, AppActionView::HandleKey])
    } else {
        go_on(app, seq![AppActionView::HandleKey])
    }
}

/// What an event of the terminal comes to.
pub open spec fn on_tui_event(app: AppView, event: TuiEvent, chat: ChatFacts) -> Step {
    if app.overlay is Some {
        go_on(app, seq![AppActionView::OverlayEvent])
    } else {
        match event {
            TuiEvent::Key(key) => on_key(app, key, chat),
            TuiEvent::Paste(pasted) => go_on(
                app,
                seq![AppActionView::HandlePaste(text::replaced(pasted@, '\r', '\n'))],
            ),
            TuiEvent::Draw => go_on(app, seq![AppActionView::PasteBurstTick]),
            TuiEvent::AttachImage => go_on(app, seq![AppActionView::AttachImage]),
        }
    }
}

/// The notice that a session of `n` items was restored.
pub open spec fn restored_notice(n: nat) -> Seq<LineView> {
    seq![
        lines::blank(),
        lines::line_of(
            seq![
                lines::styled("Restored session"@, Some(Color::Magenta), BOLD),
                lines::raw(" — "@),
                lines::styled(text::decimal(n) + " messages"@, Some(Color::Cyan), 0),
                lines::styled(" • Press Ctrl-T to view transcript"@, None, DIM),
            ],
        ),
    ]
}

/// What showing a restored history comes to: its lines go to the transcript
/// alone, and the main view gets a notice.
pub open spec fn on_restored(app: AppView, restored: Seq<LineView>, n: nat) -> Step {
    go_on(
        AppView { transcript_lines: app.transcript_lines + restored, ..app },
        seq![AppActionView::HistoryLines(restored_notice(n)), AppActionView::ScheduleFrame],
    )
}

/// What is to be done once the chat went on with a burst of pasted text.
pub open spec fn after_burst(took_frame: bool) -> Seq<AppActionView> {
    if took_frame {
        Seq::empty()
    } else {
        seq![AppActionView::Draw]
    }
}

/// The state of the client at its start.
pub open spec fn at_start(experimental_resume: Option<Seq<u8>>) -> AppView {
    AppView {
        transcript_lines: Seq::empty(),
        overlay: None,
        deferred_history_lines: Seq::empty(),
        commit_anim_running: false,
        experimental_resume,
        backtrack: (BacktrackState { primed: false, count: 0, pending: false }),
    }
}

/// Appends `action` to `actions`.
fn act(actions: &mut Vec<AppAction>, action: AppAction)
    ensures
        final(actions).deep_view() == old(actions).deep_view().push(action.deep_view()),
{
    let ghost before = actions.deep_view();
    actions.push(action);
    assert(actions.deep_view() == before.push(action.deep_view()));
}

/// No action yet.
fn no_actions() -> (r: Vec<AppAction>)
    ensures
        r.deep_view() == Seq::<AppActionView>::empty(),
{
    let r: Vec<AppAction> = Vec::new();
    assert(r.deep_view() == Seq::<AppActionView>::empty());
    r
}

/// The pager that shows the diff `t`.
pub fn pager_for_diff(t: &str) -> (r: DiffPager)
    ensures
        r.deep_view() == diff_pager(t@),
{
    let cs = chars_of(t);
    if trim(cs.as_slice()).len() == 0 {
        let line = Line::one(Span::styled("No changes detected.", None, ITALIC));
        let all = vec![line];
        assert(all.deep_view() == seq![line.deep_view()]);
        DiffPager::Lines(all)
    } else {
        DiffPager::Escaped(text::lines(cs.as_slice()))
    }
}

impl App {
    /// The client at its start.
    pub fn new(experimental_resume: Option<Vec<u8>>) -> (r: App)
        ensures
            r@ == at_start(experimental_resume.deep_view()),
            r@ == (AppView {
                transcript_lines: Seq::empty(),
                overlay: None,
                deferred_history_lines: Seq::empty(),
                commit_anim_running: false,
                experimental_resume: experimental_resume.deep_view(),
                backtrack: (BacktrackState { primed: false, count: 0, pending: false }),
            }),
    {
        let r = App {
            transcript_lines: Vec::new(),
            overlay: None,
            deferred_history_lines: Vec::new(),
            commit_anim_running: false,
            experimental_resume,
            backtrack: BacktrackState { primed: false, count: 0, pending: false },
        };
        assert(r@.transcript_lines == Seq::<LineView>::empty());
        assert(r@.deferred_history_lines == Seq::<LineView>::empty());
        r
    }

    /// Takes lines into the history. `transcript` go to the transcript; `display`
    /// wait where the main view is covered.
    fn take_history(&mut self, actions: &mut Vec<AppAction>, transcript: &Vec<Line>, display: &Vec<Line>)
        ensures
            final(self)@ == with_history(old(self)@, transcript.deep_view(), display.deep_view()),
            final(actions).deep_view() == old(actions).deep_view() + overlay_actions(
                old(self)@,
                transcript.deep_view(),
            ),
    {
        if let Some(Overlay::Transcript) = self.overlay {
            act(actions, AppAction::OverlayLines(duplicate(transcript)));
            act(actions, AppAction::ScheduleFrame);
        }
        extend(&mut self.transcript_lines, transcript);
        if self.overlay.is_some() {
            extend(&mut self.deferred_history_lines, display);
        }
    }

    /// Takes note of an event of the client. Returns what is to be done, and
    /// whether the client goes on.
    pub fn handle_event(&mut self, event: AppEvent) -> (r: (Vec<AppAction>, bool))
        ensures
            final(self)@ == on_event(old(self)@, event).app,
            r.0.deep_view() == on_event(old(self)@, event).actions,
            r.1 == on_event(old(self)@, event).go_on,
    {
        let mut actions = no_actions();
        match event {
            AppEvent::NewSession => {
                act(&mut actions, AppAction::NewChatWidget);
                act(&mut actions, AppAction::ScheduleFrame);
            },
            AppEvent::UpdateRepoInfo => {
                act(&mut actions, AppAction::ApplyRepoInfo);
            },
            AppEvent::ResumeSession(path) => {
                self.experimental_resume = Some(path);
                act(&mut actions, AppAction::NewChatWidget);
                act(&mut actions, AppAction::ScheduleFrame);
            },
            AppEvent::InsertHistoryLines(lines) => {
                self.take_history(&mut actions, &lines, &lines);
                if self.overlay.is_none() {
                    act(&mut actions, AppAction::HistoryLines(lines));
                }
            },
            AppEvent::InsertHistoryCell { transcript, display } => {
                self.take_history(&mut actions, &transcript, &display);
                if self.overlay.is_none() && display.len() > 0 {
                    act(&mut actions, AppAction::HistoryLines(display));
                }
            },
            AppEvent::StartCommitAnimation => {
                if !self.commit_anim_running {
                    self.commit_anim_running = true;
                    act(&mut actions, AppAction::StartTicker);
                }
            },
            AppEvent::StopCommitAnimation => {
                self.commit_anim_running = false;
                act(&mut actions, AppAction::StopTicker);
            },
            AppEvent::CommitTick => {
                act(&mut actions, AppAction::CommitTick);
            },
            AppEvent::CodexEvent => {
                act(&mut actions, AppAction::HandleCodexEvent);
            },
            AppEvent::ConversationHistory { conversation_id, session_id } => {
                let current = match session_id {
                    Some(id) => id == conversation_id,
                    None => false,
                };
                if self.backtrack.pending {
                    act(&mut actions, AppAction::BacktrackHistory);
                } else if current {
                    if let Some(path) = self.experimental_resume.take() {
                        act(&mut actions, AppAction::RenderResumed(path));
                    }
                }
            },
            AppEvent::ExitRequest => {
                return (actions, false);
            },
            AppEvent::CodexOp => {
                act(&mut actions, AppAction::SubmitOp);
            },
            AppEvent::DiffResult(t) => {
                act(&mut actions, AppAction::DiffComplete);
                act(&mut actions, AppAction::EnterAltScreen);
                let pager = pager_for_diff(t.as_str());
                self.overlay = Some(Overlay::Static);
                act(&mut actions, AppAction::OpenPager { pager, title: "D I F F".to_string() });
                act(&mut actions, AppAction::ScheduleFrame);
            },
            AppEvent::StartFileSearch(query) => {
                if !query.as_str().is_empty() {
                    act(&mut actions, AppAction::SearchFiles(query));
                }
            },
            AppEvent::FileSearchResult => {
                act(&mut actions, AppAction::ApplyFileSearchResult);
            },
            AppEvent::UpdateReasoningEffort => {
                act(&mut actions, AppAction::SetReasoningEffort);
            },
            AppEvent::UpdateModel => {
                act(&mut actions, AppAction::SetModel);
            },
            AppEvent::UpdateAskForApprovalPolicy => {
                act(&mut actions, AppAction::SetApprovalPolicy);
            },
            AppEvent::UpdateSandboxPolicy => {
                act(&mut actions, AppAction::SetSandboxPolicy);
            },
        }
        (actions, true)
    }

    /// Takes note of a key while nothing covers the main view. Returns what is to
    /// be done.
    pub fn handle_key_event(&mut self, key: KeyEvent, chat: ChatFacts) -> (r: Vec<AppAction>)
        ensures
            final(self)@ == on_key(old(self)@, key, chat).app,
            r.deep_view() == on_key(old(self)@, key, chat).actions,
    {
        let mut actions = no_actions();
        if key.code == KeyCode::Char('t') && key.modifiers == CONTROL && key.kind
            == KeyEventKind::Press {
            act(&mut actions, AppAction::EnterAltScreen);
            self.overlay = Some(Overlay::Transcript);
            act(&mut actions, AppAction::OpenTranscript(duplicate(&self.transcript_lines)));
            act(&mut actions, AppAction::ScheduleFrame);
        } else if key.kind == KeyEventKind::Release {
        } else if key.code == KeyCode::Esc {
            if chat.normal_backtrack_mode && chat.composer_empty {
                act(&mut actions, AppAction::BacktrackEsc);
            } else {
                act(&mut actions, AppAction::HandleKey);
            }
        } else if key.code == KeyCode::Enter && key.kind == KeyEventKind::Press
            && self.backtrack.primed && self.backtrack.count > 0 && chat.composer_empty {
            act(&mut actions, AppAction::ConfirmBacktrack);
        } else {
            if self.backtrack.primed {
                act(&mut actions, AppAction::ResetBacktrack);
            }
            act(&mut actions, AppAction::HandleKey);
        }
        actions
    }

    /// Takes note of an event of the terminal. Returns what is to be done; the
    /// client goes on.
    pub fn handle_tui_event(&mut self, event: TuiEvent, chat: ChatFacts) -> (r: Vec<AppAction>)
        ensures
            final(self)@ == on_tui_event(old(self)@, event, chat).app,
            r.deep_view() == on_tui_event(old(self)@, event, chat).actions,
    {
        let mut actions = no_actions();
        if self.overlay.is_some() {
            act(&mut actions, AppAction::OverlayEvent);
            return actions;
        }
        match event {
            TuiEvent::Key(key) => {
                return self.handle_key_event(key, chat);
            },
            TuiEvent::Paste(pasted) => {
                let cs = chars_of(pasted.as_str());
                let cs = replace(cs.as_slice(), '\r', '\n');
                act(&mut actions, AppAction::HandlePaste(text_of(cs.as_slice())));
            },
            TuiEvent::Draw => {
                act(&mut actions, AppAction::PasteBurstTick);
            },
            TuiEvent::AttachImage => {
                act(&mut actions, AppAction::AttachImage);
            },
        }
        actions
    }

    /// What is to be done once the chat went on with a burst of pasted text: it is
    /// drawn, unless the burst took the frame.
    pub fn after_paste_burst_tick(&self, took_frame: bool) -> (r: Vec<AppAction>)
        ensures
            r.deep_view() == after_burst(took_frame),
            r.deep_view() == if took_frame {
                Seq::empty()
            } else {
                seq![AppActionView::Draw]
            },
    {
        let mut actions = no_actions();
        if !took_frame {
            act(&mut actions, AppAction::Draw);
        }
        actions
    }

    /// Shows the restored history `entries`: its lines go to the transcript, and
    /// the main view gets a notice. `rendered[i]` are the lines made for the
    /// `i`-th of the texts of `entries`. Returns what is to be done.
    pub fn render_resumed_history(
        &mut self,
        entries: &Vec<ResponseItem>,
        resume: Option<&Resume>,
        rendered: &Vec<Vec<Line>>,
    ) -> (r: Vec<AppAction>)
        requires
            history::renderable(entries@),
        ensures
            ({
                let restored = history::resumed_lines(
                    entries@,
                    match resume {
                        Some(r) => Some(*r),
                        None => None,
                    },
                    rendered.deep_view(),
                );
                let step = on_restored(old(self)@, restored, entries@.len());
                &&& final(self)@ == step.app
                &&& r.deep_view() == step.actions
            }),
    {
        let restored = render_lines_for_resumed_history(entries, resume, rendered);
        extend(&mut self.transcript_lines, &restored);
        let mut count = decimal_text(entries.len() as u64);
        count.append(" messages");
        let spans = vec![
            Span::styled("Restored session", Some(Color::Magenta), BOLD),
            Span::raw(" — "),
            Span::styled(count.as_str(), Some(Color::Cyan), 0),
            Span::styled(" • Press Ctrl-T to view transcript", None, DIM),
        ];
        assert(spans.deep_view() == restored_notice(entries@.len())[1].spans);
        let notice = vec![Line::blank(), Line::of(spans)];
        assert(notice.deep_view() == restored_notice(entries@.len()));
        let mut actions = no_actions();
        act(&mut actions, AppAction::HistoryLines(notice));
        act(&mut actions, AppAction::ScheduleFrame);
        actions
    }
}

/// The client ends on a request to exit, and on nothing else.
pub proof fn law_only_exit_ends(app: AppView, event: AppEvent)
    ensures
        !on_event(app, event).go_on <==> event is ExitRequest,
{
}

/// The transcript only grows, and so do the lines that wait.
pub proof fn law_history_grows(app: AppView, event: AppEvent)
    ensures
        app.transcript_lines.is_prefix_of(on_event(app, event).app.transcript_lines),
        app.deferred_history_lines.is_prefix_of(on_event(app, event).app.deferred_history_lines),
{
}

/// Lines that come into the history go to the transcript, and either to the main
/// view or, where it is covered, to the lines that wait.
pub proof fn law_lines_shown_or_deferred(app: AppView, lines: Vec<Line>)
    ensures
        ({
            let step = on_event(app, AppEvent::InsertHistoryLines(lines));
            let l = lines.deep_view();
            &&& step.app.transcript_lines == app.transcript_lines + l
            &&& step.actions.contains(AppActionView::HistoryLines(l)) <==> app.overlay is None
            &&& app.overlay is Some ==> step.app.deferred_history_lines
                == app.deferred_history_lines + l
            &&& app.overlay is None ==> step.app.deferred_history_lines
                == app.deferred_history_lines
        }),
{
    let step = on_event(app, AppEvent::InsertHistoryLines(lines));
    if app.overlay is None {
        assert(step.actions[0] == AppActionView::HistoryLines(lines.deep_view()));
    }
}

/// A cell that comes into the history has its transcript in the transcript, and
/// its display, if it has one, either in the main view or, where that is covered,
/// among the lines that wait.
pub proof fn law_cell_shown_or_deferred(app: AppView, transcript: Vec<Line>, display: Vec<Line>)
    ensures
        ({
            let step = on_event(app, AppEvent::InsertHistoryCell { transcript, display });
            let d = display.deep_view();
            &&& step.app.transcript_lines == app.transcript_lines + transcript.deep_view()
            &&& step.actions.contains(AppActionView::HistoryLines(d)) <==> app.overlay is None
                && d.len() > 0
            &&& app.overlay is Some ==> step.app.deferred_history_lines
                == app.deferred_history_lines + d
            &&& app.overlay is None ==> step.app.deferred_history_lines
                == app.deferred_history_lines
        }),
{
    let step = on_event(app, AppEvent::InsertHistoryCell { transcript, display });
    if app.overlay is None && display.deep_view().len() > 0 {
        assert(step.actions[0] == AppActionView::HistoryLines(display.deep_view()));
    }
}

/// A transcript that is open follows: what comes into the transcript comes into
/// the open one, and a frame is drawn.
pub proof fn law_open_transcript_follows(app: AppView, transcript: Vec<Line>, display: Vec<Line>)
    requires
        app.overlay == Some(Overlay::Transcript),
    ensures
        ({
            let t = transcript.deep_view();
            let follow = seq![AppActionView::OverlayLines(t), AppActionView::ScheduleFrame];
            &&& on_event(app, AppEvent::InsertHistoryLines(transcript)).actions == follow
            &&& on_event(app, AppEvent::InsertHistoryCell { transcript, display }).actions == follow
        }),
{
}

/// The thread that sends ticks is started exactly where it did not run.
pub proof fn law_ticker_started_once(app: AppView)
    ensures
        ({
            let first = on_event(app, AppEvent::StartCommitAnimation);
            let second = on_event(first.app, AppEvent::StartCommitAnimation);
            let stopped = on_event(first.app, AppEvent::StopCommitAnimation);
            let third = on_event(stopped.app, AppEvent::StartCommitAnimation);
            &&& first.actions.contains(AppActionView::StartTicker) <==> !app.commit_anim_running
            &&& first.app.commit_anim_running
            &&& second == go_on(first.app, Seq::empty())
            &&& !stopped.app.commit_anim_running
            &&& third.actions == seq![AppActionView::StartTicker]
        }),
{
    if !app.commit_anim_running {
        assert(on_event(app, AppEvent::StartCommitAnimation).actions[0]
            == AppActionView::StartTicker);
    }
}

/// The history of a resumed session is shown once: after it was, no history that
/// comes is shown until another session is resumed.
pub proof fn law_resumed_once(
    app: AppView,
    conversation_id: u128,
    session_id: Option<u128>,
    other_id: u128,
    other_session: Option<u128>,
    path: Seq<u8>,
)
    requires
        on_event(
            app,
            AppEvent::ConversationHistory { conversation_id, session_id },
        ).actions == seq![AppActionView::RenderResumed(path)],
    ensures
        app.experimental_resume == Some(path),
        on_event(
            on_event(app, AppEvent::ConversationHistory { conversation_id, session_id }).app,
            AppEvent::ConversationHistory { conversation_id: other_id, session_id: other_session },
        ).actions == Seq::<AppActionView>::empty(),
{
    let step = on_event(app, AppEvent::ConversationHistory { conversation_id, session_id });
    assert(step.actions[0] == AppActionView::RenderResumed(path));
}

/// While going back to an earlier message waits for a history, a history that
/// comes is for that, and the session that is resumed keeps waiting for its own.
pub proof fn law_backtrack_first(app: AppView, conversation_id: u128, session_id: Option<u128>)
    requires
        app.backtrack.pending,
    ensures
        on_event(app, AppEvent::ConversationHistory { conversation_id, session_id }) == go_on(
            app,
            seq![AppActionView::BacktrackHistory],
        ),
{
}

/// No event but resuming a session sets what a session is resumed from.
pub proof fn law_resume_set_by_resuming(app: AppView, event: AppEvent)
    requires
        app.experimental_resume is None,
        !(event is ResumeSession),
    ensures
        on_event(app, event).app.experimental_resume is None,
{
}

/// A key that is released does nothing.
pub proof fn law_release_ignored(app: AppView, key: KeyEvent, chat: ChatFacts)
    requires
        key.kind == KeyEventKind::Release,
    ensures
        on_key(app, key, chat) == go_on(app, Seq::empty()),
{
}

/// While the escape key has been pressed once, every other key that goes to the
/// chat first makes the client forget about going back.
pub proof fn law_other_keys_forget(app: AppView, key: KeyEvent, chat: ChatFacts)
    requires
        app.backtrack.primed,
        key.code != KeyCode::Esc,
        on_key(app, key, chat).actions.contains(AppActionView::HandleKey),
    ensures
        on_key(app, key, chat).actions == seq![
            AppActionView::ResetBacktrack,
            AppActionView::HandleKey,
        ],
{
}

/// Events of the terminal leave the history as it is, and what a session is
/// resumed from.
pub proof fn law_terminal_keeps_history(app: AppView, event: TuiEvent, chat: ChatFacts)
    ensures
        ({
            let after = on_tui_event(app, event, chat).app;
            after == AppView { overlay: after.overlay, ..app }
        }),
{
}

/// Pasted text reaches the chat with as many characters, and without a carriage
/// return; what had none is left as it is.
pub proof fn law_paste_without_returns(pasted: Seq<char>)
    ensures
        text::replaced(pasted, '\r', '\n').len() == pasted.len(),
        !text::replaced(pasted, '\r', '\n').contains('\r'),
        !pasted.contains('\r') ==> text::replaced(pasted, '\r', '\n') == pasted,
{
}

/// A restored history is out of the main view but for a notice of two lines, and
/// in the transcript that Ctrl-T opens.
pub proof fn law_restored_in_transcript(
    app: AppView,
    restored: Seq<LineView>,
    n: nat,
    key: KeyEvent,
    chat: ChatFacts,
)
    requires
        opens_transcript(key),
    ensures
        on_restored(app, restored, n).actions[0] == AppActionView::HistoryLines(restored_notice(n)),
        restored_notice(n).len() == 2,
        on_key(on_restored(app, restored, n).app, key, chat).actions[1]
            == AppActionView::OpenTranscript(app.transcript_lines + restored),
{
}

/// While something covers the main view, it gets every event of the terminal, and
/// the state stays.
pub proof fn law_overlay_first(app: AppView, event: TuiEvent, chat: ChatFacts)
    requires
        app.overlay is Some,
    ensures
        on_tui_event(app, event, chat) == go_on(app, seq![AppActionView::OverlayEvent]),
{
}

/// Every key that is pressed or repeated while nothing covers the main view reaches
/// the chat, last and once, unless it is Ctrl-T pressed, an escape that goes back,
/// or an Enter that confirms going back.
pub proof fn law_keys_reach_chat(app: AppView, key: KeyEvent, chat: ChatFacts)
    requires
        app.overlay is None,
        key.kind != KeyEventKind::Release,
        !(key.code == KeyCode::Char('t') && key.modifiers == 2 && key.kind == KeyEventKind::Press),
        !(key.code == KeyCode::Esc && chat.normal_backtrack_mode && chat.composer_empty),
        !(key.code == KeyCode::Enter && key.kind == KeyEventKind::Press && app.backtrack.primed
            && app.backtrack.count > 0 && chat.composer_empty),
    ensures
        ({
            let step = on_tui_event(app, TuiEvent::Key(key), chat);
            &&& step.actions.contains(AppActionView::HandleKey)
            &&& step.actions.last() == AppActionView::HandleKey
            &&& step.actions.len() == if app.backtrack.primed && key.code != KeyCode::Esc {
                2nat
            } else {
                1
            }
            &&& app.backtrack.primed && key.code != KeyCode::Esc ==> step.actions[0]
                == AppActionView::ResetBacktrack
            &&& step.app == app
            &&& step == on_key(app, key, chat)
        }),
{
    let step = on_tui_event(app, TuiEvent::Key(key), chat);
    assert(step.actions[step.actions.len() - 1] == AppActionView::HandleKey);
}

/// Escape goes one message back where going back is the chat's mode and nothing is
/// being composed.
pub proof fn law_escape_goes_back(app: AppView, key: KeyEvent, chat: ChatFacts)
    requires
        app.overlay is None,
        key.code == KeyCode::Esc,
        key.kind != KeyEventKind::Release,
        chat.normal_backtrack_mode,
        chat.composer_empty,
    ensures
        on_tui_event(app, TuiEvent::Key(key), chat) == on_key(app, key, chat),
        on_key(app, key, chat).actions == seq![AppActionView::BacktrackEsc],
        on_key(app, key, chat).app == app,
{
}

/// Enter confirms the message that was gone back to, where one was and nothing is
/// being composed.
pub proof fn law_enter_confirms(app: AppView, key: KeyEvent, chat: ChatFacts)
    requires
        app.overlay is None,
        key.code == KeyCode::Enter,
        key.kind == KeyEventKind::Press,
        app.backtrack.primed,
        app.backtrack.count > 0,
        chat.composer_empty,
    ensures
        on_tui_event(app, TuiEvent::Key(key), chat) == on_key(app, key, chat),
        on_key(app, key, chat).actions == seq![AppActionView::ConfirmBacktrack],
        on_key(app, key, chat).app == app,
{
}

/// Ctrl-T, pressed, opens the whole transcript on the alternate screen and covers
/// the main view with it; no other key covers it.
pub proof fn law_control_t(app: AppView, key: KeyEvent, chat: ChatFacts)
    requires
        app.overlay is None,
    ensures
        ({
            let step = on_tui_event(app, TuiEvent::Key(key), chat);
            let opens = key.code == KeyCode::Char('t') && key.modifiers == 2 && key.kind
                == KeyEventKind::Press;
            &&& step == on_key(app, key, chat)
            &&& step.app.overlay == if opens {
                Some(Overlay::Transcript)
            } else {
                None
            }
            &&& step.app == (AppView { overlay: step.app.overlay, ..app })
            &&& opens ==> step.actions == seq![
                AppActionView::EnterAltScreen,
                AppActionView::OpenTranscript(app.transcript_lines),
                AppActionView::ScheduleFrame,
            ]
        }),
{
}

/// While nothing covers the main view, pasted text goes to the chat with a line feed
/// for each carriage return and every other character as it is; a frame lets the
/// chat go on with a burst; an image goes to the chat.
pub proof fn law_other_terminal_events(app: AppView, pasted: String, chat: ChatFacts)
    requires
        app.overlay is None,
    ensures
        ({
            let paste = on_tui_event(app, TuiEvent::Paste(pasted), chat);
            let draw = on_tui_event(app, TuiEvent::Draw, chat);
            let image = on_tui_event(app, TuiEvent::AttachImage, chat);
            &&& paste.app == app && draw.app == app && image.app == app
            &&& paste.actions.len() == 1
            &&& paste.actions[0] matches AppActionView::HandlePaste(t) && {
                &&& t.len() == pasted@.len()
                &&& forall|i: int|
                    0 <= i < t.len() ==> #[trigger] t[i] == if pasted@[i] == '\r' {
                        '\n'
                    } else {
                        pasted@[i]
                    }
            }
            &&& draw.actions == seq![AppActionView::PasteBurstTick]
            &&& image.actions == seq![AppActionView::AttachImage]
        }),
{
}

/// What an event carries for others is handed on, once, and nothing else changes.
pub proof fn law_events_handed_on(app: AppView)
    ensures
        on_event(app, AppEvent::UpdateRepoInfo) == go_on(app, seq![AppActionView::ApplyRepoInfo]),
        on_event(app, AppEvent::CommitTick) == go_on(app, seq![AppActionView::CommitTick]),
        on_event(app, AppEvent::CodexEvent) == go_on(app, seq![AppActionView::HandleCodexEvent]),
        on_event(app, AppEvent::CodexOp) == go_on(app, seq![AppActionView::SubmitOp]),
        on_event(app, AppEvent::FileSearchResult) == go_on(
            app,
            seq![AppActionView::ApplyFileSearchResult],
        ),
        on_event(app, AppEvent::UpdateReasoningEffort) == go_on(
            app,
            seq![AppActionView::SetReasoningEffort],
        ),
        on_event(app, AppEvent::UpdateModel) == go_on(app, seq![AppActionView::SetModel]),
        on_event(app, AppEvent::UpdateAskForApprovalPolicy) == go_on(
            app,
            seq![AppActionView::SetApprovalPolicy],
        ),
        on_event(app, AppEvent::UpdateSandboxPolicy) == go_on(
            app,
            seq![AppActionView::SetSandboxPolicy],
        ),
        go_on(app, Seq::empty()).app == app,
        go_on(app, Seq::empty()).go_on,
        forall|actions: Seq<AppActionView>| (#[trigger] go_on(app, actions)).actions == actions,
{
}

/// A new chat is made and drawn for a new session and for one that is resumed; the
/// path of the latter is kept, and nothing else changes.
pub proof fn law_sessions_begin(app: AppView, path: Vec<u8>)
    ensures
        ({
            let fresh = on_event(app, AppEvent::NewSession);
            let resumed = on_event(app, AppEvent::ResumeSession(path));
            &&& fresh.app == app
            &&& fresh.actions == seq![AppActionView::NewChatWidget, AppActionView::ScheduleFrame]
            &&& resumed.app == (AppView { experimental_resume: Some(path@), ..app })
            &&& resumed.actions == seq![AppActionView::NewChatWidget, AppActionView::ScheduleFrame]
        }),
{
    assert(path.deep_view() =~= path@);
}

/// Files are searched for every query but the empty one.
pub proof fn law_search(app: AppView, query: String)
    ensures
        on_event(app, AppEvent::StartFileSearch(query)).app == app,
        query@.len() > 0 ==> on_event(app, AppEvent::StartFileSearch(query)).actions == seq![
            AppActionView::SearchFiles(query@),
        ],
        query@.len() == 0 ==> on_event(app, AppEvent::StartFileSearch(query)).actions.len() == 0,
{
}

/// A diff is shown over the main view, under its title: its lines, or, where it is
/// blank, that there are no changes.
pub proof fn law_diff_shown(app: AppView, diff: String)
    ensures
        ({
            let step = on_event(app, AppEvent::DiffResult(diff));
            &&& step.app == (AppView { overlay: Some(Overlay::Static), ..app })
            &&& step.actions.len() == 4
            &&& step.actions[0] == AppActionView::DiffComplete
            &&& step.actions[1] == AppActionView::EnterAltScreen
            &&& step.actions[2] matches AppActionView::OpenPager { pager, title } && title
                == "D I F F"@ && if (forall|i: int|
                0 <= i < diff@.len() ==> text::is_space(#[trigger] diff@[i])) {
                pager matches DiffPagerView::Lines(l) && {
                    &&& l.len() == 1
                    &&& l[0] == lines::line_of(
                        seq![lines::styled("No changes detected."@, None, 4)],
                    )
                }
            } else {
                pager == DiffPagerView::Escaped(text::lines_of(diff@))
            }
            &&& step.actions[3] == AppActionView::ScheduleFrame
        }),
{
    text::lemma_blank(diff@);
}

/// A history that comes for the session of the chat is shown where a session is
/// being resumed and going back waits for none; any other is not, and the path is
/// kept. Nothing else changes.
pub proof fn law_history_shown(app: AppView, conversation_id: u128, session_id: Option<u128>)
    requires
        !app.backtrack.pending,
    ensures
        ({
            let step = on_event(app, AppEvent::ConversationHistory { conversation_id, session_id });
            let shown = session_id == Some(conversation_id) && app.experimental_resume is Some;
            &&& shown ==> step.actions == seq![
                AppActionView::RenderResumed(app.experimental_resume->0),
            ]
            &&& shown ==> step.app == (AppView { experimental_resume: None, ..app })
            &&& !shown ==> step.actions.len() == 0 && step.app == app
        }),
{
}

/// The ticker events change whether the ticker runs, and nothing else.
pub proof fn law_ticker_alone(app: AppView)
    ensures
        on_event(app, AppEvent::StartCommitAnimation).app == (AppView {
            commit_anim_running: true,
            ..app
        }),
        on_event(app, AppEvent::StartCommitAnimation).actions.len() == if app.commit_anim_running {
            0nat
        } else {
            1
        },
        on_event(app, AppEvent::StopCommitAnimation).app == (AppView {
            commit_anim_running: false,
            ..app
        }),
        on_event(app, AppEvent::StopCommitAnimation).actions == seq![AppActionView::StopTicker],
{
}

/// Lines that come into the history while nothing covers the main view are shown
/// in it, and that is all that is done; while something other than the transcript
/// covers it nothing is done.
pub proof fn law_history_actions(app: AppView, transcript: Vec<Line>, display: Vec<Line>)
    ensures
        ({
            let lines = on_event(app, AppEvent::InsertHistoryLines(transcript));
            let cell = on_event(app, AppEvent::InsertHistoryCell { transcript, display });
            &&& app.overlay is None ==> lines.actions == seq![
                AppActionView::HistoryLines(transcript.deep_view()),
            ]
            &&& app.overlay is None && display@.len() > 0 ==> cell.actions == seq![
                AppActionView::HistoryLines(display.deep_view()),
            ]
            &&& app.overlay is None && display@.len() == 0 ==> cell.actions.len() == 0
            &&& app.overlay == Some(Overlay::Static) ==> lines.actions.len() == 0
                && cell.actions.len() == 0
            &&& lines.app == (AppView {
                transcript_lines: lines.app.transcript_lines,
                deferred_history_lines: lines.app.deferred_history_lines,
                ..app
            })
            &&& cell.app == (AppView {
                transcript_lines: cell.app.transcript_lines,
                deferred_history_lines: cell.app.deferred_history_lines,
                ..app
            })
        }),
{
}

/// The notice of a restored session: an empty line, and one that tells of the
/// session, the number of its items in decimal notation, and the key that opens the
/// transcript.
pub proof fn law_notice(app: AppView, restored: Seq<LineView>, n: nat)
    ensures
        ({
            let step = on_restored(app, restored, n);
            let notice = restored_notice(n);
            let count = notice[1].spans[2];
            &&& step.actions == seq![
                AppActionView::HistoryLines(notice),
                AppActionView::ScheduleFrame,
            ]
            &&& step.app == (AppView {
                transcript_lines: app.transcript_lines + restored,
                ..app
            })
            &&& notice.len() == 2
            &&& notice[0] == lines::blank()
            &&& notice[1] == lines::line_of(notice[1].spans)
            &&& notice[1].spans.len() == 4
            &&& notice[1].spans[0] == lines::styled("Restored session"@, Some(Color::Magenta), 1)
            &&& notice[1].spans[1] == lines::raw(" — "@)
            &&& count == lines::styled(text::decimal(n) + " messages"@, Some(Color::Cyan), 0)
            &&& notice[1].spans[3] == lines::styled(
                " • Press Ctrl-T to view transcript"@,
                None,
                2,
            )
        }),
{
}

/// The view of a client leaves nothing out.
pub proof fn law_views_whole(app: App)
    ensures
        app@.transcript_lines.len() == app.transcript_lines@.len(),
        forall|i: int|
            0 <= i < app.transcript_lines@.len() ==> #[trigger] app@.transcript_lines[i]
                == app.transcript_lines@[i].deep_view(),
        app@.overlay == app.overlay,
        app@.deferred_history_lines.len() == app.deferred_history_lines@.len(),
        forall|i: int|
            0 <= i < app.deferred_history_lines@.len() ==> #[trigger] app@.deferred_history_lines[i]
                == app.deferred_history_lines@[i].deep_view(),
        app@.commit_anim_running == app.commit_anim_running,
        app@.experimental_resume is Some <==> app.experimental_resume is Some,
        app.experimental_resume is Some ==> app@.experimental_resume->0
            == app.experimental_resume->0@,
        app@.backtrack == app.backtrack,
{
    if app.experimental_resume is Some {
        assert(app.experimental_resume->0.deep_view() =~= app.experimental_resume->0@);
    }
}

/// The view of an action tells which action it is, and what it carries.
pub proof fn law_action_views(action: AppAction)
    ensures
        ({
            let v = action.deep_view();
            &&& v is NewChatWidget <==> action is NewChatWidget
            &&& v is ScheduleFrame <==> action is ScheduleFrame
            &&& v is ApplyRepoInfo <==> action is ApplyRepoInfo
            &&& v is OverlayLines <==> action is OverlayLines
            &&& v is HistoryLines <==> action is HistoryLines
            &&& v is StartTicker <==> action is StartTicker
            &&& v is StopTicker <==> action is StopTicker
            &&& v is CommitTick <==> action is CommitTick
            &&& v is HandleCodexEvent <==> action is HandleCodexEvent
            &&& v is BacktrackHistory <==> action is BacktrackHistory
            &&& v is RenderResumed <==> action is RenderResumed
            &&& v is SubmitOp <==> action is SubmitOp
            &&& v is DiffComplete <==> action is DiffComplete
            &&& v is EnterAltScreen <==> action is EnterAltScreen
            &&& v is OpenPager <==> action is OpenPager
            &&& v is SearchFiles <==> action is SearchFiles
            &&& v is ApplyFileSearchResult <==> action is ApplyFileSearchResult
            &&& v is SetReasoningEffort <==> action is SetReasoningEffort
            &&& v is SetModel <==> action is SetModel
            &&& v is SetApprovalPolicy <==> action is SetApprovalPolicy
            &&& v is SetSandboxPolicy <==> action is SetSandboxPolicy
            &&& v is OverlayEvent <==> action is OverlayEvent
            &&& v is HandlePaste <==> action is HandlePaste
            &&& v is PasteBurstTick <==> action is PasteBurstTick
            &&& v is Draw <==> action is Draw
            &&& v is AttachImage <==> action is AttachImage
            &&& v is OpenTranscript <==> action is OpenTranscript
            &&& v is BacktrackEsc <==> action is BacktrackEsc
            &&& v is ConfirmBacktrack <==> action is ConfirmBacktrack
            &&& v is ResetBacktrack <==> action is ResetBacktrack
            &&& v is HandleKey <==> action is HandleKey
            &&& action matches AppAction::OverlayLines(l) ==> v == AppActionView::OverlayLines(
                l.deep_view(),
            )
            &&& action matches AppAction::HistoryLines(l) ==> v == AppActionView::HistoryLines(
                l.deep_view(),
            )
            &&& action matches AppAction::OpenTranscript(l) ==> v == AppActionView::OpenTranscript(
                l.deep_view(),
            )
            &&& action matches AppAction::RenderResumed(p) ==> v == AppActionView::RenderResumed(p@)
            &&& action matches AppAction::SearchFiles(q) ==> v == AppActionView::SearchFiles(q@)
            &&& action matches AppAction::HandlePaste(t) ==> v == AppActionView::HandlePaste(t@)
            &&& action matches AppAction::OpenPager { pager, title } ==> v == (
            AppActionView::OpenPager { pager: pager.deep_view(), title: title@ })
        }),
{
    if let AppAction::RenderResumed(p) = action {
        assert(p.deep_view() =~= p@);
    }
}

/// The view of a pager tells which it is, and what it holds.
pub proof fn law_pager_views(pager: DiffPager)
    ensures
        pager matches DiffPager::Lines(l) ==> pager.deep_view() == DiffPagerView::Lines(
            l.deep_view(),
        ),
        pager matches DiffPager::Escaped(t) ==> {
            &&& pager.deep_view() matches DiffPagerView::Escaped(v) && v.len() == t@.len()
            &&& pager.deep_view() matches DiffPagerView::Escaped(v) && forall|i: int|
                0 <= i < t@.len() ==> #[trigger] v[i] == t@[i]@
        },
{
}

/// A request to exit changes nothing and asks for nothing else.
pub proof fn law_exit_alone(app: AppView)
    ensures
        on_event(app, AppEvent::ExitRequest).app == app,
        on_event(app, AppEvent::ExitRequest).actions.len() == 0,
{
}

/// The chat is drawn for a frame unless a burst of pasted text took the frame.
pub proof fn law_frame_drawn(took_frame: bool)
    ensures
        after_burst(took_frame).contains(AppActionView::Draw) <==> !took_frame,
        after_burst(took_frame).len() <= 1,
{
    if !took_frame {
        assert(after_burst(took_frame)[0] == AppActionView::Draw);
    }
}

/// At its start the client has no history, nothing covers the main view, nothing
/// runs and nothing is gone back to; a session is resumed from the path that was
/// given, if any: its history is shown when it comes.
pub proof fn law_start(path: Seq<u8>, id: u128)
    ensures
        ({
            let app = at_start(Some(path));
            let history = AppEvent::ConversationHistory {
                conversation_id: id,
                session_id: Some(id),
            };
            &&& app.transcript_lines.len() == 0 && app.deferred_history_lines.len() == 0
            &&& app.overlay is None && !app.commit_anim_running
            &&& !app.backtrack.primed && !app.backtrack.pending && app.backtrack.count == 0
            &&& app.experimental_resume == Some(path)
            &&& at_start(None) == (AppView { experimental_resume: None, ..app })
            &&& on_event(app, history).actions == seq![AppActionView::RenderResumed(path)]
            &&& on_event(at_start(None), history).actions.len() == 0
        }),
{
}

} // verus!
