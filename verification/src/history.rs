//! The transcript of a resumed session: a recap of the session, and its
//! conversation item by item.

use vstd::prelude::*;
use crate::ids;
use crate::ids::uuid_text;
use crate::json;
use crate::lines;
use crate::lines::{extend, Color, Line, LineView, Span, BOLD, DIM, ITALIC};
use crate::session_meta;
use crate::session_meta::{read_rollout_meta_first_line, read_session_stats};
use crate::text;
use crate::text::{chars_of, decimal_text, find, join, text_of};
use crate::wrappers;
use crate::wrappers::{can_strip, strip_wrappers};

verus! {

/// A piece of the content of a message.
pub enum ContentItem {
    InputText { text: String },
    OutputText { text: String },
    Other,
}

/// What came back of a call.
pub struct FunctionCallOutputPayload {
    pub content: String,
    pub success: Option<bool>,
}

/// A command to execute.
pub struct LocalShellExecAction {
    pub command: Vec<String>,
}

/// What a local shell call does.
pub enum LocalShellAction {
    Exec(LocalShellExecAction),
    Other,
}

/// An item of a conversation.
#[allow(inconsistent_fields)]
pub enum ResponseItem {
    Message { role: String, content: Vec<ContentItem> },
    Reasoning,
    LocalShellCall { call_id: Option<String>, action: LocalShellAction },
    FunctionCall { name: String, arguments: String, call_id: String },
    FunctionCallOutput { call_id: String, output: FunctionCallOutputPayload },
    Other,
}

/// How a text is turned into lines.
#[derive(Debug, Clone, Copy, PartialEq, Eq)]
pub enum RenderKind {
    /// A prompt of the user, shown as a cell of the history.
    UserPrompt,
    /// A message of the assistant: Markdown, shown in part where it is long.
    Assistant,
    /// The output of a call: Markdown.
    Output,
}

/// A text that has to be turned into lines.
#[derive(Debug, PartialEq, Eq)]
pub struct RenderJob {
    pub kind: RenderKind,
    pub text: String,
}

/// The mathematical view of a `RenderJob`.
#[verifier::ext_equal]
pub struct RenderJobView {
    pub kind: RenderKind,
    pub text: Seq<char>,
}

impl DeepView for RenderJob {
    type V = RenderJobView;

    open spec fn deep_view(&self) -> RenderJobView {
        RenderJobView { kind: self.kind, text: self.text@ }
    }
}

/// A part of the transcript: a line, or a text that has to be turned into lines.
#[derive(Debug, PartialEq, Eq)]
pub enum Part {
    Line(Line),
    Render(RenderJob),
}

/// The mathematical view of a `Part`.
#[verifier::ext_equal]
pub enum PartView {
    Line(LineView),
    Render(RenderJobView),
}

impl DeepView for Part {
    type V = PartView;

    open spec fn deep_view(&self) -> PartView {
        match self {
            Part::Line(l) => PartView::Line(l.deep_view()),
            Part::Render(j) => PartView::Render(j.deep_view()),
        }
    }
}

/// What a session is resumed from: the bytes of its rollout file and of the
/// sidecar of that, where they could be read; which of the lines at the end of
/// the rollout file are conversation items; and the path as it is shown.
pub struct Resume {
    pub rollout: Option<Vec<u8>>,
    pub sidecar: Option<Vec<u8>>,
    pub items: Vec<bool>,
    pub shown_path: String,
}

/// How many bytes at the end of a rollout file are scanned for its stats.
pub const STATS_BYTES: usize = 524288;

/// How many recent actions a recap shows.
pub const MAX_HIGHLIGHTS: usize = 6;

/// How many lines of a message of the assistant are shown.
pub const MAX_LINES: usize = 18;

/// The text of a message: its texts, a line feed in front of each that has text
/// before it.
pub open spec fn message_text(content: Seq<ContentItem>) -> Seq<char>
    decreases content.len(),
{
    if content.len() == 0 {
        Seq::empty()
    } else {
        let before = message_text(content.drop_last());
        match content.last() {
            ContentItem::InputText { text } => appended(before, text@),
            ContentItem::OutputText { text } => appended(before, text@),
            ContentItem::Other => before,
        }
    }
}

/// `more` behind `before`, in a line of its own.
pub open spec fn appended(before: Seq<char>, more: Seq<char>) -> Seq<char> {
    if before.len() == 0 {
        more
    } else {
        before.push('\n') + more
    }
}

/// The text of a message that is shown.
pub open spec fn shown_text(content: Seq<ContentItem>) -> Seq<char> {
    match wrappers::stripped(message_text(content)) {
        Some(t) => t,
        None => Seq::empty(),
    }
}

/// The success that the last output for the call `id` tells, if there is one. An
/// output that does not say counts as a success.
pub open spec fn outcome_of(entries: Seq<ResponseItem>, id: Seq<char>) -> Option<bool>
    decreases entries.len(),
{
    if entries.len() == 0 {
        None
    } else {
        match entries.last() {
            ResponseItem::FunctionCallOutput { call_id, output } => if call_id@ == id {
                Some(output.success != Some(false))
            } else {
                outcome_of(entries.drop_last(), id)
            },
            _ => outcome_of(entries.drop_last(), id),
        }
    }
}

/// The label of a tool: `server/tool` for the name `server__tool`, and the name
/// with a slash behind where it is not split.
pub open spec fn tool_label(name: Seq<char>) -> Seq<char> {
    match text::found(name, "__"@) {
        Some(i) => name.take(i) + "/"@ + name.skip(i + "__"@.len()),
        None => name + "/"@,
    }
}

/// The mark of a success or a failure.
pub open spec fn mark(ok: bool) -> lines::SpanView {
    if ok {
        lines::styled("✓"@, Some(Color::Green), 0)
    } else {
        lines::styled("✗"@, Some(Color::Red), 0)
    }
}

/// The line above an answer.
pub open spec fn answer_heading() -> LineView {
    lines::line_of(seq![lines::styled("codex"@, Some(Color::Magenta), BOLD)])
}

/// The line that shows reasoning.
pub open spec fn thinking_line() -> LineView {
    lines::line_of(seq![lines::styled("thinking"@, Some(Color::Magenta), ITALIC)])
}

/// The line that shows a call of the tool `name`.
pub open spec fn tool_line(name: Seq<char>, ok: bool) -> LineView {
    lines::line_of(
        seq![
            lines::styled("tool"@, Some(Color::Magenta), 0),
            lines::raw(" "@),
            lines::raw(tool_label(name)),
            lines::raw(" "@),
            mark(ok),
        ],
    )
}

/// The line that shows the execution of a command.
pub open spec fn exec_line(command: Seq<Seq<char>>, ok: bool) -> LineView {
    lines::line_of(
        seq![
            lines::raw("  "@),
            mark(ok),
            lines::raw(" "@),
            lines::styled("⌨️ "@ + text::joined(command, " "@), Some(Color::LightBlue), 0),
        ],
    )
}

/// The line that says that a message is shown in part.
pub open spec fn truncation_note() -> LineView {
    lines::line_of(seq![lines::styled("… truncated; press Ctrl-T for full transcript"@, None, DIM)])
}

/// The parts of the transcript that show `item`, an item of `entries`.
pub open spec fn parts_of_item(entries: Seq<ResponseItem>, item: ResponseItem) -> Seq<PartView> {
    match item {
        ResponseItem::Message { role, content } => {
            let t = shown_text(content@);
            if t.len() == 0 {
                Seq::empty()
            } else if role@ == "user"@ {
                seq![PartView::Render(RenderJobView { kind: RenderKind::UserPrompt, text: t })]
            } else {
                answer(RenderKind::Assistant, t)
            }
        },
        ResponseItem::FunctionCall { name, arguments, call_id } => match outcome_of(
            entries,
            call_id@,
        ) {
            Some(ok) => seq![PartView::Line(lines::blank()), PartView::Line(tool_line(name@, ok))],
            None => Seq::empty(),
        },
        ResponseItem::Reasoning => seq![PartView::Line(lines::blank()), PartView::Line(thinking_line())],
        ResponseItem::LocalShellCall { call_id, action } => match action {
            LocalShellAction::Exec(exec) => seq![
                PartView::Line(lines::blank()),
                PartView::Line(exec_line(exec.command.deep_view(), exec_ok(entries, call_id))),
            ],
            LocalShellAction::Other => Seq::empty(),
        },
        ResponseItem::FunctionCallOutput { call_id, output } => if output.content@.len() == 0 {
            Seq::empty()
        } else {
            answer(RenderKind::Output, output.content@)
        },
        ResponseItem::Other => Seq::empty(),
    }
}

/// An answer under its heading.
pub open spec fn answer(kind: RenderKind, t: Seq<char>) -> Seq<PartView> {
    seq![
        PartView::Line(lines::blank()),
        PartView::Line(answer_heading()),
        PartView::Render(RenderJobView { kind, text: t }),
    ]
}

/// Whether a local shell call counts as a success: it does unless an output for
/// it says otherwise.
pub open spec fn exec_ok(entries: Seq<ResponseItem>, call_id: Option<String>) -> bool {
    match call_id {
        Some(id) => outcome_of(entries, id@) != Some(false),
        None => true,
    }
}

/// The parts of the transcript that show the first `n` items of `entries`.
pub open spec fn parts_upto(entries: Seq<ResponseItem>, n: nat) -> Seq<PartView>
    decreases n,
{
    if n == 0 {
        Seq::empty()
    } else {
        parts_upto(entries, (n - 1) as nat) + parts_of_item(entries, entries[n - 1])
    }
}

/// The parts of the transcript of `entries`.
pub open spec fn parts_of(entries: Seq<ResponseItem>) -> Seq<PartView> {
    parts_upto(entries, entries.len())
}

/// The texts of `parts` that have to be turned into lines.
pub open spec fn jobs_of(parts: Seq<PartView>) -> Seq<RenderJobView>
    decreases parts.len(),
{
    if parts.len() == 0 {
        Seq::empty()
    } else {
        match parts.last() {
            PartView::Line(l) => jobs_of(parts.drop_last()),
            PartView::Render(j) => jobs_of(parts.drop_last()).push(j),
        }
    }
}

/// The lines that are shown of the lines `made` from a text: all, except of a
/// long message of the assistant.
pub open spec fn shown_lines(kind: RenderKind, made: Seq<LineView>) -> Seq<LineView> {
    if kind == RenderKind::Assistant && made.len() > MAX_LINES {
        made.take(MAX_LINES as int).push(truncation_note())
    } else {
        made
    }
}

/// The lines that were made for the job `i`. A job without lines has none.
pub open spec fn made_for(rendered: Seq<Seq<LineView>>, i: int) -> Seq<LineView> {
    if i < rendered.len() {
        rendered[i]
    } else {
        Seq::empty()
    }
}

/// The lines of `parts`, where `rendered[i]` are the lines made for the `i`-th
/// text.
pub open spec fn lines_of_parts(parts: Seq<PartView>, rendered: Seq<Seq<LineView>>) -> Seq<LineView>
    decreases parts.len(),
{
    if parts.len() == 0 {
        Seq::empty()
    } else {
        let front = parts.drop_last();
        match parts.last() {
            PartView::Line(l) => lines_of_parts(front, rendered).push(l),
            PartView::Render(j) => lines_of_parts(front, rendered) + shown_lines(
                j.kind,
                made_for(rendered, jobs_of(front).len() as int),
            ),
        }
    }
}

/// The line of a recap that shows the execution of a command.
pub open spec fn exec_highlight(command: Seq<Seq<char>>) -> LineView {
    lines::line_of(
        seq![
            lines::styled("  • "@, None, DIM),
            lines::raw("exec "@),
            lines::styled(text::joined(command, " "@), Some(Color::LightBlue), 0),
        ],
    )
}

/// The line of a recap that shows a call of the tool `name`.
pub open spec fn tool_highlight(name: Seq<char>) -> LineView {
    lines::line_of(
        seq![
            lines::styled("  • "@, None, DIM),
            lines::raw("tool "@),
            lines::raw(tool_label(name)),
        ],
    )
}

/// The line of a recap that shows `item`, if it is an action.
pub open spec fn highlight_of(item: ResponseItem) -> Option<LineView> {
    match item {
        ResponseItem::LocalShellCall { call_id, action } => match action {
            LocalShellAction::Exec(exec) => Some(exec_highlight(exec.command.deep_view())),
            LocalShellAction::Other => None,
        },
        ResponseItem::FunctionCall { name, arguments, call_id } => Some(tool_highlight(name@)),
        _ => None,
    }
}

/// The lines that show the actions of `entries`.
pub open spec fn all_highlights(entries: Seq<ResponseItem>) -> Seq<LineView>
    decreases entries.len(),
{
    if entries.len() == 0 {
        Seq::empty()
    } else {
        let rest = all_highlights(entries.drop_first());
        match highlight_of(entries.first()) {
            Some(l) => seq![l] + rest,
            None => rest,
        }
    }
}

/// The lines that show the most recent actions of `entries`.
pub open spec fn highlights_of(entries: Seq<ResponseItem>) -> Seq<LineView> {
    let all = all_highlights(entries);
    if all.len() > MAX_HIGHLIGHTS {
        all.skip(all.len() - MAX_HIGHLIGHTS)
    } else {
        all
    }
}

/// The heading of a recap.
pub open spec fn recap_heading(created: Seq<char>, count: u32) -> LineView {
    lines::line_of(
        seq![
            lines::styled("Restored"@, Some(Color::Magenta), BOLD),
            lines::raw(" — "@),
            lines::styled(created, None, DIM),
            lines::raw(" "@),
            lines::styled("("@ + text::decimal(count as nat) + ")"@, Some(Color::Cyan), 0),
        ],
    )
}

/// The line of a recap that shows the conversation id.
pub open spec fn id_line(id: u128) -> LineView {
    lines::line_of(seq![lines::styled("id: "@, None, DIM), lines::styled(ids::hyphenated(id), None, DIM)])
}

/// The line of a recap that shows the path.
pub open spec fn path_line(path: Seq<char>) -> LineView {
    lines::line_of(seq![lines::styled("path: "@, None, DIM), lines::styled(path, None, DIM)])
}

/// The recap of a session: heading, recent actions, id and path.
pub open spec fn recap_of(
    entries: Seq<ResponseItem>,
    created: Seq<char>,
    id: Option<u128>,
    count: u32,
    path: Seq<char>,
) -> Seq<LineView> {
    seq![lines::blank(), recap_heading(created, count)] + highlights_of(entries) + (match id {
        Some(id) => seq![id_line(id)],
        None => Seq::empty(),
    }) + seq![path_line(path)]
}

/// The number of messages in a recap: the one that the session's files tell, else
/// the low 32 bits of the number of entries.
pub open spec fn recap_count(stated: Option<u32>, entries: nat) -> u32 {
    match stated {
        Some(n) => n,
        None => (entries % 0x1_0000_0000) as u32,
    }
}

/// The time of creation and the conversation id that a resumed session's rollout
/// file tells.
pub open spec fn resume_meta(resume: Resume) -> (Seq<char>, Option<u128>) {
    match resume.rollout {
        Some(bytes) => match session_meta::meta_of(bytes@) {
            Some(meta) => meta,
            None => (Seq::empty(), None),
        },
        None => (Seq::empty(), None),
    }
}

/// The number of messages that a resumed session's files tell.
pub open spec fn resume_count(resume: Resume) -> Option<u32> {
    session_meta::stats_of(
        resume.sidecar.deep_view(),
        resume.rollout.deep_view(),
        STATS_BYTES as nat,
        resume.items@,
    ).message_count
}

/// The recap of a resumed session.
pub open spec fn resume_recap(entries: Seq<ResponseItem>, resume: Resume) -> Seq<LineView> {
    recap_of(
        entries,
        resume_meta(resume).0,
        resume_meta(resume).1,
        recap_count(resume_count(resume), entries.len()),
        resume.shown_path@,
    )
}

/// Whether the wrappers can be taken off every message of `entries`.
pub open spec fn renderable(entries: Seq<ResponseItem>) -> bool {
    forall|i: int|
        0 <= i < entries.len() ==> (#[trigger] entries[i] matches ResponseItem::Message {
            role,
            content,
        } ==> wrappers::strippable(message_text(content@)))
}

/// The transcript of a resumed session.
pub open spec fn resumed_lines(
    entries: Seq<ResponseItem>,
    resume: Option<Resume>,
    rendered: Seq<Seq<LineView>>,
) -> Seq<LineView> {
    (match resume {
        Some(r) => resume_recap(entries, r),
        None => Seq::empty(),
    }) + lines_of_parts(parts_of(entries), rendered)
}

/// The text of a message.
fn text_of_message(content: &Vec<ContentItem>) -> (r: String)
    ensures
        r@ == message_text(content@),
{
    let mut r = String::new();
    for i in 0..content.len()
        invariant
            r@ == message_text(content@.take(i as int)),
    {
        assert(content@.take(i + 1).drop_last() == content@.take(i as int));
        match &content[i] {
            ContentItem::InputText { text } | ContentItem::OutputText { text } => {
                if !r.as_str().is_empty() {
                    r.push('\n');
                } else {
                    assert(r@ + text@ == text@);
                }
                r.append(text.as_str());
            },
            ContentItem::Other => {},
        }
    }
    assert(content@.take(content@.len() as int) == content@);
    r
}

/// The success that the last output for the call `id` tells.
fn outcome(entries: &Vec<ResponseItem>, id: &String) -> (r: Option<bool>)
    ensures
        r == outcome_of(entries@, id@),
{
    let mut i: usize = entries.len();
    assert(entries@.take(i as int) == entries@);
    while i > 0
        invariant
            i <= entries@.len(),
            outcome_of(entries@.take(i as int), id@) == outcome_of(entries@, id@),
        decreases i,
    {
        assert(entries@.take(i as int).last() == entries@[i - 1]);
        assert(entries@.take(i as int).drop_last() == entries@.take(i - 1));
        if let ResponseItem::FunctionCallOutput { call_id, output } = &entries[i - 1] {
            if *call_id == *id {
                return match output.success {
                    Some(ok) => Some(ok),
                    None => Some(true),
                };
            }
        }
        i = i - 1;
    }
    None
}

/// The label of a tool.
pub fn label_of_tool(name: &str) -> (r: String)
    ensures
        r@ == tool_label(name@),
{
    let cs = chars_of(name);
    let bar = chars_of("__");
    match find(cs.as_slice(), bar.as_slice()) {
        Some(i) => {
            let n = cs.len();
            let mut r = text_of(vstd::slice::slice_subrange(cs.as_slice(), 0, i));
            let tool = text_of(vstd::slice::slice_subrange(cs.as_slice(), i + bar.len(), n));
            assert(r@ == name@.take(i as int));
            assert(tool@ == name@.skip(i + bar@.len()));
            r.append("/");
            r.append(tool.as_str());
            r
        },
        None => {
            let mut r = name.to_string();
            r.append("/");
            r
        },
    }
}

fn mark_span(ok: bool) -> (r: Span)
    ensures
        r.deep_view() == mark(ok),
{
    if ok {
        Span::styled("✓", Some(Color::Green), 0)
    } else {
        Span::styled("✗", Some(Color::Red), 0)
    }
}

fn line_for_tool(name: &str, ok: bool) -> (r: Line)
    ensures
        r.deep_view() == tool_line(name@, ok),
{
    let label = label_of_tool(name);
    let spans = vec![
        Span::styled("tool", Some(Color::Magenta), 0),
        Span::raw(" "),
        Span::raw(label.as_str()),
        Span::raw(" "),
        mark_span(ok),
    ];
    assert(spans.deep_view() == tool_line(name@, ok).spans);
    Line::of(spans)
}

fn line_for_exec(command: &Vec<String>, ok: bool) -> (r: Line)
    ensures
        r.deep_view() == exec_line(command.deep_view(), ok),
{
    let mut t = "⌨️ ".to_string();
    let joined = join(command, " ");
    t.append(joined.as_str());
    let spans = vec![
        Span::raw("  "),
        mark_span(ok),
        Span::raw(" "),
        Span::styled(t.as_str(), Some(Color::LightBlue), 0),
    ];
    assert(spans.deep_view() == exec_line(command.deep_view(), ok).spans);
    Line::of(spans)
}

/// Appends `l` to `parts`.
fn push_line(parts: &mut Vec<Part>, l: Line)
    ensures
        final(parts).deep_view() == old(parts).deep_view().push(PartView::Line(l.deep_view())),
{
    let ghost before = parts.deep_view();
    parts.push(Part::Line(l));
    assert(parts.deep_view() == before.push(PartView::Line(l.deep_view())));
}

/// Appends the text `t` to `parts`.
fn push_job(parts: &mut Vec<Part>, kind: RenderKind, t: String)
    ensures
        final(parts).deep_view() == old(parts).deep_view().push(
            PartView::Render(RenderJobView { kind, text: t@ }),
        ),
{
    let ghost before = parts.deep_view();
    parts.push(Part::Render(RenderJob { kind, text: t }));
    assert(parts.deep_view() == before.push(
        PartView::Render(RenderJobView { kind, text: t@ }),
    ));
}

/// Appends an answer under its heading to `parts`.
fn push_answer(parts: &mut Vec<Part>, kind: RenderKind, t: String)
    ensures
        final(parts).deep_view() == old(parts).deep_view() + answer(kind, t@),
{
    push_line(parts, Line::blank());
    push_line(parts, Line::one(Span::styled("codex", Some(Color::Magenta), BOLD)));
    push_job(parts, kind, t);
}

/// Appends the parts that show `item` to `parts`.
fn push_item(parts: &mut Vec<Part>, entries: &Vec<ResponseItem>, item: &ResponseItem)
    requires
        item matches ResponseItem::Message { role, content } ==> wrappers::strippable(
            message_text(content@),
        ),
    ensures
        final(parts).deep_view() == old(parts).deep_view() + parts_of_item(entries@, *item),
{
    match item {
        ResponseItem::Message { role, content } => {
            let whole = text_of_message(content);
            let t = match strip_wrappers(whole.as_str()) {
                Some(t) => t,
                None => String::new(),
            };
            assert(t@ == shown_text(content@));
            if !t.as_str().is_empty() {
                if *role == "user".to_string() {
                    push_job(parts, RenderKind::UserPrompt, t);
                } else {
                    push_answer(parts, RenderKind::Assistant, t);
                }
            }
        },
        ResponseItem::FunctionCall { name, arguments, call_id } => {
            if let Some(ok) = outcome(entries, call_id) {
                push_line(parts, Line::blank());
                push_line(parts, line_for_tool(name.as_str(), ok));
            }
        },
        ResponseItem::Reasoning => {
            push_line(parts, Line::blank());
            push_line(parts, Line::one(Span::styled("thinking", Some(Color::Magenta), ITALIC)));
        },
        ResponseItem::LocalShellCall { call_id, action } => {
            if let LocalShellAction::Exec(exec) = action {
                let ok = match call_id {
                    Some(id) => match outcome(entries, id) {
                        Some(ok) => ok,
                        None => true,
                    },
                    None => true,
                };
                push_line(parts, Line::blank());
                push_line(parts, line_for_exec(&exec.command, ok));
            }
        },
        ResponseItem::FunctionCallOutput { call_id, output } => {
            if !output.content.as_str().is_empty() {
                push_answer(parts, RenderKind::Output, output.content.clone());
            }
        },
        ResponseItem::Other => {},
    }
}

/// Whether the transcript of `entries` can be made: no message holds a wrapper
/// that closes before it opens, but for messages that speak of environment context.
pub fn can_render(entries: &Vec<ResponseItem>) -> (r: bool)
    ensures
        r == renderable(entries@),
{
    for i in 0..entries.len()
        invariant
            forall|j: int|
                0 <= j < i ==> (#[trigger] entries@[j] matches ResponseItem::Message {
                    role,
                    content,
                } ==> wrappers::strippable(message_text(content@))),
    {
        if let ResponseItem::Message { role, content } = &entries[i] {
            let whole = text_of_message(content);
            if !can_strip(whole.as_str()) {
                assert(entries@[i as int] is Message);
                return false;
            }
        }
    }
    true
}

/// The parts of the transcript of `entries`.
pub fn transcript_parts(entries: &Vec<ResponseItem>) -> (r: Vec<Part>)
    requires
        renderable(entries@),
    ensures
        r.deep_view() == parts_of(entries@),
{
    let mut parts: Vec<Part> = Vec::new();
    assert(parts.deep_view() == Seq::<PartView>::empty());
    for i in 0..entries.len()
        invariant
            renderable(entries@),
            parts.deep_view() == parts_upto(entries@, i as nat),
    {
        assert(entries@[i as int] == entries@[i as int]);
        push_item(&mut parts, entries, &entries[i]);
    }
    parts
}

/// The texts of the transcript of `entries` that have to be turned into lines, in
/// order.
pub fn render_jobs(entries: &Vec<ResponseItem>) -> (r: Vec<RenderJob>)
    requires
        renderable(entries@),
    ensures
        r.deep_view() == jobs_of(parts_of(entries@)),
{
    let parts = transcript_parts(entries);
    let ghost all = parts.deep_view();
    let mut jobs: Vec<RenderJob> = Vec::new();
    assert(jobs.deep_view() == Seq::<RenderJobView>::empty());
    for i in 0..parts.len()
        invariant
            all == parts.deep_view(),
            jobs.deep_view() == jobs_of(all.take(i as int)),
    {
        assert(all.take(i + 1).drop_last() == all.take(i as int));
        assert(all.take(i + 1).last() == parts@[i as int].deep_view());
        if let Part::Render(job) = &parts[i] {
            let ghost before = jobs.deep_view();
            jobs.push(RenderJob { kind: job.kind, text: job.text.clone() });
            assert(jobs.deep_view() == before.push(job.deep_view()));
        }
    }
    assert(all.take(parts@.len() as int) == all);
    jobs
}

/// Appends the lines that are shown of the lines `made` from a text.
fn push_shown(out: &mut Vec<Line>, kind: RenderKind, made: &Vec<Line>)
    ensures
        final(out).deep_view() == old(out).deep_view() + shown_lines(kind, made.deep_view()),
{
    let long = match kind {
        RenderKind::Assistant => made.len() > MAX_LINES,
        _ => false,
    };
    if long {
        let ghost start = out.deep_view();
        for i in 0..MAX_LINES
            invariant
                MAX_LINES < made@.len(),
                out.deep_view() == start + made.deep_view().take(i as int),
        {
            let ghost before = out.deep_view();
            out.push(made[i].duplicate());
            assert(out.deep_view() == before.push(made@[i as int].deep_view()));
            assert(made.deep_view().take(i + 1) == made.deep_view().take(i as int).push(
                made@[i as int].deep_view(),
            ));
        }
        let ghost before = out.deep_view();
        let note = Line::one(
            Span::styled("… truncated; press Ctrl-T for full transcript", None, DIM),
        );
        out.push(note);
        assert(out.deep_view() == before.push(truncation_note()));
    } else {
        extend(out, made);
    }
}

/// The lines of `parts`, where `rendered[i]` are the lines made for the `i`-th
/// text.
pub fn assemble(parts: &Vec<Part>, rendered: &Vec<Vec<Line>>) -> (r: Vec<Line>)
    ensures
        r.deep_view() == lines_of_parts(parts.deep_view(), rendered.deep_view()),
{
    let mut out: Vec<Line> = Vec::new();
    let mut job: usize = 0;
    let ghost all = parts.deep_view();
    let none: Vec<Line> = Vec::new();
    assert(none.deep_view() == Seq::<LineView>::empty());
    assert(out.deep_view() == Seq::<LineView>::empty());
    for i in 0..parts.len()
        invariant
            all == parts.deep_view(),
            none.deep_view() == Seq::<LineView>::empty(),
            job == jobs_of(all.take(i as int)).len(),
            job <= i,
            out.deep_view() == lines_of_parts(all.take(i as int), rendered.deep_view()),
    {
        assert(all.take(i + 1).drop_last() == all.take(i as int));
        assert(all.take(i + 1).last() == parts@[i as int].deep_view());
        match &parts[i] {
            Part::Line(l) => {
                let ghost before = out.deep_view();
                out.push(l.duplicate());
                assert(out.deep_view() == before.push(l.deep_view()));
            },
            Part::Render(j) => {
                if job < rendered.len() {
                    assert(rendered.deep_view()[job as int] == rendered@[job as int].deep_view());
                    push_shown(&mut out, j.kind, &rendered[job]);
                } else {
                    push_shown(&mut out, j.kind, &none);
                }
                job = job + 1;
            },
        }
    }
    assert(all.take(parts@.len() as int) == all);
    out
}

/// The line of a recap that shows `item`, if it is an action.
fn highlight(item: &ResponseItem) -> (r: Option<Line>)
    ensures
        r.deep_view() == highlight_of(*item),
{
    match item {
        ResponseItem::LocalShellCall { call_id, action } => match action {
            LocalShellAction::Exec(exec) => {
                let command = join(&exec.command, " ");
                let spans = vec![
                    Span::styled("  • ", None, DIM),
                    Span::raw("exec "),
                    Span::styled(command.as_str(), Some(Color::LightBlue), 0),
                ];
                assert(spans.deep_view() == exec_highlight(exec.command.deep_view()).spans);
                Some(Line::of(spans))
            },
            LocalShellAction::Other => None,
        },
        ResponseItem::FunctionCall { name, arguments, call_id } => {
            let label = label_of_tool(name.as_str());
            let spans = vec![
                Span::styled("  • ", None, DIM),
                Span::raw("tool "),
                Span::raw(label.as_str()),
            ];
            assert(spans.deep_view() == tool_highlight(name@).spans);
            Some(Line::of(spans))
        },
        _ => None,
    }
}

/// The actions of a conversation are those of its front and then those of its
/// back.
proof fn lemma_highlights_concat(a: Seq<ResponseItem>, b: Seq<ResponseItem>)
    ensures
        all_highlights(a + b) == all_highlights(a) + all_highlights(b),
    decreases a.len(),
{
    if a.len() == 0 {
        assert(a + b == b);
    } else {
        assert((a + b).drop_first() == a.drop_first() + b);
        lemma_highlights_concat(a.drop_first(), b);
    }
}

/// The lines that show the most recent actions of `entries`, the oldest first.
pub fn recent_highlights(entries: &Vec<ResponseItem>) -> (r: Vec<Line>)
    ensures
        r.deep_view() == highlights_of(entries@),
{
    let mut r: Vec<Line> = Vec::new();
    let mut i: usize = entries.len();
    assert(r.deep_view() == all_highlights(entries@.skip(i as int)));
    while i > 0 && r.len() < MAX_HIGHLIGHTS
        invariant
            i <= entries@.len(),
            r@.len() <= MAX_HIGHLIGHTS,
            r.deep_view() == all_highlights(entries@.skip(i as int)),
        decreases i,
    {
        i = i - 1;
        let ghost rest = entries@.skip(i as int);
        assert(rest.first() == entries@[i as int]);
        assert(rest.drop_first() == entries@.skip(i + 1));
        let ghost before = r.deep_view();
        if let Some(l) = highlight(&entries[i]) {
            r.insert(0, l);
            assert(r.deep_view() == seq![l.deep_view()] + before);
        }
    }
    proof {
        let front = entries@.take(i as int);
        let back = entries@.skip(i as int);
        assert(front + back == entries@);
        lemma_highlights_concat(front, back);
        let all = all_highlights(entries@);
        if i == 0 {
            assert(back == entries@);
        } else {
            assert(all.skip(all.len() - MAX_HIGHLIGHTS) == all_highlights(back));
        }
        if all.len() == MAX_HIGHLIGHTS {
            assert(all.skip(0) == all);
        }
    }
    r
}

/// The recap of a session. The id in it reads back as the session's id.
pub fn recap(
    entries: &Vec<ResponseItem>,
    created: &str,
    id: Option<u128>,
    count: u32,
    path: &str,
) -> (r: Vec<Line>)
    ensures
        r.deep_view() == recap_of(entries@, created@, id, count, path@),
        id matches Some(n) ==> ids::uuid_of(ids::hyphenated(n)) == Some(n),
{
    let mut out: Vec<Line> = Vec::new();
    let mut number = "(".to_string();
    let digits = decimal_text(count as u64);
    number.append(digits.as_str());
    number.append(")");
    let spans = vec![
        Span::styled("Restored", Some(Color::Magenta), BOLD),
        Span::raw(" — "),
        Span::styled(created, None, DIM),
        Span::raw(" "),
        Span::styled(number.as_str(), Some(Color::Cyan), 0),
    ];
    assert(spans.deep_view() == recap_heading(created@, count).spans);
    out.push(Line::blank());
    out.push(Line::of(spans));
    assert(out.deep_view() == seq![lines::blank(), recap_heading(created@, count)]);
    let highlights = recent_highlights(entries);
    extend(&mut out, &highlights);
    let ghost before = out.deep_view();
    if let Some(id) = id {
        let shown = uuid_text(id);
        let spans = vec![
            Span::styled("id: ", None, DIM),
            Span::styled(shown.as_str(), None, DIM),
        ];
        assert(spans.deep_view() == id_line(id).spans);
        out.push(Line::of(spans));
        assert(out.deep_view() == before + seq![id_line(id)]);
    } else {
        assert(out.deep_view() == before + Seq::<LineView>::empty());
    }
    let ghost before = out.deep_view();
    let spans = vec![Span::styled("path: ", None, DIM), Span::styled(path, None, DIM)];
    assert(spans.deep_view() == path_line(path@).spans);
    out.push(Line::of(spans));
    assert(out.deep_view() == before + seq![path_line(path@)]);
    out
}

/// The recap of a resumed session.
pub fn recap_of_resume(entries: &Vec<ResponseItem>, resume: &Resume) -> (r: Vec<Line>)
    ensures
        r.deep_view() == resume_recap(entries@, *resume),
{
    let meta = match &resume.rollout {
        Some(bytes) => read_rollout_meta_first_line(bytes.as_slice()),
        None => None,
    };
    let (created, id) = match meta {
        Some(meta) => meta,
        None => (String::new(), None),
    };
    let sidecar = match &resume.sidecar {
        Some(bytes) => Some(bytes.as_slice()),
        None => None,
    };
    let rollout = match &resume.rollout {
        Some(bytes) => Some(bytes.as_slice()),
        None => None,
    };
    let stats = read_session_stats(sidecar, rollout, STATS_BYTES, &resume.items);
    let count = match stats.message_count {
        Some(n) => n,
        None => (entries.len() as u64 % 0x1_0000_0000) as u32,
    };
    recap(entries, created.as_str(), id, count, resume.shown_path.as_str())
}

/// The transcript of a resumed session: its recap, where it is resumed from a
/// rollout file, and its conversation. `rendered[i]` are the lines made for the
/// `i`-th of `render_jobs`.
pub fn render_lines_for_resumed_history(
    entries: &Vec<ResponseItem>,
    resume: Option<&Resume>,
    rendered: &Vec<Vec<Line>>,
) -> (r: Vec<Line>)
    requires
        renderable(entries@),
    ensures
        r.deep_view() == resumed_lines(
            entries@,
            match resume {
                Some(r) => Some(*r),
                None => None,
            },
            rendered.deep_view(),
        ),
{
    let mut out: Vec<Line> = Vec::new();
    assert(out.deep_view() == Seq::<LineView>::empty());
    if let Some(r) = resume {
        out = recap_of_resume(entries, r);
    }
    let parts = transcript_parts(entries);
    let rest = assemble(&parts, rendered);
    extend(&mut out, &rest);
    out
}

/// A recap shows at most six actions, all of them where there are no more, and
/// they are the last ones in their order.
pub proof fn law_highlights_recent(entries: Seq<ResponseItem>)
    ensures
        highlights_of(entries).len() <= 6,
        all_highlights(entries).len() <= 6 ==> highlights_of(entries) == all_highlights(entries),
        all_highlights(entries).len() > 6 ==> highlights_of(entries).len() == 6,
        exists|older: Seq<LineView>| older + highlights_of(entries) == all_highlights(entries),
{
    let all = all_highlights(entries);
    let older = all.take(all.len() - highlights_of(entries).len());
    assert(older + highlights_of(entries) == all);
}

/// The newest action of a session is the last one that its recap shows.
pub proof fn law_newest_highlight_last(entries: Seq<ResponseItem>, item: ResponseItem)
    requires
        highlight_of(item) is Some,
    ensures
        highlights_of(entries.push(item)).len() > 0,
        highlights_of(entries.push(item)).last() == highlight_of(item)->0,
{
    assert(entries.push(item) == entries + seq![item]);
    lemma_highlights_concat(entries, seq![item]);
    assert(seq![item].drop_first() == Seq::<ResponseItem>::empty());
    assert(all_highlights(Seq::empty()) == Seq::<LineView>::empty());
    assert(all_highlights(seq![item]) == seq![highlight_of(item)->0]);
}

/// A message of the assistant takes at most eighteen lines and a note; what is
/// shown of it is the front of it. Nothing else is cut.
pub proof fn law_answers_capped(kind: RenderKind, made: Seq<LineView>)
    ensures
        kind == RenderKind::Assistant ==> shown_lines(kind, made).len() <= 19,
        kind != RenderKind::Assistant || made.len() <= 18 ==> shown_lines(kind, made) == made,
        kind == RenderKind::Assistant && made.len() > 18 ==> shown_lines(kind, made) == made.take(
            18,
        ).push(truncation_note()),
{
}

/// The recap stands in front and changes nothing behind it.
pub proof fn law_recap_in_front(
    entries: Seq<ResponseItem>,
    resume: Resume,
    rendered: Seq<Seq<LineView>>,
)
    ensures
        resumed_lines(entries, Some(resume), rendered) == resume_recap(entries, resume)
            + resumed_lines(entries, None, rendered),
{
    assert(resumed_lines(entries, None, rendered) == lines_of_parts(parts_of(entries), rendered));
}

/// A call of a tool is shown if and only if an output for it came back.
pub proof fn law_call_shown_with_output(
    entries: Seq<ResponseItem>,
    name: String,
    arguments: String,
    call_id: String,
)
    ensures
        (parts_of_item(entries, ResponseItem::FunctionCall { name, arguments, call_id }).len() > 0)
            <==> exists|i: int|
            0 <= i < entries.len() && (#[trigger] entries[i] matches ResponseItem::FunctionCallOutput {
                call_id: id,
                output,
            } && id@ == call_id@),
{
    lemma_outcome_exists(entries, call_id@);
}

proof fn lemma_outcome_exists(entries: Seq<ResponseItem>, id: Seq<char>)
    ensures
        outcome_of(entries, id) is Some <==> exists|i: int|
            0 <= i < entries.len() && (#[trigger] entries[i] matches ResponseItem::FunctionCallOutput {
                call_id,
                output,
            } && call_id@ == id),
    decreases entries.len(),
{
    if entries.len() > 0 {
        let front = entries.drop_last();
        lemma_outcome_exists(front, id);
        if exists|i: int|
            0 <= i < entries.len() && (#[trigger] entries[i] matches ResponseItem::FunctionCallOutput {
                call_id,
                output,
            } && call_id@ == id) {
            let i = choose|i: int|
                0 <= i < entries.len() && (#[trigger] entries[i] matches ResponseItem::FunctionCallOutput {
                    call_id,
                    output,
                } && call_id@ == id);
            if i < front.len() {
                assert(front[i] == entries[i]);
            }
        }
        if outcome_of(entries, id) is Some {
            if outcome_of(front, id) is Some {
                let i = choose|i: int|
                    0 <= i < front.len() && (#[trigger] front[i] matches ResponseItem::FunctionCallOutput {
                        call_id,
                        output,
                    } && call_id@ == id);
                assert(entries[i] == front[i]);
            } else {
                assert(entries[entries.len() - 1] == entries.last());
            }
        }
    }
}

/// The kind of a message: a prompt where the user wrote it.
pub open spec fn message_kind(role: Seq<char>) -> RenderKind {
    if role == "user"@ {
        RenderKind::UserPrompt
    } else {
        RenderKind::Assistant
    }
}

/// Every message of the user and of the assistant that has text to show is among
/// the texts of the transcript, and the texts of the items in front of it stand
/// in front of it.
pub proof fn law_messages_shown(
    entries: Seq<ResponseItem>,
    i: int,
    role: String,
    content: Vec<ContentItem>,
)
    requires
        0 <= i < entries.len(),
        entries[i] == (ResponseItem::Message { role, content }),
        shown_text(content@).len() > 0,
    ensures
        ({
            let jobs = jobs_of(parts_of(entries));
            let k = jobs_of(parts_upto(entries, i as nat)).len() as int;
            &&& 0 <= k < jobs.len()
            &&& jobs[k] == (RenderJobView { kind: message_kind(role@), text: shown_text(content@) })
            &&& jobs.take(k) == jobs_of(parts_upto(entries, i as nat))
        }),
{
    let front = parts_upto(entries, i as nat);
    let own = parts_of_item(entries, entries[i]);
    let job = RenderJobView { kind: message_kind(role@), text: shown_text(content@) };
    assert(parts_upto(entries, (i + 1) as nat) == front + own);
    lemma_jobs_concat(front, own);
    assert(jobs_of(own) == seq![job]) by {
        reveal_with_fuel(jobs_of, 4);
        assert(own.last() == PartView::Render(job));
        let heading = own.drop_last();
        assert(heading.len() > 0 ==> heading.last() is Line && heading.drop_last().last() is Line);
        assert(jobs_of(heading) == Seq::<RenderJobView>::empty());
    }
    lemma_parts_grow(entries, (i + 1) as nat, entries.len());
    let rest = parts_of(entries).skip(parts_upto(entries, (i + 1) as nat).len() as int);
    assert(parts_of(entries) == parts_upto(entries, (i + 1) as nat) + rest);
    lemma_jobs_concat(parts_upto(entries, (i + 1) as nat), rest);
}

/// The texts of parts are those of the front and then those of the back.
proof fn lemma_jobs_concat(a: Seq<PartView>, b: Seq<PartView>)
    ensures
        jobs_of(a + b) == jobs_of(a) + jobs_of(b),
    decreases b.len(),
{
    if b.len() == 0 {
        assert(a + b == a);
        assert(jobs_of(a) + jobs_of(b) == jobs_of(a));
    } else {
        assert((a + b).drop_last() == a + b.drop_last());
        lemma_jobs_concat(a, b.drop_last());
    }
}

/// The parts of the first items stand in front.
proof fn lemma_parts_grow(entries: Seq<ResponseItem>, m: nat, n: nat)
    requires
        m <= n,
    ensures
        parts_upto(entries, m).is_prefix_of(parts_upto(entries, n)),
    decreases n,
{
    if m < n {
        lemma_parts_grow(entries, m, (n - 1) as nat);
    }
}

/// What is shown of the lines made for a text stands in the transcript as a whole,
/// for every text.
pub proof fn law_texts_shown(parts: Seq<PartView>, rendered: Seq<Seq<LineView>>, k: int)
    requires
        0 <= k < jobs_of(parts).len(),
    ensures
        exists|before: Seq<LineView>, after: Seq<LineView>|
            lines_of_parts(parts, rendered) == #[trigger] (before + shown_lines(
                jobs_of(parts)[k].kind,
                made_for(rendered, k),
            ) + after),
    decreases parts.len(),
{
    let front = parts.drop_last();
    let shown = shown_lines(jobs_of(parts)[k].kind, made_for(rendered, k));
    let all = lines_of_parts(parts, rendered);
    if k < jobs_of(front).len() {
        law_texts_shown(front, rendered, k);
        let (before, after) = choose|before: Seq<LineView>, after: Seq<LineView>|
            lines_of_parts(front, rendered) == #[trigger] (before + shown_lines(
                jobs_of(front)[k].kind,
                made_for(rendered, k),
            ) + after);
        let rest = after + all.skip(lines_of_parts(front, rendered).len() as int);
        assert(all == before + shown + rest);
    } else {
        let before = lines_of_parts(front, rendered);
        assert(all == before + shown + Seq::<LineView>::empty());
    }
}

/// A message that is just environment context, inside its wrappers or with them,
/// is not shown.
pub proof fn law_environment_context_hidden(
    entries: Seq<ResponseItem>,
    role: String,
    content: Vec<ContentItem>,
)
    requires
        ({
            let t = text::trimmed(message_text(content@));
            wrappers::is_environment(t) || wrappers::is_environment(wrappers::unwrapped(t))
        }),
    ensures
        parts_of_item(entries, ResponseItem::Message { role, content }) == Seq::<PartView>::empty(),
{
}

/// The lines of the first `n` items of a conversation.
pub open spec fn lines_upto(
    entries: Seq<ResponseItem>,
    n: nat,
    rendered: Seq<Seq<LineView>>,
) -> Seq<LineView> {
    lines_of_parts(parts_upto(entries, n), rendered)
}

/// The number of texts among the first `n` items that have to be turned into lines.
pub open spec fn texts_upto(entries: Seq<ResponseItem>, n: nat) -> nat {
    jobs_of(parts_upto(entries, n)).len()
}

/// The transcript of a conversation holds the lines of all of its items, and
/// nothing in front of the first one.
pub proof fn law_whole_conversation(entries: Seq<ResponseItem>, rendered: Seq<Seq<LineView>>)
    ensures
        resumed_lines(entries, None, rendered) == lines_upto(entries, entries.len(), rendered),
        lines_upto(entries, 0, rendered).len() == 0,
        texts_upto(entries, 0) == 0,
        jobs_of(parts_of(entries)).len() == texts_upto(entries, entries.len()),
{
    assert(resumed_lines(entries, None, rendered) =~= lines_of_parts(parts_of(entries), rendered));
}

/// Whether the last output for the call `id` among `entries` is `entries[k]`.
pub open spec fn is_last_output(entries: Seq<ResponseItem>, id: Seq<char>, k: int) -> bool {
    &&& 0 <= k < entries.len()
    &&& entries[k] matches ResponseItem::FunctionCallOutput { call_id, output } && call_id@ == id
    &&& forall|j: int|
        k < j < entries.len() ==> !(#[trigger] entries[j] matches ResponseItem::FunctionCallOutput {
            call_id,
            output,
        } && call_id@ == id)
}

/// Whether no output for the call `id` is among `entries`.
pub open spec fn has_no_output(entries: Seq<ResponseItem>, id: Seq<char>) -> bool {
    forall|j: int|
        0 <= j < entries.len() ==> !(#[trigger] entries[j] matches ResponseItem::FunctionCallOutput {
            call_id,
            output,
        } && call_id@ == id)
}

proof fn lemma_last_output(entries: Seq<ResponseItem>, id: Seq<char>, k: int)
    requires
        is_last_output(entries, id, k),
    ensures
        outcome_of(entries, id) == Some(
            entries[k]->FunctionCallOutput_output.success != Some(false),
        ),
    decreases entries.len(),
{
    let front = entries.drop_last();
    if k < entries.len() - 1 {
        assert(front[k] == entries[k]);
        assert forall|j: int| k < j < front.len() implies !(
        #[trigger] front[j] matches ResponseItem::FunctionCallOutput { call_id, output } && call_id@
            == id) by {
            assert(front[j] == entries[j]);
        }
        assert(!(entries[entries.len() - 1] matches ResponseItem::FunctionCallOutput {
            call_id,
            output,
        } && call_id@ == id));
        lemma_last_output(front, id, k);
    }
}

proof fn lemma_no_output(entries: Seq<ResponseItem>, id: Seq<char>)
    requires
        has_no_output(entries, id),
    ensures
        outcome_of(entries, id) is None,
{
    lemma_outcome_exists(entries, id);
}

/// One more line at the end of parts.
proof fn lemma_line_behind(parts: Seq<PartView>, l: LineView, rendered: Seq<Seq<LineView>>)
    ensures
        lines_of_parts(parts.push(PartView::Line(l)), rendered) == lines_of_parts(
            parts,
            rendered,
        ).push(l),
        jobs_of(parts.push(PartView::Line(l))) == jobs_of(parts),
{
    assert(parts.push(PartView::Line(l)).drop_last() =~= parts);
}

/// One more text at the end of parts.
proof fn lemma_text_behind(parts: Seq<PartView>, j: RenderJobView, rendered: Seq<Seq<LineView>>)
    ensures
        lines_of_parts(parts.push(PartView::Render(j)), rendered) == lines_of_parts(
            parts,
            rendered,
        ) + shown_lines(j.kind, made_for(rendered, jobs_of(parts).len() as int)),
        jobs_of(parts.push(PartView::Render(j))) == jobs_of(parts).push(j),
{
    assert(parts.push(PartView::Render(j)).drop_last() =~= parts);
}

/// Two more lines at the end of parts.
proof fn lemma_two_lines_behind(
    parts: Seq<PartView>,
    a: LineView,
    b: LineView,
    rendered: Seq<Seq<LineView>>,
)
    ensures
        lines_of_parts(parts + seq![PartView::Line(a), PartView::Line(b)], rendered)
            == lines_of_parts(parts, rendered) + seq![a, b],
        jobs_of(parts + seq![PartView::Line(a), PartView::Line(b)]) == jobs_of(parts),
{
    lemma_line_behind(parts, a, rendered);
    lemma_line_behind(parts.push(PartView::Line(a)), b, rendered);
    assert(parts + seq![PartView::Line(a), PartView::Line(b)] =~= parts.push(
        PartView::Line(a),
    ).push(PartView::Line(b)));
    assert(lines_of_parts(parts, rendered).push(a).push(b) =~= lines_of_parts(parts, rendered)
        + seq![a, b]);
}

/// An answer under its heading at the end of parts.
proof fn lemma_answer_behind(
    parts: Seq<PartView>,
    kind: RenderKind,
    t: Seq<char>,
    rendered: Seq<Seq<LineView>>,
)
    ensures
        lines_of_parts(parts + answer(kind, t), rendered) == lines_of_parts(parts, rendered) + seq![
            lines::blank(),
            answer_heading(),
        ] + shown_lines(kind, made_for(rendered, jobs_of(parts).len() as int)),
        jobs_of(parts + answer(kind, t)) == jobs_of(parts).push(RenderJobView { kind, text: t }),
{
    let heading = seq![PartView::Line(lines::blank()), PartView::Line(answer_heading())];
    let job = RenderJobView { kind, text: t };
    lemma_two_lines_behind(parts, lines::blank(), answer_heading(), rendered);
    lemma_text_behind(parts + heading, job, rendered);
    assert(parts + answer(kind, t) =~= (parts + heading).push(PartView::Render(job)));
}

/// Whether a line says in its span `at` that a call went well or failed: a green
/// check mark or a red cross.
pub open spec fn is_marked(line: LineView, at: int, ok: bool) -> bool {
    line.spans[at] == if ok {
        lines::styled("✓"@, Some(Color::Green), 0)
    } else {
        lines::styled("✗"@, Some(Color::Red), 0)
    }
}

/// The execution of a command is shown by an empty line and one with a mark and the
/// command, its words separated by spaces. The mark is that of a failure exactly
/// where the last output for the call says so, whatever that printed; without an
/// output or an id it is that of a success.
pub proof fn law_exec_shown(
    entries: Seq<ResponseItem>,
    n: nat,
    rendered: Seq<Seq<LineView>>,
    call_id: Option<String>,
    exec: LocalShellExecAction,
    k: int,
)
    requires
        n < entries.len(),
        entries[n as int] == (ResponseItem::LocalShellCall {
            call_id,
            action: LocalShellAction::Exec(exec),
        }),
    ensures
        ({
            let before = lines_upto(entries, n, rendered);
            let after = lines_upto(entries, n + 1, rendered);
            let line = after.last();
            &&& after.len() == before.len() + 2
            &&& after.take(before.len() as int) == before
            &&& after[before.len() as int] == lines::blank()
            &&& line.spans.len() == 4
            &&& line == lines::line_of(line.spans)
            &&& line.spans[0] == lines::raw("  "@)
            &&& line.spans[2] == lines::raw(" "@)
            &&& line.spans[3] == lines::styled(
                "⌨️ "@ + text::joined(exec.command.deep_view(), " "@),
                Some(Color::LightBlue),
                0,
            )
            &&& call_id is Some && is_last_output(entries, call_id->0@, k) ==> is_marked(
                line,
                1,
                entries[k]->FunctionCallOutput_output.success != Some(false),
            )
            &&& call_id is Some && has_no_output(entries, call_id->0@) ==> is_marked(line, 1, true)
            &&& call_id is None ==> is_marked(line, 1, true)
            &&& texts_upto(entries, n + 1) == texts_upto(entries, n)
        }),
{
    let parts = parts_upto(entries, n);
    let line = exec_line(exec.command.deep_view(), exec_ok(entries, call_id));
    lemma_two_lines_behind(parts, lines::blank(), line, rendered);
    let before = lines_upto(entries, n, rendered);
    assert((before + seq![lines::blank(), line]).take(before.len() as int) =~= before);
    if let Some(id) = call_id {
        if is_last_output(entries, id@, k) {
            lemma_last_output(entries, id@, k);
        }
        if has_no_output(entries, id@) {
            lemma_no_output(entries, id@);
        }
    }
}

/// A call of a tool for which an output came back is shown by an empty line and one
/// with the label of the tool and a mark, which is that of a failure exactly where
/// the last output for the call says so, whatever that printed. Without an output
/// it is not shown.
pub proof fn law_tool_shown(
    entries: Seq<ResponseItem>,
    n: nat,
    rendered: Seq<Seq<LineView>>,
    name: String,
    arguments: String,
    call_id: String,
    k: int,
)
    requires
        n < entries.len(),
        entries[n as int] == (ResponseItem::FunctionCall { name, arguments, call_id }),
    ensures
        ({
            let before = lines_upto(entries, n, rendered);
            let after = lines_upto(entries, n + 1, rendered);
            let line = after.last();
            &&& is_last_output(entries, call_id@, k) ==> {
                &&& after.len() == before.len() + 2
                &&& after.take(before.len() as int) == before
                &&& after[before.len() as int] == lines::blank()
                &&& line.spans.len() == 5
                &&& line == lines::line_of(line.spans)
                &&& line.spans[0] == lines::styled("tool"@, Some(Color::Magenta), 0)
                &&& line.spans[1] == lines::raw(" "@)
                &&& line.spans[2] == lines::raw(tool_label(name@))
                &&& line.spans[3] == lines::raw(" "@)
                &&& is_marked(
                    line,
                    4,
                    entries[k]->FunctionCallOutput_output.success != Some(false),
                )
            }
            &&& has_no_output(entries, call_id@) ==> after == before
            &&& texts_upto(entries, n + 1) == texts_upto(entries, n)
        }),
{
    let parts = parts_upto(entries, n);
    let before = lines_upto(entries, n, rendered);
    if has_no_output(entries, call_id@) {
        lemma_no_output(entries, call_id@);
    }
    if is_last_output(entries, call_id@, k) {
        lemma_last_output(entries, call_id@, k);
    }
    match outcome_of(entries, call_id@) {
        Some(ok) => {
            let line = tool_line(name@, ok);
            lemma_two_lines_behind(parts, lines::blank(), line, rendered);
            assert((before + seq![lines::blank(), line]).take(before.len() as int) =~= before);
        },
        None => {
            assert(parts + Seq::<PartView>::empty() =~= parts);
        },
    }
}

/// Whether a line is the heading of an answer.
pub open spec fn is_answer_heading(line: LineView) -> bool {
    line == lines::line_of(seq![lines::styled("codex"@, Some(Color::Magenta), 1)])
}

/// The output of a call is shown under a heading by all the lines made for it, and
/// not at all where it is empty.
pub proof fn law_output_shown(
    entries: Seq<ResponseItem>,
    n: nat,
    rendered: Seq<Seq<LineView>>,
    call_id: String,
    output: FunctionCallOutputPayload,
)
    requires
        n < entries.len(),
        entries[n as int] == (ResponseItem::FunctionCallOutput { call_id, output }),
    ensures
        ({
            let before = lines_upto(entries, n, rendered);
            let after = lines_upto(entries, n + 1, rendered);
            let i = texts_upto(entries, n) as int;
            let b = before.len() as int;
            &&& output.content@.len() == 0 ==> after == before && texts_upto(entries, n + 1) == i
            &&& output.content@.len() > 0 ==> {
                &&& texts_upto(entries, n + 1) == i + 1
                &&& jobs_of(parts_upto(entries, n + 1)).last() == (RenderJobView {
                    kind: RenderKind::Output,
                    text: output.content@,
                })
                &&& after.take(b) == before
                &&& after.len() >= b + 2
                &&& after[b] == lines::blank()
                &&& is_answer_heading(after[b + 1])
                &&& i < rendered.len() ==> after.skip(b + 2) == rendered[i]
                &&& i >= rendered.len() ==> after.len() == b + 2
            }
        }),
{
    let parts = parts_upto(entries, n);
    let before = lines_upto(entries, n, rendered);
    let b = before.len() as int;
    if output.content@.len() == 0 {
        assert(parts + Seq::<PartView>::empty() =~= parts);
    } else {
        lemma_answer_behind(parts, RenderKind::Output, output.content@, rendered);
        let made = made_for(rendered, jobs_of(parts).len() as int);
        let after = before + seq![lines::blank(), answer_heading()] + made;
        assert(lines_upto(entries, n + 1, rendered) == after);
        assert(after.take(b) =~= before);
        assert(after.skip(b + 2) =~= made);
    }
}

/// A message is shown by what is made for its text: for a prompt of the user the
/// lines alone, for any other message a heading and its first eighteen lines, with
/// a note where there were more. A message without text to show is not shown.
pub proof fn law_message_lines(
    entries: Seq<ResponseItem>,
    n: nat,
    rendered: Seq<Seq<LineView>>,
    role: String,
    content: Vec<ContentItem>,
)
    requires
        n < entries.len(),
        entries[n as int] == (ResponseItem::Message { role, content }),
    ensures
        ({
            let before = lines_upto(entries, n, rendered);
            let after = lines_upto(entries, n + 1, rendered);
            let i = texts_upto(entries, n) as int;
            let b = before.len() as int;
            let t = shown_text(content@);
            let made = if i < rendered.len() {
                rendered[i]
            } else {
                Seq::empty()
            };
            &&& t.len() == 0 ==> after == before && texts_upto(entries, n + 1) == i
            &&& t.len() > 0 ==> {
                &&& texts_upto(entries, n + 1) == i + 1
                &&& jobs_of(parts_upto(entries, n + 1)).last().text == t
                &&& after.take(b) == before
            }
            &&& t.len() > 0 && role@ == "user"@ ==> {
                &&& jobs_of(parts_upto(entries, n + 1)).last().kind == RenderKind::UserPrompt
                &&& after.skip(b) == made
            }
            &&& t.len() > 0 && role@ != "user"@ ==> {
                &&& jobs_of(parts_upto(entries, n + 1)).last().kind == RenderKind::Assistant
                &&& after.len() >= b + 2
                &&& after[b] == lines::blank()
                &&& is_answer_heading(after[b + 1])
                &&& made.len() <= 18 ==> after.skip(b + 2) == made
                &&& made.len() > 18 ==> {
                    &&& after.len() == b + 2 + 19
                    &&& after.subrange(b + 2, b + 20) == made.take(18)
                    &&& after.last() == lines::line_of(
                        seq![
                            lines::styled(
                                "… truncated; press Ctrl-T for full transcript"@,
                                None,
                                2,
                            ),
                        ],
                    )
                }
            }
        }),
{
    let parts = parts_upto(entries, n);
    let before = lines_upto(entries, n, rendered);
    let b = before.len() as int;
    let t = shown_text(content@);
    let made = made_for(rendered, jobs_of(parts).len() as int);
    if t.len() == 0 {
        assert(parts + Seq::<PartView>::empty() =~= parts);
    } else if role@ == "user"@ {
        let job = RenderJobView { kind: RenderKind::UserPrompt, text: t };
        lemma_text_behind(parts, job, rendered);
        assert(parts + seq![PartView::Render(job)] =~= parts.push(PartView::Render(job)));
        assert((before + made).take(b) =~= before);
        assert((before + made).skip(b) =~= made);
    } else {
        lemma_answer_behind(parts, RenderKind::Assistant, t, rendered);
        let shown = shown_lines(RenderKind::Assistant, made);
        let after = before + seq![lines::blank(), answer_heading()] + shown;
        assert(lines_upto(entries, n + 1, rendered) == after);
        assert(after.take(b) =~= before);
        assert(after.skip(b + 2) =~= shown);
        if made.len() > 18 {
            assert(after.subrange(b + 2, b + 20) =~= made.take(18));
            assert(after.last() == truncation_note());
        }
    }
}

/// Reasoning is shown by an empty line and one that says so; other items are not
/// shown.
pub proof fn law_other_items(entries: Seq<ResponseItem>, n: nat, rendered: Seq<Seq<LineView>>)
    requires
        n < entries.len(),
    ensures
        ({
            let before = lines_upto(entries, n, rendered);
            let after = lines_upto(entries, n + 1, rendered);
            let item = entries[n as int];
            &&& item is Reasoning ==> {
                &&& after.len() == before.len() + 2
                &&& after.take(before.len() as int) == before
                &&& after[before.len() as int] == lines::blank()
                &&& after.last() == lines::line_of(
                    seq![lines::styled("thinking"@, Some(Color::Magenta), 4)],
                )
            }
            &&& item is Other ==> after == before
            &&& (item matches ResponseItem::LocalShellCall { call_id, action } && action is Other)
                ==> after == before
            &&& item is Reasoning || item is Other || (item matches ResponseItem::LocalShellCall {
                call_id,
                action,
            } && action is Other) ==> texts_upto(entries, n + 1) == texts_upto(entries, n)
        }),
{
    let parts = parts_upto(entries, n);
    let before = lines_upto(entries, n, rendered);
    assert(parts + Seq::<PartView>::empty() =~= parts);
    lemma_two_lines_behind(parts, lines::blank(), thinking_line(), rendered);
    assert((before + seq![lines::blank(), thinking_line()]).take(before.len() as int) =~= before);
}

/// The text of a message is made of its texts, each in a line of its own; what is
/// shown of it is what stripping leaves.
pub proof fn law_message_text(content: Seq<ContentItem>, t: String)
    ensures
        ({
            let before = message_text(content);
            let input = message_text(content.push(ContentItem::InputText { text: t }));
            let output = message_text(content.push(ContentItem::OutputText { text: t }));
            &&& input == if before.len() == 0 {
                t@
            } else {
                before + seq!['\n'] + t@
            }
            &&& output == input
            &&& message_text(content.push(ContentItem::Other)) == before
        }),
        message_text(Seq::empty()).len() == 0,
        wrappers::stripped(message_text(content)) matches Some(shown) ==> shown_text(content)
            == shown,
        wrappers::stripped(message_text(content)) is None ==> shown_text(content).len() == 0,
{
    assert(content.push(ContentItem::InputText { text: t }).drop_last() =~= content);
    assert(content.push(ContentItem::OutputText { text: t }).drop_last() =~= content);
    assert(content.push(ContentItem::Other).drop_last() =~= content);
    assert(message_text(content).push('\n') =~= message_text(content) + seq!['\n']);
}

/// The label of a tool has a slash for the first two bars in its name, and a slash
/// behind its name where there are none.
pub proof fn law_tool_label(server: Seq<char>, tool: Seq<char>, name: Seq<char>)
    requires
        !text::holds(server + seq!['_'], "__"@),
        !text::holds(name, "__"@),
    ensures
        tool_label(server + seq!['_', '_'] + tool) == server + seq!['/'] + tool,
        tool_label(name) == name + seq!['/'],
{
    reveal_strlit("__");
    reveal_strlit("/");
    let bar = "__"@;
    let s = server + seq!['_', '_'] + tool;
    let n = server.len() as int;
    assert(s.subrange(n, n + 2) =~= bar);
    assert forall|i: int| text::occurs_at(s, bar, i) implies i >= n by {
        if i < n {
            let front = server + seq!['_'];
            assert(front.subrange(i, i + 2) =~= s.subrange(i, i + 2));
            text::lemma_occurs_found(front, bar, i);
        }
    }
    text::lemma_least_found(s, bar, n);
    assert("/"@ =~= seq!['/']);
    assert(s.take(n) =~= server);
    assert(s.skip(n + 2) =~= tool);
}

/// The actions of a session, each by a line: the command of an execution, the label
/// of a tool. No other item is an action.
pub proof fn law_highlight_lines(entries: Seq<ResponseItem>, item: ResponseItem)
    ensures
        ({
            let before = all_highlights(entries);
            let after = all_highlights(entries.push(item));
            let line = after.last();
            let executes = (item matches ResponseItem::LocalShellCall { call_id, action } && action
                is Exec);
            &&& all_highlights(Seq::empty()).len() == 0
            &&& executes || item is FunctionCall ==> {
                &&& after.len() == before.len() + 1
                &&& after.drop_last() == before
                &&& line.spans.len() == 3
                &&& line == lines::line_of(line.spans)
                &&& line.spans[0] == lines::styled("  • "@, None, 2)
            }
            &&& item matches ResponseItem::LocalShellCall { call_id, action } ==> (action matches
                LocalShellAction::Exec(exec) ==> {
                &&& line.spans[1] == lines::raw("exec "@)
                &&& line.spans[2] == lines::styled(
                    text::joined(exec.command.deep_view(), " "@),
                    Some(Color::LightBlue),
                    0,
                )
            })
            &&& item matches ResponseItem::FunctionCall { name, arguments, call_id } ==> {
                &&& line.spans[1] == lines::raw("tool "@)
                &&& line.spans[2] == lines::raw(tool_label(name@))
            }
            &&& !executes && !(item is FunctionCall) ==> after == before
        }),
{
    let one = seq![item];
    assert(entries.push(item) =~= entries + one);
    lemma_highlights_concat(entries, one);
    assert(one.drop_first() =~= Seq::<ResponseItem>::empty());
    assert(all_highlights(Seq::empty()) =~= Seq::<LineView>::empty());
    let before = all_highlights(entries);
    match highlight_of(item) {
        Some(l) => {
            assert(all_highlights(one) =~= seq![l]);
            assert((before + seq![l]).drop_last() =~= before);
        },
        None => {
            assert(all_highlights(one) =~= Seq::<LineView>::empty());
            assert(before + Seq::<LineView>::empty() =~= before);
        },
    }
}

/// A recap: an empty line, a heading with the time of creation and the number of
/// messages, the recent actions, the id where there is one, and the path.
pub proof fn law_recap(
    entries: Seq<ResponseItem>,
    created: Seq<char>,
    id: Option<u128>,
    count: u32,
    path: Seq<char>,
)
    ensures
        ({
            let r = recap_of(entries, created, id, count, path);
            let recent = highlights_of(entries);
            let heading = r[1].spans;
            let with_id = if id is Some {
                1int
            } else {
                0
            };
            &&& r.len() == 2 + recent.len() + with_id + 1
            &&& r[0] == lines::blank()
            &&& heading.len() == 5
            &&& r[1] == lines::line_of(heading)
            &&& heading[0] == lines::styled("Restored"@, Some(Color::Magenta), 1)
            &&& heading[1] == lines::raw(" — "@)
            &&& heading[2] == lines::styled(created, None, 2)
            &&& heading[3] == lines::raw(" "@)
            &&& heading[4] == lines::styled(
                "("@ + text::decimal(count as nat) + ")"@,
                Some(Color::Cyan),
                0,
            )
            &&& r.subrange(2, 2int + recent.len()) == recent
            &&& id is Some ==> {
                r[2int + recent.len()] == lines::line_of(
                    seq![
                        lines::styled("id: "@, None, 2),
                        lines::styled(ids::hyphenated(id->0), None, 2),
                    ],
                )
            }
            &&& r.last() == lines::line_of(
                seq![lines::styled("path: "@, None, 2), lines::styled(path, None, 2)],
            )
        }),
{
    let r = recap_of(entries, created, id, count, path);
    let recent = highlights_of(entries);
    assert(r.subrange(2, 2int + recent.len()) =~= recent);
}

proof fn lemma_bytes(bytes: Option<Vec<u8>>)
    ensures
        bytes is Some ==> bytes.deep_view() == Some(bytes->0@),
        bytes is None ==> bytes.deep_view() is None,
{
    if bytes is Some {
        assert(bytes->0.deep_view() =~= bytes->0@);
    }
}

/// The recap of a resumed session tells what the rollout file's meta line says, the
/// recent actions, and the path as it is shown. An unreadable meta line gives an
/// empty time and no id.
pub proof fn law_resume_recap(entries: Seq<ResponseItem>, resume: Resume)
    ensures
        ({
            let r = resume_recap(entries, resume);
            let meta = if resume.rollout is Some {
                session_meta::meta_of(resume.rollout->0@)
            } else {
                None
            };
            let id = if meta is Some {
                (meta->0).1
            } else {
                None
            };
            let recent = highlights_of(entries);
            &&& r[1].spans[2].content == if meta is Some {
                (meta->0).0
            } else {
                Seq::empty()
            }
            &&& r.subrange(2, 2int + recent.len()) == recent
            &&& r.len() == 3 + recent.len() + if id is Some {
                1int
            } else {
                0
            }
            &&& id is Some ==> r[2int + recent.len()].spans[1].content == ids::hyphenated(id->0)
            &&& r.last().spans[1].content == resume.shown_path@
        }),
{
    law_recap(
        entries,
        resume_meta(resume).0,
        resume_meta(resume).1,
        recap_count(resume_count(resume), entries.len()),
        resume.shown_path@,
    );
}

/// The number in the heading of a recap is the one that the sidecar gives; without
/// one, the one that the last 512 KiB of the rollout file give: what its latest
/// state line states, else the number of its conversation items. Only where neither
/// gives one it is the number of entries.
pub proof fn law_recap_number(entries: Seq<ResponseItem>, resume: Resume)
    ensures
        ({
            let shown = resume_recap(entries, resume)[1].spans[4].content;
            let stated = if resume.sidecar is Some {
                session_meta::stats_in_sidecar(resume.sidecar->0@)
            } else {
                None
            };
            let all = if resume.rollout is Some {
                session_meta::lines_in(resume.rollout->0@, 524288)
            } else {
                None
            };
            let scan = session_meta::scan_of(all->0, resume.items@);
            &&& stated is Some && stated->0.message_count is Some ==> shown == "("@ + text::decimal(
                stated->0.message_count->0 as nat,
            ) + ")"@
            &&& stated is None && all is Some && scan.stated is Some ==> shown == "("@
                + text::decimal(scan.stated->0 as nat) + ")"@
            &&& stated is None && all is Some && scan.stated is None ==> shown == "("@
                + text::decimal(scan.items as nat) + ")"@
            &&& stated is None && all is None && entries.len() <= 4294967295 ==> shown == "("@
                + text::decimal(entries.len()) + ")"@
            &&& stated is None && all is None ==> shown == "("@ + text::decimal(
                entries.len() % 4294967296,
            ) + ")"@
        }),
{
    lemma_bytes(resume.sidecar);
    lemma_bytes(resume.rollout);
    law_recap(
        entries,
        resume_meta(resume).0,
        resume_meta(resume).1,
        recap_count(resume_count(resume), entries.len()),
        resume.shown_path@,
    );
}

/// Without a sidecar, the number in the heading of a recap is the one in the latest
/// state line at the end of the rollout file, where there is one.
pub proof fn law_recap_counts_state(
    entries: Seq<ResponseItem>,
    resume: Resume,
    all: Seq<Seq<char>>,
    k: int,
    n: u32,
)
    requires
        resume.sidecar is None,
        resume.rollout is Some,
        session_meta::lines_in(resume.rollout->0@, 524288) == Some(all),
        0 <= k < all.len(),
        session_meta::states_count(all[k]),
        session_meta::count_stated(all[k], json::json_of_text(all[k])) == Some(n),
        forall|j: int| k < j < all.len() ==> !session_meta::states_count(all[j]),
    ensures
        resume_recap(entries, resume)[1].spans[4].content == "("@ + text::decimal(n as nat) + ")"@,
{
    law_recap_number(entries, resume);
    session_meta::law_latest_state_counts(all, resume.items@, k);
    session_meta::law_scan_ends(resume.items@, session_meta::scan_of(all, resume.items@));
}

/// The views of jobs and parts leave nothing out.
pub proof fn law_views_whole(job: RenderJob, part: Part)
    ensures
        job.deep_view().kind == job.kind,
        job.deep_view().text == job.text@,
        part matches Part::Line(l) ==> part.deep_view() == PartView::Line(l.deep_view()),
        part matches Part::Render(j) ==> part.deep_view() == PartView::Render(j.deep_view()),
{
}

/// A transcript can be made exactly where the wrappers can be taken off every
/// message.
pub proof fn law_renderable(entries: Seq<ResponseItem>, item: ResponseItem)
    ensures
        renderable(Seq::empty()),
        renderable(entries.push(item)) <==> renderable(entries) && (
        item matches ResponseItem::Message { role, content } ==> wrappers::strippable(
            message_text(content@),
        )),
{
    let more = entries.push(item);
    assert(more[entries.len() as int] == item);
    assert(forall|i: int| 0 <= i < entries.len() ==> more[i] == #[trigger] entries[i]);
    if renderable(entries) && (item matches ResponseItem::Message { role, content }
        ==> wrappers::strippable(message_text(content@))) {
        assert forall|i: int| 0 <= i < more.len() implies (
        #[trigger] more[i] matches ResponseItem::Message { role, content } ==> wrappers::strippable(
            message_text(content@),
        )) by {
            if i < entries.len() {
                assert(more[i] == entries[i]);
            }
        }
    }
}

} // verus!
