//! The status line: what is handed to the command that makes it, when that
//! command runs, and which line comes of its output.

use vstd::prelude::*;
use vstd::utf8;
use crate::encoding;
use crate::encoding::lossy_text;
use crate::text;
use crate::text::{chars_of, indent, lines, text_of, trim};

verus! {

/// The event name that the command reads.
pub const STATUS_LINE_HOOK_EVENT: &'static str = "Status";

/// The least number of nanoseconds from the sending of a line to the next run.
pub const STATUS_LINE_MIN_INTERVAL: u128 = 300_000_000;

/// How much a model reasons.
#[derive(Debug, Clone, PartialEq, Eq)]
pub enum ReasoningEffort {
    /// No effort.
    Absent,
    /// An effort under the name that it is shown by.
    Named(String),
}

/// The directories of a session.
#[derive(Debug, Clone, PartialEq, Eq)]
pub struct StatusLineWorkspace {
    pub current_dir: String,
    pub project_dir: String,
}

/// The model of a session.
#[derive(Debug, Clone, PartialEq, Eq)]
pub struct StatusLineModel {
    pub id: String,
    pub display_name: String,
    pub display_name_with_effort: String,
    pub reasoning_effort: Option<ReasoningEffort>,
}

/// The style of output.
#[derive(Debug, Clone, PartialEq, Eq)]
pub struct StatusLineOutputStyle {
    pub name: String,
}

/// What a session took so far, apart from money.
#[derive(Debug, Clone, PartialEq, Eq)]
pub struct StatusLineCost {
    pub total_duration_ms: Option<u64>,
    pub total_api_duration_ms: Option<u64>,
    pub total_lines_added: Option<i64>,
    pub total_lines_removed: Option<i64>,
}

impl Default for StatusLineCost {
    /// Nothing known.
    fn default() -> (r: StatusLineCost)
        ensures
            r == (StatusLineCost {
                total_duration_ms: None,
                total_api_duration_ms: None,
                total_lines_added: None,
                total_lines_removed: None,
            }),
    {
        StatusLineCost {
            total_duration_ms: None,
            total_api_duration_ms: None,
            total_lines_added: None,
            total_lines_removed: None,
        }
    }
}

/// The tokens that a session used.
#[derive(Debug, Clone, PartialEq, Eq)]
pub struct StatusLineContextUsage {
    pub input_tokens: i64,
    pub cache_creation_input_tokens: i64,
    pub cache_read_input_tokens: i64,
    pub output_tokens: i64,
    pub reasoning_output_tokens: i64,
    pub total_tokens: i64,
}

/// The context window of a session.
#[derive(Debug, Clone, PartialEq, Eq)]
pub struct StatusLineContextWindow {
    pub context_window_size: Option<i64>,
    pub current_usage: Option<StatusLineContextUsage>,
    pub percent_remaining: Option<i64>,
}

/// What the command reads.
#[derive(Debug, Clone, PartialEq, Eq)]
pub struct StatusLineInput {
    pub hook_event_name: &'static str,
    pub session_id: Option<String>,
    pub transcript_path: Option<String>,
    pub cwd: String,
    pub workspace: StatusLineWorkspace,
    pub model: StatusLineModel,
    pub version: String,
    pub output_style: StatusLineOutputStyle,
    pub cost: StatusLineCost,
    pub context_window: Option<StatusLineContextWindow>,
}

/// What a `StatusLineInput` is made from.
#[derive(Debug, PartialEq, Eq)]
pub struct StatusLineInputArgs {
    pub session_id: Option<String>,
    pub transcript_path: Option<String>,
    pub cwd: String,
    pub project_dir: String,
    pub model_id: String,
    pub model_display_name: String,
    pub reasoning_effort: Option<ReasoningEffort>,
    pub version: String,
    pub context_window: Option<StatusLineContextWindow>,
}

/// The name of a model with its effort behind, if it has one.
pub open spec fn name_with_effort(name: Seq<char>, effort: Option<ReasoningEffort>) -> Seq<char> {
    match effort {
        Some(ReasoningEffort::Named(effort)) => name + " "@ + effort@,
        _ => name,
    }
}

/// Whether `r` is what the command reads of the session that `args` tell of.
pub open spec fn tells_of(r: StatusLineInput, args: StatusLineInputArgs) -> bool {
    &&& r.hook_event_name@ == STATUS_LINE_HOOK_EVENT@
    &&& (r.session_id, r.transcript_path) == (args.session_id, args.transcript_path)
    &&& r.cwd == args.cwd
    &&& r.workspace == (StatusLineWorkspace {
        current_dir: args.cwd,
        project_dir: args.project_dir,
    })
    &&& (r.model.id, r.model.display_name) == (args.model_id, args.model_display_name)
    &&& r.model.display_name_with_effort@ == name_with_effort(
        args.model_display_name@,
        args.reasoning_effort,
    )
    &&& r.model.reasoning_effort == args.reasoning_effort
    &&& r.version == args.version
    &&& r.output_style.name@ == "default"@
    &&& r.cost.total_duration_ms is None && r.cost.total_api_duration_ms is None
    &&& r.cost.total_lines_added is None && r.cost.total_lines_removed is None
    &&& r.context_window == args.context_window
}

impl StatusLineInput {
    /// What the command reads of a session.
    pub fn for_codex(args: StatusLineInputArgs) -> (r: StatusLineInput)
        ensures
            tells_of(r, args),
            r.hook_event_name@ == "Status"@,
            r.session_id == args.session_id,
            r.transcript_path == args.transcript_path,
            r.cwd == args.cwd,
            r.workspace.current_dir == args.cwd,
            r.workspace.project_dir == args.project_dir,
            r.model.id == args.model_id,
            r.model.display_name == args.model_display_name,
            r.model.display_name_with_effort@ == name_with_effort(
                args.model_display_name@,
                args.reasoning_effort,
            ),
            r.model.reasoning_effort == args.reasoning_effort,
            r.version == args.version,
            r.output_style.name@ == "default"@,
            r.cost == (StatusLineCost {
                total_duration_ms: None,
                total_api_duration_ms: None,
                total_lines_added: None,
                total_lines_removed: None,
            }),
            r.context_window == args.context_window,
    {
        let mut display_name_with_effort = args.model_display_name.clone();
        if let Some(ReasoningEffort::Named(effort)) = &args.reasoning_effort {
            display_name_with_effort.append(" ");
            display_name_with_effort.append(effort.as_str());
        }
        StatusLineInput {
            hook_event_name: STATUS_LINE_HOOK_EVENT,
            session_id: args.session_id,
            transcript_path: args.transcript_path,
            cwd: args.cwd.clone(),
            workspace: StatusLineWorkspace {
                current_dir: args.cwd,
                project_dir: args.project_dir,
            },
            model: StatusLineModel {
                id: args.model_id,
                display_name: args.model_display_name,
                display_name_with_effort,
                reasoning_effort: args.reasoning_effort,
            },
            version: args.version,
            output_style: StatusLineOutputStyle { name: "default".to_string() },
            cost: StatusLineCost::default(),
            context_window: args.context_window,
        }
    }
}

/// Where the scheduler of the command stands.
#[derive(Debug, PartialEq, Eq)]
pub enum Phase {
    /// It waits for an input.
    Waiting,
    /// The command runs.
    Running,
    /// The line that came of the command is sent.
    Sending,
    /// The line was sent, and the inputs that came meanwhile are taken; the
    /// last of them is kept.
    Draining(Option<StatusLineInput>),
    /// No input will come any more.
    Stopped,
}

/// Decides when the command runs, and on which input. Times are in nanoseconds.
#[derive(Debug, PartialEq, Eq)]
pub struct StatusLineScheduler {
    pub last_run: u128,
    pub phase: Phase,
}

/// What happened to the scheduler.
#[derive(Debug, PartialEq, Eq)]
pub enum SchedulerEvent {
    /// The input that was waited for came, at `now`.
    Received { input: StatusLineInput, now: u128 },
    /// No input will come any more.
    Closed,
    /// The command ended, and this line, if any, came of it.
    Ended { line: Option<String> },
    /// The line was sent, at `now`.
    Finished { now: u128 },
    /// One more input was there.
    Polled { input: StatusLineInput },
    /// No more input is there, at `now`.
    Drained { now: u128 },
}

/// What is to do next.
#[derive(Debug, PartialEq, Eq)]
pub enum SchedulerAction {
    /// Wait for an input.
    Receive,
    /// Sleep until the time, if there is one; then run the command on the input.
    Run { input: StatusLineInput, sleep_until: Option<u128> },
    /// Send the line.
    Send { line: Option<String> },
    /// Take an input if one is there.
    Poll,
    /// Stop.
    Stop,
}

/// Whether an event can happen where the scheduler stands, at times that the
/// clock can hold.
pub open spec fn fits(s: StatusLineScheduler, event: SchedulerEvent) -> bool {
    match event {
        SchedulerEvent::Received { input, now } => s.phase is Waiting && s.last_run
            + STATUS_LINE_MIN_INTERVAL <= u128::MAX,
        SchedulerEvent::Closed => s.phase is Waiting,
        SchedulerEvent::Ended { line } => s.phase is Running,
        SchedulerEvent::Finished { now } => s.phase is Sending,
        SchedulerEvent::Polled { input } => s.phase is Draining,
        SchedulerEvent::Drained { now } => s.phase is Draining && s.last_run
            + STATUS_LINE_MIN_INTERVAL <= u128::MAX,
    }
}

/// The run on `input`, decided at `now`, after a run whose line was sent at
/// `last_run`.
pub open spec fn run_of(input: StatusLineInput, last_run: u128, now: u128) -> SchedulerAction {
    let next_at = (last_run + STATUS_LINE_MIN_INTERVAL) as u128;
    SchedulerAction::Run {
        input,
        sleep_until: if now < next_at {
            Some(next_at)
        } else {
            None
        },
    }
}

/// Where the scheduler stands after an event, and what is to do next.
pub open spec fn scheduled(s: StatusLineScheduler, event: SchedulerEvent) -> (
    StatusLineScheduler,
    SchedulerAction,
) {
    match event {
        SchedulerEvent::Received { input, now } => (
            StatusLineScheduler { phase: Phase::Running, ..s },
            run_of(input, s.last_run, now),
        ),
        SchedulerEvent::Closed => (
            StatusLineScheduler { phase: Phase::Stopped, ..s },
            SchedulerAction::Stop,
        ),
        SchedulerEvent::Ended { line } => (
            StatusLineScheduler { phase: Phase::Sending, ..s },
            SchedulerAction::Send { line },
        ),
        SchedulerEvent::Finished { now } => (
            StatusLineScheduler { last_run: now, phase: Phase::Draining(None) },
            SchedulerAction::Poll,
        ),
        SchedulerEvent::Polled { input } => (
            StatusLineScheduler { phase: Phase::Draining(Some(input)), ..s },
            SchedulerAction::Poll,
        ),
        SchedulerEvent::Drained { now } => match s.phase {
            Phase::Draining(Some(input)) => (
                StatusLineScheduler { phase: Phase::Running, ..s },
                run_of(input, s.last_run, now),
            ),
            _ => (
                StatusLineScheduler { phase: Phase::Waiting, ..s },
                SchedulerAction::Receive,
            ),
        },
    }
}

/// The time from which the first run keeps its distance.
pub open spec fn start_time(now: u128, earlier: Option<u128>) -> u128 {
    match earlier {
        Some(t) => t,
        None => now,
    }
}

impl StatusLineScheduler {
    /// A scheduler at `now`. `earlier` is the time one interval before, if the
    /// clock has it: the first run then need not wait.
    pub fn start(now: u128, earlier: Option<u128>) -> (r: StatusLineScheduler)
        ensures
            r.last_run == start_time(now, earlier),
            r.last_run == (match earlier {
                Some(t) => t,
                None => now,
            }),
            r.phase == Phase::Waiting,
    {
        StatusLineScheduler {
            last_run: match earlier {
                Some(t) => t,
                None => now,
            },
            phase: Phase::Waiting,
        }
    }

    /// Whether `step` can be called with an event.
    pub fn accepts(&self, event: &SchedulerEvent) -> (r: bool)
        ensures
            r == fits(*self, *event),
    {
        let clock_holds = self.last_run <= u128::MAX - STATUS_LINE_MIN_INTERVAL;
        match (&self.phase, event) {
            (Phase::Waiting, SchedulerEvent::Received { .. }) => clock_holds,
            (Phase::Waiting, SchedulerEvent::Closed) => true,
            (Phase::Running, SchedulerEvent::Ended { .. }) => true,
            (Phase::Sending, SchedulerEvent::Finished { .. }) => true,
            (Phase::Draining(_), SchedulerEvent::Polled { .. }) => true,
            (Phase::Draining(_), SchedulerEvent::Drained { .. }) => clock_holds,
            _ => false,
        }
    }

    fn run(last_run: u128, input: StatusLineInput, now: u128) -> (r: SchedulerAction)
        requires
            last_run + STATUS_LINE_MIN_INTERVAL <= u128::MAX,
        ensures
            r == run_of(input, last_run, now),
    {
        let next_at = last_run + STATUS_LINE_MIN_INTERVAL;
        SchedulerAction::Run {
            input,
            sleep_until: if now < next_at {
                Some(next_at)
            } else {
                None
            },
        }
    }

    /// Takes note of an event and says what is to do next.
    pub fn step(&mut self, event: SchedulerEvent) -> (r: SchedulerAction)
        requires
            fits(*old(self), event),
        ensures
            (*final(self), r) == scheduled(*old(self), event),
    {
        match event {
            SchedulerEvent::Received { input, now } => {
                self.phase = Phase::Running;
                StatusLineScheduler::run(self.last_run, input, now)
            },
            SchedulerEvent::Closed => {
                self.phase = Phase::Stopped;
                SchedulerAction::Stop
            },
            SchedulerEvent::Ended { line } => {
                self.phase = Phase::Sending;
                SchedulerAction::Send { line }
            },
            SchedulerEvent::Finished { now } => {
                self.last_run = now;
                self.phase = Phase::Draining(None);
                SchedulerAction::Poll
            },
            SchedulerEvent::Polled { input } => {
                self.phase = Phase::Draining(Some(input));
                SchedulerAction::Poll
            },
            SchedulerEvent::Drained { now } => {
                let mut phase = Phase::Running;
                std::mem::swap(&mut phase, &mut self.phase);
                match phase {
                    Phase::Draining(Some(input)) => StatusLineScheduler::run(
                        self.last_run,
                        input,
                        now,
                    ),
                    _ => {
                        self.phase = Phase::Waiting;
                        SchedulerAction::Receive
                    },
                }
            },
        }
    }
}

/// A run starts no sooner than one interval after the line before was sent: at
/// the time it is decided, or, where it has to sleep, at the end of the sleep.
pub proof fn law_runs_apart(s: StatusLineScheduler, event: SchedulerEvent, now: u128)
    requires
        fits(s, event),
        event matches SchedulerEvent::Received { input, now: t } ==> t == now,
        event matches SchedulerEvent::Drained { now: t } ==> t == now,
    ensures
        scheduled(s, event).1 matches SchedulerAction::Run { input, sleep_until } ==> match sleep_until {
            Some(t) => t > now && t == s.last_run + STATUS_LINE_MIN_INTERVAL,
            None => now >= s.last_run + STATUS_LINE_MIN_INTERVAL,
        },
{
}

/// Where the clock has the time one interval before the start, the first run does
/// not wait.
pub proof fn law_first_run_at_once(
    s: StatusLineScheduler,
    start: u128,
    input: StatusLineInput,
    now: u128,
)
    requires
        s.phase == Phase::Waiting,
        s.last_run + STATUS_LINE_MIN_INTERVAL == start,
        start <= now,
    ensures
        scheduled(s, SchedulerEvent::Received { input, now }).1 == (SchedulerAction::Run {
            input,
            sleep_until: None,
        }),
{
}

/// Whether an event is the answer to an action.
pub open spec fn answers(action: SchedulerAction, event: SchedulerEvent) -> bool {
    match action {
        SchedulerAction::Receive => event is Received || event is Closed,
        SchedulerAction::Run { input, sleep_until } => event is Ended,
        SchedulerAction::Send { line } => event is Finished,
        SchedulerAction::Poll => event is Polled || event is Drained,
        SchedulerAction::Stop => false,
    }
}

/// The scheduler goes on with every answer to what it asked for, as long as the
/// clock holds the time of the next run.
pub proof fn law_answers_fit(
    s: StatusLineScheduler,
    event: SchedulerEvent,
    next: SchedulerEvent,
)
    requires
        fits(s, event),
        answers(scheduled(s, event).1, next),
        scheduled(s, event).0.last_run + STATUS_LINE_MIN_INTERVAL <= u128::MAX,
    ensures
        fits(scheduled(s, event).0, next),
{
}

/// The scheduler after `events`.
pub open spec fn after(s: StatusLineScheduler, events: Seq<SchedulerEvent>) -> StatusLineScheduler
    decreases events.len(),
{
    if events.len() == 0 {
        s
    } else {
        scheduled(after(s, events.drop_last()), events.last()).0
    }
}

/// What is to do after `events`, of which there is at least one.
pub open spec fn asked(s: StatusLineScheduler, events: Seq<SchedulerEvent>) -> SchedulerAction {
    scheduled(after(s, events.drop_last()), events.last()).1
}

/// Whether each of `events` can happen where the scheduler stands then.
pub open spec fn accepted(s: StatusLineScheduler, events: Seq<SchedulerEvent>) -> bool
    decreases events.len(),
{
    events.len() > 0 ==> accepted(s, events.drop_last()) && fits(
        after(s, events.drop_last()),
        events.last(),
    )
}

/// The inputs that `events` brought, in order.
pub open spec fn inputs_taken(events: Seq<SchedulerEvent>) -> Seq<StatusLineInput>
    decreases events.len(),
{
    if events.len() == 0 {
        Seq::empty()
    } else {
        let before = inputs_taken(events.drop_last());
        match events.last() {
            SchedulerEvent::Received { input, now } => before.push(input),
            SchedulerEvent::Polled { input } => before.push(input),
            _ => before,
        }
    }
}

/// The inputs that the command ran on in the course of `events`, in order.
pub open spec fn inputs_run(s: StatusLineScheduler, events: Seq<SchedulerEvent>) -> Seq<
    StatusLineInput,
>
    decreases events.len(),
{
    if events.len() == 0 {
        Seq::empty()
    } else {
        let before = inputs_run(s, events.drop_last());
        match asked(s, events) {
            SchedulerAction::Run { input, sleep_until } => before.push(input),
            _ => before,
        }
    }
}

/// Whether `part` is what stands at `places` in `whole`, each place behind the one
/// before.
pub open spec fn stands_at_places(
    part: Seq<StatusLineInput>,
    whole: Seq<StatusLineInput>,
    places: Seq<int>,
) -> bool {
    &&& places.len() == part.len()
    &&& forall|i: int|
        0 <= i < places.len() ==> 0 <= #[trigger] places[i] < whole.len() && part[i]
            == whole[places[i]]
    &&& forall|i: int, j: int| 0 <= i < j < places.len() ==> places[i] < places[j]
}

/// Whether no input that was taken waits for its run to be asked for.
pub open spec fn settled(s: StatusLineScheduler) -> bool {
    !(s.phase matches Phase::Draining(Some(_)))
}

/// The inputs that the command runs on are inputs that were taken, in their order
/// and each at most once. Where none waits any more, the last one that was taken is
/// the last one that was run; where one waits, it is the last one that was taken.
pub proof fn law_runs_follow_inputs(s: StatusLineScheduler, events: Seq<SchedulerEvent>)
    requires
        s.phase is Waiting,
        accepted(s, events),
    ensures
        ({
            let taken = inputs_taken(events);
            let run = inputs_run(s, events);
            let end = after(s, events);
            &&& exists|places: Seq<int>|
                {
                    &&& #[trigger] stands_at_places(run, taken, places)
                    &&& settled(end) && taken.len() > 0 ==> places.len() > 0 && places.last()
                        == taken.len() - 1
                }
            &&& settled(end) && taken.len() > 0 ==> run.len() > 0 && run.last() == taken.last()
            &&& end.phase matches Phase::Draining(Some(input)) ==> taken.len() > 0 && input
                == taken.last()
        }),
{
    lemma_runs_follow_inputs(s, events);
    let places = places_run(s, events);
    assert(stands_at_places(inputs_run(s, events), inputs_taken(events), places));
}

/// Where the inputs that were run stand among those that were taken: a run is on
/// the last one so far.
spec fn places_run(s: StatusLineScheduler, events: Seq<SchedulerEvent>) -> Seq<int>
    decreases events.len(),
{
    if events.len() == 0 {
        Seq::empty()
    } else {
        let before = places_run(s, events.drop_last());
        if asked(s, events) is Run {
            before.push(inputs_taken(events).len() - 1)
        } else {
            before
        }
    }
}

proof fn lemma_runs_follow_inputs(s: StatusLineScheduler, events: Seq<SchedulerEvent>)
    requires
        s.phase is Waiting,
        accepted(s, events),
    ensures
        ({
            let taken = inputs_taken(events);
            let places = places_run(s, events);
            let end = after(s, events);
            &&& stands_at_places(inputs_run(s, events), taken, places)
            &&& settled(end) && taken.len() > 0 ==> places.len() > 0 && places.last()
                == taken.len() - 1
            &&& end.phase matches Phase::Draining(Some(input)) ==> {
                &&& taken.len() > 0
                &&& input == taken.last()
                &&& forall|i: int| 0 <= i < places.len() ==> places[i] < taken.len() - 1
            }
        }),
    decreases events.len(),
{
    if events.len() > 0 {
        let front = events.drop_last();
        lemma_runs_follow_inputs(s, front);
        let taken = inputs_taken(events);
        let places = places_run(s, front);
        assert forall|i: int| 0 <= i < places.len() implies inputs_run(s, front)[i]
            == taken[places[i]] by {
            assert(0 <= places[i] < inputs_taken(front).len());
        }
    }
}

/// When the line of the last run before the next event was sent: at the last
/// `Finished` among `events`, else when the scheduler says that one was.
pub open spec fn last_end(s: StatusLineScheduler, events: Seq<SchedulerEvent>) -> u128
    decreases events.len(),
{
    if events.len() == 0 {
        s.last_run
    } else {
        match events.last() {
            SchedulerEvent::Finished { now } => now,
            _ => last_end(s, events.drop_last()),
        }
    }
}

/// What came of the runs that ended in the course of `events`, in order.
pub open spec fn lines_made(events: Seq<SchedulerEvent>) -> Seq<Option<String>>
    decreases events.len(),
{
    if events.len() == 0 {
        Seq::empty()
    } else {
        let before = lines_made(events.drop_last());
        match events.last() {
            SchedulerEvent::Ended { line } => before.push(line),
            _ => before,
        }
    }
}

/// What was sent in the course of `events`, in order.
pub open spec fn lines_sent(s: StatusLineScheduler, events: Seq<SchedulerEvent>) -> Seq<
    Option<String>,
>
    decreases events.len(),
{
    if events.len() == 0 {
        Seq::empty()
    } else {
        let before = lines_sent(s, events.drop_last());
        match asked(s, events) {
            SchedulerAction::Send { line } => before.push(line),
            _ => before,
        }
    }
}

/// Each run sends exactly one line, the one that came of it, also where none did;
/// and nothing is sent before the first input was taken.
pub proof fn law_each_run_sends_its_line(s: StatusLineScheduler, events: Seq<SchedulerEvent>)
    requires
        s.phase is Waiting,
        accepted(s, events),
    ensures
        lines_sent(s, events) == lines_made(events),
        inputs_run(s, events).len() == lines_sent(s, events).len() + if after(
            s,
            events,
        ).phase is Running {
            1nat
        } else {
            0
        },
        inputs_taken(events).len() == 0 ==> lines_sent(s, events).len() == 0,
{
    lemma_runs_end(s, events);
    lemma_runs_follow_inputs(s, events);
    if inputs_run(s, events).len() > 0 {
        assert(places_run(s, events)[0] < inputs_taken(events).len());
    }
}

/// When a run starts that was asked for after `event`: at the end of its sleep, or
/// at once.
pub open spec fn start_of(event: SchedulerEvent, sleep_until: Option<u128>) -> u128 {
    match (sleep_until, event) {
        (Some(t), _) => t,
        (None, SchedulerEvent::Received { input, now }) => now,
        (None, SchedulerEvent::Drained { now }) => now,
        (None, _) => 0,
    }
}

/// Runs never overlap: every run that was asked for has ended, but for the one that
/// goes on while the scheduler is running. And each run starts at least one
/// interval after the line of the run before was sent.
pub proof fn law_runs_never_overlap(s: StatusLineScheduler, events: Seq<SchedulerEvent>)
    requires
        s.phase is Waiting,
        accepted(s, events),
    ensures
        inputs_run(s, events).len() == lines_made(events).len() + if after(s, events).phase is Running {
            1nat
        } else {
            0
        },
        events.len() > 0 ==> (asked(s, events) matches SchedulerAction::Run { input, sleep_until }
            ==> start_of(events.last(), sleep_until) >= last_end(s, events.drop_last())
            + STATUS_LINE_MIN_INTERVAL),
{
    lemma_runs_end(s, events);
    if events.len() > 0 {
        lemma_runs_end(s, events.drop_last());
    }
}

proof fn lemma_runs_end(s: StatusLineScheduler, events: Seq<SchedulerEvent>)
    requires
        s.phase is Waiting,
        accepted(s, events),
    ensures
        after(s, events).last_run == last_end(s, events),
        lines_sent(s, events) == lines_made(events),
        inputs_run(s, events).len() == lines_made(events).len() + if after(s, events).phase is Running {
            1nat
        } else {
            0
        },
    decreases events.len(),
{
    if events.len() > 0 {
        lemma_runs_end(s, events.drop_last());
    }
}

/// The events in which the inputs `polled` are taken one after the other.
pub open spec fn polls(polled: Seq<StatusLineInput>) -> Seq<SchedulerEvent> {
    polled.map_values(|input: StatusLineInput| SchedulerEvent::Polled { input })
}

/// Of the inputs that came while the command ran, it runs on the last one, and on
/// none where none came.
pub proof fn law_latest_input_runs(
    s: StatusLineScheduler,
    end: u128,
    polled: Seq<StatusLineInput>,
    now: u128,
)
    requires
        fits(s, SchedulerEvent::Finished { now: end }),
    ensures
        ({
            let drained = after(scheduled(s, SchedulerEvent::Finished { now: end }).0, polls(polled));
            let next = scheduled(drained, SchedulerEvent::Drained { now });
            &&& drained.phase is Draining
            &&& polled.len() > 0 ==> next == (
                StatusLineScheduler { last_run: end, phase: Phase::Running },
                run_of(polled.last(), end, now),
            )
            &&& polled.len() == 0 ==> next == (
                StatusLineScheduler { last_run: end, phase: Phase::Waiting },
                SchedulerAction::Receive,
            )
        }),
{
    lemma_after_polls(scheduled(s, SchedulerEvent::Finished { now: end }).0, polled);
}

proof fn lemma_after_polls(s: StatusLineScheduler, polled: Seq<StatusLineInput>)
    requires
        s.phase is Draining,
    ensures
        after(s, polls(polled)).last_run == s.last_run,
        after(s, polls(polled)).phase is Draining,
        polled.len() == 0 ==> after(s, polls(polled)) == s,
        polled.len() > 0 ==> after(s, polls(polled)).phase == Phase::Draining(Some(polled.last())),
        accepted(s, polls(polled)),
        inputs_run(s, polls(polled)) == Seq::<StatusLineInput>::empty(),
    decreases polled.len(),
{
    if polled.len() > 0 {
        assert(polls(polled).drop_last() == polls(polled.drop_last()));
        lemma_after_polls(s, polled.drop_last());
    }
}

/// Events that follow one another can be taken in two goes.
proof fn lemma_in_two_goes(
    s: StatusLineScheduler,
    a: Seq<SchedulerEvent>,
    b: Seq<SchedulerEvent>,
)
    ensures
        after(s, a + b) == after(after(s, a), b),
        accepted(s, a + b) == (accepted(s, a) && accepted(after(s, a), b)),
        inputs_run(s, a + b) == inputs_run(s, a) + inputs_run(after(s, a), b),
    decreases b.len(),
{
    if b.len() == 0 {
        assert(a + b == a);
        assert(inputs_run(s, a) + inputs_run(after(s, a), b) == inputs_run(s, a));
    } else {
        assert((a + b).drop_last() == a + b.drop_last());
        lemma_in_two_goes(s, a, b.drop_last());
    }
}

/// Where several inputs are there before the first run, the command runs on the
/// first and on the last of them alone.
pub proof fn law_queued_inputs(
    s: StatusLineScheduler,
    first: StatusLineInput,
    queued: Seq<StatusLineInput>,
    line: Option<String>,
    start: u128,
    end: u128,
    now: u128,
)
    requires
        s.phase is Waiting,
        s.last_run + STATUS_LINE_MIN_INTERVAL <= u128::MAX,
        end + STATUS_LINE_MIN_INTERVAL <= u128::MAX,
        queued.len() > 0,
    ensures
        ({
            let events = seq![
                SchedulerEvent::Received { input: first, now: start },
                SchedulerEvent::Ended { line },
                SchedulerEvent::Finished { now: end },
            ] + polls(queued) + seq![SchedulerEvent::Drained { now }];
            &&& accepted(s, events)
            &&& inputs_run(s, events) == seq![first, queued.last()]
        }),
{
    let one = seq![SchedulerEvent::Received { input: first, now: start }];
    let two = seq![SchedulerEvent::Ended { line }];
    let three = seq![SchedulerEvent::Finished { now: end }];
    let last = seq![SchedulerEvent::Drained { now }];
    let head = seq![
        SchedulerEvent::Received { input: first, now: start },
        SchedulerEvent::Ended { line },
        SchedulerEvent::Finished { now: end },
    ];
    lemma_one_event(s, one[0]);
    lemma_one_event(after(s, one), two[0]);
    lemma_in_two_goes(s, one, two);
    lemma_one_event(after(s, one + two), three[0]);
    lemma_in_two_goes(s, one + two, three);
    assert(head == one + two + three);
    let draining = after(s, head);
    lemma_after_polls(draining, queued);
    lemma_in_two_goes(s, head, polls(queued));
    let drained = after(s, head + polls(queued));
    lemma_one_event(drained, last[0]);
    lemma_in_two_goes(s, head + polls(queued), last);
}

proof fn lemma_one_event(s: StatusLineScheduler, event: SchedulerEvent)
    ensures
        after(s, seq![event]) == scheduled(s, event).0,
        accepted(s, seq![event]) == fits(s, event),
        inputs_run(s, seq![event]) == match scheduled(s, event).1 {
            SchedulerAction::Run { input, sleep_until } => seq![input],
            _ => Seq::empty(),
        },
{
    let none = Seq::<SchedulerEvent>::empty();
    assert(seq![event].drop_last() == none);
    assert(after(s, none) == s);
    assert(accepted(s, none));
    assert(inputs_run(s, none) == Seq::<StatusLineInput>::empty());
}

/// What a command left.
#[derive(Debug, PartialEq, Eq)]
pub struct CommandOutput {
    pub success: bool,
    pub stdout: Vec<u8>,
    pub stderr: Vec<u8>,
}

/// The first line of `t` behind `padding` spaces, unless it is blank or missing.
pub open spec fn padded_line(t: Seq<char>, padding: nat) -> Option<Seq<char>> {
    let all = text::lines_of(t);
    if all.len() == 0 || text::trimmed(all[0]).len() == 0 {
        None
    } else {
        Some(Seq::new(padding, |i: int| ' ') + all[0])
    }
}

/// The status line that comes of a command: none where the command could not be
/// run or failed, else the first line that it printed.
pub open spec fn status_line_of(output: Option<CommandOutput>, padding: nat) -> Option<Seq<char>> {
    match output {
        Some(output) => if output.success {
            padded_line(encoding::lossy(output.stdout@), padding)
        } else {
            None
        },
        None => None,
    }
}

/// The first line of `stdout` behind `padding` spaces, unless it is blank or
/// missing.
pub fn padded_first_line(stdout: &str, padding: usize) -> (r: Option<String>)
    ensures
        r.deep_view() == padded_line(stdout@, padding as nat),
{
    let cs = chars_of(stdout);
    let all = lines(cs.as_slice());
    if all.len() == 0 {
        return None;
    }
    assert(all.deep_view()[0] == all@[0]@);
    let first = chars_of(all[0].as_str());
    if trim(first.as_slice()).len() == 0 {
        None
    } else {
        Some(indent(padding, all[0].as_str()))
    }
}

/// The padding that is used where `stated` was or was not stated.
pub open spec fn used_padding(stated: Option<usize>, indent: usize) -> usize {
    match stated {
        Some(n) => n,
        None => indent,
    }
}

/// The number of spaces in front of a status line: the one that was stated, else
/// `indent`.
pub fn padding_of(stated: Option<usize>, indent: usize) -> (r: usize)
    ensures
        r == used_padding(stated, indent),
        r == match stated {
            Some(n) => n,
            None => indent,
        },
{
    match stated {
        Some(n) => n,
        None => indent,
    }
}

/// The program and the arguments in the words of a command.
pub open spec fn parts_of_command(words: Seq<Seq<char>>) -> Option<(Seq<char>, Seq<Seq<char>>)> {
    if words.len() == 0 {
        None
    } else {
        Some((words.first(), words.drop_first()))
    }
}

/// The program and the arguments of a command, unless it is empty.
pub fn command_parts(command: &Vec<String>) -> (r: Option<(String, Vec<String>)>)
    ensures
        r.deep_view() == parts_of_command(command.deep_view()),
        r is Some == (command@.len() > 0),
        r matches Some((program, args)) ==> program@ == command@[0]@ && args.deep_view()
            == command.deep_view().skip(1),
{
    if command.len() == 0 {
        return None;
    }
    let mut args: Vec<String> = Vec::new();
    assert(args.deep_view() == command.deep_view().subrange(1, 1));
    for i in 1..command.len()
        invariant
            args.deep_view() == command.deep_view().subrange(1, i as int),
    {
        let ghost before = args.deep_view();
        args.push(command[i].clone());
        assert(args.deep_view() == before.push(command@[i as int]@));
        assert(command.deep_view().subrange(1, i + 1) == command.deep_view().subrange(
            1,
            i as int,
        ).push(command@[i as int]@));
    }
    assert(command.deep_view().subrange(1, command@.len() as int) == command.deep_view().skip(1));
    assert(command.deep_view().skip(1) == command.deep_view().drop_first());
    Some((command[0].clone(), args))
}

/// The status line that comes of a command. `output` is what the command left, if
/// it could be started, was handed its input and ended.
pub fn run_status_line_command(output: Option<&CommandOutput>, padding: usize) -> (r: Option<
    String,
>)
    ensures
        r.deep_view() == status_line_of(
            match output {
                Some(o) => Some(*o),
                None => None,
            },
            padding as nat,
        ),
        output matches Some(o) ==> (o.success && utf8::valid_utf8(o.stdout@) ==> r.deep_view()
            == padded_line(utf8::decode_utf8(o.stdout@), padding as nat)),
{
    match output {
        Some(output) => {
            if output.success {
                let stdout = lossy_text(output.stdout.as_slice());
                padded_first_line(stdout.as_str(), padding)
            } else {
                None
            }
        },
        None => None,
    }
}

/// The text `t`, trimmed, unless it is blank.
pub open spec fn unless_blank(t: Seq<char>) -> Option<Seq<char>> {
    if text::trimmed(t).len() == 0 {
        None
    } else {
        Some(text::trimmed(t))
    }
}

/// The complaint of a command that failed: what it printed as an error, trimmed,
/// unless that is blank.
pub open spec fn complaint_of(output: CommandOutput) -> Option<Seq<char>> {
    if output.success {
        None
    } else {
        unless_blank(encoding::lossy(output.stderr@))
    }
}

/// The complaint of a command that failed.
pub fn command_complaint(output: &CommandOutput) -> (r: Option<String>)
    ensures
        r.deep_view() == complaint_of(*output),
        !output.success && utf8::valid_utf8(output.stderr@) ==> r.deep_view() == unless_blank(
            utf8::decode_utf8(output.stderr@),
        ),
{
    if output.success {
        return None;
    }
    let stderr = lossy_text(output.stderr.as_slice());
    let cs = chars_of(stderr.as_str());
    let complaint = trim(cs.as_slice());
    if complaint.len() == 0 {
        None
    } else {
        Some(text_of(complaint))
    }
}

/// A status line is one line: it holds no line feed, and it is not blank.
pub proof fn law_status_line_is_a_line(t: Seq<char>, padding: nat)
    ensures
        padded_line(t, padding) matches Some(line) ==> !line.contains('\n') && text::trimmed(line).len()
            > 0,
{
    if let Some(line) = padded_line(t, padding) {
        let first = text::lines_of(t)[0];
        let pad = Seq::new(padding, |i: int| ' ');
        text::lemma_first_line(t);
        assert forall|j: int| 0 <= j < line.len() implies line[j] != '\n' by {
            if j >= padding {
                assert(line[j] == first[j - padding]);
            }
        }
        text::lemma_trimmed_suffix(pad, first);
    }
}

/// A status line is the first line that was printed behind as many spaces as the
/// padding says, and there is one exactly where that line is not blank.
pub proof fn law_padding(t: Seq<char>, padding: nat)
    ensures
        ({
            let all = text::lines_of(t);
            &&& padded_line(t, padding) is Some <==> all.len() > 0 && exists|i: int|
                0 <= i < all[0].len() && !text::is_space(#[trigger] all[0][i])
            &&& padded_line(t, padding) matches Some(line) ==> {
                &&& line.len() == padding + all[0].len()
                &&& forall|i: int| 0 <= i < padding ==> #[trigger] line[i] == ' '
                &&& line.skip(padding as int) == all[0]
            }
        }),
{
    let all = text::lines_of(t);
    if all.len() > 0 {
        text::lemma_blank(all[0]);
    }
    if let Some(line) = padded_line(t, padding) {
        assert(line.skip(padding as int) =~= all[0]);
    }
}

/// A command that could not be run or failed gives no status line; one that
/// succeeded gives the one of what it printed to its output.
pub proof fn law_command_decides(output: CommandOutput, padding: nat)
    ensures
        status_line_of(None, padding) is None,
        !output.success ==> status_line_of(Some(output), padding) is None,
        output.success ==> status_line_of(Some(output), padding) == padded_line(
            encoding::lossy(output.stdout@),
            padding,
        ),
{
}

/// A command complains exactly where it failed and printed an error that is not
/// blank; the complaint is that error without the white space around it.
pub proof fn law_complaint(output: CommandOutput)
    ensures
        ({
            let printed = encoding::lossy(output.stderr@);
            &&& complaint_of(output) is Some <==> !output.success && exists|i: int|
                0 <= i < printed.len() && !text::is_space(#[trigger] printed[i])
            &&& complaint_of(output) matches Some(c) ==> c == text::trimmed(printed)
            &&& unless_blank(printed) is Some <==> text::trimmed(printed).len() > 0
            &&& unless_blank(printed) matches Some(c) ==> c == text::trimmed(printed)
        }),
{
    text::lemma_blank(encoding::lossy(output.stderr@));
}

/// The name of a model is followed by a space and the name of its effort, and by
/// nothing where it has none.
pub proof fn law_effort_named(name: Seq<char>, effort: String)
    ensures
        ({
            let shown = name_with_effort(name, Some(ReasoningEffort::Named(effort)));
            &&& shown.len() == name.len() + 1 + effort@.len()
            &&& shown.take(name.len() as int) == name
            &&& shown[name.len() as int] == ' '
            &&& shown.skip(name.len() as int + 1) == effort@
        }),
        name_with_effort(name, Some(ReasoningEffort::Absent)) == name,
        name_with_effort(name, None) == name,
{
    reveal_strlit(" ");
    let shown = name_with_effort(name, Some(ReasoningEffort::Named(effort)));
    assert(shown.take(name.len() as int) =~= name);
    assert(shown.skip(name.len() as int + 1) =~= effort@);
}

/// A run is on the input that it was decided for. It waits until three tenths of a
/// second after the line before was sent, and does not wait where that has passed.
pub proof fn law_run_waits(input: StatusLineInput, last_run: u128, now: u128)
    requires
        last_run + 300_000_000 <= u128::MAX,
    ensures
        run_of(input, last_run, now) matches SchedulerAction::Run { input: i, sleep_until } && {
            &&& i == input
            &&& sleep_until is Some <==> now < last_run + 300_000_000
            &&& sleep_until is Some ==> sleep_until->0 == last_run + 300_000_000
        },
{
}

/// What the scheduler does with each event: an input that comes is run, a line is
/// sent and the time of that is noted, then inputs are taken until there are none;
/// and where no input will come any more it stops.
pub proof fn law_scheduler_goes_on(
    s: StatusLineScheduler,
    input: StatusLineInput,
    line: Option<String>,
    now: u128,
)
    requires
        s.last_run + 300_000_000 <= u128::MAX,
    ensures
        ({
            let received = scheduled(s, SchedulerEvent::Received { input, now });
            let ended = scheduled(s, SchedulerEvent::Ended { line });
            let finished = scheduled(s, SchedulerEvent::Finished { now });
            let polled = scheduled(s, SchedulerEvent::Polled { input });
            let closed = scheduled(s, SchedulerEvent::Closed);
            &&& received.0.phase is Running && received.0.last_run == s.last_run
            &&& received.1 matches SchedulerAction::Run { input: i, sleep_until } && i == input && (
            sleep_until is Some <==> now < s.last_run + 300_000_000)
            &&& ended.0.phase is Sending && ended.0.last_run == s.last_run
            &&& ended.1 == (SchedulerAction::Send { line })
            &&& finished.0.phase == Phase::Draining(None) && finished.0.last_run == now
            &&& finished.1 is Poll
            &&& polled.0.phase == Phase::Draining(Some(input)) && polled.0.last_run == s.last_run
            &&& polled.1 is Poll
            &&& closed.0.phase is Stopped && closed.1 is Stop
        }),
{
}

/// A scheduler that waits takes an input, or that none will come.
pub proof fn law_waiting_takes_input(s: StatusLineScheduler, input: StatusLineInput, now: u128)
    requires
        s.phase is Waiting,
        s.last_run + 300_000_000 <= u128::MAX,
    ensures
        fits(s, SchedulerEvent::Received { input, now }),
        fits(s, SchedulerEvent::Closed),
{
}

/// A padding that was stated is used as it is, whatever the indent; the indent is
/// used where none was.
pub proof fn law_stated_padding(stated: usize, indent: usize)
    ensures
        used_padding(Some(stated), indent) == stated,
        used_padding(None, indent) == indent,
{
}

/// A command is its program and then its arguments, in order; an empty one has
/// neither.
pub proof fn law_command_parts(program: Seq<char>, args: Seq<Seq<char>>)
    ensures
        parts_of_command(seq![program] + args) == Some((program, args)),
        parts_of_command(Seq::empty()) is None,
{
    assert((seq![program] + args).drop_first() =~= args);
}

/// Where the clock has the time one interval before the start, the first run does
/// not wait after it; where it has not, the first run keeps its distance from the
/// start.
pub proof fn law_start(now: u128, earlier: u128)
    ensures
        start_time(now, Some(earlier)) == earlier,
        start_time(now, None) == now,
{
}

/// The command reads of a session what it was told of it, under the name of the
/// event, with the default style of output and nothing on its cost.
pub proof fn law_input_told(r: StatusLineInput, args: StatusLineInputArgs)
    requires
        tells_of(r, args),
    ensures
        r.hook_event_name@ == "Status"@,
        r.session_id == args.session_id,
        r.transcript_path == args.transcript_path,
        r.cwd == args.cwd,
        r.workspace.current_dir == args.cwd,
        r.workspace.project_dir == args.project_dir,
        r.model.id == args.model_id,
        r.model.display_name == args.model_display_name,
        args.reasoning_effort matches Some(ReasoningEffort::Named(effort))
            ==> r.model.display_name_with_effort@ == args.model_display_name@ + seq![' ']
            + effort@,
        args.reasoning_effort is None || args.reasoning_effort == Some(ReasoningEffort::Absent)
            ==> r.model.display_name_with_effort@ == args.model_display_name@,
        r.model.reasoning_effort == args.reasoning_effort,
        r.version == args.version,
        r.output_style.name@ == "default"@,
        r.cost == (StatusLineCost {
            total_duration_ms: None,
            total_api_duration_ms: None,
            total_lines_added: None,
            total_lines_removed: None,
        }),
        r.context_window == args.context_window,
{
    reveal_strlit(" ");
    assert(" "@ =~= seq![' ']);
}

} // verus!
