use vstd::prelude::*;
use async_openai::types::CreateChatCompletionRequest;
use crate::credentials::Credentials;
use crate::provider::{messages_of, request_for, request_of};
use crate::text::{trim_trailing, without_trailing_space};
use crate::transcript::{system_turn, transcript_wf, Transcript};
use crate::turn::{Role, Turn, TurnView};

verus! {

/// The model that every request names.
pub const MODEL: &'static str = "gpt-4o-mini";

/// The line printed once the last turn is done.
pub const BANNER: &'static str = "Chat Completed";

/// The text put before a stream error in its diagnostic line.
pub const ERROR_PREFIX: &'static str = "Error: ";

/// How many prompts a session takes unless told otherwise.
pub const DEFAULT_TURN_LIMIT: usize = 5;

/// Where a session stands.
#[derive(Clone, Copy, Debug, PartialEq, Eq, Structural)]
pub enum Phase {
    /// Waiting for the user's next line.
    AwaitingInput,
    /// A request is out; its answer is arriving in pieces.
    Streaming,
    /// The answer is recorded and waits to be shown.
    Replied,
    /// Every turn is done.
    Finished,
}

/// What the surroundings report to the session.
#[derive(Clone, Debug, PartialEq, Eq)]
pub enum Event {
    /// A line read from the user, as read.
    Line(String),
    /// A piece of the streamed answer: the text of each of its choices, if any.
    Chunk(Vec<Option<String>>),
    /// The stream reported an error, described by the text.
    Failure(String),
    /// The stream is over.
    End,
    /// The answer has been shown to the user.
    Shown,
}

/// What the session asks the surroundings to do next.
#[derive(Clone, Debug, PartialEq, Eq)]
pub enum Action {
    /// Read one line from the user and report it as `Event::Line`.
    ReadLine,
    /// Send `Session::request` and report what the stream yields.
    Request,
    /// Report the next thing that the stream yields.
    Pull,
    /// Write the line to the diagnostic stream, then as `Pull`.
    Report(String),
    /// Show the answer to the user and report `Event::Shown`.
    Reply(String),
    /// Print the line and stop.
    Finish(String),
}

/// An event as a value.
pub enum EventView {
    Line(Seq<char>),
    Chunk(Seq<Option<Seq<char>>>),
    Failure(Seq<char>),
    End,
    Shown,
}

/// An action as a value.
pub enum ActionView {
    ReadLine,
    Request,
    Pull,
    Report(Seq<char>),
    Reply(Seq<char>),
    Finish(Seq<char>),
}

/// The text of one choice of a chunk, as a value.
pub open spec fn choice_view(o: Option<String>) -> Option<Seq<char>> {
    match o {
        Some(t) => Some(t@),
        None => None,
    }
}

impl View for Event {
    type V = EventView;

    open spec fn view(&self) -> EventView {
        match self {
            Event::Line(l) => EventView::Line(l@),
            Event::Chunk(c) => EventView::Chunk(c@.map_values(|o: Option<String>| choice_view(o))),
            Event::Failure(m) => EventView::Failure(m@),
            Event::End => EventView::End,
            Event::Shown => EventView::Shown,
        }
    }
}

impl View for Action {
    type V = ActionView;

    open spec fn view(&self) -> ActionView {
        match self {
            Action::ReadLine => ActionView::ReadLine,
            Action::Request => ActionView::Request,
            Action::Pull => ActionView::Pull,
            Action::Report(l) => ActionView::Report(l@),
            Action::Reply(t) => ActionView::Reply(t@),
            Action::Finish(l) => ActionView::Finish(l@),
        }
    }
}

/// A session as a value.
pub struct SessionView {
    pub phase: Phase,
    pub limit: nat,
    pub completed: nat,
    pub transcript: Seq<TurnView>,
    pub partial: Seq<char>,
}

/// The text that a chunk adds to the answer: that of its first choice.
pub open spec fn chunk_text(choices: Seq<Option<Seq<char>>>) -> Seq<char> {
    if choices.len() > 0 && choices[0] is Some {
        choices[0]->Some_0
    } else {
        Seq::empty()
    }
}

/// The text that a stream event adds to the answer.
pub open spec fn piece(e: EventView) -> Seq<char> {
    match e {
        EventView::Chunk(c) => chunk_text(c),
        _ => Seq::empty(),
    }
}

/// The answer that a sequence of stream events makes: the pieces joined in
/// order, with nothing between them; errors add nothing.
pub open spec fn collected(events: Seq<EventView>) -> Seq<char>
    decreases events.len(),
{
    if events.len() == 0 {
        Seq::empty()
    } else {
        piece(events[0]) + collected(events.subrange(1, events.len() as int))
    }
}

/// Events that may arrive while an answer streams in, before its end.
pub open spec fn is_stream_item(e: EventView) -> bool {
    e is Chunk || e is Failure
}

/// The events that a session takes in each phase.
pub open spec fn accepts(phase: Phase, e: EventView) -> bool {
    match phase {
        Phase::AwaitingInput => e is Line,
        Phase::Streaming => is_stream_item(e) || e is End,
        Phase::Replied => e is Shown,
        Phase::Finished => false,
    }
}

/// The invariant of a session: the transcript is well formed and holds one
/// user turn and one answer for each completed turn, plus the pending prompt
/// while an answer streams in.
pub open spec fn session_wf(s: SessionView) -> bool {
    &&& transcript_wf(s.transcript)
    &&& s.completed <= s.limit
    &&& match s.phase {
        Phase::AwaitingInput => s.completed < s.limit && s.transcript.len() == 1 + 2 * s.completed,
        Phase::Streaming => s.completed < s.limit && s.transcript.len() == 2 + 2 * s.completed,
        Phase::Replied => 0 < s.completed && s.transcript.len() == 1 + 2 * s.completed,
        Phase::Finished => s.completed == s.limit && s.transcript.len() == 1 + 2 * s.completed,
    }
}

/// A new session that takes `limit` prompts.
pub open spec fn initial(limit: nat) -> SessionView {
    SessionView {
        phase: if limit == 0 {
            Phase::Finished
        } else {
            Phase::AwaitingInput
        },
        limit,
        completed: 0,
        transcript: seq![system_turn()],
        partial: Seq::empty(),
    }
}

/// The state after one event, and the action it asks for.
pub open spec fn next(s: SessionView, e: EventView) -> (SessionView, ActionView) {
    match (s.phase, e) {
        (Phase::AwaitingInput, EventView::Line(l)) => (
            SessionView {
                phase: Phase::Streaming,
                transcript: s.transcript.push((Role::User, without_trailing_space(l))),
                partial: Seq::empty(),
                ..s
            },
            ActionView::Request,
        ),
        (Phase::Streaming, EventView::Chunk(c)) => (
            SessionView { partial: s.partial + chunk_text(c), ..s },
            ActionView::Pull,
        ),
        (Phase::Streaming, EventView::Failure(m)) => (s, ActionView::Report(ERROR_PREFIX@ + m)),
        (Phase::Streaming, EventView::End) => (
            SessionView {
                phase: Phase::Replied,
                completed: s.completed + 1,
                transcript: s.transcript.push((Role::Assistant, s.partial)),
                ..s
            },
            ActionView::Reply(s.partial),
        ),
        (Phase::Replied, EventView::Shown) => if s.completed < s.limit {
            (SessionView { phase: Phase::AwaitingInput, ..s }, ActionView::ReadLine)
        } else {
            (SessionView { phase: Phase::Finished, ..s }, ActionView::Finish(BANNER@))
        },
        _ => (s, ActionView::Pull),
    }
}

/// The state after a sequence of events, taken in order.
pub open spec fn run(s: SessionView, events: Seq<EventView>) -> SessionView
    decreases events.len(),
{
    if events.len() == 0 {
        s
    } else {
        run(next(s, events[0]).0, events.subrange(1, events.len() as int))
    }
}

/// One conversation: its transcript, and where it stands in its fixed
/// number of turns.
pub struct Session {
    credentials: Credentials,
    transcript: Transcript,
    phase: Phase,
    limit: usize,
    completed: usize,
    partial: String,
}

impl View for Session {
    type V = SessionView;

    closed spec fn view(&self) -> SessionView {
        SessionView {
            phase: self.phase,
            limit: self.limit as nat,
            completed: self.completed as nat,
            transcript: self.transcript@,
            partial: self.partial@,
        }
    }
}

impl Session {
    pub open spec fn wf(&self) -> bool {
        session_wf(self@)
    }

    pub closed spec fn credentials_view(&self) -> Credentials {
        self.credentials
    }

    /// A session that will take `turn_limit` prompts, its transcript holding
    /// the system turn alone.
    pub fn new(credentials: Credentials, turn_limit: usize) -> (r: Session)
        ensures
            r@ == initial(turn_limit as nat),
            r.credentials_view() == credentials,
            r.wf(),
    {
        let phase = if turn_limit == 0 {
            Phase::Finished
        } else {
            Phase::AwaitingInput
        };
        Session {
            credentials,
            transcript: Transcript::new(),
            phase,
            limit: turn_limit,
            completed: 0,
            partial: String::new(),
        }
    }

    /// What a new session asks for first: a line, or at once the closing
    /// banner when it takes no prompt.
    pub fn opening(&self) -> (r: Action)
        requires
            self@.phase is AwaitingInput || self@.phase is Finished,
        ensures
            self@.phase is AwaitingInput ==> r@ == ActionView::ReadLine,
            self@.phase is Finished ==> r@ == ActionView::Finish(BANNER@),
    {
        match self.phase {
            Phase::Finished => Action::Finish(String::from_str(BANNER)),
            _ => Action::ReadLine,
        }
    }

    /// Whether the session takes the event in its present phase.
    pub fn accepts(&self, e: &Event) -> (r: bool)
        ensures
            r == accepts(self@.phase, e@),
    {
        match (self.phase, e) {
            (Phase::AwaitingInput, Event::Line(_)) => true,
            (Phase::Streaming, Event::Chunk(_)) => true,
            (Phase::Streaming, Event::Failure(_)) => true,
            (Phase::Streaming, Event::End) => true,
            (Phase::Replied, Event::Shown) => true,
            _ => false,
        }
    }

    /// Takes one event and says what to do next.
    pub fn step(&mut self, e: Event) -> (r: Action)
        requires
            old(self).wf(),
            accepts(old(self)@.phase, e@),
        ensures
            (final(self)@, r@) == next(old(self)@, e@),
            final(self).credentials_view() == old(self).credentials_view(),
            final(self).wf(),
            final(self)@.transcript[0] == system_turn(),
            final(self)@.transcript.len() == old(self)@.transcript.len() + (if e@ is Line
                || e@ is End {
                1int
            } else {
                0int
            }),
            final(self)@.transcript.subrange(0, old(self)@.transcript.len() as int) == old(
                self,
            )@.transcript,
            forall|i: int|
                1 <= i < final(self)@.transcript.len() ==> (
                #[trigger] final(self)@.transcript[i]).0 != Role::System,
    {
        let ghost before = self@;
        let ghost event = e@;
        proof {
            lemma_step_keeps_transcript(before, event);
            let t = next(before, event).0.transcript;
            assert forall|i: int| 1 <= i < t.len() implies (#[trigger] t[i]).0 != Role::System by {
                assert(t[i].0 == (if i % 2 == 1 {
                    Role::User
                } else {
                    Role::Assistant
                }));
            }
        }
        match e {
            Event::Line(line) => {
                let text = trim_trailing(line.as_str());
                self.transcript.push_user(text);
                self.partial = String::new();
                self.phase = Phase::Streaming;
                Action::Request
            },
            Event::Chunk(choices) => {
                if choices.len() > 0 {
                    let first: &Option<String> = &choices[0];
                    match first {
                        Some(t) => self.partial.append(t.as_str()),
                        None => {},
                    }
                }
                Action::Pull
            },
            Event::Failure(message) => {
                let mut line = String::from_str(ERROR_PREFIX);
                line.append(message.as_str());
                Action::Report(line)
            },
            Event::End => {
                let text = self.partial.clone();
                self.transcript.push_assistant(text);
                self.completed = self.completed + 1;
                self.phase = Phase::Replied;
                Action::Reply(self.partial.clone())
            },
            Event::Shown => {
                if self.completed < self.limit {
                    self.phase = Phase::AwaitingInput;
                    Action::ReadLine
                } else {
                    self.phase = Phase::Finished;
                    Action::Finish(String::from_str(BANNER))
                }
            },
        }
    }

    /// The request for the conversation so far: every turn, in order.
    /// Building it sends nothing and changes nothing.
    pub fn request(&self) -> (r: CreateChatCompletionRequest)
        ensures
            r == request_of(MODEL@, messages_of(self@.transcript)),
    {
        let turns = self.transcript.turns();
        request_for(MODEL, &turns)
    }

    pub fn transcript(&self) -> (r: &Transcript)
        ensures
            r@ == self@.transcript,
    {
        &self.transcript
    }

    pub fn phase(&self) -> (r: Phase)
        ensures
            r == self@.phase,
    {
        self.phase
    }

    pub fn completed(&self) -> (r: usize)
        ensures
            r == self@.completed,
    {
        self.completed
    }

    pub fn turn_limit(&self) -> (r: usize)
        ensures
            r == self@.limit,
    {
        self.limit
    }

    pub fn credentials(&self) -> (r: &Credentials)
        ensures
            *r == self.credentials_view(),
    {
        &self.credentials
    }
}

/// Any one event keeps a session well formed and only ever appends to its
/// transcript: the system turn stays first and unchanged.
pub proof fn lemma_step_keeps_transcript(s: SessionView, e: EventView)
    requires
        session_wf(s),
    ensures
        session_wf(next(s, e).0),
        next(s, e).0.limit == s.limit,
        s.transcript.len() <= next(s, e).0.transcript.len(),
        next(s, e).0.transcript.subrange(0, s.transcript.len() as int) == s.transcript,
        next(s, e).0.transcript[0] == system_turn(),
{
    let t = next(s, e).0;
    assert(t.transcript.subrange(0, s.transcript.len() as int) =~= s.transcript);
    if t.transcript.len() > s.transcript.len() {
        let n = s.transcript.len() as int;
        assert(t.transcript.len() == n + 1);
        if s.phase is AwaitingInput {
            assert(n % 2 == 1);
        } else {
            assert(n % 2 == 0);
        }
        assert forall|i: int| 1 <= i < t.transcript.len() implies #[trigger] t.transcript[i].0 == (
        if i % 2 == 1 {
            Role::User
        } else {
            Role::Assistant
        }) by {
            if i < n {
                assert(t.transcript[i] == s.transcript[i]);
            }
        }
    }
}

/// Whatever events a session takes, from any well-formed state: it stays
/// well formed, its transcript only grows at the end, and the system turn it
/// was made with stays first and unchanged.
pub proof fn lemma_system_turn_kept(s: SessionView, events: Seq<EventView>)
    requires
        session_wf(s),
    ensures
        session_wf(run(s, events)),
        s.transcript.len() <= run(s, events).transcript.len(),
        run(s, events).transcript.subrange(0, s.transcript.len() as int) == s.transcript,
        run(s, events).transcript[0] == system_turn(),
    decreases events.len(),
{
    if events.len() > 0 {
        let t = next(s, events[0]).0;
        let rest = events.subrange(1, events.len() as int);
        lemma_step_keeps_transcript(s, events[0]);
        lemma_system_turn_kept(t, rest);
        let u = run(t, rest);
        assert(u.transcript.subrange(0, s.transcript.len() as int) =~= u.transcript.subrange(
            0,
            t.transcript.len() as int,
        ).subrange(0, s.transcript.len() as int));
    }
}

/// Every session, from its creation and through any events, keeps as its
/// first turn the system turn it was created with.
pub proof fn lemma_every_session_opens_with_system_turn(limit: nat, events: Seq<EventView>)
    ensures
        run(initial(limit), events).transcript[0] == system_turn(),
        session_wf(run(initial(limit), events)),
        forall|i: int|
            1 <= i < run(initial(limit), events).transcript.len() ==> (#[trigger] run(
                initial(limit),
                events,
            ).transcript[i]).0 != Role::System,
{
    lemma_system_turn_kept(initial(limit), events);
    let t = run(initial(limit), events).transcript;
    assert forall|i: int| 1 <= i < t.len() implies (#[trigger] t[i]).0 != Role::System by {
        assert(t[i].0 == (if i % 2 == 1 {
            Role::User
        } else {
            Role::Assistant
        }));
    }
}

/// Stream items only add to the answer being collected: chunks their first
/// choice's text, errors nothing.
pub proof fn lemma_stream_items(s: SessionView, items: Seq<EventView>)
    requires
        s.phase is Streaming,
        forall|i: int| 0 <= i < items.len() ==> is_stream_item(#[trigger] items[i]),
    ensures
        run(s, items) == (SessionView { partial: s.partial + collected(items), ..s }),
    decreases items.len(),
{
    if items.len() == 0 {
        assert(s.partial + collected(items) =~= s.partial);
    } else {
        let t = next(s, items[0]).0;
        let rest = items.subrange(1, items.len() as int);
        assert(t.partial =~= s.partial + piece(items[0]));
        assert(t == (SessionView { partial: s.partial + piece(items[0]), ..s }));
        assert forall|i: int| 0 <= i < rest.len() implies is_stream_item(#[trigger] rest[i]) by {
            assert(rest[i] == items[i + 1]);
        }
        lemma_stream_items(t, rest);
        assert(s.partial + piece(items[0]) + collected(rest) =~= s.partial + collected(items));
    }
}

/// A completed turn (a line, then any chunks and errors, then the end of the
/// stream) appends exactly two turns: the trimmed line as the user's, then the
/// joined chunks as the assistant's; everything before is kept in order.
pub proof fn lemma_completed_turn(s: SessionView, line: Seq<char>, items: Seq<EventView>)
    requires
        session_wf(s),
        s.phase is AwaitingInput,
        forall|i: int| 0 <= i < items.len() ==> is_stream_item(#[trigger] items[i]),
    ensures
        ({
            let streaming = run(next(s, EventView::Line(line)).0, items);
            let done = next(streaming, EventView::End);
            &&& done.0.transcript == s.transcript + seq![
                (Role::User, without_trailing_space(line)),
                (Role::Assistant, collected(items)),
            ]
            &&& done.0.transcript.len() == s.transcript.len() + 2
            &&& done.0.completed == s.completed + 1
            &&& done.1 == ActionView::Reply(collected(items))
        }),
{
    let started = next(s, EventView::Line(line)).0;
    lemma_stream_items(started, items);
    assert(Seq::<char>::empty() + collected(items) =~= collected(items));
    let streaming = run(started, items);
    let done = next(streaming, EventView::End);
    assert(done.0.transcript =~= s.transcript + seq![
        (Role::User, without_trailing_space(line)),
        (Role::Assistant, collected(items)),
    ]);
}

/// The events of one turn: the line, the stream's items, the end of the
/// stream, and the display of the answer.
pub open spec fn turn_events(line: Seq<char>, items: Seq<EventView>) -> Seq<EventView> {
    seq![EventView::Line(line)] + items + seq![EventView::End, EventView::Shown]
}

/// The events of consecutive turns, one line and one stream for each.
pub open spec fn script(lines: Seq<Seq<char>>, streams: Seq<Seq<EventView>>) -> Seq<EventView>
    decreases lines.len(),
{
    if lines.len() == 0 || streams.len() == 0 {
        Seq::empty()
    } else {
        turn_events(lines[0], streams[0]) + script(lines.drop_first(), streams.drop_first())
    }
}

/// The turns that consecutive turns record: each trimmed line, then the
/// answer joined from its stream.
pub open spec fn recorded(lines: Seq<Seq<char>>, streams: Seq<Seq<EventView>>) -> Seq<TurnView>
    decreases lines.len(),
{
    if lines.len() == 0 || streams.len() == 0 {
        Seq::empty()
    } else {
        seq![
            (Role::User, without_trailing_space(lines[0])),
            (Role::Assistant, collected(streams[0])),
        ] + recorded(lines.drop_first(), streams.drop_first())
    }
}

/// Taking two sequences of events is taking the first, then the second.
pub proof fn lemma_run_append(s: SessionView, a: Seq<EventView>, b: Seq<EventView>)
    ensures
        run(s, a + b) == run(run(s, a), b),
    decreases a.len(),
{
    if a.len() == 0 {
        assert(a + b =~= b);
    } else {
        assert((a + b)[0] == a[0]);
        assert((a + b).subrange(1, (a + b).len() as int) =~= a.subrange(1, a.len() as int) + b);
        lemma_run_append(next(s, a[0]).0, a.subrange(1, a.len() as int), b);
    }
}

/// Taking one event is one step.
pub proof fn lemma_run_one(s: SessionView, e: EventView)
    ensures
        run(s, seq![e]) == next(s, e).0,
{
    let rest = seq![e].subrange(1, 1);
    assert(rest =~= Seq::<EventView>::empty());
    assert(seq![e][0] == e);
    assert(run(next(s, e).0, rest) == next(s, e).0);
}

/// The remaining turns of a session that awaits its next line, each with a
/// line and a finite stream, finish it and record each line and answer.
pub proof fn lemma_remaining_turns(
    s: SessionView,
    lines: Seq<Seq<char>>,
    streams: Seq<Seq<EventView>>,
)
    requires
        session_wf(s),
        s.phase is AwaitingInput,
        lines.len() == streams.len(),
        lines.len() == s.limit - s.completed,
        forall|k: int, i: int|
            0 <= k < streams.len() && 0 <= i < streams[k].len() ==> is_stream_item(
                #[trigger] streams[k][i],
            ),
    ensures
        run(s, script(lines, streams)).phase is Finished,
        run(s, script(lines, streams)).completed == s.limit,
        run(s, script(lines, streams)).transcript == s.transcript + recorded(lines, streams),
    decreases lines.len(),
{
    let items = streams[0];
    assert forall|i: int| 0 <= i < items.len() implies is_stream_item(#[trigger] items[i]) by {
        assert(is_stream_item(streams[0][i]));
    }
    let started = next(s, EventView::Line(lines[0])).0;
    let streamed = run(started, items);
    let ended = next(streamed, EventView::End).0;
    let shown = next(ended, EventView::Shown).0;
    lemma_completed_turn(s, lines[0], items);
    lemma_stream_items(started, items);
    let one = turn_events(lines[0], items);
    lemma_run_append(s, seq![EventView::Line(lines[0])] + items, seq![EventView::End, EventView::Shown]);
    lemma_run_append(s, seq![EventView::Line(lines[0])], items);
    lemma_run_one(s, EventView::Line(lines[0]));
    lemma_run_append(streamed, seq![EventView::End], seq![EventView::Shown]);
    assert(seq![EventView::End] + seq![EventView::Shown] =~= seq![EventView::End, EventView::Shown]);
    lemma_run_one(streamed, EventView::End);
    lemma_run_one(ended, EventView::Shown);
    assert(run(s, one) == shown);
    let rest_lines = lines.drop_first();
    let rest_streams = streams.drop_first();
    lemma_run_append(s, one, script(rest_lines, rest_streams));
    let pair = seq![
        (Role::User, without_trailing_space(lines[0])),
        (Role::Assistant, collected(items)),
    ];
    if lines.len() == 1 {
        assert(rest_lines.len() == 0);
        assert(script(rest_lines, rest_streams) =~= Seq::<EventView>::empty());
        assert(recorded(rest_lines, rest_streams) =~= Seq::<TurnView>::empty());
        assert(pair + recorded(rest_lines, rest_streams) =~= pair);
        assert(run(shown, Seq::<EventView>::empty()) == shown);
    } else {
        lemma_step_keeps_transcript(ended, EventView::Shown);
        assert forall|k: int, i: int|
            0 <= k < rest_streams.len() && 0 <= i < rest_streams[k].len() implies is_stream_item(
            #[trigger] rest_streams[k][i],
        ) by {
            assert(rest_streams[k] == streams[k + 1]);
        }
        lemma_remaining_turns(shown, rest_lines, rest_streams);
        assert(s.transcript + recorded(lines, streams) =~= (s.transcript + pair) + recorded(
            rest_lines,
            rest_streams,
        ));
    }
}

/// A session created for `limit` turns and given, for each of them, a line
/// and a finite stream of chunks and errors, ends finished; its transcript
/// is the system turn followed by each trimmed line and the answer joined
/// from its stream, in order: one user turn and one answer per turn.
pub proof fn lemma_whole_session(
    limit: nat,
    lines: Seq<Seq<char>>,
    streams: Seq<Seq<EventView>>,
)
    requires
        limit > 0,
        lines.len() == limit,
        streams.len() == limit,
        forall|k: int, i: int|
            0 <= k < streams.len() && 0 <= i < streams[k].len() ==> is_stream_item(
                #[trigger] streams[k][i],
            ),
    ensures
        run(initial(limit), script(lines, streams)).phase is Finished,
        run(initial(limit), script(lines, streams)).transcript == seq![system_turn()] + recorded(
            lines,
            streams,
        ),
        run(initial(limit), script(lines, streams)).transcript.len() == 1 + 2 * limit,
{
    lemma_remaining_turns(initial(limit), lines, streams);
    lemma_system_turn_kept(initial(limit), script(lines, streams));
    lemma_finished_session(run(initial(limit), script(lines, streams)));
}

/// A finished session holds, after the system turn, one user turn and one
/// answer for each of the turns it was allowed, in alternation.
pub proof fn lemma_finished_session(s: SessionView)
    requires
        session_wf(s),
        s.phase is Finished,
    ensures
        s.transcript.len() == 1 + 2 * s.limit,
        forall|k: int|
            0 <= k < s.limit ==> (#[trigger] s.transcript[2 * k + 1]).0 == Role::User
                && s.transcript[2 * k + 2].0 == Role::Assistant,
{
    assert forall|k: int| 0 <= k < s.limit implies (#[trigger] s.transcript[2 * k + 1]).0
        == Role::User && s.transcript[2 * k + 2].0 == Role::Assistant by {
        assert((2 * k + 1) % 2 == 1);
        assert((2 * k + 2) % 2 == 0);
    }
}

} // verus!
