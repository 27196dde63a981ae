//! The rules of a session with the earbuds, as a state machine.
//!
//! The session owns no transport and never waits: whoever drives it reports
//! what happened as an [`Event`] and carries out the [`Action`]s it gets
//! back, in order. The session opens with a handshake, acknowledges every
//! command frame it receives, and lets at most one command of its own be
//! unacknowledged at any time.

use vstd::prelude::*;
use vstd::slice::slice_subrange;
use crate::command::{build_command, Command};
use crate::frame_parser::{
    FrameParser, FrameParserResult, FramerParserError, InvalidChecksum, Message, MessageView,
    ParseOutcome, ParserState,
};
use crate::framing::lemma_consumed_in_chunk;
use crate::payload::{decode_payload, parse_payload, ParsePayloadError, Payload};
use crate::MessageType;

verus! {

/// How often the handshake frame is written again before the session gives
/// up on an earbud that stays silent.
pub const HANDSHAKE_RETRIES: u8 = 3;

/// Where a session stands.
#[derive(Clone, Copy, Debug, PartialEq, Eq, Structural)]
pub enum Phase {
    /// Nothing has been written yet.
    Idle,
    /// The handshake frame was written and nothing has come back yet.
    Handshake { retries_left: u8 },
    /// The earbuds have answered; frames go both ways.
    Running,
    /// The session is over.
    Closed,
}

/// Why a session ended on its own.
#[derive(Clone, Copy, Debug, PartialEq, Eq, Structural)]
pub enum SessionError {
    /// The earbuds never answered the handshake.
    HandshakeTimedOut,
    /// The byte stream cannot be a frame; the connection has to be made anew.
    MalformedFrame(FramerParserError),
}

/// Why a received frame led to nothing.
#[derive(Clone, Copy, Debug, PartialEq, Eq, Structural)]
pub enum Discarded {
    UnknownMessageType { msg_type: u8 },
    ChecksumFailed { got: u8, expected: u8 },
    BadPayload(ParsePayloadError),
}

/// What the session makes of one complete frame.
#[derive(Clone, Copy, Debug, PartialEq, Eq)]
pub enum Verdict {
    /// The frame is dropped.
    Discard(Discarded),
    /// The frame acknowledges the outstanding command and carries the
    /// sequence number to use from now on.
    Confirmed { seq_number: u8 },
    /// The frame is a report from the earbuds. It is acknowledged whether
    /// or not its payload could be decoded.
    Report { seq_num: u8, payload: Result<Payload, ParsePayloadError> },
}

/// Something that happened outside the session.
#[derive(Clone, Copy, Debug)]
pub enum Event<'a> {
    /// The transport is open.
    Start,
    /// Nothing became readable within the handshake's waiting time.
    Timeout,
    /// The transport has bytes to read.
    Readable,
    /// These bytes were read from the transport.
    Bytes(&'a [u8]),
    /// The application asks for this command to be sent.
    Command(Command),
    /// The application asks for the session to end.
    Stop,
}

/// The mathematical content of an [`Event`].
pub enum EventView {
    Start,
    Timeout,
    Readable,
    Bytes(Seq<u8>),
    Command(Command),
    Stop,
}

impl<'a> View for Event<'a> {
    type V = EventView;

    open spec fn view(&self) -> EventView {
        match *self {
            Event::Start => EventView::Start,
            Event::Timeout => EventView::Timeout,
            Event::Readable => EventView::Readable,
            Event::Bytes(bytes) => EventView::Bytes(bytes@),
            Event::Command(command) => EventView::Command(command),
            Event::Stop => EventView::Stop,
        }
    }
}

/// Something the driver of the session has to do.
#[derive(Debug, PartialEq, Eq)]
pub enum Action {
    /// Write this command frame to the transport. The command is now
    /// outstanding.
    Send(Vec<u8>),
    /// Write the handshake frame to the transport once more.
    Resend(Vec<u8>),
    /// Write this acknowledgement of a received frame to the transport.
    Reply(Vec<u8>),
    /// The earbuds acknowledged the outstanding command.
    Confirmed { seq_number: u8 },
    /// Hand this report to the application.
    Forward(Payload),
    /// A received frame was dropped; nothing to do but note it.
    Discard(Discarded),
    /// The command cannot be sent now: keep it and offer it again later.
    Hold(Command),
    /// Give up the connection.
    Fail(SessionError),
    /// End the session as the application asked.
    Finish,
}

/// The mathematical content of an [`Action`].
pub enum ActionView {
    Send(Seq<u8>),
    Resend(Seq<u8>),
    Reply(Seq<u8>),
    Confirmed { seq_number: u8 },
    Forward(Payload),
    Discard(Discarded),
    Hold(Command),
    Fail(SessionError),
    Finish,
}

impl View for Action {
    type V = ActionView;

    open spec fn view(&self) -> ActionView {
        match *self {
            Action::Send(frame) => ActionView::Send(frame@),
            Action::Resend(frame) => ActionView::Resend(frame@),
            Action::Reply(frame) => ActionView::Reply(frame@),
            Action::Confirmed { seq_number } => ActionView::Confirmed { seq_number },
            Action::Forward(payload) => ActionView::Forward(payload),
            Action::Discard(reason) => ActionView::Discard(reason),
            Action::Hold(command) => ActionView::Hold(command),
            Action::Fail(error) => ActionView::Fail(error),
            Action::Finish => ActionView::Finish,
        }
    }
}

/// The mathematical content of a list of actions.
pub open spec fn views(actions: Seq<Action>) -> Seq<ActionView> {
    actions.map_values(|action: Action| action@)
}

/// What the session makes of a complete frame with fields `msg`. The type
/// is looked at before the checksum.
pub open spec fn verdict_of(msg: MessageView) -> Verdict {
    match msg.kind {
        Err(msg_type) => Verdict::Discard(Discarded::UnknownMessageType { msg_type }),
        Ok(kind) => match msg.checksum {
            Err(InvalidChecksum { expected, got }) => Verdict::Discard(
                Discarded::ChecksumFailed { got, expected },
            ),
            Ok(_) => match kind {
                MessageType::Ack => Verdict::Confirmed { seq_number: msg.seq_num },
                _ => Verdict::Report {
                    seq_num: msg.seq_num,
                    payload: decode_payload(msg.payload, kind),
                },
            },
        },
    }
}

/// The state of a session between two events.
pub struct SessionState {
    pub parser: ParserState,
    /// The sequence number that the next command will carry.
    pub seq_number: u8,
    /// Whether a command was sent and not acknowledged yet.
    pub waiting_for_ack: bool,
    pub phase: Phase,
}

impl SessionState {
    /// The state of a session that has seen nothing.
    pub open spec fn fresh() -> SessionState {
        SessionState {
            parser: ParserState::fresh(),
            seq_number: 0,
            waiting_for_ack: false,
            phase: Phase::Idle,
        }
    }

    /// What every state reached by a session satisfies.
    pub open spec fn well_formed(self) -> bool {
        self.parser.well_formed()
    }

    /// Whether a command offered now is sent rather than held.
    pub open spec fn accepts_command(self) -> bool {
        self.phase == Phase::Running && !self.waiting_for_ack
    }

    /// The state after acting on `verdict`, and what has to be done.
    pub open spec fn apply(self, verdict: Verdict) -> (SessionState, Seq<ActionView>) {
        match verdict {
            Verdict::Discard(reason) => (self, seq![ActionView::Discard(reason)]),
            Verdict::Confirmed { seq_number } => (
                SessionState { seq_number, waiting_for_ack: false, ..self },
                seq![ActionView::Confirmed { seq_number }],
            ),
            Verdict::Report { seq_num, payload } => (
                self,
                seq![
                    ActionView::Reply(Command::Ack.frame(seq_num)),
                    match payload {
                        Ok(report) => ActionView::Forward(report),
                        Err(error) => ActionView::Discard(Discarded::BadPayload(error)),
                    },
                ],
            ),
        }
    }

    /// The state after reading `bytes` from index `from` on, frame after
    /// frame, and what has to be done, in order. A refused byte ends the
    /// session and the rest of the chunk is not looked at.
    pub open spec fn receive(self, bytes: Seq<u8>, from: int) -> (SessionState, Seq<ActionView>)
        decreases bytes.len() - from,
    {
        if from < 0 || from >= bytes.len() {
            (self, Seq::empty())
        } else {
            let (parser, outcome) = self.parser.parse(bytes.subrange(from, bytes.len() as int));
            let read = SessionState { parser, ..self };
            match outcome {
                ParseOutcome::Incomplete { .. } => (read, Seq::empty()),
                ParseOutcome::Error { err, .. } => (
                    SessionState { phase: Phase::Closed, ..read },
                    seq![ActionView::Fail(SessionError::MalformedFrame(err))],
                ),
                ParseOutcome::Ready { msg, consumed } => {
                    let (next, actions) = read.apply(verdict_of(msg));
                    proof {
                        lemma_consumed_in_chunk(
                            self.parser.rewound(),
                            bytes.subrange(from, bytes.len() as int),
                            0,
                        );
                    }
                    let (last, more) = next.receive(bytes, from + consumed);
                    (last, actions + more)
                },
            }
        }
    }

    /// The state after `event`, and what has to be done, in order.
    pub open spec fn step(self, event: EventView) -> (SessionState, Seq<ActionView>) {
        match self.phase {
            Phase::Closed => (self, Seq::empty()),
            Phase::Idle => match event {
                EventView::Start => (
                    SessionState {
                        phase: Phase::Handshake { retries_left: HANDSHAKE_RETRIES },
                        waiting_for_ack: true,
                        ..self
                    },
                    seq![ActionView::Send(Command::Init.frame(self.seq_number))],
                ),
                EventView::Command(command) => (self, seq![ActionView::Hold(command)]),
                EventView::Stop => (
                    SessionState { phase: Phase::Closed, ..self },
                    seq![ActionView::Finish],
                ),
                _ => (self, Seq::empty()),
            },
            Phase::Handshake { retries_left } => match event {
                EventView::Timeout => if retries_left == 0 {
                    (
                        SessionState { phase: Phase::Closed, ..self },
                        seq![ActionView::Fail(SessionError::HandshakeTimedOut)],
                    )
                } else {
                    (
                        SessionState {
                            phase: Phase::Handshake { retries_left: (retries_left - 1) as u8 },
                            ..self
                        },
                        seq![ActionView::Resend(Command::Init.frame(self.seq_number))],
                    )
                },
                EventView::Readable => (
                    SessionState { phase: Phase::Running, ..self },
                    Seq::empty(),
                ),
                EventView::Bytes(bytes) => (SessionState { phase: Phase::Running, ..self }).receive(
                    bytes,
                    0,
                ),
                EventView::Command(command) => (self, seq![ActionView::Hold(command)]),
                EventView::Stop => (
                    SessionState { phase: Phase::Closed, ..self },
                    seq![ActionView::Finish],
                ),
                EventView::Start => (self, Seq::empty()),
            },
            Phase::Running => match event {
                EventView::Bytes(bytes) => self.receive(bytes, 0),
                EventView::Command(command) => if self.waiting_for_ack {
                    (self, seq![ActionView::Hold(command)])
                } else {
                    (
                        SessionState { waiting_for_ack: true, ..self },
                        seq![ActionView::Send(command.frame(self.seq_number))],
                    )
                },
                EventView::Stop => (
                    SessionState { phase: Phase::Closed, ..self },
                    seq![ActionView::Finish],
                ),
                _ => (self, Seq::empty()),
            },
        }
    }
}

impl Default for Session {
    fn default() -> (session: Self)
        ensures
            session@ == SessionState::fresh(),
    {
        Session::new()
    }
}

/// Decides what one complete frame means for the session.
pub fn judge(msg: &Message<'_>) -> (verdict: Verdict)
    ensures
        verdict == verdict_of(msg@),
{
    match msg.kind {
        Err(msg_type) => Verdict::Discard(Discarded::UnknownMessageType { msg_type }),
        Ok(kind) => match msg.checksum {
            Err(sums) => Verdict::Discard(
                Discarded::ChecksumFailed { got: sums.got, expected: sums.expected },
            ),
            Ok(_) => match kind {
                MessageType::Ack => Verdict::Confirmed { seq_number: msg.seq_num },
                _ => Verdict::Report {
                    seq_num: msg.seq_num,
                    payload: parse_payload(msg.payload, kind),
                },
            },
        },
    }
}

/// One session with the earbuds.
pub struct Session {
    parser: FrameParser,
    seq_number: u8,
    waiting_for_ack: bool,
    phase: Phase,
}

impl View for Session {
    type V = SessionState;

    closed spec fn view(&self) -> SessionState {
        SessionState {
            parser: self.parser@,
            seq_number: self.seq_number,
            waiting_for_ack: self.waiting_for_ack,
            phase: self.phase,
        }
    }
}

impl Session {
    /// A session that has seen nothing.
    pub fn new() -> (session: Self)
        ensures
            session@ == SessionState::fresh(),
    {
        Session {
            parser: FrameParser::new(),
            seq_number: 0,
            waiting_for_ack: false,
            phase: Phase::Idle,
        }
    }

    /// Where the session stands.
    pub fn phase(&self) -> (phase: Phase)
        ensures
            phase == self@.phase,
    {
        self.phase
    }

    /// The sequence number that the next command will carry: zero at first,
    /// then the one of the latest acknowledgement received.
    pub fn seq_number(&self) -> (seq_number: u8)
        ensures
            seq_number == self@.seq_number,
    {
        self.seq_number
    }

    /// Whether a command was sent and not acknowledged yet.
    pub fn is_waiting_for_ack(&self) -> (waiting: bool)
        ensures
            waiting == self@.waiting_for_ack,
    {
        self.waiting_for_ack
    }

    /// Whether a command offered now would be sent rather than held.
    pub fn accepts_command(&self) -> (accepts: bool)
        ensures
            accepts == self@.accepts_command(),
    {
        match self.phase {
            Phase::Running => !self.waiting_for_ack,
            _ => false,
        }
    }

    /// Takes note of `event` and tells what has to be done, in order.
    ///
    /// A command offered while another is outstanding, or before the
    /// earbuds have answered the handshake, comes back as
    /// [`Action::Hold`]: nothing of it is written. A closed session takes
    /// note of nothing and asks for nothing.
    pub fn step(&mut self, event: Event<'_>) -> (actions: Vec<Action>)
        requires
            old(self)@.well_formed(),
            event matches Event::Command(command) ==> command.valid(),
        ensures
            final(self)@.well_formed(),
            final(self)@ == old(self)@.step(event@).0,
            views(actions@) == old(self)@.step(event@).1,
    {
        let mut actions: Vec<Action> = Vec::new();
        match self.phase {
            Phase::Closed => {},
            Phase::Idle => match event {
                Event::Start => {
                    let frame = build_command(&Command::Init, self.seq_number);
                    self.phase = Phase::Handshake { retries_left: HANDSHAKE_RETRIES };
                    self.waiting_for_ack = true;
                    actions.push(Action::Send(frame));
                },
                Event::Command(command) => {
                    actions.push(Action::Hold(command));
                },
                Event::Stop => {
                    self.phase = Phase::Closed;
                    actions.push(Action::Finish);
                },
                _ => {},
            },
            Phase::Handshake { retries_left } => match event {
                Event::Timeout => {
                    if retries_left == 0 {
                        self.phase = Phase::Closed;
                        actions.push(Action::Fail(SessionError::HandshakeTimedOut));
                    } else {
                        let frame = build_command(&Command::Init, self.seq_number);
                        self.phase = Phase::Handshake { retries_left: retries_left - 1 };
                        actions.push(Action::Resend(frame));
                    }
                },
                Event::Readable => {
                    self.phase = Phase::Running;
                },
                Event::Bytes(bytes) => {
                    self.phase = Phase::Running;
                    self.receive(bytes, &mut actions);
                },
                Event::Command(command) => {
                    actions.push(Action::Hold(command));
                },
                Event::Stop => {
                    self.phase = Phase::Closed;
                    actions.push(Action::Finish);
                },
                Event::Start => {},
            },
            Phase::Running => match event {
                Event::Bytes(bytes) => {
                    self.receive(bytes, &mut actions);
                },
                Event::Command(command) => {
                    if self.waiting_for_ack {
                        actions.push(Action::Hold(command));
                    } else {
                        let frame = build_command(&command, self.seq_number);
                        self.waiting_for_ack = true;
                        actions.push(Action::Send(frame));
                    }
                },
                Event::Stop => {
                    self.phase = Phase::Closed;
                    actions.push(Action::Finish);
                },
                _ => {},
            },
        }
        proof {
            assert(views(actions@) =~= old(self)@.step(event@).1);
        }
        actions
    }

    /// Reads every frame in `bytes` and appends what has to be done.
    fn receive(&mut self, bytes: &[u8], actions: &mut Vec<Action>)
        requires
            old(self)@.well_formed(),
            old(actions)@.len() == 0,
        ensures
            final(self)@.well_formed(),
            final(self)@ == old(self)@.receive(bytes@, 0).0,
            views(final(actions)@) == old(self)@.receive(bytes@, 0).1,
    {
        let mut pos: usize = 0;
        while pos < bytes.len()
            invariant
                pos <= bytes.len(),
                self@.well_formed(),
                old(self)@.receive(bytes@, 0).0 == self@.receive(bytes@, pos as int).0,
                old(self)@.receive(bytes@, 0).1 == views(actions@) + self@.receive(
                    bytes@,
                    pos as int,
                ).1,
            decreases bytes.len() - pos,
        {
            let ghost before = self@;
            let ghost done = views(actions@);
            let chunk = slice_subrange(bytes, pos, bytes.len());
            let (verdict, consumed) = match self.parser.parse(chunk) {
                FrameParserResult::Incomplete { .. } => {
                    proof {
                        assert(done + Seq::<ActionView>::empty() =~= done);
                    }
                    return ;
                },
                FrameParserResult::Error { err, .. } => {
                    self.phase = Phase::Closed;
                    actions.push(Action::Fail(SessionError::MalformedFrame(err)));
                    proof {
                        assert(views(actions@) =~= done + seq![
                            ActionView::Fail(SessionError::MalformedFrame(err)),
                        ]);
                    }
                    return ;
                },
                FrameParserResult::Ready { msg, consumed } => (judge(&msg), consumed),
            };
            proof {
                lemma_consumed_in_chunk(before.parser.rewound(), chunk@, 0);
            }
            match verdict {
                Verdict::Discard(reason) => {
                    actions.push(Action::Discard(reason));
                },
                Verdict::Confirmed { seq_number } => {
                    self.seq_number = seq_number;
                    self.waiting_for_ack = false;
                    actions.push(Action::Confirmed { seq_number });
                },
                Verdict::Report { seq_num, payload } => {
                    actions.push(Action::Reply(build_command(&Command::Ack, seq_num)));
                    match payload {
                        Ok(report) => {
                            actions.push(Action::Forward(report));
                        },
                        Err(error) => {
                            actions.push(Action::Discard(Discarded::BadPayload(error)));
                        },
                    }
                },
            }
            pos += consumed;
            proof {
                let applied = SessionState { parser: self@.parser, ..before }.apply(verdict);
                assert(self@ == applied.0);
                assert(views(actions@) =~= done + applied.1);
                assert(before.receive(bytes@, pos - consumed).1 == applied.1 + self@.receive(
                    bytes@,
                    pos as int,
                ).1);
                assert(done + (applied.1 + self@.receive(bytes@, pos as int).1) =~= (done
                    + applied.1) + self@.receive(bytes@, pos as int).1);
            }
        }
        proof {
            assert(views(actions@) + Seq::<ActionView>::empty() =~= views(actions@));
        }
    }
}

/// How many commands are unacknowledged once `actions` have been carried
/// out, in order: each `Send` adds one, each `Confirmed` takes one away if
/// there is one.
pub open spec fn in_flight(actions: Seq<ActionView>) -> nat
    decreases actions.len(),
{
    if actions.len() == 0 {
        0
    } else {
        let before = in_flight(actions.drop_last());
        match actions.last() {
            ActionView::Send(_) => before + 1,
            ActionView::Confirmed { .. } => if before > 0 {
                (before - 1) as nat
            } else {
                0
            },
            _ => before,
        }
    }
}

impl SessionState {
    /// The state after `events`, one after the other, and everything that
    /// had to be done along the way, in order.
    pub open spec fn run(self, events: Seq<EventView>) -> (SessionState, Seq<ActionView>)
        decreases events.len(),
    {
        if events.len() == 0 {
            (self, Seq::empty())
        } else {
            let (reached, done) = self.run(events.drop_last());
            let (next, more) = reached.step(events.last());
            (next, done + more)
        }
    }
}

/// Whether `actions` send no command.
spec fn sends_nothing(actions: Seq<ActionView>) -> bool
    decreases actions.len(),
{
    actions.len() == 0 || (sends_nothing(actions.drop_last()) && !(actions.last() is Send))
}

/// Whether `actions` tell of an acknowledgement.
spec fn confirms(actions: Seq<ActionView>) -> bool
    decreases actions.len(),
{
    actions.len() != 0 && (confirms(actions.drop_last()) || actions.last() is Confirmed)
}

/// Whether at no point while `actions` are carried out more than one
/// command is unacknowledged.
spec fn bounded(actions: Seq<ActionView>) -> bool {
    forall|count: int| 0 <= count <= actions.len() ==> in_flight(#[trigger] actions.take(count)) <= 1
}

/// Whether `state` knows how many commands are unacknowledged after
/// `actions`.
spec fn settled(state: SessionState, actions: Seq<ActionView>) -> bool {
    &&& bounded(actions)
    &&& in_flight(actions) == if state.waiting_for_ack {
        1nat
    } else {
        0nat
    }
    &&& state.phase == Phase::Idle ==> !state.waiting_for_ack
}

proof fn lemma_concat_sends_nothing(a: Seq<ActionView>, b: Seq<ActionView>)
    ensures
        sends_nothing(a + b) == (sends_nothing(a) && sends_nothing(b)),
        confirms(a + b) == (confirms(a) || confirms(b)),
    decreases b.len(),
{
    if b.len() == 0 {
        assert(a + b =~= a);
    } else {
        lemma_concat_sends_nothing(a, b.drop_last());
        assert((a + b).drop_last() =~= a + b.drop_last());
    }
}

proof fn lemma_bounded_push(actions: Seq<ActionView>, action: ActionView)
    requires
        bounded(actions),
        in_flight(actions.push(action)) <= 1,
    ensures
        bounded(actions.push(action)),
{
    let longer = actions.push(action);
    assert forall|count: int| 0 <= count <= longer.len() implies in_flight(
        #[trigger] longer.take(count),
    ) <= 1 by {
        if count == longer.len() {
            assert(longer.take(count) =~= longer);
        } else {
            assert(longer.take(count) =~= actions.take(count));
        }
    }
}

proof fn lemma_quiet_append(actions: Seq<ActionView>, more: Seq<ActionView>)
    requires
        bounded(actions),
        sends_nothing(more),
    ensures
        bounded(actions + more),
        in_flight(actions + more) == if confirms(more) {
            0nat
        } else {
            in_flight(actions)
        },
    decreases more.len(),
{
    assert(actions.take(actions.len() as int) =~= actions);
    if more.len() == 0 {
        assert(actions + more =~= actions);
    } else {
        lemma_quiet_append(actions, more.drop_last());
        assert(actions + more =~= (actions + more.drop_last()).push(more.last()));
        assert((actions + more.drop_last()).push(more.last()).drop_last() =~= actions
            + more.drop_last());
        lemma_bounded_push(actions + more.drop_last(), more.last());
    }
}

proof fn lemma_apply_quiet(state: SessionState, verdict: Verdict)
    ensures
        sends_nothing(state.apply(verdict).1),
        state.apply(verdict).0.waiting_for_ack == (state.waiting_for_ack && !confirms(
            state.apply(verdict).1,
        )),
        state.apply(verdict).0.phase == state.phase,
{
    reveal_with_fuel(sends_nothing, 3);
    reveal_with_fuel(confirms, 3);
    let done = state.apply(verdict).1;
    match verdict {
        Verdict::Report { .. } => {
            assert(done.drop_last().drop_last().len() == 0);
        },
        _ => {
            assert(done.drop_last().len() == 0);
        },
    }
}

proof fn lemma_receive_quiet(state: SessionState, bytes: Seq<u8>, from: int)
    ensures
        sends_nothing(state.receive(bytes, from).1),
        state.receive(bytes, from).0.waiting_for_ack == (state.waiting_for_ack && !confirms(
            state.receive(bytes, from).1,
        )),
        state.receive(bytes, from).0.phase == state.phase || state.receive(bytes, from).0.phase
            == Phase::Closed,
    decreases bytes.len() - from,
{
    if 0 <= from < bytes.len() {
        let chunk = bytes.subrange(from, bytes.len() as int);
        let (parser, outcome) = state.parser.parse(chunk);
        let read = SessionState { parser, ..state };
        match outcome {
            ParseOutcome::Incomplete { .. } => {},
            ParseOutcome::Error { err, .. } => {
                let done = seq![ActionView::Fail(SessionError::MalformedFrame(err))];
                assert(done.drop_last().len() == 0);
                assert(sends_nothing(done.drop_last()));
                assert(!confirms(done.drop_last()));
            },
            ParseOutcome::Ready { msg, consumed } => {
                lemma_consumed_in_chunk(state.parser.rewound(), chunk, 0);
                let (next, done) = read.apply(verdict_of(msg));
                lemma_apply_quiet(read, verdict_of(msg));
                lemma_receive_quiet(next, bytes, from + consumed);
                lemma_concat_sends_nothing(done, next.receive(bytes, from + consumed).1);
            },
        }
    }
}

proof fn lemma_step_settled(state: SessionState, actions: Seq<ActionView>, event: EventView)
    requires
        settled(state, actions),
    ensures
        settled(state.step(event).0, actions + state.step(event).1),
{
    let (next, more) = state.step(event);
    assert(actions.take(actions.len() as int) =~= actions);
    if more.len() == 1 && more[0] is Send {
        assert(actions + more =~= actions.push(more[0]));
        assert(actions.push(more[0]).drop_last() =~= actions);
        lemma_bounded_push(actions, more[0]);
    } else {
        let reading = match (state.phase, event) {
            (Phase::Handshake { .. }, EventView::Bytes(_)) => true,
            (Phase::Running, EventView::Bytes(_)) => true,
            _ => false,
        };
        if reading {
            let bytes = event->Bytes_0;
            lemma_receive_quiet(SessionState { phase: Phase::Running, ..state }, bytes, 0);
        } else if more.len() == 0 {
        } else {
            assert(more.len() == 1);
            assert(more.drop_last().len() == 0);
            assert(sends_nothing(more.drop_last()));
            assert(!confirms(more.drop_last()));
        }
        lemma_quiet_append(actions, more);
    }
}

proof fn lemma_run_settled(events: Seq<EventView>)
    ensures
        settled(SessionState::fresh().run(events).0, SessionState::fresh().run(events).1),
    decreases events.len(),
{
    if events.len() == 0 {
        let none = Seq::<ActionView>::empty();
        assert forall|count: int| 0 <= count <= none.len() implies in_flight(
            #[trigger] none.take(count),
        ) <= 1 by {
            assert(none.take(count) =~= none);
        }
    } else {
        lemma_run_settled(events.drop_last());
        let (reached, done) = SessionState::fresh().run(events.drop_last());
        lemma_step_settled(reached, done, events.last());
    }
}

/// Never are two commands unacknowledged at once.
///
/// Whatever happens to a new session, in whatever order, and however far
/// the driver has got with what it was told to do: of the commands it has
/// sent so far, at most one has not been acknowledged. An acknowledgement
/// frame written in reply to the earbuds and a handshake frame written
/// again are not commands of their own.
pub proof fn lemma_one_command_in_flight(events: Seq<EventView>, count: int)
    requires
        0 <= count <= SessionState::fresh().run(events).1.len(),
    ensures
        in_flight(SessionState::fresh().run(events).1.take(count)) <= 1,
{
    lemma_run_settled(events);
}

/// A command is sent only by a session that waits for no acknowledgement,
/// and from then on the session waits for one; a command offered at any
/// other time is handed back and changes nothing.
pub proof fn lemma_command_waits_its_turn(state: SessionState, command: Command)
    ensures
        state.accepts_command() ==> state.step(EventView::Command(command)) == (
            SessionState { waiting_for_ack: true, ..state },
            seq![ActionView::Send(command.frame(state.seq_number))],
        ),
        !state.accepts_command() && state.phase != Phase::Closed ==> state.step(
            EventView::Command(command),
        ) == (state, seq![ActionView::Hold(command)]),
{
}

} // verus!
