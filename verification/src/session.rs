//! The per-connection protocol loop, as a state machine.
//!
//! A session multiplexes three sources over one transport: encoded replies
//! waiting in its outbound channel, notifications from the session registry,
//! and bytes arriving from the peer. The machine decides; its owner performs.
//! Each step takes the outcome of the last request and answers with the
//! actions to perform in order, the last of which is the next request.
//!
//! One turn of the loop runs through the phases in a fixed order: drain the
//! outbound channel (writing and flushing each message), drain the
//! notifications (coalescing them by subject), schedule one push per pending
//! subject, wait, and, if the transport has something, read and dispatch every
//! complete message. The first unrecoverable outcome closes the session for
//! good.

use crate::codec::encodable;
use crate::codec::encode_frame;
use crate::codec::decode_frame;
use crate::codec::lemma_decode_stable;
use crate::codec::CodecError;
use crate::codec::Decode;
use crate::codec::DecodedPdu;
use crate::codec::Frame;
use crate::codec::Pdu;
use crate::pollable::try_recv_from;
use crate::pollable::TryRecv;
use crossbeam::channel::Receiver;
use vstd::prelude::*;

verus! {

/// Identifies a subject of the session registry.
pub type TabId = usize;

/// An event that the session registry publishes.
#[derive(Debug, Clone, Copy, PartialEq, Eq, Structural)]
pub enum MuxNotification {
    /// The subject produced output.
    TabOutput(TabId),
}

/// Why a session closed.
#[derive(Debug, Clone, Copy, PartialEq, Eq, Structural)]
pub enum SessionError {
    /// Every producer of the outbound channel is gone.
    OutboundDisconnected,
    /// The subscription to the session registry is gone.
    SubscriptionDisconnected,
    /// Reading, writing or flushing the transport failed.
    Transport,
    /// The peer closed the transport.
    EndOfFile,
    /// A message could not be framed, or the bytes received are malformed.
    Codec(CodecError),
    /// The outcome handed in does not answer the request that was made.
    UnexpectedEvent,
}

impl SessionError {
    /// The reason in words.
    pub open spec fn text(self) -> Seq<char> {
        match self {
            SessionError::OutboundDisconnected => "ClientSession was destroyed"@,
            SessionError::SubscriptionDisconnected => "mux_rx is Disconnected"@,
            SessionError::Transport => "transport failed"@,
            SessionError::EndOfFile => "End Of File"@,
            SessionError::Codec(CodecError::FrameTooShort) => "frame is too short"@,
            SessionError::Codec(CodecError::FrameTooLarge) => "frame is too large"@,
            SessionError::UnexpectedEvent => "unexpected event"@,
        }
    }

    /// The reason in words.
    pub fn message(&self) -> (m: &'static str)
        ensures
            m@ == self.text(),
    {
        match self {
            SessionError::OutboundDisconnected => "ClientSession was destroyed",
            SessionError::SubscriptionDisconnected => "mux_rx is Disconnected",
            SessionError::Transport => "transport failed",
            SessionError::EndOfFile => "End Of File",
            SessionError::Codec(CodecError::FrameTooShort) => "frame is too short",
            SessionError::Codec(CodecError::FrameTooLarge) => "frame is too large",
            SessionError::UnexpectedEvent => "unexpected event",
        }
    }
}

/// Where in its loop a session stands: the request whose outcome it awaits.
#[derive(Debug, Clone, Copy, PartialEq, Eq, Structural)]
pub enum Phase {
    /// Draining the outbound channel.
    Outbound,
    /// A message is being written and flushed.
    Writing,
    /// Draining the notifications.
    Notifications,
    /// Blocked until a source is ready.
    Waiting,
    /// Reading the transport without blocking.
    Reading,
    /// Closed, for the reason given.
    Closed(SessionError),
}

/// The two states that a session shows to the outside.
#[derive(Debug, Clone, Copy, PartialEq, Eq, Structural)]
pub enum SessionState {
    Multiplexing,
    Closed,
}

/// What a non-blocking read of the transport gave.
#[derive(Debug, Clone, PartialEq, Eq)]
pub enum ReadOutcome {
    /// The bytes that were read. No bytes at all mean that the peer is gone.
    Bytes(Vec<u8>),
    /// Nothing to read at the moment.
    WouldBlock,
    /// The peer closed the transport.
    EndOfFile,
    /// The read, or switching the transport's mode around it, failed.
    Failed,
}

/// The outcome of a request, handed to the session.
#[derive(Debug, Clone, PartialEq, Eq)]
pub enum SessionEvent {
    /// Answers [`SessionAction::RecvOutbound`].
    Outbound(TryRecv<DecodedPdu>),
    /// Answers [`SessionAction::Write`]: whether writing and flushing succeeded.
    Written(bool),
    /// Answers [`SessionAction::RecvNotification`].
    Notification(TryRecv<MuxNotification>),
    /// Answers [`SessionAction::Wait`]: whether the transport is readable, and
    /// whether it holds bytes that it has read ahead.
    Ready { transport_readable: bool, read_buffered: bool },
    /// Answers [`SessionAction::Read`].
    Read(ReadOutcome),
}

/// What the owner of a session is to do.
#[derive(Debug, Clone, PartialEq, Eq)]
pub enum SessionAction {
    /// Request: receive from the outbound channel without blocking.
    RecvOutbound,
    /// Request: write these bytes to the transport, then flush it.
    Write(Vec<u8>),
    /// Request: receive from the notification subscription without blocking.
    RecvNotification,
    /// Ask the session handler to schedule a push for the subject.
    SchedulePush(TabId),
    /// Request: block until the outbound channel, the transport or the
    /// subscription is ready.
    Wait,
    /// Request: read the transport without blocking.
    Read,
    /// Hand the message to the session handler.
    Dispatch(DecodedPdu),
    /// The session is closed: tear it down.
    Close(SessionError),
}

/// The mathematical content of a [`ReadOutcome`].
pub enum ReadView {
    Bytes(Seq<u8>),
    WouldBlock,
    EndOfFile,
    Failed,
}

/// The mathematical content of a [`SessionEvent`].
pub enum EventView {
    Outbound(TryRecv<Frame>),
    Written(bool),
    Notification(TryRecv<MuxNotification>),
    Ready { transport_readable: bool, read_buffered: bool },
    Read(ReadView),
}

/// The mathematical content of a [`SessionAction`].
pub enum ActionView {
    RecvOutbound,
    Write(Seq<u8>),
    RecvNotification,
    SchedulePush(TabId),
    Wait,
    Read,
    Dispatch(Frame),
    Close(SessionError),
}

impl View for ReadOutcome {
    type V = ReadView;

    open spec fn view(&self) -> ReadView {
        match *self {
            ReadOutcome::Bytes(b) => ReadView::Bytes(b@),
            ReadOutcome::WouldBlock => ReadView::WouldBlock,
            ReadOutcome::EndOfFile => ReadView::EndOfFile,
            ReadOutcome::Failed => ReadView::Failed,
        }
    }
}

impl View for SessionEvent {
    type V = EventView;

    open spec fn view(&self) -> EventView {
        match *self {
            SessionEvent::Outbound(TryRecv::Item(d)) => EventView::Outbound(TryRecv::Item(d@)),
            SessionEvent::Outbound(TryRecv::Empty) => EventView::Outbound(TryRecv::Empty),
            SessionEvent::Outbound(TryRecv::Disconnected) => EventView::Outbound(
                TryRecv::Disconnected,
            ),
            SessionEvent::Written(ok) => EventView::Written(ok),
            SessionEvent::Notification(n) => EventView::Notification(n),
            SessionEvent::Ready { transport_readable, read_buffered } => EventView::Ready {
                transport_readable,
                read_buffered,
            },
            SessionEvent::Read(r) => EventView::Read(r@),
        }
    }
}

impl View for SessionAction {
    type V = ActionView;

    open spec fn view(&self) -> ActionView {
        match *self {
            SessionAction::RecvOutbound => ActionView::RecvOutbound,
            SessionAction::Write(b) => ActionView::Write(b@),
            SessionAction::RecvNotification => ActionView::RecvNotification,
            SessionAction::SchedulePush(t) => ActionView::SchedulePush(t),
            SessionAction::Wait => ActionView::Wait,
            SessionAction::Read => ActionView::Read,
            SessionAction::Dispatch(d) => ActionView::Dispatch(d@),
            SessionAction::Close(why) => ActionView::Close(why),
        }
    }
}

/// The contents of a list of events.
pub open spec fn event_views(events: Seq<SessionEvent>) -> Seq<EventView> {
    events.map_values(|e: SessionEvent| e@)
}

/// The contents of a list of actions.
pub open spec fn action_views(actions: Seq<SessionAction>) -> Seq<ActionView> {
    actions.map_values(|a: SessionAction| a@)
}

/// Everything that the complete frames at the front of a buffer amount to.
pub struct Drained {
    /// The complete frames, in order.
    pub frames: Seq<Frame>,
    /// The bytes behind the last complete frame.
    pub rest: Seq<u8>,
    /// The fault in `rest`, if its front is malformed.
    pub error: Option<CodecError>,
}

/// Takes complete frames off the front of `buf` for as long as there are any.
pub open spec fn drain_frames(buf: Seq<u8>) -> Drained
    decreases buf.len(),
{
    match decode_frame(buf) {
        Decode::NeedMore => Drained { frames: Seq::empty(), rest: buf, error: None },
        Decode::Malformed(e) => Drained { frames: Seq::empty(), rest: buf, error: Some(e) },
        Decode::Complete(f, n) => {
            let d = drain_frames(buf.skip(n as int));
            Drained { frames: seq![f] + d.frames, rest: d.rest, error: d.error }
        },
    }
}

/// One dispatch per frame, in order.
pub open spec fn dispatch_all(frames: Seq<Frame>) -> Seq<ActionView> {
    frames.map_values(|f: Frame| ActionView::Dispatch(f))
}

/// One scheduled push per subject, in order.
pub open spec fn push_all(tabs: Seq<TabId>) -> Seq<ActionView> {
    tabs.map_values(|tab: TabId| ActionView::SchedulePush(tab))
}

/// The pending subjects after one more notification: a subject that is
/// already pending is not added again.
pub open spec fn insert_unique(pending: Seq<TabId>, tab: TabId) -> Seq<TabId> {
    if pending.contains(tab) {
        pending
    } else {
        pending.push(tab)
    }
}

/// The mathematical content of a [`ClientSession`].
pub struct SessionView {
    pub phase: Phase,
    /// Bytes received that do not yet make a frame.
    pub read_buffer: Seq<u8>,
    /// Subjects with a notification not yet serviced, in order of arrival.
    pub pending: Seq<TabId>,
}

/// A step of a session: the state it leads to and the actions it asks for.
pub struct Transition {
    pub state: SessionView,
    pub actions: Seq<ActionView>,
}

impl SessionView {
    /// The session as it starts: about to drain its outbound channel, nothing
    /// buffered, nothing pending.
    pub open spec fn initial() -> SessionView {
        SessionView { phase: Phase::Outbound, read_buffer: Seq::empty(), pending: Seq::empty() }
    }

    /// Whether the session is closed.
    pub open spec fn closed(self) -> bool {
        self.phase is Closed
    }

    /// What holds of every session: no subject is pending twice; subjects are
    /// pending only while notifications are drained; and an open session has
    /// dispatched every complete frame that it received.
    pub open spec fn wf(self) -> bool {
        &&& self.pending.no_duplicates()
        &&& (self.phase is Outbound || self.phase is Writing || self.phase is Waiting
            || self.phase is Reading) ==> self.pending.len() == 0
        &&& !self.closed() ==> decode_frame(self.read_buffer) == Decode::NeedMore
    }

    /// The session closed for the given reason, with the one action left.
    pub open spec fn close(self, why: SessionError) -> Transition {
        Transition {
            state: SessionView { phase: Phase::Closed(why), ..self },
            actions: seq![ActionView::Close(why)],
        }
    }

    /// The session in another phase, asking for one action.
    pub open spec fn advance(self, phase: Phase, request: ActionView) -> Transition {
        Transition { state: SessionView { phase, ..self }, actions: seq![request] }
    }

    /// The step that the session takes on an event.
    pub open spec fn transition(self, event: EventView) -> Transition {
        match self.phase {
            Phase::Closed(why) => Transition { state: self, actions: seq![ActionView::Close(why)] },
            Phase::Outbound => match event {
                EventView::Outbound(TryRecv::Item(f)) => if encodable(f) {
                    self.advance(Phase::Writing, ActionView::Write(encode_frame(f)))
                } else {
                    self.close(SessionError::Codec(CodecError::FrameTooLarge))
                },
                EventView::Outbound(TryRecv::Empty) => self.advance(
                    Phase::Notifications,
                    ActionView::RecvNotification,
                ),
                EventView::Outbound(TryRecv::Disconnected) => self.close(
                    SessionError::OutboundDisconnected,
                ),
                _ => self.close(SessionError::UnexpectedEvent),
            },
            Phase::Writing => match event {
                EventView::Written(true) => self.advance(Phase::Outbound, ActionView::RecvOutbound),
                EventView::Written(false) => self.close(SessionError::Transport),
                _ => self.close(SessionError::UnexpectedEvent),
            },
            Phase::Notifications => match event {
                EventView::Notification(TryRecv::Item(MuxNotification::TabOutput(tab))) => {
                    Transition {
                        state: SessionView { pending: insert_unique(self.pending, tab), ..self },
                        actions: seq![ActionView::RecvNotification],
                    }
                },
                EventView::Notification(TryRecv::Empty) => Transition {
                    state: SessionView { phase: Phase::Waiting, pending: Seq::empty(), ..self },
                    actions: push_all(self.pending) + seq![ActionView::Wait],
                },
                EventView::Notification(TryRecv::Disconnected) => self.close(
                    SessionError::SubscriptionDisconnected,
                ),
                _ => self.close(SessionError::UnexpectedEvent),
            },
            Phase::Waiting => match event {
                EventView::Ready { transport_readable, read_buffered } => if transport_readable
                    || read_buffered {
                    self.advance(Phase::Reading, ActionView::Read)
                } else {
                    self.advance(Phase::Outbound, ActionView::RecvOutbound)
                },
                _ => self.close(SessionError::UnexpectedEvent),
            },
            Phase::Reading => match event {
                EventView::Read(ReadView::Bytes(bytes)) => if bytes.len() == 0 {
                    self.close(SessionError::EndOfFile)
                } else {
                    self.receive(bytes)
                },
                EventView::Read(ReadView::WouldBlock) => self.advance(
                    Phase::Outbound,
                    ActionView::RecvOutbound,
                ),
                EventView::Read(ReadView::EndOfFile) => self.close(SessionError::EndOfFile),
                EventView::Read(ReadView::Failed) => self.close(SessionError::Transport),
                _ => self.close(SessionError::UnexpectedEvent),
            },
        }
    }

    /// The step on bytes that were read: every complete frame is dispatched
    /// in order, and the bytes behind the last one stay buffered. Then the
    /// session reads on, unless what stays is malformed.
    pub open spec fn receive(self, bytes: Seq<u8>) -> Transition {
        let d = drain_frames(self.read_buffer + bytes);
        let dispatched = dispatch_all(d.frames);
        match d.error {
            None => Transition {
                state: SessionView { phase: Phase::Reading, read_buffer: d.rest, ..self },
                actions: dispatched + seq![ActionView::Read],
            },
            Some(e) => Transition {
                state: SessionView {
                    phase: Phase::Closed(SessionError::Codec(e)),
                    read_buffer: d.rest,
                    ..self
                },
                actions: dispatched + seq![ActionView::Close(SessionError::Codec(e))],
            },
        }
    }

    /// The session after a run of events, and all the actions asked for on the
    /// way. A closed session takes no further event.
    #[verifier::opaque]
    pub open spec fn run(self, events: Seq<EventView>) -> Transition
        decreases events.len(),
    {
        if events.len() == 0 || self.closed() {
            Transition { state: self, actions: Seq::empty() }
        } else {
            let first = self.transition(events[0]);
            let then = first.state.run(events.skip(1));
            Transition { state: then.state, actions: first.actions + then.actions }
        }
    }
}


/// What stays behind the complete frames is not a complete frame; if nothing
/// is wrong with it, it asks for more.
pub proof fn lemma_drained_rest(buf: Seq<u8>)
    ensures
        drain_frames(buf).error is None ==> decode_frame(drain_frames(buf).rest)
            == Decode::NeedMore,
        drain_frames(buf).error is Some ==> decode_frame(drain_frames(buf).rest)
            == Decode::Malformed(drain_frames(buf).error->Some_0),
        drain_frames(buf).rest.len() <= buf.len(),
    decreases buf.len(),
{
    match decode_frame(buf) {
        Decode::Complete(f, n) => {
            lemma_drained_rest(buf.skip(n as int));
        },
        _ => {},
    }
}

/// A run from an open session is its first step, then the run of the rest.
pub proof fn lemma_run_unfold(s: SessionView, events: Seq<EventView>)
    requires
        events.len() > 0,
        !s.closed(),
    ensures
        s.run(events).state == s.transition(events[0]).state.run(events.skip(1)).state,
        s.run(events).actions == s.transition(events[0]).actions + s.transition(
            events[0],
        ).state.run(events.skip(1)).actions,
{
    reveal_with_fuel(SessionView::run, 2);
}

/// A run without events, or from a closed session, changes nothing and asks
/// for nothing.
pub proof fn lemma_run_end(s: SessionView, events: Seq<EventView>)
    requires
        events.len() == 0 || s.closed(),
    ensures
        s.run(events).state == s,
        s.run(events).actions == Seq::<ActionView>::empty(),
{
    reveal_with_fuel(SessionView::run, 2);
}

/// A session: the state of one connection's protocol loop.
pub struct ClientSession {
    phase: Phase,
    read_buffer: Vec<u8>,
    tabs_to_output: Vec<TabId>,
}

impl View for ClientSession {
    type V = SessionView;

    closed spec fn view(&self) -> SessionView {
        SessionView {
            phase: self.phase,
            read_buffer: self.read_buffer@,
            pending: self.tabs_to_output@,
        }
    }
}

/// Appends `action` to `actions`.
fn push_action(actions: &mut Vec<SessionAction>, action: SessionAction)
    ensures
        action_views(final(actions)@) == action_views(old(actions)@).push(action@),
{
    actions.push(action);
    assert(action_views(actions@) =~= action_views(old(actions)@).push(action@));
}

/// Takes every complete frame off the front of `buffer` and appends one
/// dispatch for each to `actions`. Returns the fault at which it stopped, if
/// any.
fn drain_buffer(buffer: &mut Vec<u8>, actions: &mut Vec<SessionAction>) -> (fault: Option<
    CodecError,
>)
    ensures
        final(buffer)@ == drain_frames(old(buffer)@).rest,
        fault == drain_frames(old(buffer)@).error,
        action_views(final(actions)@) == action_views(old(actions)@) + dispatch_all(
            drain_frames(old(buffer)@).frames,
        ),
{
    let ghost mut done: Seq<Frame> = Seq::empty();
    assert(action_views(actions@) =~= action_views(old(actions)@) + dispatch_all(done));
    loop
        invariant
            drain_frames(old(buffer)@).frames == done + drain_frames(buffer@).frames,
            drain_frames(old(buffer)@).rest == drain_frames(buffer@).rest,
            drain_frames(old(buffer)@).error == drain_frames(buffer@).error,
            action_views(actions@) == action_views(old(actions)@) + dispatch_all(done),
        decreases buffer.len(),
    {
        let ghost before = buffer@;
        let ghost acts = action_views(actions@);
        match Pdu::stream_decode(buffer) {
            Ok(Some(decoded)) => {
                proof {
                    assert(done.push(decoded@) + drain_frames(buffer@).frames =~= done
                        + drain_frames(before).frames);
                    assert(dispatch_all(done.push(decoded@)) =~= dispatch_all(done).push(
                        ActionView::Dispatch(decoded@),
                    ));
                    done = done.push(decoded@);
                }
                push_action(actions, SessionAction::Dispatch(decoded));
                assert(action_views(actions@) =~= action_views(old(actions)@) + dispatch_all(
                    done,
                ));
            },
            Ok(None) => {
                assert(done + Seq::<Frame>::empty() =~= done);
                return None;
            },
            Err(e) => {
                assert(done + Seq::<Frame>::empty() =~= done);
                return Some(e);
            },
        }
    }
}

impl ClientSession {
    /// A session at the start of its loop.
    pub fn new() -> (s: Self)
        ensures
            s@ == SessionView::initial(),
            s@.wf(),
    {
        ClientSession { phase: Phase::Outbound, read_buffer: Vec::new(), tabs_to_output: Vec::new() }
    }

    /// The phase in which the session stands.
    pub fn phase(&self) -> (p: Phase)
        ensures
            p == self@.phase,
    {
        self.phase
    }

    /// Whether the session still multiplexes or is closed.
    pub fn state(&self) -> (st: SessionState)
        ensures
            st == if self@.closed() {
                SessionState::Closed
            } else {
                SessionState::Multiplexing
            },
    {
        match self.phase {
            Phase::Closed(_) => SessionState::Closed,
            _ => SessionState::Multiplexing,
        }
    }

    /// Why the session closed, if it did.
    pub fn error(&self) -> (why: Option<SessionError>)
        ensures
            why == match self@.phase {
                Phase::Closed(e) => Some(e),
                _ => None,
            },
    {
        match self.phase {
            Phase::Closed(e) => Some(e),
            _ => None,
        }
    }

    /// Whether the session still multiplexes.
    pub fn is_open(&self) -> (open: bool)
        ensures
            open == !self@.closed(),
    {
        match self.phase {
            Phase::Closed(_) => false,
            _ => true,
        }
    }

    /// The bytes received that do not yet make a message.
    pub fn read_buffer(&self) -> (bytes: &Vec<u8>)
        ensures
            bytes@ == self@.read_buffer,
    {
        &self.read_buffer
    }

    /// The subjects with a notification not yet serviced, in order of
    /// arrival.
    pub fn pending(&self) -> (tabs: &Vec<TabId>)
        ensures
            tabs@ == self@.pending,
    {
        &self.tabs_to_output
    }

    /// Closes the session and returns the one action left.
    fn shut(&mut self, why: SessionError) -> (actions: Vec<SessionAction>)
        requires
            old(self)@.wf(),
        ensures
            final(self)@ == old(self)@.close(why).state,
            action_views(actions@) == old(self)@.close(why).actions,
            final(self)@.wf(),
    {
        self.phase = Phase::Closed(why);
        let mut actions: Vec<SessionAction> = Vec::new();
        push_action(&mut actions, SessionAction::Close(why));
        assert(action_views(actions@) =~= seq![ActionView::Close(why)]);
        actions
    }

    /// Moves to `phase` and returns the one request that belongs to it.
    fn go(&mut self, phase: Phase, request: SessionAction) -> (actions: Vec<SessionAction>)
        requires
            old(self)@.wf(),
            !(phase is Closed),
            !(phase is Notifications) ==> old(self)@.pending.len() == 0,
            !old(self)@.closed(),
        ensures
            final(self)@ == old(self)@.advance(phase, request@).state,
            action_views(actions@) == old(self)@.advance(phase, request@).actions,
            final(self)@.wf(),
    {
        self.phase = phase;
        let mut actions: Vec<SessionAction> = Vec::new();
        push_action(&mut actions, request);
        assert(action_views(actions@) =~= seq![request@]);
        actions
    }

    /// Notes that `tab` has output to push, unless it is noted already.
    fn note_output(&mut self, tab: TabId)
        requires
            old(self)@.wf(),
            old(self)@.phase is Notifications,
        ensures
            final(self)@ == (SessionView {
                pending: insert_unique(old(self)@.pending, tab),
                ..old(self)@
            }),
            final(self)@.wf(),
    {
        let mut i: usize = 0;
        while i < self.tabs_to_output.len()
            invariant
                *self == *old(self),
                old(self)@.wf(),
                i <= self.tabs_to_output.len(),
                forall|j: int| 0 <= j < i ==> self.tabs_to_output@[j] != tab,
            decreases self.tabs_to_output.len() - i,
        {
            if self.tabs_to_output[i] == tab {
                return ;
            }
            i += 1;
        }
        self.tabs_to_output.push(tab);
    }

    /// Asks for one push per pending subject, in order of arrival, forgets
    /// them, and goes to wait.
    fn service_pending(&mut self) -> (actions: Vec<SessionAction>)
        requires
            old(self)@.wf(),
            old(self)@.phase is Notifications,
        ensures
            final(self)@ == (SessionView {
                phase: Phase::Waiting,
                pending: Seq::empty(),
                ..old(self)@
            }),
            action_views(actions@) == push_all(old(self)@.pending) + seq![ActionView::Wait],
            final(self)@.wf(),
    {
        let mut actions: Vec<SessionAction> = Vec::new();
        let mut i: usize = 0;
        assert(action_views(actions@) =~= push_all(self.tabs_to_output@.take(0)));
        while i < self.tabs_to_output.len()
            invariant
                *self == *old(self),
                i <= self.tabs_to_output.len(),
                action_views(actions@) == push_all(self.tabs_to_output@.take(i as int)),
            decreases self.tabs_to_output.len() - i,
        {
            let tab = self.tabs_to_output[i];
            push_action(&mut actions, SessionAction::SchedulePush(tab));
            i += 1;
            assert(action_views(actions@) =~= push_all(self.tabs_to_output@.take(i as int)));
        }
        assert(self.tabs_to_output@.take(i as int) =~= self.tabs_to_output@);
        push_action(&mut actions, SessionAction::Wait);
        self.tabs_to_output.clear();
        self.phase = Phase::Waiting;
        assert(action_views(actions@) =~= push_all(old(self)@.pending) + seq![ActionView::Wait]);
        actions
    }

    /// Takes in bytes that were read and dispatches what they complete.
    fn receive(&mut self, bytes: &Vec<u8>) -> (actions: Vec<SessionAction>)
        requires
            old(self)@.wf(),
            old(self)@.phase is Reading,
        ensures
            final(self)@ == old(self)@.receive(bytes@).state,
            action_views(actions@) == old(self)@.receive(bytes@).actions,
            final(self)@.wf(),
    {
        let mut actions: Vec<SessionAction> = Vec::new();
        crate::codec::push_range(&mut self.read_buffer, bytes, 0, bytes.len());
        assert(bytes@.subrange(0, bytes@.len() as int) =~= bytes@);
        let ghost all = self.read_buffer@;
        assert(action_views(actions@) =~= Seq::<ActionView>::empty());
        let fault = drain_buffer(&mut self.read_buffer, &mut actions);
        proof {
            lemma_drained_rest(all);
            assert(action_views(actions@) =~= dispatch_all(drain_frames(all).frames));
        }
        match fault {
            None => {
                push_action(&mut actions, SessionAction::Read);
            },
            Some(e) => {
                self.phase = Phase::Closed(SessionError::Codec(e));
                push_action(&mut actions, SessionAction::Close(SessionError::Codec(e)));
            },
        }
        actions
    }

    /// Takes the outcome of the last request and returns what to do next: the
    /// actions to perform in order, the last of which is the next request, or
    /// the closing of the session.
    ///
    /// An outcome that does not answer the pending request closes the
    /// session. A closed session answers every event with its closing.
    pub fn step(&mut self, event: &SessionEvent) -> (actions: Vec<SessionAction>)
        requires
            old(self)@.wf(),
        ensures
            final(self)@ == old(self)@.transition(event@).state,
            action_views(actions@) == old(self)@.transition(event@).actions,
            final(self)@.wf(),
    {
        match self.phase {
            Phase::Closed(why) => {
                let mut actions: Vec<SessionAction> = Vec::new();
                push_action(&mut actions, SessionAction::Close(why));
                assert(action_views(actions@) =~= seq![ActionView::Close(why)]);
                actions
            },
            Phase::Outbound => match event {
                SessionEvent::Outbound(TryRecv::Item(decoded)) => {
                    match decoded.pdu.encode(decoded.serial) {
                        Ok(bytes) => self.go(Phase::Writing, SessionAction::Write(bytes)),
                        Err(e) => self.shut(SessionError::Codec(e)),
                    }
                },
                SessionEvent::Outbound(TryRecv::Empty) => self.go(
                    Phase::Notifications,
                    SessionAction::RecvNotification,
                ),
                SessionEvent::Outbound(TryRecv::Disconnected) => self.shut(
                    SessionError::OutboundDisconnected,
                ),
                _ => self.shut(SessionError::UnexpectedEvent),
            },
            Phase::Writing => match event {
                SessionEvent::Written(true) => self.go(Phase::Outbound, SessionAction::RecvOutbound),
                SessionEvent::Written(false) => self.shut(SessionError::Transport),
                _ => self.shut(SessionError::UnexpectedEvent),
            },
            Phase::Notifications => match event {
                SessionEvent::Notification(TryRecv::Item(MuxNotification::TabOutput(tab))) => {
                    self.note_output(*tab);
                    let mut actions: Vec<SessionAction> = Vec::new();
                    push_action(&mut actions, SessionAction::RecvNotification);
                    assert(action_views(actions@) =~= seq![ActionView::RecvNotification]);
                    actions
                },
                SessionEvent::Notification(TryRecv::Empty) => self.service_pending(),
                SessionEvent::Notification(TryRecv::Disconnected) => self.shut(
                    SessionError::SubscriptionDisconnected,
                ),
                _ => self.shut(SessionError::UnexpectedEvent),
            },
            Phase::Waiting => match event {
                SessionEvent::Ready { transport_readable, read_buffered } => {
                    if *transport_readable || *read_buffered {
                        self.go(Phase::Reading, SessionAction::Read)
                    } else {
                        self.go(Phase::Outbound, SessionAction::RecvOutbound)
                    }
                },
                _ => self.shut(SessionError::UnexpectedEvent),
            },
            Phase::Reading => match event {
                SessionEvent::Read(ReadOutcome::Bytes(bytes)) => {
                    if bytes.len() == 0 {
                        self.shut(SessionError::EndOfFile)
                    } else {
                        self.receive(bytes)
                    }
                },
                SessionEvent::Read(ReadOutcome::WouldBlock) => self.go(
                    Phase::Outbound,
                    SessionAction::RecvOutbound,
                ),
                SessionEvent::Read(ReadOutcome::EndOfFile) => self.shut(SessionError::EndOfFile),
                SessionEvent::Read(ReadOutcome::Failed) => self.shut(SessionError::Transport),
                _ => self.shut(SessionError::UnexpectedEvent),
            },
        }
    }

    /// Receives from the outbound channel without blocking and takes the
    /// step that belongs to what was found there, whatever it is. Out of
    /// turn nothing is received, and the step is that on an empty channel.
    pub fn recv_outbound(&mut self, rx: &Receiver<DecodedPdu>) -> (actions: Vec<SessionAction>)
        requires
            old(self)@.wf(),
        ensures
            exists|found: TryRecv<Frame>|
                {
                    let t = #[trigger] old(self)@.transition(EventView::Outbound(found));
                    final(self)@ == t.state && action_views(actions@) == t.actions
                },
            final(self)@.wf(),
    {
        let found = match self.phase {
            Phase::Outbound => try_recv_from(rx),
            _ => TryRecv::Empty,
        };
        let event = SessionEvent::Outbound(found);
        self.step(&event)
    }

    /// Receives from the notification subscription without blocking and
    /// takes the step that belongs to what was found there, whatever it is.
    /// Out of turn nothing is received, and the step is that on an empty
    /// subscription.
    pub fn recv_notification(&mut self, rx: &Receiver<MuxNotification>) -> (actions: Vec<
        SessionAction,
    >)
        requires
            old(self)@.wf(),
        ensures
            exists|found: TryRecv<MuxNotification>|
                {
                    let t = #[trigger] old(self)@.transition(EventView::Notification(found));
                    final(self)@ == t.state && action_views(actions@) == t.actions
                },
            final(self)@.wf(),
    {
        let found = match self.phase {
            Phase::Notifications => try_recv_from(rx),
            _ => TryRecv::Empty,
        };
        let event = SessionEvent::Notification(found);
        self.step(&event)
    }

    /// Steps through `events` in order, until they are used up or the session
    /// is closed, and returns all the actions asked for on the way.
    pub fn run(&mut self, events: &Vec<SessionEvent>) -> (actions: Vec<SessionAction>)
        requires
            old(self)@.wf(),
        ensures
            final(self)@ == old(self)@.run(event_views(events@)).state,
            action_views(actions@) == old(self)@.run(event_views(events@)).actions,
            final(self)@.wf(),
    {
        let ghost all = event_views(events@);
        let mut actions: Vec<SessionAction> = Vec::new();
        let mut i: usize = 0;
        assert(all.skip(0) =~= all);
        assert(action_views(actions@) + old(self)@.run(all).actions =~= old(self)@.run(
            all,
        ).actions);
        while i < events.len() && self.is_open()
            invariant
                all == event_views(events@),
                i <= events.len(),
                self@.wf(),
                old(self)@.run(all).state == self@.run(all.skip(i as int)).state,
                old(self)@.run(all).actions == action_views(actions@) + self@.run(
                    all.skip(i as int),
                ).actions,
            decreases events.len() - i,
        {
            let ghost before = self@;
            let ghost done = action_views(actions@);
            let mut more = self.step(&events[i]);
            let ghost asked = action_views(more@);
            actions.append(&mut more);
            i += 1;
            proof {
                let left = all.skip(i - 1);
                assert(left[0] == events@[i - 1]@);
                assert(left.skip(1) =~= all.skip(i as int));
                lemma_run_unfold(before, left);
                assert(action_views(actions@) =~= done + asked);
                assert((done + asked) + self@.run(all.skip(i as int)).actions =~= done + (asked
                    + self@.run(all.skip(i as int)).actions));
            }
        }
        proof {
            lemma_run_end(self@, all.skip(i as int));
            assert(action_views(actions@) + Seq::<ActionView>::empty() =~= action_views(actions@));
        }
        actions
    }
}

/// The same action, `n` times.
pub open spec fn repeated(action: ActionView, n: nat) -> Seq<ActionView> {
    Seq::new(n, |i: int| action)
}

/// One notification of output per subject, in order.
pub open spec fn output_events(tabs: Seq<TabId>) -> Seq<EventView> {
    tabs.map_values(
        |tab: TabId| EventView::Notification(TryRecv::Item(MuxNotification::TabOutput(tab))),
    )
}

/// The pending subjects after a run of notifications.
pub open spec fn coalesce(pending: Seq<TabId>, tabs: Seq<TabId>) -> Seq<TabId>
    decreases tabs.len(),
{
    if tabs.len() == 0 {
        pending
    } else {
        coalesce(insert_unique(pending, tabs[0]), tabs.skip(1))
    }
}

/// Coalescing keeps each subject once: the subjects pending after a run of
/// notifications are those that were pending before and those notified, none
/// of them twice, and those that were pending keep their places.
pub proof fn lemma_coalesce(pending: Seq<TabId>, tabs: Seq<TabId>)
    requires
        pending.no_duplicates(),
    ensures
        coalesce(pending, tabs).no_duplicates(),
        forall|t: TabId|
            coalesce(pending, tabs).contains(t) <==> pending.contains(t) || tabs.contains(t),
        pending.is_prefix_of(coalesce(pending, tabs)),
    decreases tabs.len(),
{
    if tabs.len() > 0 {
        let next = insert_unique(pending, tabs[0]);
        let rest = tabs.skip(1);
        lemma_coalesce(next, rest);
        assert forall|t: TabId|
            coalesce(pending, tabs).contains(t) <==> pending.contains(t) || tabs.contains(
                t,
            ) by {
            if tabs.contains(t) {
                let j = choose|j: int| 0 <= j < tabs.len() && tabs[j] == t;
                if j > 0 {
                    assert(rest[j - 1] == t);
                } else {
                    assert(next.contains(t)) by {
                        if !pending.contains(t) {
                            assert(next[pending.len() as int] == t);
                        }
                    }
                }
            }
            if rest.contains(t) {
                let j = choose|j: int| 0 <= j < rest.len() && rest[j] == t;
                assert(tabs[j + 1] == t);
            }
            if next.contains(t) && !pending.contains(t) {
                assert(tabs[0] == t);
            }
            if pending.contains(t) {
                let j = choose|j: int| 0 <= j < pending.len() && pending[j] == t;
                assert(next[j] == t);
            }
        }
    }
}

/// However often one subject is notified before it is serviced, it is
/// pending once.
pub proof fn lemma_coalesce_one_subject(tab: TabId, n: nat)
    requires
        n > 0,
    ensures
        coalesce(Seq::empty(), Seq::new(n, |i: int| tab)) == seq![tab],
{
    let tabs = Seq::new(n, |i: int| tab);
    let got = coalesce(Seq::empty(), tabs);
    lemma_coalesce(Seq::empty(), tabs);
    assert(tabs[0] == tab);
    assert(got.contains(tab));
    let j = choose|j: int| 0 <= j < got.len() && got[j] == tab;
    assert forall|k: int| 0 <= k < got.len() implies got[k] == tab by {
        assert(got.contains(got[k]));
        assert(tabs.contains(got[k]));
    }
    if got.len() > 1 {
        assert(got[0] == got[1]);
    }
    assert(got =~= seq![tab]);
}

/// A step leads from a well-formed session to a well-formed session.
pub proof fn lemma_transition_wf(s: SessionView, event: EventView)
    requires
        s.wf(),
    ensures
        s.transition(event).state.wf(),
{
    if let EventView::Read(ReadView::Bytes(bytes)) = event {
        lemma_drained_rest(s.read_buffer + bytes);
    }
}

/// A closed session stays as it is, whatever is handed to it.
pub proof fn lemma_closed_is_terminal(s: SessionView, event: EventView, events: Seq<EventView>)
    requires
        s.closed(),
    ensures
        s.transition(event).state == s,
        s.run(events).state == s,
        s.run(events).actions == Seq::<ActionView>::empty(),
{
    lemma_run_end(s, events);
}

/// One service cycle issues one push per subject: however the notifications
/// for the subjects repeat before the subscription runs empty, the session
/// then asks for exactly one push for each subject notified or pending, in
/// order of first arrival, and goes to wait with nothing pending.
pub proof fn lemma_service_cycle_coalesces(s: SessionView, tabs: Seq<TabId>)
    requires
        s.wf(),
        s.phase is Notifications,
    ensures
        ({
            let events = output_events(tabs).push(EventView::Notification(TryRecv::Empty));
            let pushed = coalesce(s.pending, tabs);
            &&& s.run(events).state == SessionView {
                phase: Phase::Waiting,
                pending: Seq::empty(),
                ..s
            }
            &&& s.run(events).actions == repeated(ActionView::RecvNotification, tabs.len())
                + push_all(pushed) + seq![ActionView::Wait]
            &&& pushed.no_duplicates()
            &&& forall|t: TabId| pushed.contains(t) <==> s.pending.contains(t) || tabs.contains(t)
        }),
    decreases tabs.len(),
{
    let events = output_events(tabs).push(EventView::Notification(TryRecv::Empty));
    let pushed = coalesce(s.pending, tabs);
    lemma_coalesce(s.pending, tabs);
    let first = s.transition(events[0]);
    lemma_run_unfold(s, events);
    if tabs.len() == 0 {
        assert(events.skip(1) =~= Seq::<EventView>::empty());
        lemma_run_end(first.state, events.skip(1));
        assert(s.run(events).actions =~= repeated(ActionView::RecvNotification, 0) + push_all(
            pushed,
        ) + seq![ActionView::Wait]);
    } else {
        let rest = tabs.skip(1);
        lemma_transition_wf(s, events[0]);
        lemma_service_cycle_coalesces(first.state, rest);
        assert(events.skip(1) =~= output_events(rest).push(
            EventView::Notification(TryRecv::Empty),
        ));
        assert(s.run(events).actions =~= repeated(ActionView::RecvNotification, tabs.len())
            + push_all(pushed) + seq![ActionView::Wait]);
    }
}

/// What the outbound channel hands over when it holds `frames` and each write
/// succeeds: each frame, followed by the success of its write.
pub open spec fn outbound_events(frames: Seq<Frame>) -> Seq<EventView>
    decreases frames.len(),
{
    if frames.len() == 0 {
        Seq::empty()
    } else {
        seq![EventView::Outbound(TryRecv::Item(frames[0])), EventView::Written(true)]
            + outbound_events(frames.skip(1))
    }
}

/// One write per frame, in order, each followed by the next receive.
pub open spec fn outbound_actions(frames: Seq<Frame>) -> Seq<ActionView>
    decreases frames.len(),
{
    if frames.len() == 0 {
        Seq::empty()
    } else {
        seq![ActionView::Write(encode_frame(frames[0])), ActionView::RecvOutbound]
            + outbound_actions(frames.skip(1))
    }
}

/// Outbound messages reach the transport in the order in which they were
/// queued: a session that drains its outbound channel writes the bytes of
/// each message in turn, flushing after each, and is then back where it was.
pub proof fn lemma_outbound_in_order(s: SessionView, frames: Seq<Frame>)
    requires
        s.wf(),
        s.phase is Outbound,
        forall|i: int| 0 <= i < frames.len() ==> encodable(#[trigger] frames[i]),
    ensures
        s.run(outbound_events(frames)).state == s,
        s.run(outbound_events(frames)).actions == outbound_actions(frames),
    decreases frames.len(),
{
    let events = outbound_events(frames);
    if frames.len() == 0 {
        lemma_run_end(s, events);
    } else {
        let rest = frames.skip(1);
        let head = seq![EventView::Outbound(TryRecv::Item(frames[0])), EventView::Written(true)];
        assert(encodable(frames[0]));
        assert forall|i: int| 0 <= i < rest.len() implies encodable(#[trigger] rest[i]) by {
            assert(rest[i] == frames[i + 1]);
        }
        lemma_outbound_in_order(s, rest);
        let first = s.transition(events[0]);
        lemma_run_unfold(s, events);
        lemma_run_unfold(first.state, events.skip(1));
        let second = first.state.transition(events.skip(1)[0]);
        assert(events.skip(1).skip(1) =~= outbound_events(rest));
        assert(second.state == s);
        assert(s.run(events).actions =~= outbound_actions(frames));
    }
}

/// Frames come out the same however the bytes arrive: draining a buffer and
/// then, with more bytes behind what stayed, draining again gives what
/// draining all the bytes at once gives.
pub proof fn lemma_drain_append(buf: Seq<u8>, more: Seq<u8>)
    requires
        drain_frames(buf).error is None,
    ensures
        ({
            let first = drain_frames(buf);
            let second = drain_frames(first.rest + more);
            drain_frames(buf + more) == Drained {
                frames: first.frames + second.frames,
                rest: second.rest,
                error: second.error,
            }
        }),
    decreases buf.len(),
{
    let first = drain_frames(buf);
    let second = drain_frames(first.rest + more);
    match decode_frame(buf) {
        Decode::Complete(f, n) => {
            lemma_decode_stable(buf, more);
            lemma_drain_append(buf.skip(n as int), more);
            assert((buf + more).skip(n as int) =~= buf.skip(n as int) + more);
            let tail = drain_frames(buf.skip(n as int));
            assert(seq![f] + (tail.frames + second.frames) =~= (seq![f] + tail.frames)
                + second.frames);
        },
        _ => {
            assert(first.frames + second.frames =~= second.frames);
        },
    }
}

/// Reading in two parts is reading in one: a session that reads `x` and then
/// `y` dispatches the same messages in the same order, and ends in the same
/// state, as one that reads `x` followed by `y` at once.
pub proof fn lemma_split_read(s: SessionView, x: Seq<u8>, y: Seq<u8>)
    requires
        drain_frames(s.read_buffer + x).error is None,
    ensures
        ({
            let first = s.receive(x);
            let second = first.state.receive(y);
            let whole = s.receive(x + y);
            &&& first.actions.last() == ActionView::Read
            &&& second.state == whole.state
            &&& first.actions.drop_last() + second.actions == whole.actions
        }),
{
    let first = s.receive(x);
    let second = first.state.receive(y);
    let whole = s.receive(x + y);
    lemma_drain_append(s.read_buffer + x, y);
    assert((s.read_buffer + x) + y =~= s.read_buffer + (x + y));
    let d1 = drain_frames(s.read_buffer + x);
    let d2 = drain_frames(d1.rest + y);
    assert(first.actions.drop_last() =~= dispatch_all(d1.frames));
    assert(dispatch_all(d1.frames + d2.frames) =~= dispatch_all(d1.frames) + dispatch_all(
        d2.frames,
    ));
    assert(first.actions.drop_last() + second.actions =~= whole.actions);
}

/// The bytes of one frame drain to that frame, with nothing left; a proper
/// prefix of them drains to nothing and stays whole.
pub proof fn lemma_drain_one(f: Frame, k: int)
    requires
        encodable(f),
        0 <= k < encode_frame(f).len(),
    ensures
        drain_frames(encode_frame(f)) == (Drained {
            frames: seq![f],
            rest: Seq::empty(),
            error: None,
        }),
        drain_frames(encode_frame(f).take(k)) == (Drained {
            frames: Seq::empty(),
            rest: encode_frame(f).take(k),
            error: None,
        }),
{
    let wire = encode_frame(f);
    crate::codec::lemma_prefix_needs_more(f, k);
    crate::codec::lemma_round_trip(f, Seq::empty());
    assert(wire + Seq::<u8>::empty() =~= wire);
    assert(wire.skip(wire.len() as int) =~= Seq::<u8>::empty());
    assert(drain_frames(Seq::<u8>::empty()).frames =~= Seq::<Frame>::empty());
    assert(seq![f] + Seq::<Frame>::empty() =~= seq![f]);
}

/// A message that arrives split in two is dispatched once, when its last
/// byte is in, exactly as when it arrives whole; until then its bytes wait in
/// the buffer and the session reads on.
pub proof fn lemma_split_message(s: SessionView, f: Frame, k: int)
    requires
        s.wf(),
        s.phase is Reading,
        s.read_buffer.len() == 0,
        encodable(f),
        0 < k < encode_frame(f).len(),
    ensures
        ({
            let wire = encode_frame(f);
            let first = s.receive(wire.take(k));
            let second = first.state.receive(wire.skip(k));
            let whole = s.receive(wire);
            &&& first.state == SessionView { read_buffer: wire.take(k), ..s }
            &&& first.actions == seq![ActionView::Read]
            &&& second.actions == seq![ActionView::Dispatch(f), ActionView::Read]
            &&& second == whole
            &&& whole.state == s
        }),
{
    let wire = encode_frame(f);
    lemma_drain_one(f, k);
    assert(s.read_buffer =~= Seq::<u8>::empty());
    assert(s.read_buffer + wire.take(k) =~= wire.take(k));
    assert(wire.take(k) + wire.skip(k) =~= wire);
    assert(s.read_buffer + wire =~= wire);
    assert(dispatch_all(seq![f]) =~= seq![ActionView::Dispatch(f)]);
    assert(dispatch_all(Seq::<Frame>::empty()) =~= Seq::<ActionView>::empty());
    let first = s.receive(wire.take(k));
    let whole = s.receive(wire);
    assert(first.actions =~= seq![ActionView::Read]);
    assert(whole.actions =~= seq![ActionView::Dispatch(f), ActionView::Read]);
}

} // verus!
