//! The decisions of one protocol session: from the session's state and what
//! just happened to the next state and what to do about it. The caller owns
//! the socket, the queues and the clock, and carries the actions out.

use crate::codec::{events_view, message_events, parse_message, CodecError, MAX_NESTING};
use crate::entity::{LiveMsg, LiveMsgView};
use crate::frame::{build_init_msg, handshake, heartbeat, heartbeat_frame};
use vstd::prelude::*;
use vstd::utf8::encode_utf8;

verus! {

/// Seconds between two keepalive frames.
pub const HEARTBEAT_SECS: u64 = 30;

/// Where a session stands.
#[derive(Debug, Clone, Copy, PartialEq, Eq, Structural)]
pub enum SessionState {
    Connecting,
    Open,
    Closing,
    Closed,
}

/// What happened.
#[derive(Debug)]
pub enum SessionEvent {
    /// The transport's handshake succeeded.
    Connected,
    /// The transport could not connect.
    ConnectFailed,
    /// A message came in on the socket.
    Received(Vec<u8>),
    /// A read reported an error or the end of the stream.
    SocketClosed,
    /// The owner asked the session to stop.
    StopSignal,
    /// The consumer of the events is gone.
    SinkClosed,
    /// The outbound queue is drained and the socket released.
    Released,
}

pub ghost enum SessionEventView {
    Connected,
    ConnectFailed,
    Received(Seq<u8>),
    SocketClosed,
    StopSignal,
    SinkClosed,
    Released,
}

impl View for SessionEvent {
    type V = SessionEventView;

    open spec fn view(&self) -> SessionEventView {
        match self {
            SessionEvent::Connected => SessionEventView::Connected,
            SessionEvent::ConnectFailed => SessionEventView::ConnectFailed,
            SessionEvent::Received(bytes) => SessionEventView::Received(bytes@),
            SessionEvent::SocketClosed => SessionEventView::SocketClosed,
            SessionEvent::StopSignal => SessionEventView::StopSignal,
            SessionEvent::SinkClosed => SessionEventView::SinkClosed,
            SessionEvent::Released => SessionEventView::Released,
        }
    }
}

/// What the caller is to do.
#[derive(Debug)]
pub enum SessionAction {
    /// Queue `handshake` for sending, start the keepalive timer with
    /// `heartbeat` every `interval_secs` seconds, start both loops.
    Begin { handshake: Vec<u8>, heartbeat: Vec<u8>, interval_secs: u64 },
    /// Hand these events to the consumer, in this order.
    Forward(Vec<LiveMsg>),
    /// The message could not be decoded and is dropped.
    Discard(CodecError),
    /// Queue the end mark for the send loop, stop the keepalive timer,
    /// release the socket.
    Shutdown,
    /// Report that the session could not be opened.
    Fail,
    /// Nothing to do.
    Nothing,
}

pub ghost enum SessionActionView {
    Begin { handshake: Seq<u8>, heartbeat: Seq<u8>, interval_secs: u64 },
    Forward(Seq<LiveMsgView>),
    Discard(CodecError),
    Shutdown,
    Fail,
    Nothing,
}

impl View for SessionAction {
    type V = SessionActionView;

    open spec fn view(&self) -> SessionActionView {
        match self {
            SessionAction::Begin { handshake, heartbeat, interval_secs } => SessionActionView::Begin {
                handshake: handshake@,
                heartbeat: heartbeat@,
                interval_secs: *interval_secs,
            },
            SessionAction::Forward(events) => SessionActionView::Forward(events_view(events@)),
            SessionAction::Discard(e) => SessionActionView::Discard(*e),
            SessionAction::Shutdown => SessionActionView::Shutdown,
            SessionAction::Fail => SessionActionView::Fail,
            SessionAction::Nothing => SessionActionView::Nothing,
        }
    }
}

/// The state after `event` in state `state`. Only an open session reads the
/// socket; a closing one waits for its release; a closed one stays closed.
pub open spec fn next_state(state: SessionState, event: SessionEventView) -> SessionState {
    match state {
        SessionState::Connecting => match event {
            SessionEventView::Connected => SessionState::Open,
            SessionEventView::ConnectFailed => SessionState::Closed,
            SessionEventView::StopSignal => SessionState::Closed,
            _ => SessionState::Connecting,
        },
        SessionState::Open => match event {
            SessionEventView::SocketClosed => SessionState::Closing,
            SessionEventView::StopSignal => SessionState::Closing,
            SessionEventView::SinkClosed => SessionState::Closing,
            _ => SessionState::Open,
        },
        SessionState::Closing => match event {
            SessionEventView::Released => SessionState::Closed,
            _ => SessionState::Closing,
        },
        SessionState::Closed => SessionState::Closed,
    }
}

/// What is to be done about `event` in state `state`, for a session on the
/// room whose bytes are `room`.
pub open spec fn reaction(
    room: Seq<u8>,
    state: SessionState,
    event: SessionEventView,
) -> SessionActionView {
    match state {
        SessionState::Connecting => match event {
            SessionEventView::Connected => SessionActionView::Begin {
                handshake: handshake(room),
                heartbeat: heartbeat(),
                interval_secs: 30,
            },
            SessionEventView::ConnectFailed => SessionActionView::Fail,
            _ => SessionActionView::Nothing,
        },
        SessionState::Open => match event {
            SessionEventView::Received(bytes) => match message_events(bytes, MAX_NESTING as nat) {
                Ok(events) => SessionActionView::Forward(events),
                Err(e) => SessionActionView::Discard(e),
            },
            SessionEventView::SocketClosed => SessionActionView::Shutdown,
            SessionEventView::StopSignal => SessionActionView::Shutdown,
            SessionEventView::SinkClosed => SessionActionView::Shutdown,
            _ => SessionActionView::Nothing,
        },
        _ => SessionActionView::Nothing,
    }
}

/// The state after a run of events, the first event first.
pub open spec fn state_after(state: SessionState, events: Seq<SessionEventView>) -> SessionState
    decreases events.len(),
{
    if events.len() == 0 {
        state
    } else {
        next_state(state_after(state, events.drop_last()), events.last())
    }
}

/// One session on one room.
#[derive(Debug)]
pub struct Session {
    room_id: String,
    state: SessionState,
}

impl Session {
    /// The room's bytes fit the opening frame's 32-bit length.
    pub open spec fn wf(&self) -> bool {
        self.room_bytes().len() + 27 <= u32::MAX
    }

    /// The room as it goes on the wire.
    pub closed spec fn room_bytes(&self) -> Seq<u8> {
        encode_utf8(self.room_id@)
    }

    /// The room as given.
    pub closed spec fn room(&self) -> Seq<char> {
        self.room_id@
    }

    pub closed spec fn spec_state(&self) -> SessionState {
        self.state
    }

    /// How long a room may be, in bytes, for the opening frame to hold it.
    pub fn room_fits(room_id: &str) -> (r: bool)
        ensures
            r == (encode_utf8(room_id@).len() + 27 <= u32::MAX),
    {
        room_id.as_bytes().len() <= 4294967268
    }

    /// A session for `room_id`, not yet connected. The room is taken as it
    /// is.
    pub fn new(room_id: String) -> (s: Session)
        requires
            encode_utf8(room_id@).len() + 27 <= u32::MAX,
        ensures
            s.wf(),
            s.room() == room_id@,
            s.room_bytes() == encode_utf8(room_id@),
            s.spec_state() == SessionState::Connecting,
    {
        Session { room_id, state: SessionState::Connecting }
    }

    #[verifier::when_used_as_spec(spec_state)]
    pub fn state(&self) -> (r: SessionState)
        ensures
            r == self.spec_state(),
    {
        self.state
    }

    /// Takes one event: moves to the next state and says what to do.
    pub fn step(&mut self, event: SessionEvent) -> (action: SessionAction)
        requires
            old(self).wf(),
        ensures
            final(self).wf(),
            final(self).room() == old(self).room(),
            final(self).room_bytes() == old(self).room_bytes(),
            final(self).spec_state() == next_state(old(self).spec_state(), event@),
            action@ == reaction(old(self).room_bytes(), old(self).spec_state(), event@),
    {
        match self.state {
            SessionState::Connecting => match event {
                SessionEvent::Connected => {
                    self.state = SessionState::Open;
                    SessionAction::Begin {
                        handshake: build_init_msg(self.room_id.as_str()),
                        heartbeat: heartbeat_frame(),
                        interval_secs: HEARTBEAT_SECS,
                    }
                },
                SessionEvent::ConnectFailed => {
                    self.state = SessionState::Closed;
                    SessionAction::Fail
                },
                SessionEvent::StopSignal => {
                    self.state = SessionState::Closed;
                    SessionAction::Nothing
                },
                _ => SessionAction::Nothing,
            },
            SessionState::Open => match event {
                SessionEvent::Received(bytes) => match parse_message(bytes.as_slice()) {
                    Ok(events) => SessionAction::Forward(events),
                    Err(e) => SessionAction::Discard(e),
                },
                SessionEvent::SocketClosed | SessionEvent::StopSignal | SessionEvent::SinkClosed => {
                    self.state = SessionState::Closing;
                    SessionAction::Shutdown
                },
                _ => SessionAction::Nothing,
            },
            SessionState::Closing => match event {
                SessionEvent::Released => {
                    self.state = SessionState::Closed;
                    SessionAction::Nothing
                },
                _ => SessionAction::Nothing,
            },
            SessionState::Closed => SessionAction::Nothing,
        }
    }
}

/// A session that is not open stays not open, whatever happens.
pub proof fn lemma_closing_is_final(state: SessionState, events: Seq<SessionEventView>)
    requires
        state == SessionState::Closing || state == SessionState::Closed,
    ensures
        state_after(state, events) == SessionState::Closing || state_after(state, events)
            == SessionState::Closed,
    decreases events.len(),
{
    if events.len() > 0 {
        lemma_closing_is_final(state, events.drop_last());
    }
}

/// Once the stop signal was taken, in whatever state, no later event has
/// events handed to the consumer.
pub proof fn lemma_no_forward_after_stop(
    room: Seq<u8>,
    state: SessionState,
    later: Seq<SessionEventView>,
    event: SessionEventView,
)
    ensures
        !(reaction(
            room,
            state_after(next_state(state, SessionEventView::StopSignal), later),
            event,
        ) is Forward),
{
    lemma_closing_is_final(next_state(state, SessionEventView::StopSignal), later);
}

/// Only an open session hands events to the consumer or drops a message,
/// and only for a message that came in.
pub proof fn lemma_forward_only_when_open(
    room: Seq<u8>,
    state: SessionState,
    event: SessionEventView,
)
    requires
        reaction(room, state, event) is Forward || reaction(room, state, event) is Discard,
    ensures
        state == SessionState::Open,
        event is Received,
{
}

/// Stopping twice is stopping once: the second signal changes nothing and
/// asks for nothing.
pub proof fn lemma_stop_is_idempotent(room: Seq<u8>, state: SessionState)
    ensures
        next_state(next_state(state, SessionEventView::StopSignal), SessionEventView::StopSignal)
            == next_state(state, SessionEventView::StopSignal),
        reaction(
            room,
            next_state(state, SessionEventView::StopSignal),
            SessionEventView::StopSignal,
        ) == SessionActionView::Nothing,
{
}

/// A closed session stays closed and asks for nothing.
pub proof fn lemma_closed_is_terminal(room: Seq<u8>, event: SessionEventView)
    ensures
        next_state(SessionState::Closed, event) == SessionState::Closed,
        reaction(room, SessionState::Closed, event) == SessionActionView::Nothing,
{
}

} // verus!
