//! The state machine of a session.
use vstd::prelude::*;

use crate::error::Error;

verus! {

/// Number of a session.
pub type SessionId = u32;

/// State of a session.
#[derive(Debug, Clone, Copy, PartialEq, Eq, Structural)]
pub enum SessionState {
    Idle,
    Handshaking,
    Active,
    Paused,
    Closing,
    Closed,
    /// A failure, with no reconnection under way.
    Error,
    /// A reconnection is under way.
    Reconnecting,
}

/// The stable number of each state.
pub open spec fn state_code(s: SessionState) -> u8 {
    match s {
        SessionState::Idle => 0,
        SessionState::Handshaking => 1,
        SessionState::Active => 2,
        SessionState::Paused => 3,
        SessionState::Closing => 4,
        SessionState::Closed => 5,
        SessionState::Error => 6,
        SessionState::Reconnecting => 7,
    }
}

/// Two states never share a number.
pub proof fn state_code_injective(a: SessionState, b: SessionState)
    requires
        state_code(a) == state_code(b),
    ensures
        a == b,
{
}

impl SessionState {
    /// The stable number of this state.
    pub fn code(self) -> (r: u8)
        ensures
            r == state_code(self),
    {
        match self {
            SessionState::Idle => 0,
            SessionState::Handshaking => 1,
            SessionState::Active => 2,
            SessionState::Paused => 3,
            SessionState::Closing => 4,
            SessionState::Closed => 5,
            SessionState::Error => 6,
            SessionState::Reconnecting => 7,
        }
    }

    /// The state with a given number.
    pub fn from_code(code: u8) -> (r: Result<SessionState, Error>)
        ensures
            match r {
                Ok(s) => state_code(s) == code,
                Err(e) => code > 7 && e == Error::MalformedPayload,
            },
    {
        match code {
            0 => Ok(SessionState::Idle),
            1 => Ok(SessionState::Handshaking),
            2 => Ok(SessionState::Active),
            3 => Ok(SessionState::Paused),
            4 => Ok(SessionState::Closing),
            5 => Ok(SessionState::Closed),
            6 => Ok(SessionState::Error),
            7 => Ok(SessionState::Reconnecting),
            _ => Err(Error::MalformedPayload),
        }
    }

    /// Whether the session carries traffic in this state.
    pub fn is_operational(self) -> (r: bool)
        ensures
            r == (self is Active || self is Paused),
    {
        match self {
            SessionState::Active | SessionState::Paused => true,
            _ => false,
        }
    }

    /// Whether the session has ended in this state.
    pub fn is_terminal(self) -> (r: bool)
        ensures
            r == (self is Closed || self is Error),
    {
        match self {
            SessionState::Closed | SessionState::Error => true,
            _ => false,
        }
    }
}

/// What can happen to a session.
#[derive(Debug, Clone, Copy, PartialEq, Eq, Structural)]
pub enum SessionEvent {
    StartConnect,
    StartAccept,
    HandshakeOk,
    HandshakeTimeout,
    Pause,
    Resume,
    Close,
    PeerClosed,
    PeerTimeout,
    /// A failure that the state cannot recover from.
    FatalError,
    /// A reconnection begins.
    Reconnect,
    /// A reconnection is done: the handshake comes next.
    ReconnectOk,
}

/// An event that the state did not admit.
#[derive(Debug, Clone, Copy, PartialEq, Eq, Structural)]
pub struct StateTransitionError {
    pub from: SessionState,
    pub event: SessionEvent,
}

/// Where `event` leads from `state`, where it leads anywhere.
pub open spec fn next_state(state: SessionState, event: SessionEvent) -> Option<SessionState> {
    match state {
        SessionState::Idle => match event {
            SessionEvent::StartConnect | SessionEvent::StartAccept => Some(
                SessionState::Handshaking,
            ),
            _ => None,
        },
        SessionState::Handshaking => match event {
            SessionEvent::HandshakeOk => Some(SessionState::Active),
            SessionEvent::HandshakeTimeout | SessionEvent::Close => Some(SessionState::Closed),
            SessionEvent::FatalError => Some(SessionState::Error),
            _ => None,
        },
        SessionState::Active => match event {
            SessionEvent::Pause => Some(SessionState::Paused),
            SessionEvent::Close | SessionEvent::PeerClosed | SessionEvent::PeerTimeout => Some(
                SessionState::Closing,
            ),
            SessionEvent::FatalError => Some(SessionState::Error),
            _ => None,
        },
        SessionState::Paused => match event {
            SessionEvent::Resume => Some(SessionState::Active),
            SessionEvent::Close | SessionEvent::PeerClosed | SessionEvent::PeerTimeout => Some(
                SessionState::Closing,
            ),
            SessionEvent::FatalError => Some(SessionState::Error),
            _ => None,
        },
        SessionState::Closing => match event {
            SessionEvent::PeerClosed | SessionEvent::Close => Some(SessionState::Closed),
            _ => None,
        },
        SessionState::Closed | SessionState::Error => match event {
            SessionEvent::Reconnect => Some(SessionState::Reconnecting),
            _ => None,
        },
        SessionState::Reconnecting => match event {
            SessionEvent::StartConnect
            | SessionEvent::StartAccept
            | SessionEvent::ReconnectOk => Some(SessionState::Handshaking),
            SessionEvent::HandshakeTimeout | SessionEvent::FatalError => Some(SessionState::Error),
            _ => None,
        },
    }
}

/// The state after `event`: where it leads nowhere, the state stays.
pub open spec fn state_after(state: SessionState, event: SessionEvent) -> SessionState {
    match next_state(state, event) {
        Some(s) => s,
        None => state,
    }
}

/// A session becomes active only when a handshake succeeds or a pause ends.
pub proof fn active_only_after_handshake_or_pause(state: SessionState, event: SessionEvent)
    requires
        next_state(state, event) == Some(SessionState::Active),
    ensures
        (state is Handshaking && event is HandshakeOk) || (state is Paused && event is Resume),
{
}

/// A session that has ended leaves that state only by a reconnection.
pub proof fn ended_session_only_reconnects(state: SessionState, event: SessionEvent)
    requires
        state is Closed || state is Error,
    ensures
        next_state(state, event) is Some <==> event is Reconnect,
        next_state(state, event) is Some ==> next_state(state, event) == Some(
            SessionState::Reconnecting,
        ),
{
}

/// No event leads back to idle, and none leaves a state where it is.
pub proof fn transitions_make_progress(state: SessionState, event: SessionEvent)
    ensures
        next_state(state, event) != Some(SessionState::Idle),
        next_state(state, event) != Some(state),
{
}

/// The session state with its rules.
#[derive(Debug, Clone, Copy)]
pub struct SessionStateMachine {
    state: SessionState,
}

impl View for SessionStateMachine {
    type V = SessionState;

    closed spec fn view(&self) -> SessionState {
        self.state
    }
}

impl Default for SessionStateMachine {
    fn default() -> (r: SessionStateMachine)
        ensures
            r@ == SessionState::Idle,
    {
        SessionStateMachine::new()
    }
}

impl SessionStateMachine {
    /// An idle session.
    pub fn new() -> (r: SessionStateMachine)
        ensures
            r@ == SessionState::Idle,
    {
        SessionStateMachine { state: SessionState::Idle }
    }

    /// The current state.
    pub fn state(&self) -> (r: SessionState)
        ensures
            r == self@,
    {
        self.state
    }

    /// Ends the session, whatever its state.
    pub fn end(&mut self)
        ensures
            final(self)@ == SessionState::Closed,
    {
        self.state = SessionState::Closed;
    }

    /// Applies an event. Where the state does not admit it, the state stays and
    /// the pair is returned as an error.
    pub fn transition(&mut self, event: SessionEvent) -> (r: Result<
        SessionState,
        StateTransitionError,
    >)
        ensures
            final(self)@ == state_after(old(self)@, event),
            match next_state(old(self)@, event) {
                Some(s) => r == Ok::<SessionState, StateTransitionError>(s),
                None => r == Err::<SessionState, StateTransitionError>(
                    (StateTransitionError { from: old(self)@, event }),
                ),
            },
    {
        let next: SessionState = match (self.state, event) {
            (SessionState::Idle, SessionEvent::StartConnect)
            | (SessionState::Idle, SessionEvent::StartAccept) => SessionState::Handshaking,
            (SessionState::Handshaking, SessionEvent::HandshakeOk) => SessionState::Active,
            (SessionState::Handshaking, SessionEvent::HandshakeTimeout)
            | (SessionState::Handshaking, SessionEvent::Close) => SessionState::Closed,
            (SessionState::Handshaking, SessionEvent::FatalError) => SessionState::Error,
            (SessionState::Active, SessionEvent::Pause) => SessionState::Paused,
            (SessionState::Active, SessionEvent::Close) => SessionState::Closing,
            (SessionState::Active, SessionEvent::PeerClosed) => SessionState::Closing,
            (SessionState::Active, SessionEvent::PeerTimeout) => SessionState::Closing,
            (SessionState::Active, SessionEvent::FatalError) => SessionState::Error,
            (SessionState::Paused, SessionEvent::Resume) => SessionState::Active,
            (SessionState::Paused, SessionEvent::Close) => SessionState::Closing,
            (SessionState::Paused, SessionEvent::PeerClosed) => SessionState::Closing,
            (SessionState::Paused, SessionEvent::PeerTimeout) => SessionState::Closing,
            (SessionState::Paused, SessionEvent::FatalError) => SessionState::Error,
            (SessionState::Closing, SessionEvent::PeerClosed) => SessionState::Closed,
            (SessionState::Closing, SessionEvent::Close) => SessionState::Closed,
            (SessionState::Error, SessionEvent::Reconnect)
            | (SessionState::Closed, SessionEvent::Reconnect) => SessionState::Reconnecting,
            (SessionState::Reconnecting, SessionEvent::StartConnect)
            | (SessionState::Reconnecting, SessionEvent::StartAccept)
            | (SessionState::Reconnecting, SessionEvent::ReconnectOk) => SessionState::Handshaking,
            (SessionState::Reconnecting, SessionEvent::HandshakeTimeout)
            | (SessionState::Reconnecting, SessionEvent::FatalError) => SessionState::Error,
            (from, event) => return Err(StateTransitionError { from, event }),
        };
        self.state = next;
        Ok(next)
    }
}

/// A session that carries traffic ends when either end closes it or the peer falls
/// silent: all three lead to closing, from a pause as well.
pub proof fn operational_session_ends(state: SessionState, event: SessionEvent)
    requires
        state == SessionState::Active || state == SessionState::Paused,
        event == SessionEvent::Close || event == SessionEvent::PeerClosed || event
            == SessionEvent::PeerTimeout,
    ensures
        next_state(state, event) == Some(SessionState::Closing),
        state_after(state, event) == SessionState::Closing,
        next_state(SessionState::Closing, SessionEvent::Close) == Some(SessionState::Closed),
        next_state(SessionState::Closing, SessionEvent::PeerClosed) == Some(SessionState::Closed),
{
}

/// A handshake, in either role, takes a new session or one that reconnects from the
/// start to traffic, and to its end where it fails.
pub proof fn handshake_leads_to_traffic(state: SessionState, start: SessionEvent)
    requires
        state == SessionState::Idle || state == SessionState::Reconnecting,
        start == SessionEvent::StartConnect || start == SessionEvent::StartAccept,
    ensures
        next_state(state, start) == Some(SessionState::Handshaking),
        state_after(state_after(state, start), SessionEvent::HandshakeOk) == SessionState::Active,
        state_after(state_after(state, start), SessionEvent::HandshakeTimeout)
            == SessionState::Closed,
        state_after(state_after(state, start), SessionEvent::Close) == SessionState::Closed,
        next_state(SessionState::Handshaking, SessionEvent::HandshakeOk) is Some,
        next_state(SessionState::Handshaking, SessionEvent::HandshakeTimeout) is Some,
        next_state(SessionState::Handshaking, SessionEvent::Close) is Some,
{
}

/// A pause keeps the session, and its end brings the traffic back.
pub proof fn pause_is_undone_by_resume()
    ensures
        next_state(SessionState::Active, SessionEvent::Pause) == Some(SessionState::Paused),
        next_state(SessionState::Paused, SessionEvent::Resume) == Some(SessionState::Active),
        state_after(
            state_after(SessionState::Active, SessionEvent::Pause),
            SessionEvent::Resume,
        ) == SessionState::Active,
{
}

/// A failure that cannot be recovered from leads to the error state, wherever a
/// session is under way; a session that ended can be taken up again.
pub proof fn failure_and_reconnection(state: SessionState)
    ensures
        (state == SessionState::Handshaking || state == SessionState::Active || state
            == SessionState::Paused || state == SessionState::Reconnecting) ==> next_state(
            state,
            SessionEvent::FatalError,
        ) == Some(SessionState::Error),
        (state == SessionState::Closed || state == SessionState::Error) ==> next_state(
            state,
            SessionEvent::Reconnect,
        ) == Some(SessionState::Reconnecting),
        next_state(SessionState::Reconnecting, SessionEvent::ReconnectOk) == Some(
            SessionState::Handshaking,
        ),
        next_state(SessionState::Reconnecting, SessionEvent::HandshakeTimeout) == Some(
            SessionState::Error,
        ),
{
}

/// Each event is admitted in the states it belongs to and refused in all others; where
/// it is refused, the state stays.
pub proof fn events_have_their_states(state: SessionState, event: SessionEvent)
    ensures
        next_state(state, event) is Some <==> match event {
            SessionEvent::StartConnect | SessionEvent::StartAccept => state is Idle
                || state is Reconnecting,
            SessionEvent::HandshakeOk => state is Handshaking,
            SessionEvent::HandshakeTimeout => state is Handshaking || state is Reconnecting,
            SessionEvent::Pause => state is Active,
            SessionEvent::Resume => state is Paused,
            SessionEvent::Close => state is Handshaking || state is Active || state is Paused
                || state is Closing,
            SessionEvent::PeerClosed => state is Active || state is Paused || state is Closing,
            SessionEvent::PeerTimeout => state is Active || state is Paused,
            SessionEvent::FatalError => state is Handshaking || state is Active || state is Paused
                || state is Reconnecting,
            SessionEvent::Reconnect => state is Closed || state is Error,
            SessionEvent::ReconnectOk => state is Reconnecting,
        },
        next_state(state, event) is None ==> state_after(state, event) == state,
        next_state(state, event) matches Some(s) ==> state_after(state, event) == s,
{
}

/// The numbers of the states run from 0 to 7 along the life of a session.
pub proof fn states_are_numbered()
    ensures
        state_code(SessionState::Idle) == 0,
        state_code(SessionState::Handshaking) == 1,
        state_code(SessionState::Active) == 2,
        state_code(SessionState::Paused) == 3,
        state_code(SessionState::Closing) == 4,
        state_code(SessionState::Closed) == 5,
        state_code(SessionState::Error) == 6,
        state_code(SessionState::Reconnecting) == 7,
{
}

/// What an event does to a machine: where the state admits it, the new state is returned
/// and kept; where it does not, the state stays and the pair is returned.
pub proof fn machine_follows_events(
    m: &mut SessionStateMachine,
    event: SessionEvent,
    r: Result<SessionState, StateTransitionError>,
)
    requires
        call_ensures(SessionStateMachine::transition, (m, event), r),
    ensures
        r matches Ok(s) ==> final(m)@ == s,
        r matches Err(e) ==> final(m)@ == old(m)@ && e.from == old(m)@ && e.event == event,
        (old(m)@ is Active || old(m)@ is Paused) && (event is Close || event is PeerClosed
            || event is PeerTimeout) ==> r == Ok::<SessionState, StateTransitionError>(
            SessionState::Closing,
        ),
        old(m)@ is Closing && (event is Close || event is PeerClosed) ==> r == Ok::<
            SessionState,
            StateTransitionError,
        >(SessionState::Closed),
        (old(m)@ is Idle || old(m)@ is Reconnecting) && (event is StartConnect
            || event is StartAccept) ==> r == Ok::<SessionState, StateTransitionError>(
            SessionState::Handshaking,
        ),
        old(m)@ is Handshaking && event is HandshakeOk ==> r == Ok::<
            SessionState,
            StateTransitionError,
        >(SessionState::Active),
        old(m)@ is Handshaking && (event is HandshakeTimeout || event is Close) ==> r == Ok::<
            SessionState,
            StateTransitionError,
        >(SessionState::Closed),
        old(m)@ is Active && event is Pause ==> r == Ok::<SessionState, StateTransitionError>(
            SessionState::Paused,
        ),
        old(m)@ is Paused && event is Resume ==> r == Ok::<SessionState, StateTransitionError>(
            SessionState::Active,
        ),
        (old(m)@ is Handshaking || old(m)@ is Active || old(m)@ is Paused
            || old(m)@ is Reconnecting) && event is FatalError ==> r == Ok::<
            SessionState,
            StateTransitionError,
        >(SessionState::Error),
        (old(m)@ is Closed || old(m)@ is Error) && event is Reconnect ==> r == Ok::<
            SessionState,
            StateTransitionError,
        >(SessionState::Reconnecting),
        old(m)@ is Reconnecting && event is ReconnectOk ==> r == Ok::<
            SessionState,
            StateTransitionError,
        >(SessionState::Handshaking),
        old(m)@ is Reconnecting && event is HandshakeTimeout ==> r == Ok::<
            SessionState,
            StateTransitionError,
        >(SessionState::Error),
{
}

/// A state is read back from its number, and a number above 7 is none.
pub proof fn state_is_read_back(s: SessionState, n: u8, r: Result<SessionState, Error>, q: Result<SessionState, Error>)
    requires
        call_ensures(SessionState::code, (s,), n),
        call_ensures(SessionState::from_code, (n,), r),
    ensures
        r == Ok::<SessionState, Error>(s),
        n <= 7,
        call_ensures(SessionState::from_code, (200u8,), q) ==> q is Err,
{
}

/// Traffic flows in two states, and two states are the end.
pub proof fn states_by_kind(s: SessionState, flows: bool, ended: bool)
    requires
        call_ensures(SessionState::is_operational, (s,), flows),
        call_ensures(SessionState::is_terminal, (s,), ended),
    ensures
        flows <==> s == SessionState::Active || s == SessionState::Paused,
        ended <==> s == SessionState::Closed || s == SessionState::Error,
{
}

} // verus!
