//! What the agent is doing, shared by its talk with the backend and by the session.
//!
//! An idle agent polls the backend. A session that it activates is pending until a viewer
//! connects, and then streams until it ends. A pending session that is cancelled, or that no
//! viewer takes up in time, leaves the agent idle again.

use vstd::prelude::*;

verus! {

/// The keys of the agent's session.
#[verifier::ext_equal]
pub enum Stage {
    Idle,
    Pending { session: Seq<char>, device: Seq<char> },
    Streaming { session: Seq<char> },
}

/// What the agent is doing.
#[derive(Debug)]
pub enum AgentState {
    /// Registered, and waiting for a session.
    Idle,
    /// A session is activated, and a viewer is awaited.
    Pending { session_key: String, device_key: String },
    /// A viewer is connected.
    Streaming { session_key: String },
}

impl View for AgentState {
    type V = Stage;

    open spec fn view(&self) -> Stage {
        match self {
            AgentState::Idle => Stage::Idle,
            AgentState::Pending { session_key, device_key } => Stage::Pending {
                session: session_key@,
                device: device_key@,
            },
            AgentState::Streaming { session_key } => Stage::Streaming { session: session_key@ },
        }
    }
}

impl Stage {
    /// The key of the session, if there is one.
    pub open spec fn session(self) -> Option<Seq<char>> {
        match self {
            Stage::Idle => None,
            Stage::Pending { session, .. } => Some(session),
            Stage::Streaming { session } => Some(session),
        }
    }

    /// The state after a viewer connected.
    pub open spec fn connected(self) -> Stage {
        match self {
            Stage::Pending { session, .. } => Stage::Streaming { session },
            _ => self,
        }
    }

    /// The state after the backend was asked about a pending session.
    pub open spec fn checked(self, should_reset: bool) -> Stage {
        if should_reset {
            Stage::Idle
        } else {
            self
        }
    }

    /// The state after the time for a viewer to connect is over.
    pub open spec fn timed_out(self) -> Stage {
        if self is Pending {
            Stage::Idle
        } else {
            self
        }
    }

    /// A step of the agent: none, the activation of a session, a viewer that connects to it, its
    /// cancellation, or its end.
    pub open spec fn steps_to(self, next: Stage) -> bool {
        ||| self == next
        ||| self is Idle && next is Pending
        ||| self is Pending && next is Streaming && self.session() == next.session()
        ||| self is Pending && next is Idle
        ||| self is Streaming && next is Idle
    }
}

impl AgentState {
    /// Tells whether the agent waits for a session.
    pub fn is_idle(&self) -> (b: bool)
        ensures
            b == (self@ is Idle),
    {
        match self {
            AgentState::Idle => true,
            _ => false,
        }
    }

    /// The key of the session, unless the agent is idle.
    pub fn session_key(&self) -> (key: Option<&str>)
        ensures
            match key {
                Some(k) => self@.session() == Some(k@),
                None => self@.session() is None,
            },
    {
        match self {
            AgentState::Idle => None,
            AgentState::Pending { session_key, .. } => Some(session_key.as_str()),
            AgentState::Streaming { session_key } => Some(session_key.as_str()),
        }
    }

    /// Takes up an activated session, and waits for a viewer.
    pub fn activated(&mut self, session_key: &str, device_key: &str)
        ensures
            final(self)@ == (Stage::Pending { session: session_key@, device: device_key@ }),
    {
        *self = AgentState::Pending {
            session_key: session_key.to_string(),
            device_key: device_key.to_string(),
        };
    }

    /// Takes in a viewer that connects, where one is awaited, and gives the keys of its session and
    /// of the device; any other connection is refused.
    pub fn accept(&mut self) -> (keys: Option<(String, String)>)
        ensures
            final(self)@ == old(self)@.connected(),
            match keys {
                Some((session, device)) => old(self)@ == (Stage::Pending {
                    session: session@,
                    device: device@,
                }),
                None => !(old(self)@ is Pending),
            },
    {
        let keys: Option<(String, String)> = match self {
            AgentState::Pending { session_key, device_key } => Some(
                (session_key.clone(), device_key.clone()),
            ),
            _ => None,
        };
        if let Some((session, _)) = &keys {
            *self = AgentState::Streaming { session_key: session.clone() };
        }
        keys
    }

    /// Takes note that the session ended.
    pub fn session_ended(&mut self)
        ensures
            final(self)@ is Idle,
    {
        *self = AgentState::Idle;
    }

    /// Takes note of what the backend says of the pending session, if it answered.
    pub fn pending_checked(&mut self, should_reset: Option<bool>)
        ensures
            final(self)@ == old(self)@.checked(should_reset == Some(true)),
    {
        if let Some(reset) = should_reset {
            if reset {
                *self = AgentState::Idle;
            }
        }
    }

    /// Gives up waiting for a viewer, and tells whether one was still awaited.
    pub fn pending_timed_out(&mut self) -> (b: bool)
        ensures
            b == (old(self)@ is Pending),
            final(self)@ == old(self)@.timed_out(),
    {
        let pending: bool = match self {
            AgentState::Pending { .. } => true,
            _ => false,
        };
        if pending {
            *self = AgentState::Idle;
        }
        pending
    }
}

/// The state that an agent starts in.
pub fn new_state() -> (s: AgentState)
    ensures
        s@ is Idle,
{
    AgentState::Idle
}

/// Each change of the state is a step of the agent: a viewer that connects, a session that ends,
/// a cancelled session, one that no viewer took up, and one activated by an idle agent.
pub proof fn changes_are_steps(s: Stage, should_reset: bool, session: Seq<char>, device: Seq<char>)
    ensures
        s.steps_to(s.connected()),
        s.steps_to(s.checked(should_reset)),
        s.steps_to(s.timed_out()),
        s.steps_to(Stage::Idle),
        s is Idle ==> s.steps_to(Stage::Pending { session, device }),
{
}

/// No session streams that was not activated before: an agent comes to stream a session only from
/// the pending session with the same key.
pub proof fn streaming_comes_from_pending(s: Stage, next: Stage)
    requires
        s.steps_to(next),
        next is Streaming,
    ensures
        s == next || (s is Pending && s.session() == next.session()),
{
}

/// One viewer at a time: once one is connected, the next finds the agent not waiting for it.
pub proof fn one_viewer_at_a_time(s: Stage)
    ensures
        !(s.connected() is Pending),
        s.connected().connected() == s.connected(),
{
}

/// A viewer that is connected is not cut off when the time to connect is over.
pub proof fn timeout_spares_connected_viewer(s: Stage)
    requires
        s is Streaming,
    ensures
        s.timed_out() == s,
{
}

} // verus!
