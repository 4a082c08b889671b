//! What the agent does between sessions: it reports to the backend, asks for a session, and
//! watches over a pending one.

use crate::agent::api::{
    ActivateByPathData, EndRequest, HeartbeatRequest, PollData, PollRequest,
    SessionHeartbeatRequest,
};
use crate::agent::state::{AgentState, Stage};
use crate::outside::unique;
use crate::text;
use vstd::prelude::*;

verus! {

/// The time between two reports, in milliseconds.
pub const HEARTBEAT_MILLIS: u64 = 10_000;

/// The time between two reports on a session that goes on, in milliseconds.
pub const SESSION_REPORT_MILLIS: u64 = 15_000;

/// The pause of an idle agent, in milliseconds.
pub const IDLE_PAUSE_MILLIS: u64 = 3_000;

/// The pause of an agent with a session, in milliseconds.
pub const BUSY_PAUSE_MILLIS: u64 = 1_000;

/// The pause after a session, in which the display driver gives up what it held, in milliseconds.
pub const SETTLE_MILLIS: u64 = 1_500;

/// The time that a viewer has to connect, in milliseconds.
pub const PENDING_MILLIS: u64 = 300_000;

/// The attempts to report the end of a session.
pub const END_ATTEMPTS: u8 = 3;

/// The pause between two attempts to report the end of a session, in milliseconds.
pub const END_PAUSE_MILLIS: u64 = 500;

/// Tells whether it is time to report, whatever the agent is doing.
pub fn heartbeat_due(elapsed_millis: u64) -> (b: bool)
    ensures
        b == (elapsed_millis >= HEARTBEAT_MILLIS),
{
    elapsed_millis >= HEARTBEAT_MILLIS
}

/// Makes the report: a session is acceptable where the agent is idle, and the session that there
/// is otherwise is named.
pub fn heartbeat_request(
    state: &AgentState,
    device_key: &str,
    relay_ip: &str,
    relay_port: u16,
    app_version: &str,
) -> (r: HeartbeatRequest)
    ensures
        r.device_key@ == device_key@,
        r.relay_ip@ == relay_ip@,
        r.relay_port == relay_port,
        r.app_version@ == app_version@,
        r.agent_status@ == "ONLINE"@,
        r.session_acceptable == (state@ is Idle),
        match r.current_session_key {
            Some(key) => state@.session() == Some(key@),
            None => state@.session() is None,
        },
{
    let current_session_key: Option<String> = match state.session_key() {
        Some(key) => Some(key.to_string()),
        None => None,
    };
    HeartbeatRequest {
        device_key: device_key.to_string(),
        relay_ip: relay_ip.to_string(),
        relay_port,
        app_version: app_version.to_string(),
        agent_status: "ONLINE".to_string(),
        session_acceptable: state.is_idle(),
        current_session_key,
    }
}

/// Tells whether it is time to report on a session: there is one report for each whole period since
/// the session began, and none at its start.
pub fn session_report_due(elapsed_millis: u64, reported: u64) -> (b: bool)
    ensures
        b == (reported < elapsed_millis / SESSION_REPORT_MILLIS),
{
    reported < elapsed_millis / SESSION_REPORT_MILLIS
}

/// Makes the report on a session.
pub fn session_report(
    device_key: &str,
    session_key: &str,
    bytes_out: u64,
    bytes_in: u64,
) -> (r: SessionHeartbeatRequest)
    ensures
        r.device_key@ == device_key@,
        r.session_key@ == session_key@,
        r.bytes_out == bytes_out,
        r.bytes_in == bytes_in,
{
    SessionHeartbeatRequest {
        device_key: device_key.to_string(),
        session_key: session_key.to_string(),
        bytes_out,
        bytes_in,
    }
}

/// What the agent asks the backend.
#[derive(Debug)]
pub enum Errand {
    /// Whether there is a session.
    Poll(PollRequest),
    /// Whether the pending session is still wanted.
    CheckPending(EndRequest),
    /// Nothing.
    Nothing,
}

/// What an agent in this state asks the backend: an idle one for a session, one with a pending
/// session about that.
pub fn next_errand(state: &AgentState, device_key: &str) -> (e: Errand)
    ensures
        match e {
            Errand::Poll(req) => state@ is Idle && req.device_key@ == device_key@,
            Errand::CheckPending(req) => state@ == (Stage::Pending {
                session: req.session_key@,
                device: req.device_key@,
            }),
            Errand::Nothing => state@ is Streaming,
        },
{
    match state {
        AgentState::Idle => Errand::Poll(PollRequest { device_key: device_key.to_string() }),
        AgentState::Pending { session_key, device_key: device } => Errand::CheckPending(
            EndRequest { device_key: device.clone(), session_key: session_key.clone() },
        ),
        AgentState::Streaming { .. } => Errand::Nothing,
    }
}

/// How long the agent pauses after an errand, in milliseconds.
pub fn pause_after(errand: &Errand) -> (millis: u64)
    ensures
        millis == if *errand is Poll {
            IDLE_PAUSE_MILLIS
        } else {
            BUSY_PAUSE_MILLIS
        },
{
    match errand {
        Errand::Poll(_) => IDLE_PAUSE_MILLIS,
        _ => BUSY_PAUSE_MILLIS,
    }
}

/// Why no session is activated after the backend was asked for one.
#[derive(Clone, Copy, Debug, PartialEq, Eq, Structural)]
pub enum NoSession {
    /// There is none.
    NotWaiting,
    /// There is one, but the backend does not say which.
    NoKey,
}

/// Finds the session to activate in the backend's answer.
pub fn session_to_activate(data: PollData) -> (r: Result<String, NoSession>)
    ensures
        match r {
            Ok(key) => data.has_pending_session && data.session_key == Some(key),
            Err(NoSession::NotWaiting) => !data.has_pending_session,
            Err(NoSession::NoKey) => data.has_pending_session && data.session_key is None,
        },
{
    if !data.has_pending_session {
        return Err(NoSession::NotWaiting);
    }
    match data.session_key {
        Some(key) => Ok(key),
        None => Err(NoSession::NoKey),
    }
}

/// Takes up the session that the backend activated, and gives the report that ends it should no
/// viewer connect in time.
pub fn take_up(state: &mut AgentState, data: &ActivateByPathData, device_key: &str) -> (end:
    EndRequest)
    ensures
        final(state)@ == (Stage::Pending { session: data.session_key@, device: device_key@ }),
        end.session_key@ == data.session_key@,
        end.device_key@ == device_key@,
{
    state.activated(data.session_key.as_str(), device_key);
    EndRequest { device_key: device_key.to_string(), session_key: data.session_key.clone() }
}

/// Tells how long to wait before the end of a session is reported again, in milliseconds, after
/// attempt number `attempt`; nothing where it was reported, or after the last attempt.
pub fn after_end_attempt(attempt: u8, reported: bool) -> (pause: Option<u64>)
    ensures
        pause == (if !reported && attempt < END_ATTEMPTS {
            Some(END_PAUSE_MILLIS)
        } else {
            None::<u64>
        }),
{
    if !reported && attempt < END_ATTEMPTS {
        Some(END_PAUSE_MILLIS)
    } else {
        None
    }
}

/// The name of the machine that was stored, without the white space around it, unless that leaves
/// nothing.
pub fn stored_local_box(stored: &str) -> (r: Option<String>)
    ensures
        match r {
            Some(id) => id@ == text::trimmed(stored@) && id@.len() > 0,
            None => text::trimmed(stored@).len() == 0,
        },
{
    let v: Vec<char> = text::chars_of(stored);
    let id: Vec<char> = text::trim(&v);
    if id.len() == 0 {
        None
    } else {
        Some(text::string_of(&id))
    }
}

/// The name that a random identifier gives a machine: its first sixteen digits after `box`.
pub open spec fn box_name(id: Seq<char>) -> Seq<char> {
    "box"@ + id.subrange(0, 8) + id.subrange(9, 13) + id.subrange(14, 18)
}

/// Makes the name of a machine from a random identifier.
pub fn local_box_of(id: &str) -> (s: String)
    requires
        unique::is_uuid_v4(id@),
    ensures
        s@ == box_name(id@),
{
    let v: Vec<char> = text::chars_of(id);
    let mut s: String = "box".to_string();
    let a: String = text::string_of(&text::part(&v, 0, 8));
    let b: String = text::string_of(&text::part(&v, 9, 13));
    let c: String = text::string_of(&text::part(&v, 14, 18));
    s.append(a.as_str());
    s.append(b.as_str());
    s.append(c.as_str());
    s
}

/// Makes a name for a machine that has none: `box` and sixteen random digits.
pub fn new_local_box() -> (s: String)
    ensures
        exists|id: Seq<char>| unique::is_uuid_v4(id) && s@ == #[trigger] box_name(id),
{
    let id: String = unique::new_uuid_text();
    local_box_of(id.as_str())
}

/// The name of a machine has nineteen characters and no hyphen.
pub proof fn box_name_is_plain(id: Seq<char>)
    requires
        unique::is_uuid_v4(id),
    ensures
        box_name(id).len() == 19,
        forall|i: int| 0 <= i < 19 ==> #[trigger] box_name(id)[i] != '-',
{
    reveal_strlit("box");
    assert(forall|i: int| 0 <= i < 36 && i != 8 && i != 13 && i != 18 && i != 23 ==> unique::is_hex(
        #[trigger] id[i],
    ));
}

} // verus!
