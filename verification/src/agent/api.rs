//! The agent's requests to the backend, and what the backend answers.

use vstd::prelude::*;

verus! {

/// Introduces the agent.
#[derive(Debug)]
pub struct RegisterRequest {
    pub local_box: String,
    pub agent_name: String,
    pub os_type: String,
    pub app_version: String,
    pub relay_ip: String,
    pub relay_port: u16,
}

#[derive(Debug)]
pub struct RegisterData {
    pub agent_id: u64,
    pub device_key: String,
}

/// Reports that the agent is there, and what it is doing.
#[derive(Debug)]
pub struct HeartbeatRequest {
    pub device_key: String,
    pub relay_ip: String,
    pub relay_port: u16,
    pub app_version: String,
    pub agent_status: String,
    pub session_acceptable: bool,
    pub current_session_key: Option<String>,
}

/// Asks for a session.
#[derive(Debug)]
pub struct PollRequest {
    pub device_key: String,
}

#[derive(Debug)]
pub struct PollData {
    pub has_pending_session: bool,
    pub session_key: Option<String>,
}

/// Activates a session; its key stands in the address.
#[derive(Debug)]
pub struct ActivateByPathRequest {
    pub device_key: String,
}

#[derive(Debug)]
pub struct ActivateByPathData {
    pub session_key: String,
    pub status: String,
}

/// Reports on a session that goes on, with the bytes that went out and came in.
#[derive(Debug)]
pub struct SessionHeartbeatRequest {
    pub device_key: String,
    pub session_key: String,
    pub bytes_out: u64,
    pub bytes_in: u64,
}

/// Reports the end of a session, or asks about a pending one.
#[derive(Debug)]
pub struct EndRequest {
    pub device_key: String,
    pub session_key: String,
}

#[derive(Debug)]
pub struct CheckPendingData {
    pub should_reset: bool,
}

/// A request to the backend.
#[derive(Clone, Copy, Debug)]
pub enum AgentCall<'a> {
    Register,
    Heartbeat,
    Poll,
    /// The activation of the session with this key.
    Activate(&'a str),
    CheckPending,
    EndSession,
}

/// Where a request goes, below the backend's address.
pub open spec fn path_of(call: AgentCall<'_>) -> Seq<char> {
    match call {
        AgentCall::Register => "/api/agent/register"@,
        AgentCall::Heartbeat => "/api/agent/heartbeat"@,
        AgentCall::Poll => "/api/agent/session/poll"@,
        AgentCall::Activate(session_key) => "/api/agent/session/activate/"@ + session_key@,
        AgentCall::CheckPending => "/api/agent/session/check-pending"@,
        AgentCall::EndSession => "/api/agent/session/end"@,
    }
}

/// Writes the address that a request goes to.
pub fn request_url(base: &str, call: AgentCall<'_>) -> (s: String)
    ensures
        s@ == base@ + path_of(call),
{
    let mut s: String = base.to_string();
    match call {
        AgentCall::Register => s.append("/api/agent/register"),
        AgentCall::Heartbeat => s.append("/api/agent/heartbeat"),
        AgentCall::Poll => s.append("/api/agent/session/poll"),
        AgentCall::Activate(session_key) => {
            s.append("/api/agent/session/activate/");
            s.append(session_key);
        },
        AgentCall::CheckPending => s.append("/api/agent/session/check-pending"),
        AgentCall::EndSession => s.append("/api/agent/session/end"),
    }
    assert(s@ =~= base@ + path_of(call));
    s
}

} // verus!
