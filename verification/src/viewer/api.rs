//! The viewer's requests to the backend, and what the backend answers.

use crate::outside::json;
use crate::text;
use vstd::prelude::*;

verus! {

/// A machine that is linked to the user.
#[derive(Debug)]
pub struct DeviceInfo {
    pub device_id: u64,
    pub device_name: String,
    pub host_status: String,
}

/// A machine that is there and not linked yet.
#[derive(Debug)]
pub struct DiscoverDevice {
    pub device_id: u64,
    pub device_key: String,
    pub host_name: String,
    pub os_type: String,
}

/// A session, and where its agent is.
#[derive(Debug)]
pub struct SessionInfo {
    pub session_id: u64,
    pub session_key: String,
    pub connect_token: String,
    pub relay_ip: String,
    pub relay_port: u16,
    pub status: String,
    pub expires_at: Option<String>,
}

/// What the backend answers to a report of the viewer.
#[derive(Debug)]
pub struct ViewerHeartbeatData {
    pub status: String,
    /// The viewer has to end the session.
    pub should_terminate: bool,
}

/// A request to the backend.
#[derive(Clone, Copy, Debug)]
pub enum ViewerCall<'a> {
    Login,
    ListDevices,
    DiscoverDevices,
    LinkDevice,
    CreateSession,
    /// A report on the session with this number.
    Heartbeat(u64),
    /// A report on the session with this number, by its key alone.
    HeartbeatByKey(u64),
    /// The end of the session with this number.
    EndSession(u64),
    /// Whether the session with this key is alive.
    Alive(&'a str),
    /// The end of the session with this key.
    EndSessionByKey(&'a str),
}

/// Where a request goes, below the backend's address.
pub open spec fn path_of(call: ViewerCall<'_>) -> Seq<char> {
    match call {
        ViewerCall::Login => "/api/auth/login"@,
        ViewerCall::ListDevices => "/api/user/device/list"@,
        ViewerCall::DiscoverDevices => "/api/user/device/discover"@,
        ViewerCall::LinkDevice => "/api/user/device/link"@,
        ViewerCall::CreateSession => "/api/remote/session/create"@,
        ViewerCall::Heartbeat(id) => "/api/remote/session/viewer/heartbeat/"@ + text::decimal(
            id as nat,
        ),
        ViewerCall::HeartbeatByKey(id) => "/api/remote/session/viewer/heartbeat-by-key/"@
            + text::decimal(id as nat),
        ViewerCall::EndSession(id) => "/api/remote/session/end/"@ + text::decimal(id as nat),
        ViewerCall::Alive(key) => "/api/remote/session/alive/"@ + key@,
        ViewerCall::EndSessionByKey(key) => "/api/remote/session/end-by-key/"@ + key@,
    }
}

/// Writes the address that a request goes to.
pub fn request_url(base: &str, call: ViewerCall<'_>) -> (s: String)
    ensures
        s@ == base@ + path_of(call),
{
    let mut s: String = base.to_string();
    match call {
        ViewerCall::Login => s.append("/api/auth/login"),
        ViewerCall::ListDevices => s.append("/api/user/device/list"),
        ViewerCall::DiscoverDevices => s.append("/api/user/device/discover"),
        ViewerCall::LinkDevice => s.append("/api/user/device/link"),
        ViewerCall::CreateSession => s.append("/api/remote/session/create"),
        ViewerCall::Heartbeat(id) => {
            s.append("/api/remote/session/viewer/heartbeat/");
            s.append(text::decimal_of(id).as_str());
        },
        ViewerCall::HeartbeatByKey(id) => {
            s.append("/api/remote/session/viewer/heartbeat-by-key/");
            s.append(text::decimal_of(id).as_str());
        },
        ViewerCall::EndSession(id) => {
            s.append("/api/remote/session/end/");
            s.append(text::decimal_of(id).as_str());
        },
        ViewerCall::Alive(key) => {
            s.append("/api/remote/session/alive/");
            s.append(key);
        },
        ViewerCall::EndSessionByKey(key) => {
            s.append("/api/remote/session/end-by-key/");
            s.append(key);
        },
    }
    assert(s@ =~= base@ + path_of(call));
    s
}

/// Why a login failed.
#[derive(Debug)]
pub enum LoginError {
    /// The answer is no JSON document.
    BadAnswer,
    /// The backend refused, with this message.
    Refused(String),
}

/// Decides whether a login succeeded, from the status of the answer and its message.
pub fn sort_login(success: bool, message: Option<String>) -> (r: Result<(), LoginError>)
    ensures
        match r {
            Ok(()) => success,
            Err(LoginError::Refused(m)) => !success && m@ == match message {
                Some(t) => t@,
                None => "unknown"@,
            },
            Err(LoginError::BadAnswer) => false,
        },
{
    if success {
        return Ok(());
    }
    match message {
        Some(t) => Err(LoginError::Refused(t)),
        None => Err(LoginError::Refused("unknown".to_string())),
    }
}

/// Decides whether a login succeeded, from the status of the answer and its body. The body has to
/// be a JSON document in either case; the session itself comes in a cookie.
pub fn login_outcome(success: bool, body: &str) -> (r: Result<(), LoginError>)
    ensures
        match json::parsed_members(body@) {
            None => r == Err::<(), LoginError>(LoginError::BadAnswer),
            Some(m) => match r {
                Ok(()) => success,
                Err(LoginError::Refused(t)) => !success && t@ == if m.dom().contains("message"@) {
                    m["message"@]
                } else {
                    "unknown"@
                },
                Err(LoginError::BadAnswer) => false,
            },
        },
{
    match json::parse(body) {
        Err(_) => Err(LoginError::BadAnswer),
        Ok(v) => sort_login(success, json::string_member(&v, "message")),
    }
}

/// Decides whether a session is alive, from the status of the answer and what it says: no success
/// and no answer count as no.
pub fn is_alive(success: bool, says: Option<bool>) -> (b: bool)
    ensures
        b == (success && says == Some(true)),
{
    success && match says {
        Some(alive) => alive,
        None => false,
    }
}

} // verus!
