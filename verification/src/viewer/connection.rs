//! The way to an agent: its address, the handshake, and the attempts to get through.

use crate::outside::unique;
use crate::text;
use vstd::prelude::*;

verus! {

/// What the viewer introduces itself with.
#[derive(Debug)]
pub struct HandshakeMsg {
    pub session_key: String,
    pub connect_token: String,
    /// A text used once, so that the message cannot be sent again.
    pub viewer_nonce: String,
}

/// Makes the text that a handshake is used once with: a random identifier.
pub fn generate_nonce() -> (s: String)
    ensures
        unique::is_uuid_v4(s@),
{
    unique::new_uuid_text()
}

/// Makes the handshake of a session, with a fresh text to use once.
pub fn handshake(session_key: &str, connect_token: &str) -> (m: HandshakeMsg)
    ensures
        m.session_key@ == session_key@,
        m.connect_token@ == connect_token@,
        unique::is_uuid_v4(m.viewer_nonce@),
{
    HandshakeMsg {
        session_key: session_key.to_string(),
        connect_token: connect_token.to_string(),
        viewer_nonce: generate_nonce(),
    }
}

/// Writes the address of an agent: host and port.
pub fn agent_address(relay_ip: &str, relay_port: u16) -> (s: String)
    ensures
        s@ == relay_ip@.push(':') + text::decimal(relay_port as nat),
{
    let mut s: String = relay_ip.to_string();
    s.push(':');
    let port: String = text::decimal_of(relay_port as u64);
    s.append(port.as_str());
    s
}

/// Tells whether the agent accepted the handshake: its answer begins with 1.
pub fn is_accepted(reply: &[u8]) -> (b: bool)
    ensures
        b == (reply@.len() > 0 && reply@[0] == 1),
{
    reply.len() > 0 && reply[0] == 1
}

/// The pause between two attempts, in milliseconds.
pub const RETRY_PAUSE_MILLIS: u64 = 1000;

/// Tells how long to wait before the next attempt, in milliseconds, after one failed; nothing once
/// the time for attempts is over.
pub fn after_failed_attempt(now: u64, deadline: u64) -> (pause: Option<u64>)
    ensures
        pause == (if now >= deadline {
            None::<u64>
        } else {
            Some(RETRY_PAUSE_MILLIS)
        }),
{
    if now >= deadline {
        None
    } else {
        Some(RETRY_PAUSE_MILLIS)
    }
}

} // verus!
