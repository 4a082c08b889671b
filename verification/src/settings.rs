//! Settings that are given as texts.

use crate::text;
use vstd::prelude::*;

verus! {

/// The port that the agent listens on where none is set.
pub const LISTEN_PORT: u16 = 20020;

/// A switch is on where it is set to 1.
pub open spec fn switched_on(setting: Option<&str>) -> bool {
    match setting {
        Some(s) => s@ == "1"@,
        None => false,
    }
}

/// Tells whether a switch is on.
pub fn is_on(setting: Option<&str>) -> (b: bool)
    ensures
        b == switched_on(setting),
{
    match setting {
        Some(s) => {
            let v: Vec<char> = text::chars_of(s);
            text::same(&v, "1")
        },
        None => false,
    }
}

/// The port that a text gives, or the usual one where it gives none.
pub open spec fn port_of(setting: Seq<char>) -> nat {
    match text::parsed_unsigned(setting, u16::MAX as nat) {
        Some(n) => n,
        None => LISTEN_PORT as nat,
    }
}

/// The port that is set, or the usual one where none is set or the setting is no port.
pub fn listen_port(setting: Option<&str>) -> (port: u16)
    ensures
        port == match setting {
            Some(s) => port_of(s@),
            None => LISTEN_PORT as nat,
        },
{
    match setting {
        Some(s) => {
            let v: Vec<char> = text::chars_of(s);
            port_from(&v)
        },
        None => LISTEN_PORT,
    }
}

/// Reads a port, or takes the usual one.
pub fn port_from(v: &Vec<char>) -> (port: u16)
    ensures
        port == port_of(v@),
{
    match text::parse_unsigned(v, u16::MAX as u64) {
        Some(n) => n as u16,
        None => LISTEN_PORT,
    }
}

/// The setting, or another text where it is not set.
pub fn text_or(setting: Option<&str>, default: &str) -> (s: String)
    ensures
        s@ == match setting {
            Some(t) => t@,
            None => default@,
        },
{
    match setting {
        Some(t) => t.to_string(),
        None => default.to_string(),
    }
}

} // verus!
