//! What agent and viewer share of their talk with the backend.

use vstd::prelude::*;

verus! {

/// Why an answer of the backend is no result.
#[derive(Clone, Copy, Debug, PartialEq, Eq, Structural)]
pub enum ApiError {
    /// The backend reports a failure.
    Refused,
    /// The backend reports success, but no result.
    NoResult,
}

/// Takes the result out of an answer. A missing code counts as success.
pub fn extract<T>(code: Option<i32>, result: Option<T>) -> (r: Result<T, ApiError>)
    ensures
        r == (if code is Some && code != Some(200i32) {
            Err::<T, ApiError>(ApiError::Refused)
        } else {
            match result {
                Some(x) => Ok(x),
                None => Err(ApiError::NoResult),
            }
        }),
{
    if let Some(c) = code {
        if c != 200 {
            return Err(ApiError::Refused);
        }
    }
    match result {
        Some(x) => Ok(x),
        None => Err(ApiError::NoResult),
    }
}

/// Tells whether a status of the backend reports success.
pub fn is_success(status: u16) -> (b: bool)
    ensures
        b == (200 <= status <= 299),
{
    200 <= status && status <= 299
}

/// The address of the backend: the one that is set, or the one built in.
pub fn base_url(setting: Option<&str>, built_in: &str) -> (s: String)
    ensures
        s@ == match setting {
            Some(url) => url@,
            None => built_in@,
        },
{
    match setting {
        Some(url) => url.to_string(),
        None => built_in.to_string(),
    }
}

} // verus!
