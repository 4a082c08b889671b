//! What follows a call of the VP9 encoder.

use vstd::prelude::*;

verus! {

/// Why the encoder was not made.
#[derive(Clone, Copy, Debug, PartialEq, Eq, Structural)]
pub enum CreateError {
    OutOfMemory,
    /// There is no configuration to start from; the codec may be missing.
    NoConfig,
    /// The codec was not set up; the processor may lack what it needs.
    NoCodec,
    /// There was no memory for the picture.
    NoImage,
    Unknown,
}

/// The reason that a code stands for.
pub open spec fn reason_of(code: i32) -> CreateError {
    match code {
        1 => CreateError::OutOfMemory,
        2 => CreateError::NoConfig,
        3 => CreateError::NoCodec,
        4 => CreateError::NoImage,
        _ => CreateError::Unknown,
    }
}

/// Tells whether the encoder was made, and if not, why.
pub fn created(handle_is_null: bool, code: i32) -> (r: Result<(), CreateError>)
    ensures
        r == (if handle_is_null {
            Err::<(), CreateError>(reason_of(code))
        } else {
            Ok(())
        }),
{
    if !handle_is_null {
        return Ok(());
    }
    match code {
        1 => Err(CreateError::OutOfMemory),
        2 => Err(CreateError::NoConfig),
        3 => Err(CreateError::NoCodec),
        4 => Err(CreateError::NoImage),
        _ => Err(CreateError::Unknown),
    }
}

/// Sorts the outcome of a call of the encoder: the code of a failure, nothing where no data came
/// out, or whether the data is a key frame.
pub fn encode_outcome(ret: i32, data_is_null: bool, len: i32, is_key: i32) -> (r: Result<
    Option<bool>,
    i32,
>)
    ensures
        r == (if ret != 0 {
            Err::<Option<bool>, i32>(ret)
        } else if data_is_null || len == 0 {
            Ok(None)
        } else {
            Ok(Some(is_key != 0))
        }),
{
    if ret != 0 {
        Err(ret)
    } else if data_is_null || len == 0 {
        Ok(None)
    } else {
        Ok(Some(is_key != 0))
    }
}

} // verus!
