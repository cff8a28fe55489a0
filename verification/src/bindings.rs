//! The boundary to the byte-oriented metric engine.
//!
//! The engine takes two packed RGB byte buffers of `width * height * 3` bytes,
//! writes a score through an output parameter and returns an integer status. The
//! call itself lives outside this crate; what the status means is decided here.

use crate::text::{signed_decimal, signed_decimal_digits};
use vstd::prelude::*;
use vstd::string::StringExecFns;

verus! {

/// A failure reported by the byte-oriented metric engine.
#[derive(Debug, Clone, Copy, PartialEq, Eq)]
pub enum ComputeError {
    /// The engine rejected the channel count.
    InvalidChannels,
    /// The engine could not allocate its working memory.
    OutOfMemory,
    /// The engine returned a status this crate does not know; the code is kept.
    Unknown(i32),
}

/// Engine status: the score was written.
pub const SSIMU2_OK: i32 = 0;

/// Engine status: unsupported channel count.
pub const SSIMU2_INVALID_CHANNELS: i32 = 1;

/// Engine status: allocation failure.
pub const SSIMU2_OUT_OF_MEMORY: i32 = 2;

/// What an engine status code means: `None` for success, else the error.
pub open spec fn status_error(status: i32) -> Option<ComputeError> {
    if status == SSIMU2_OK {
        None
    } else if status == SSIMU2_INVALID_CHANNELS {
        Some(ComputeError::InvalidChannels)
    } else if status == SSIMU2_OUT_OF_MEMORY {
        Some(ComputeError::OutOfMemory)
    } else {
        Some(ComputeError::Unknown(status))
    }
}

/// Turns the status code of an engine call and the score it wrote into the
/// result of the call: the score on success, the classified error otherwise.
pub fn classify_status<S>(status: i32, score: S) -> (r: Result<S, ComputeError>)
    ensures
        r == (match status_error(status) {
            None => Ok::<S, ComputeError>(score),
            Some(e) => Err(e),
        }),
{
    if status == SSIMU2_OK {
        Ok(score)
    } else if status == SSIMU2_INVALID_CHANNELS {
        Err(ComputeError::InvalidChannels)
    } else if status == SSIMU2_OUT_OF_MEMORY {
        Err(ComputeError::OutOfMemory)
    } else {
        Err(ComputeError::Unknown(status))
    }
}

impl ComputeError {
    /// The text of the message for this error.
    pub open spec fn spec_message(self) -> Seq<char> {
        match self {
            ComputeError::InvalidChannels => "Invalid number of channels provided"@,
            ComputeError::OutOfMemory => "Out of memory"@,
            ComputeError::Unknown(code) => "Unknown error occurred, code: "@
                + signed_decimal_digits(code as int),
        }
    }

    /// Words the error for the caller; an unrecognized status is quoted.
    pub fn message(&self) -> (text: String)
        ensures
            text@ == self.spec_message(),
    {
        match self {
            ComputeError::InvalidChannels => String::from_str("Invalid number of channels provided"),
            ComputeError::OutOfMemory => String::from_str("Out of memory"),
            ComputeError::Unknown(code) => {
                let digits = signed_decimal(*code as i64);
                String::from_str("Unknown error occurred, code: ").concat(digits.as_str())
            },
        }
    }
}

} // verus!
