//! The failures a caller can see, their classes and their wording.

use crate::bindings::ComputeError;
use crate::text::{decimal, decimal_digits};
use vstd::prelude::*;
use vstd::string::StringExecFns;

verus! {

/// Which of the two payloads of a call an error speaks of.
#[derive(Debug, Clone, Copy, PartialEq, Eq)]
pub enum Side {
    /// The reference image.
    Source,
    /// The image compared against the reference.
    Degraded,
}

impl Side {
    /// The word that messages use for this side.
    pub open spec fn spec_label(self) -> Seq<char> {
        match self {
            Side::Source => "source"@,
            Side::Degraded => "degraded"@,
        }
    }

    /// The word that messages use for this side.
    pub fn label(&self) -> (word: &'static str)
        ensures
            word@ == self.spec_label(),
    {
        match self {
            Side::Source => "source",
            Side::Degraded => "degraded",
        }
    }
}

/// Every failure of an analysis call.
#[derive(Debug, Clone, Copy, PartialEq, Eq)]
pub enum AnalyzeError {
    /// A flat payload whose length fits no supported layout of the declared
    /// dimensions. `expected` is the length of a packed RGB buffer,
    /// `width * height * 3`, or `None` where that number exceeds `usize::MAX`.
    LengthMismatch { side: Side, expected: Option<usize>, actual: usize },
    /// A normalized sample that is not finite or lies outside `[0.0, 1.0]`.
    InvalidPixelRange { side: Side },
    /// The number of reduced pixels differs from `width * height`.
    ImageConstructionFailed,
    /// The engine rejected the channel count.
    EngineInvalidChannels,
    /// The engine ran out of memory.
    EngineOutOfMemory,
    /// The engine returned an unrecognized status code.
    EngineUnknown(i32),
}

/// The two classes of error that the managed-language caller distinguishes.
#[derive(Debug, Clone, Copy, PartialEq, Eq)]
pub enum ErrorClass {
    /// The caller passed a bad argument.
    Value,
    /// The pipeline or the engine failed on arguments that looked valid.
    Runtime,
}

/// The caller-visible error for an engine error, one for one.
pub open spec fn engine_error(error: ComputeError) -> AnalyzeError {
    match error {
        ComputeError::InvalidChannels => AnalyzeError::EngineInvalidChannels,
        ComputeError::OutOfMemory => AnalyzeError::EngineOutOfMemory,
        ComputeError::Unknown(code) => AnalyzeError::EngineUnknown(code),
    }
}

impl From<ComputeError> for AnalyzeError {
    fn from(error: ComputeError) -> (r: AnalyzeError) {
        match error {
            ComputeError::InvalidChannels => AnalyzeError::EngineInvalidChannels,
            ComputeError::OutOfMemory => AnalyzeError::EngineOutOfMemory,
            ComputeError::Unknown(code) => AnalyzeError::EngineUnknown(code),
        }
    }
}

impl vstd::std_specs::convert::FromSpecImpl<ComputeError> for AnalyzeError {
    open spec fn obeys_from_spec() -> bool {
        true
    }

    open spec fn from_spec(error: ComputeError) -> AnalyzeError {
        engine_error(error)
    }
}

impl AnalyzeError {
    /// The class of this error: a length mismatch and an out-of-range sample
    /// are the caller's fault, everything else is a runtime failure.
    pub open spec fn spec_class(self) -> ErrorClass {
        match self {
            AnalyzeError::LengthMismatch { .. } => ErrorClass::Value,
            AnalyzeError::InvalidPixelRange { .. } => ErrorClass::Value,
            _ => ErrorClass::Runtime,
        }
    }

    /// The text of the message for this error. It names the side where the
    /// error has one, and a length mismatch quotes the expected length, where
    /// there is one, and the actual length.
    pub open spec fn spec_message(self) -> Seq<char> {
        match self {
            AnalyzeError::LengthMismatch { side, expected: Some(expected), actual } => "`"@
                + side.spec_label() + "` length does not match width and height: expected "@
                + decimal_digits(expected as nat) + ", got "@ + decimal_digits(actual as nat),
            AnalyzeError::LengthMismatch { side, expected: None, actual } => "`"@
                + side.spec_label()
                + "` length does not match width and height, which no buffer can hold: got "@
                + decimal_digits(actual as nat),
            AnalyzeError::InvalidPixelRange { side } => "`"@ + side.spec_label()
                + "` pixel data contains non-finite or out-of-range values (should be in [0.0, 1.0])."@,
            AnalyzeError::ImageConstructionFailed =>
                "Failed to create Rgb image: Data length does not match the specified dimensions."@,
            AnalyzeError::EngineInvalidChannels => "Failed to compute SSIMULACRA2: "@
                + ComputeError::InvalidChannels.spec_message(),
            AnalyzeError::EngineOutOfMemory => "Failed to compute SSIMULACRA2: "@
                + ComputeError::OutOfMemory.spec_message(),
            AnalyzeError::EngineUnknown(code) => "Failed to compute SSIMULACRA2: "@
                + ComputeError::Unknown(code).spec_message(),
        }
    }

    /// Words the error for the caller.
    pub fn message(&self) -> (text: String)
        ensures
            text@ == self.spec_message(),
    {
        match self {
            AnalyzeError::LengthMismatch { side, expected: Some(expected), actual } => {
                let wanted = decimal(*expected as u64);
                let got = decimal(*actual as u64);
                String::from_str("`").concat(side.label()).concat(
                    "` length does not match width and height: expected ",
                ).concat(wanted.as_str()).concat(", got ").concat(got.as_str())
            },
            AnalyzeError::LengthMismatch { side, expected: None, actual } => {
                let got = decimal(*actual as u64);
                String::from_str("`").concat(side.label()).concat(
                    "` length does not match width and height, which no buffer can hold: got ",
                ).concat(got.as_str())
            },
            AnalyzeError::InvalidPixelRange { side } => String::from_str("`").concat(
                side.label(),
            ).concat(
                "` pixel data contains non-finite or out-of-range values (should be in [0.0, 1.0]).",
            ),
            AnalyzeError::ImageConstructionFailed => String::from_str(
                "Failed to create Rgb image: Data length does not match the specified dimensions.",
            ),
            AnalyzeError::EngineInvalidChannels => {
                let cause = ComputeError::InvalidChannels.message();
                String::from_str("Failed to compute SSIMULACRA2: ").concat(cause.as_str())
            },
            AnalyzeError::EngineOutOfMemory => {
                let cause = ComputeError::OutOfMemory.message();
                String::from_str("Failed to compute SSIMULACRA2: ").concat(cause.as_str())
            },
            AnalyzeError::EngineUnknown(code) => {
                let cause = ComputeError::Unknown(*code).message();
                String::from_str("Failed to compute SSIMULACRA2: ").concat(cause.as_str())
            },
        }
    }

    /// Classifies the error for the caller.
    pub fn class(&self) -> (c: ErrorClass)
        ensures
            c == self.spec_class(),
    {
        match self {
            AnalyzeError::LengthMismatch { .. } => ErrorClass::Value,
            AnalyzeError::InvalidPixelRange { .. } => ErrorClass::Value,
            AnalyzeError::ImageConstructionFailed => ErrorClass::Runtime,
            AnalyzeError::EngineInvalidChannels => ErrorClass::Runtime,
            AnalyzeError::EngineOutOfMemory => ErrorClass::Runtime,
            AnalyzeError::EngineUnknown(_) => ErrorClass::Runtime,
        }
    }
}

} // verus!
