use vstd::prelude::*;

pub mod cli;
pub mod controller;
pub mod data;
pub mod ids;
pub mod inspect;
pub mod meta;
pub mod render;
pub mod rules;
pub mod spec;
pub mod strategy;
pub mod transcoder;
pub mod util;
pub mod web;

use crate::util::decimal_text;

verus! {

/// Upper bound on the number of compute workers a strategy accepts.
pub const MAX_CPU_WORKERS: usize = 512;

/// Upper bound on the number of I/O workers a strategy accepts.
pub const MAX_IO_WORKERS: usize = 1;

/// Runs the thread-per-core transcoder for debugging; this build has no runtime for it, so
/// this does nothing.
pub fn run_glommio() {
    transcoder::run_glommio()
}

/// The kind of an I/O failure, as far as the library tells them apart.
#[derive(Debug, Clone, Copy, PartialEq, Eq, Structural)]
pub enum IoErrorKind {
    /// The source ended before the requested bytes were read.
    UnexpectedEof,
    /// Any other failure of the underlying device or stream.
    Other,
}

/// Every failure the transcoding library reports.
#[derive(Debug)]
pub enum TranscodeError {
    FileTooShort,
    InvalidHeader,
    InputTruncated,
    OutputTruncated,
    InvalidRules,
    UnsupportedFrameDimensionsTooBig { width: u32, height: u32 },
    UnsupportedFrameDimensionsTooSmall { width: u32, height: u32 },
    IoErr(IoErrorKind),
    ProblemWritingToFile,
    TooManyRules,
    JsonErr(String),
    TooManyThreads(usize),
    InvalidAlpha,
    ThreadErr,
    CrossBeamErr,
    TokioErr,
    QueueFull,
    JobNotFound,
    MissingRules,
    Unsupported,
}

/// The message of an error, as the service shows it.
pub open spec fn error_message(e: TranscodeError) -> Seq<char> {
    match e {
        TranscodeError::FileTooShort => "File too short"@,
        TranscodeError::InvalidHeader => "Invalid Header"@,
        TranscodeError::InputTruncated => "Input Truncated"@,
        TranscodeError::OutputTruncated => "Output Truncated"@,
        TranscodeError::InvalidRules => "Invalid Rules"@,
        TranscodeError::UnsupportedFrameDimensionsTooBig { width, height } =>
            "Unsupported too big Frame Dimensions "@ + crate::util::decimal(width as nat) + " "@ + crate::util::decimal(height as nat),
        TranscodeError::UnsupportedFrameDimensionsTooSmall { width, height } =>
            "Unsupported too small Frame Dimensions "@ + crate::util::decimal(width as nat) + " "@ + crate::util::decimal(height as nat),
        TranscodeError::IoErr(_) => "Unexpected IO error"@,
        TranscodeError::ProblemWritingToFile => "Problem writing to file"@,
        TranscodeError::TooManyRules => "Too Many Processing Rules"@,
        TranscodeError::JsonErr(_) => "Unexpected Json error"@,
        TranscodeError::TooManyThreads(_) => "Too Many Threads"@,
        TranscodeError::InvalidAlpha => "Invalid Alpha Channel Value"@,
        TranscodeError::ThreadErr => "Generic threading error"@,
        TranscodeError::CrossBeamErr => "Crossbeam error"@,
        TranscodeError::TokioErr => "Tokio error"@,
        TranscodeError::QueueFull => "Queue Full"@,
        TranscodeError::JobNotFound => "Job ID Not Found"@,
        TranscodeError::MissingRules => "Missing Rules"@,
        TranscodeError::Unsupported => "Unsupported"@,
    }
}

impl TranscodeError {
    /// The message of the error, as the service shows it.
    pub fn message(&self) -> (s: String)
        ensures
            s@ == error_message(*self),
    {
        match self {
            TranscodeError::FileTooShort => String::from_str("File too short"),
            TranscodeError::InvalidHeader => String::from_str("Invalid Header"),
            TranscodeError::InputTruncated => String::from_str("Input Truncated"),
            TranscodeError::OutputTruncated => String::from_str("Output Truncated"),
            TranscodeError::InvalidRules => String::from_str("Invalid Rules"),
            TranscodeError::UnsupportedFrameDimensionsTooBig { width, height } => {
                String::from_str("Unsupported too big Frame Dimensions ")
                    .concat(decimal_text(*width as u64).as_str())
                    .concat(" ")
                    .concat(decimal_text(*height as u64).as_str())
            },
            TranscodeError::UnsupportedFrameDimensionsTooSmall { width, height } => {
                String::from_str("Unsupported too small Frame Dimensions ")
                    .concat(decimal_text(*width as u64).as_str())
                    .concat(" ")
                    .concat(decimal_text(*height as u64).as_str())
            },
            TranscodeError::IoErr(_) => String::from_str("Unexpected IO error"),
            TranscodeError::ProblemWritingToFile => String::from_str("Problem writing to file"),
            TranscodeError::TooManyRules => String::from_str("Too Many Processing Rules"),
            TranscodeError::JsonErr(_) => String::from_str("Unexpected Json error"),
            TranscodeError::TooManyThreads(_) => String::from_str("Too Many Threads"),
            TranscodeError::InvalidAlpha => String::from_str("Invalid Alpha Channel Value"),
            TranscodeError::ThreadErr => String::from_str("Generic threading error"),
            TranscodeError::CrossBeamErr => String::from_str("Crossbeam error"),
            TranscodeError::TokioErr => String::from_str("Tokio error"),
            TranscodeError::QueueFull => String::from_str("Queue Full"),
            TranscodeError::JobNotFound => String::from_str("Job ID Not Found"),
            TranscodeError::MissingRules => String::from_str("Missing Rules"),
            TranscodeError::Unsupported => String::from_str("Unsupported"),
        }
    }
}

} // verus!
