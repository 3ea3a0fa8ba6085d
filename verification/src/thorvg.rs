//! ThorVG result codes and the errors they stand for.
use vstd::prelude::*;

use crate::text::{chars_of, concat_chars, string_of};

verus! {

/// `TVG_RESULT_SUCCESS`.
pub const TVG_RESULT_SUCCESS: u32 = 0;

/// `TVG_RESULT_INVALID_ARGUMENT`.
pub const TVG_RESULT_INVALID_ARGUMENT: u32 = 1;

/// `TVG_RESULT_INSUFFICIENT_CONDITION`.
pub const TVG_RESULT_INSUFFICIENT_CONDITION: u32 = 2;

/// `TVG_RESULT_FAILED_ALLOCATION`.
pub const TVG_RESULT_FAILED_ALLOCATION: u32 = 3;

/// `TVG_RESULT_MEMORY_CORRUPTION`.
pub const TVG_RESULT_MEMORY_CORRUPTION: u32 = 4;

/// `TVG_RESULT_NOT_SUPPORTED`.
pub const TVG_RESULT_NOT_SUPPORTED: u32 = 5;

/// `TVG_RESULT_UNKNOWN`.
pub const TVG_RESULT_UNKNOWN: u32 = 255;

/// A failed ThorVG call, with the name of the function that made it.
#[derive(Debug, Clone, PartialEq)]
pub enum TvgError {
    InvalidArgument { function_name: String },
    InsufficientCondition { function_name: String },
    FailedAllocation { function_name: String },
    MemoryCorruption { function_name: String },
    NotSupported { function_name: String },
    Unknown { function_name: String },
}

/// The rendering engine.
#[derive(Debug, Clone, Copy, PartialEq, Eq, Structural)]
pub enum TvgEngine {
    TvgEngineSw,
    TvgEngineGl,
}

/// The pixel layout of a canvas.
#[derive(Debug, Clone, Copy, PartialEq, Eq, Structural)]
pub enum TvgColorspace {
    ABGR8888,
    ABGR8888S,
    ARGB8888,
    ARGB8888S,
}

/// The error kind for a failing result code: 1 to 5 name their kinds, any
/// other code is unknown.
pub open spec fn error_for(code: u32, function_name: Seq<char>) -> TvgErrorView {
    if code == TVG_RESULT_INVALID_ARGUMENT {
        TvgErrorView { kind: 1, function_name }
    } else if code == TVG_RESULT_INSUFFICIENT_CONDITION {
        TvgErrorView { kind: 2, function_name }
    } else if code == TVG_RESULT_FAILED_ALLOCATION {
        TvgErrorView { kind: 3, function_name }
    } else if code == TVG_RESULT_MEMORY_CORRUPTION {
        TvgErrorView { kind: 4, function_name }
    } else if code == TVG_RESULT_NOT_SUPPORTED {
        TvgErrorView { kind: 5, function_name }
    } else {
        TvgErrorView { kind: 0, function_name }
    }
}

/// A `TvgError` as a value: its kind (the failing result code, 0 for
/// unknown) and the function name.
pub ghost struct TvgErrorView {
    pub kind: u32,
    pub function_name: Seq<char>,
}

impl View for TvgError {
    type V = TvgErrorView;

    open spec fn view(&self) -> TvgErrorView {
        match self {
            TvgError::InvalidArgument { function_name } => TvgErrorView { kind: 1, function_name: function_name@ },
            TvgError::InsufficientCondition { function_name } => TvgErrorView { kind: 2, function_name: function_name@ },
            TvgError::FailedAllocation { function_name } => TvgErrorView { kind: 3, function_name: function_name@ },
            TvgError::MemoryCorruption { function_name } => TvgErrorView { kind: 4, function_name: function_name@ },
            TvgError::NotSupported { function_name } => TvgErrorView { kind: 5, function_name: function_name@ },
            TvgError::Unknown { function_name } => TvgErrorView { kind: 0, function_name: function_name@ },
        }
    }
}

/// The message of an error.
pub open spec fn error_message(e: TvgErrorView) -> Seq<char> {
    if e.kind == 1 {
        "Invalid argument provided in "@ + e.function_name
    } else if e.kind == 2 {
        "Insufficient condition in "@ + e.function_name
    } else if e.kind == 3 {
        "Failed memory allocation in "@ + e.function_name
    } else if e.kind == 4 {
        "Memory corruption detected in "@ + e.function_name
    } else if e.kind == 5 {
        "Operation not supported in "@ + e.function_name
    } else {
        "Unknown error occurred in "@ + e.function_name
    }
}

impl TvgError {
    /// The error's message, naming the function.
    pub fn message(&self) -> (m: String)
        ensures
            m@ == error_message(self@),
    {
        let (head, name) = match self {
            TvgError::InvalidArgument { function_name } => ("Invalid argument provided in ", function_name),
            TvgError::InsufficientCondition { function_name } => ("Insufficient condition in ", function_name),
            TvgError::FailedAllocation { function_name } => ("Failed memory allocation in ", function_name),
            TvgError::MemoryCorruption { function_name } => ("Memory corruption detected in ", function_name),
            TvgError::NotSupported { function_name } => ("Operation not supported in ", function_name),
            TvgError::Unknown { function_name } => ("Unknown error occurred in ", function_name),
        };
        string_of(&concat_chars(&chars_of(head), &chars_of(name.as_str())))
    }
}

/// `Ok` for the success code; otherwise the error for the code, naming the
/// function that made the call.
pub fn convert_tvg_result(result: u32, function_name: &str) -> (r: Result<(), TvgError>)
    ensures
        result == TVG_RESULT_SUCCESS <==> r is Ok,
        r matches Err(e) ==> e@ == error_for(result, function_name@),
{
    let func_name = function_name.to_owned();
    if result == TVG_RESULT_SUCCESS {
        Ok(())
    } else if result == TVG_RESULT_INVALID_ARGUMENT {
        Err(TvgError::InvalidArgument { function_name: func_name })
    } else if result == TVG_RESULT_INSUFFICIENT_CONDITION {
        Err(TvgError::InsufficientCondition { function_name: func_name })
    } else if result == TVG_RESULT_FAILED_ALLOCATION {
        Err(TvgError::FailedAllocation { function_name: func_name })
    } else if result == TVG_RESULT_MEMORY_CORRUPTION {
        Err(TvgError::MemoryCorruption { function_name: func_name })
    } else if result == TVG_RESULT_NOT_SUPPORTED {
        Err(TvgError::NotSupported { function_name: func_name })
    } else {
        Err(TvgError::Unknown { function_name: func_name })
    }
}

} // verus!
