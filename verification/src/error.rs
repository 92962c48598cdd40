//! Failures of the native runtime.

use vstd::prelude::*;
use vstd::string::StringExecFns;

verus! {

/// Why the native runtime could not be used.
#[derive(Debug)]
pub enum NdiError {
    /// The runtime library was not found; the text says how loading failed.
    DllNotFound(String),
    /// The runtime refused to initialise.
    InitFailed,
    /// The runtime returned no finder.
    FindCreateFailed,
    /// The runtime returned no receiver.
    RecvCreateFailed,
}

impl NdiError {
    /// The text an error is shown with.
    pub open spec fn message_spec(self) -> Seq<char> {
        match self {
            NdiError::DllNotFound(text) => text@,
            NdiError::InitFailed => "NDI initialization failed"@,
            NdiError::FindCreateFailed => "failed to create find instance"@,
            NdiError::RecvCreateFailed => "failed to create receive instance"@,
        }
    }

    /// The text the error is shown with.
    pub fn message(&self) -> (text: String)
        ensures
            text@ == self.message_spec(),
    {
        match self {
            NdiError::DllNotFound(text) => text.clone(),
            NdiError::InitFailed => String::from_str("NDI initialization failed"),
            NdiError::FindCreateFailed => String::from_str("failed to create find instance"),
            NdiError::RecvCreateFailed => String::from_str("failed to create receive instance"),
        }
    }

    /// Whether the runtime is missing altogether, which calls for a hint on
    /// where to get it rather than for a log line.
    pub fn is_runtime_missing(&self) -> (missing: bool)
        ensures
            missing == (self is DllNotFound),
    {
        match self {
            NdiError::DllNotFound(_) => true,
            _ => false,
        }
    }

    /// The error for a runtime library that failed to load for `reason`.
    pub fn load_failed(reason: &str) -> (error: NdiError)
        ensures
            error is DllNotFound,
            error.message_spec() == "failed to load NDI runtime DLL: "@ + reason@,
    {
        NdiError::DllNotFound(String::from_str("failed to load NDI runtime DLL: ").concat(reason))
    }
}

} // verus!
