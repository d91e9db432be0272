//! Errors of model switching.

use vstd::prelude::*;

verus! {

/// Why a model cannot be made ready for a request.
#[derive(Debug)]
pub enum SwitchError {
    /// The model is not configured.
    ModelNotFound(String),
    /// The model did not become ready.
    NotReady(String),
    /// The request waited longer than the policy allows.
    Timeout,
    /// A lifecycle script failed.
    HookFailed { model: String, detail: String },
    /// Anything else.
    Internal(String),
}

} // verus!
