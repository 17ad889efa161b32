use vstd::prelude::*;

verus! {

/// Failure kinds of the inference bridge; each carries a human-readable detail.
#[derive(Debug, Clone)]
pub enum ModelExecutorError {
    InitializationError(String),
    LoadError(String),
    ExecutionError(String),
    InputError(String),
    OutputError(String),
    AllocationError(String),
    FFIError(String),
    AsyncChannelError(String),
}

} // verus!
