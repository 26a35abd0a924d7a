use vstd::prelude::*;

verus! {

/// The failure taxonomy of this layer.
///
/// `InvalidConfiguration` and `MissingConfiguration` come from the command
/// builder; `InvalidInput`, `MalformedRecord` and `UnknownStatus` from parsing
/// runtime-reported text; `RuntimeOperationFailed` and `NotFound` from the
/// lifecycle operations.
#[derive(Debug, Clone, Copy, PartialEq, Eq, Structural)]
pub enum DockerErrorKind {
    InvalidConfiguration,
    MissingConfiguration,
    InvalidInput,
    MalformedRecord,
    UnknownStatus,
    RuntimeOperationFailed,
    NotFound,
}

/// An error returned by any operation of this layer: a kind from the closed
/// taxonomy plus a human-readable diagnostic message.
#[derive(Debug, Clone)]
pub struct DockerError {
    pub kind: DockerErrorKind,
    pub message: String,
}

impl DockerError {
    pub fn new(kind: DockerErrorKind, message: &str) -> (r: Self)
        ensures
            r.kind == kind,
            r.message@ == message@,
    {
        DockerError { kind, message: String::from_str(message) }
    }
}

} // verus!
