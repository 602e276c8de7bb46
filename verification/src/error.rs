use vstd::prelude::*;

verus! {

/// The code the native layer uses for an entity that was killed.
pub const KILLED: i32 = -12;

/// An integer error as the native client library reports it.
///
/// The library never interprets the code, with one exception: the fixed
/// code [`KILLED`], which it produces itself for a cancelled operation.
#[derive(Clone, Copy, Debug, PartialEq, Eq, Structural)]
pub struct NativeError {
    pub code: i32,
}

impl NativeError {
    /// The error for a cancelled operation, as a specification value.
    pub open spec fn killed_spec() -> NativeError {
        NativeError { code: KILLED }
    }

    /// Wraps a native error code.
    pub fn new(code: i32) -> (error: NativeError)
        ensures
            error == (NativeError { code }),
    {
        NativeError { code }
    }

    /// The error for a cancelled operation. It is built from the fixed code
    /// and carries no further diagnostic.
    #[verifier::when_used_as_spec(killed_spec)]
    pub fn killed() -> (error: NativeError)
        ensures
            error == NativeError::killed_spec(),
            error.code == -12,
    {
        NativeError { code: KILLED }
    }

    /// The wrapped native code.
    pub fn code(&self) -> (code: i32)
        ensures
            code == self.code,
    {
        self.code
    }

    /// Whether this is the error of a cancelled operation.
    pub fn is_killed(&self) -> (killed: bool)
        ensures
            killed == (*self == NativeError::killed_spec()),
    {
        self.code == KILLED
    }
}

} // verus!
