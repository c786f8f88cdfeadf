//! The ways in which building a kernel or filtering an image can fail.
use vstd::prelude::*;
use vstd::string::StringExecFns;

verus! {

/// Why an operation of this crate did not produce its result.
#[derive(Debug, PartialEq, Eq)]
pub enum ErrorKind {
    /// The kernel is empty, ragged, has an even dimension, a zero divisor, or
    /// an anchor outside its cells.
    InvalidKernel,
    /// The image has zero width or zero height.
    EmptyImage,
    /// One catalog entry could not be applied; the other entries are
    /// unaffected.
    FilterFailed {
        /// Name of the catalog entry that failed.
        name: String,
        /// What went wrong while applying it.
        cause: Box<ErrorKind>,
    },
}

/// The text that [`ErrorKind::message`] produces.
pub open spec fn message_of(error: ErrorKind) -> Seq<char>
    decreases error,
{
    match error {
        ErrorKind::InvalidKernel => "invalid kernel"@,
        ErrorKind::EmptyImage => "empty image"@,
        ErrorKind::FilterFailed { name, cause } => "filter "@ + name@ + " failed: "@ + message_of(*cause),
    }
}

impl ErrorKind {
    /// A one-line description: `invalid kernel`, `empty image`, or
    /// `filter <name> failed: <cause>`.
    pub fn message(&self) -> (text: String)
        ensures
            text@ == message_of(*self),
        decreases self,
    {
        match self {
            ErrorKind::InvalidKernel => String::from_str("invalid kernel"),
            ErrorKind::EmptyImage => String::from_str("empty image"),
            ErrorKind::FilterFailed { name, cause } => {
                let reason: String = cause.message();
                String::from_str("filter ").concat(name.as_str()).concat(" failed: ").concat(
                    reason.as_str(),
                )
            },
        }
    }
}

} // verus!
