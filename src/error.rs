use vstd::prelude::*;

verus! {

/// The ways in which a clipboard operation can fail.
#[derive(Debug)]
pub enum Error {
    /// No offered format matched the requested ones, or the owner did not
    /// answer in time.
    ContentNotAvailable,
    /// Another client took ownership between storing the data and claiming
    /// the selection.
    ClipboardOccupied,
    /// The bytes could not be converted to or from the requested representation.
    ConversionFailure,
    /// A transport error or a protocol violation.
    Unknown { description: String },
}

impl Error {
    /// An `Unknown` error carrying `description`.
    pub fn unknown(description: &str) -> (r: Error)
        ensures
            r matches Error::Unknown { description: d } && d@ == description@,
    {
        Error::Unknown { description: description.to_owned() }
    }
}

/// Wraps the text of a transport error as an `Unknown` error.
pub fn into_unknown(description: String) -> (r: Error)
    ensures
        r matches Error::Unknown { description: d } && d@ == description@,
{
    Error::Unknown { description }
}

} // verus!
