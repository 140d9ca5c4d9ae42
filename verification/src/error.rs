use vstd::prelude::*;

verus! {

/// The ways an operation on the store or on the bytes of a message can fail.
/// Failures of sockets, pipes and locks belong to the program around the
/// library, which reports them with the errors of the calls that failed.
#[derive(Debug, Clone, Copy, PartialEq, Eq, Structural)]
pub enum Error {
    /// A message is malformed: the bytes start with the wire form of no
    /// message of the kind that was expected.
    ProtocolError,
    /// A position refers to no stored clipping.
    NotFound,
}

} // verus!
