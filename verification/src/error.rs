use vstd::prelude::*;

verus! {

/// The kinds of failure that the control plane reports.
#[derive(Clone, Copy, Debug, PartialEq, Eq, Structural, Hash)]
pub enum ErrorKind {
    /// An index name is not bound, or no live index exists for a uuid.
    NotFound,
    /// A name or a uuid is already bound.
    AlreadyExists,
    /// The channel to an actor is closed.
    ActorUnavailable,
    /// The source of a payload failed in mid-stream.
    TransportError,
    /// The index engine rejected an operation.
    EngineError,
    /// The operation is a stub.
    Unimplemented,
    /// A request to create an index carries no name.
    MissingName,
}

} // verus!
