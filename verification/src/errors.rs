use vstd::prelude::*;

verus! {

/// The failure taxonomy of the registry. Every operation reports its failure
/// through one of these variants and commits nothing when it does.
#[derive(Clone, Copy, PartialEq, Eq, Structural, Debug)]
pub enum Error {
    /// A field exceeds a configured bound, or a value is out of its allowed range.
    ValidationError,
    /// An index is at its configured limit.
    CapacityError,
    /// A referenced key is absent.
    NotFoundError,
    /// The caller is not the recorded owner, or is the app owner attempting to
    /// review their own app.
    AuthorizationError,
    /// A derived key is already present in the store.
    DuplicateError,
    /// A counter is at its representable maximum.
    ArithmeticOverflow,
}

} // verus!
