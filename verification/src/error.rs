//! What a transition, or one of its steps, can fail with.
use vstd::prelude::*;

verus! {

/// The slot that the caller presented may not be used.
#[derive(Clone, Copy, Debug, PartialEq, Eq)]
pub enum AuthorityError {
    /// The slot is not marked writable.
    NotWritable,
    /// The slot belongs to another program.
    WrongOwner,
}

/// Bytes do not follow the layout.
#[derive(Clone, Copy, Debug, PartialEq, Eq)]
pub enum DecodeError {
    /// The bytes end too early, a count runs past the end, a selector, presence byte
    /// or flag is neither 0 nor 1, a text is not UTF-8, or a payload goes on after its
    /// text.
    Malformed,
}

/// A record cannot be written.
#[derive(Clone, Copy, Debug, PartialEq, Eq)]
pub enum EncodeError {
    /// The encoding is longer than the destination.
    CapacityExceeded,
    /// A text has more UTF-8 bytes than a 32-bit count can state.
    TextTooLong,
}

/// The record is in a state that does not admit the transition.
#[derive(Clone, Copy, Debug, PartialEq, Eq)]
pub enum StateError {
    /// The record already carries its response.
    AlreadyFinalized,
}

/// Why an operation was turned down. Nothing was written when one of these comes
/// back.
#[derive(Clone, Copy, Debug, PartialEq, Eq)]
pub enum TransitionError {
    /// The payload does not encode an operation.
    Payload(DecodeError),
    /// No slot was presented.
    MissingSlot,
    /// The first slot may not be used.
    Authority(AuthorityError),
    /// The slot does not hold a record.
    Stored(DecodeError),
    /// The new record cannot be written into the slot.
    Encode(EncodeError),
    /// The record does not admit the operation.
    State(StateError),
}

} // verus!
