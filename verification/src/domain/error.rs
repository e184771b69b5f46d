//! Domain layer error definitions.

use vstd::prelude::*;

verus! {

/// Errors raised when a value object rejects its input.
#[derive(Debug, Clone, PartialEq, Eq)]
pub enum ValueObjectError {
    /// The client identifier was empty.
    ClientIdEmpty,
    /// The client identifier was longer than `max` bytes.
    ClientIdTooLong { max: usize, actual: usize },
    /// The room identifier was empty.
    RoomIdEmpty,
    /// The room identifier was longer than `max` bytes.
    RoomIdTooLong { max: usize, actual: usize },
    /// The message content was empty.
    MessageContentEmpty,
    /// The message content was longer than `max` bytes.
    MessageContentTooLong { max: usize, actual: usize },
}

/// Errors raised by the room aggregate.
#[derive(Debug, Clone, PartialEq, Eq)]
pub enum RoomError {
    /// The room already holds `capacity` participants.
    CapacityExceeded { capacity: usize, current: usize },
    /// The room already holds `capacity` messages.
    MessageCapacityExceeded { capacity: usize, current: usize },
}

} // verus!
