//! What a non-blocking receive on a channel can bring.

use vstd::prelude::*;

verus! {

/// What a poll of a channel brought.
#[derive(Clone, Debug, PartialEq, Eq)]
pub enum Polled<T> {
    /// A message.
    Item(T),
    /// Nothing yet.
    Empty,
    /// Nothing ever again: the sender is gone.
    Disconnected,
}

} // verus!
