use vstd::prelude::*;

verus! {

/// Error returned by a push on a buffer that has no writable slot right now.
#[derive(Debug)]
pub struct Full;

/// Error carrying a value back to the caller when the other end of a
/// channel is gone.
#[derive(Debug)]
pub struct Closed<T>(pub T);

/// Outcome of a failed non-blocking send. The value is handed back so the
/// caller may reuse it.
#[derive(Debug)]
pub enum TrySendError<T> {
    /// The ring has no writable slot right now; retrying later may succeed.
    Full(T),
    /// The receiving end is gone; no later send can succeed.
    Closed(T),
}

/// Outcome of a failed non-blocking receive.
#[derive(Debug, PartialEq, Eq, Structural)]
pub enum TryRecvError {
    /// The ring has no readable slot right now; retrying later may succeed.
    Empty,
    /// The channel is closed and every message sent before the close has
    /// been received: end of stream.
    Closed,
}

} // verus!
