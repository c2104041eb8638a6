//! The broadcast channel that carries values from one sender to every subscribed
//! receiver. The channel itself is tokio's; this module declares its two handles to
//! Verus and states, for each call the library makes, what tokio's source shows.
use vstd::prelude::*;

verus! {

/// The sending half of a tokio broadcast channel, carried through the library as an
/// opaque value.
#[verifier::external_type_specification]
#[verifier::external_body]
#[verifier::reject_recursive_types(T)]
pub struct ExBroadcastSender<T>(tokio::sync::broadcast::Sender<T>);

/// The receiving half of a tokio broadcast channel, carried through the library as an
/// opaque value.
#[verifier::external_type_specification]
#[verifier::external_body]
#[verifier::reject_recursive_types(T)]
pub struct ExBroadcastReceiver<T>(tokio::sync::broadcast::Receiver<T>);

/// Calls `tokio::sync::broadcast::channel(capacity)`.
///
/// tokio asserts `capacity > 0` and `capacity <= usize::MAX >> 1`; the `requires`
/// leaves out exactly the capacities on which it panics. The third component records,
/// as a ghost value, the capacity handed to tokio (which tokio rounds up to a power of
/// two). Nothing else is stated of the two handles: they are opaque, and tokio offers no
/// way to read a channel's capacity back.
#[verifier::external_body]
pub(crate) fn broadcast_channel<T: Clone>(capacity: usize) -> (handles: (
    tokio::sync::broadcast::Sender<T>,
    tokio::sync::broadcast::Receiver<T>,
    Ghost<nat>,
))
    requires
        0 < capacity <= usize::MAX / 2,
    ensures
        handles.2@ == capacity,
{
    let (sender, receiver) = tokio::sync::broadcast::channel(capacity);
    (sender, receiver, Ghost(capacity as nat))
}

/// Calls `tokio::sync::broadcast::Sender::send(sender, value)`.
///
/// tokio's source returns `Err(SendError(value))`, handing the very value back, when the
/// channel has no receiver at that moment, and otherwise `Ok(n)` where `n` is the
/// (non-zero) number of receivers the value was queued for. Which of the two happens
/// depends on how many receivers exist at the time of the call, which other threads
/// change, so the contract states only what holds of either outcome.
#[verifier::external_body]
pub(crate) fn broadcast_send<T>(sender: &tokio::sync::broadcast::Sender<T>, value: T) -> (r:
    Result<usize, T>)
    ensures
        r matches Ok(n) ==> n >= 1,
        r matches Err(back) ==> back == value,
{
    match sender.send(value) {
        Ok(n) => Ok(n),
        Err(e) => Err(e.0),
    }
}

/// Calls `tokio::sync::broadcast::Sender::subscribe(sender)`, which creates a new
/// receiver that sees the values sent after this call.
///
/// tokio's source asserts that fewer than `usize::MAX >> 2` receivers exist already;
/// that count is the channel's state at the time of the call, so it cannot be excluded
/// by a `requires`. Nothing is stated of the new receiver: it is opaque.
#[verifier::external_body]
pub(crate) fn broadcast_subscribe<T>(sender: &tokio::sync::broadcast::Sender<T>) -> (receiver:
    tokio::sync::broadcast::Receiver<T>) {
    sender.subscribe()
}

} // verus!
