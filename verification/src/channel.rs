//! Trusted boundary to tokio's channel primitives.
//!
//! The engine keeps its event queue and its state broadcast in tokio's
//! `mpsc` and `broadcast` channels. Their construction and the synchronous
//! half of their interface stand here behind trusted wrappers; the awaiting
//! half (receiving) is driven by the host that runs the dispatch loop.

use vstd::prelude::*;

verus! {

#[verifier::external_type_specification]
#[verifier::external_body]
#[verifier::reject_recursive_types(T)]
pub struct ExMpscSender<T>(tokio::sync::mpsc::Sender<T>);

#[verifier::external_type_specification]
#[verifier::external_body]
#[verifier::reject_recursive_types(T)]
pub struct ExMpscReceiver<T>(tokio::sync::mpsc::Receiver<T>);

#[verifier::external_type_specification]
#[verifier::external_body]
#[verifier::reject_recursive_types(T)]
pub struct ExBroadcastSender<T>(tokio::sync::broadcast::Sender<T>);

#[verifier::external_type_specification]
#[verifier::external_body]
#[verifier::reject_recursive_types(T)]
pub struct ExBroadcastReceiver<T>(tokio::sync::broadcast::Receiver<T>);

/// Relies on `tokio::sync::mpsc::channel`: builds a bounded FIFO queue with
/// the given capacity. It panics only when the buffer size is zero or
/// exceeds the semaphore permit bound `usize::MAX / 8`, both of which the
/// precondition rules out.
#[verifier::external_body]
pub(crate) fn event_channel<T>(size: usize) -> (r: (
    tokio::sync::mpsc::Sender<T>,
    tokio::sync::mpsc::Receiver<T>,
))
    requires
        1 <= size <= usize::MAX / 8,
{
    tokio::sync::mpsc::channel(size)
}

/// Relies on `tokio::sync::broadcast::channel`: builds a multicast channel
/// whose every subscriber buffers up to the given capacity. It panics only
/// when the capacity is zero or exceeds `usize::MAX / 2`, which the
/// precondition rules out.
#[verifier::external_body]
pub(crate) fn state_channel<T: Clone>(size: usize) -> (r: (
    tokio::sync::broadcast::Sender<T>,
    tokio::sync::broadcast::Receiver<T>,
))
    requires
        1 <= size <= usize::MAX / 2,
{
    tokio::sync::broadcast::channel(size)
}

/// Relies on `tokio::sync::broadcast::Sender::subscribe`: the new receiver
/// observes only values published after this call.
#[verifier::external_body]
pub(crate) fn state_subscribe<T>(sender: &tokio::sync::broadcast::Sender<T>) -> (r:
    tokio::sync::broadcast::Receiver<T>)
{
    sender.subscribe()
}

/// Relies on `tokio::sync::broadcast::Sender::send`: it hands the value to
/// every live receiver without blocking, and fails exactly when no receiver
/// exists. The result reports whether any receiver was reached; with none,
/// publishing is a harmless no-op.
#[verifier::external_body]
pub(crate) fn state_publish<T>(sender: &tokio::sync::broadcast::Sender<T>, value: T) -> (delivered:
    bool)
{
    match sender.send(value) {
        Ok(_) => true,
        Err(_) => false,
    }
}

} // verus!
