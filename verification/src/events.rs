//! Container events: a broadcast channel that every subscriber reads from.

use vstd::prelude::*;
use vstd::string::*;
use crate::types::{ContainerEvent, ContainerEventType, health_event_type};

verus! {

#[verifier::external_type_specification]
#[verifier::external_body]
#[verifier::reject_recursive_types(T)]
pub struct ExBroadcastSender<T>(tokio::sync::broadcast::Sender<T>);

#[verifier::external_type_specification]
#[verifier::external_body]
#[verifier::reject_recursive_types(T)]
pub struct ExBroadcastReceiver<T>(tokio::sync::broadcast::Receiver<T>);

/// The capacity that a broadcast channel's sender was made with.
pub uninterp spec fn made_with_capacity(s: tokio::sync::broadcast::Sender<ContainerEvent>) -> nat;

/// Calls `tokio::sync::broadcast::channel` with the given capacity and keeps
/// the sending half (the first receiving half is dropped). `channel` panics on
/// a capacity of 0 or above `usize::MAX / 2`, which `requires` leaves out.
/// Claimed: the sender is that of a channel made with `capacity` (tokio rounds
/// the buffer up to a power of two; that rounding is not stated).
#[verifier::external_body]
fn broadcast_channel(capacity: usize) -> (s: tokio::sync::broadcast::Sender<ContainerEvent>)
    requires
        0 < capacity <= usize::MAX / 2,
    ensures
        made_with_capacity(s) == capacity,
{
    let (sender, _receiver) = tokio::sync::broadcast::channel(capacity);
    sender
}

/// Calls `Clone::clone` on a `tokio::sync::broadcast::Sender`: another
/// sender of the same channel. Claimed: it is that of a channel made with the
/// same capacity.
#[verifier::external_body]
fn broadcast_sender_clone(sender: &tokio::sync::broadcast::Sender<ContainerEvent>) -> (r: tokio::sync::broadcast::Sender<ContainerEvent>)
    ensures
        made_with_capacity(r) == made_with_capacity(*sender),
{
    sender.clone()
}

/// Calls `tokio::sync::broadcast::Sender::send`; gives the number of receivers
/// reached, or `None` when the channel has no receiver (the `SendError`).
/// Nothing is claimed of the channel's state: it is shared between threads.
#[verifier::external_body]
fn broadcast_send(sender: &tokio::sync::broadcast::Sender<ContainerEvent>, event: ContainerEvent) -> (r: Option<usize>) {
    match sender.send(event) {
        Ok(n) => Some(n),
        Err(_) => None,
    }
}

/// Calls `tokio::sync::broadcast::Sender::subscribe`: a receiver of the events
/// sent from now on. Nothing is claimed of it.
#[verifier::external_body]
fn broadcast_subscribe(sender: &tokio::sync::broadcast::Sender<ContainerEvent>) -> (r: tokio::sync::broadcast::Receiver<ContainerEvent>) {
    sender.subscribe()
}

/// Calls `tokio::sync::broadcast::Receiver::try_recv`: the next event, or
/// `None` for any `TryRecvError` (empty, lagged or closed). Nothing is claimed
/// of which event comes: that depends on the other senders and receivers.
#[verifier::external_body]
fn broadcast_try_recv(receiver: &mut tokio::sync::broadcast::Receiver<ContainerEvent>) -> (r: Option<ContainerEvent>) {
    match receiver.try_recv() {
        Ok(e) => Some(e),
        Err(_) => None,
    }
}

/// Broadcasts container events to every subscriber.
pub struct EventBroadcaster {
    sender: tokio::sync::broadcast::Sender<ContainerEvent>,
}

/// A subscriber's end of the event channel.
pub struct EventReceiver {
    receiver: tokio::sync::broadcast::Receiver<ContainerEvent>,
}

impl EventBroadcaster {
    /// The capacity that the broadcaster's channel was made with.
    pub closed spec fn capacity(&self) -> nat {
        made_with_capacity(self.sender)
    }

    /// A broadcaster that holds up to `capacity` unread events per subscriber
    /// (rounded up to a power of two).
    pub fn new(capacity: usize) -> (b: Self)
        requires
            0 < capacity <= usize::MAX / 2,
        ensures
            b.capacity() == capacity,
    {
        EventBroadcaster { sender: broadcast_channel(capacity) }
    }

    /// A receiver of the events sent from now on.
    pub fn subscribe(&self) -> (r: EventReceiver) {
        EventReceiver { receiver: broadcast_subscribe(&self.sender) }
    }

    /// Sends an event; an event sent while no one subscribes is dropped.
    pub fn send(&self, event: ContainerEvent) {
        let _ = broadcast_send(&self.sender, event);
    }

    /// Sends an event of the given type for a container, at time `timestamp`.
    pub fn emit(&self, event_type: ContainerEventType, container_id: &str, timestamp: u64) {
        self.send(ContainerEvent::new(event_type, container_id, timestamp));
    }

    /// Sends a create event.
    pub fn emit_create(&self, container_id: &str, timestamp: u64) {
        self.emit(ContainerEventType::Create, container_id, timestamp);
    }

    /// Sends a start event.
    pub fn emit_start(&self, container_id: &str, timestamp: u64) {
        self.emit(ContainerEventType::Start, container_id, timestamp);
    }

    /// Sends a stop event.
    pub fn emit_stop(&self, container_id: &str, timestamp: u64) {
        self.emit(ContainerEventType::Stop, container_id, timestamp);
    }

    /// Sends a die event with the process's exit code: the event
    /// `ContainerEvent::die` gives.
    pub fn emit_die(&self, container_id: &str, exit_code: i32, timestamp: u64) {
        self.send(ContainerEvent::die(container_id, exit_code, timestamp));
    }

    /// Sends a delete event.
    pub fn emit_delete(&self, container_id: &str, timestamp: u64) {
        self.emit(ContainerEventType::Delete, container_id, timestamp);
    }

    /// Sends an out-of-memory event.
    pub fn emit_oom(&self, container_id: &str, timestamp: u64) {
        self.emit(ContainerEventType::Oom, container_id, timestamp);
    }

    /// Sends the result of a health check.
    pub fn emit_health(&self, container_id: &str, healthy: bool, timestamp: u64) {
        self.emit(health_event_type(healthy), container_id, timestamp);
    }
}

impl Default for EventBroadcaster {
    fn default() -> (b: Self)
        ensures
            b.capacity() == 256,
    {
        Self::new(256)
    }
}

impl Clone for EventBroadcaster {
    /// Another broadcaster on the same channel.
    fn clone(&self) -> (b: Self)
        ensures
            b.capacity() == self.capacity(),
    {
        EventBroadcaster { sender: broadcast_sender_clone(&self.sender) }
    }
}

impl EventReceiver {
    /// The channel's receiving end that this subscriber holds.
    pub closed spec fn spec_receiver(&self) -> tokio::sync::broadcast::Receiver<ContainerEvent> {
        self.receiver
    }

    /// The channel's receiving end, for a caller that waits for events: the
    /// very receiver this subscriber holds, so no event is lost in the hand-over.
    pub fn into_receiver(self) -> (r: tokio::sync::broadcast::Receiver<ContainerEvent>)
        ensures
            r == self.spec_receiver(),
    {
        self.receiver
    }

    /// The next event, if one is waiting (a lagged or closed channel gives none).
    pub fn try_recv(&mut self) -> (e: Option<ContainerEvent>) {
        broadcast_try_recv(&mut self.receiver)
    }
}

} // verus!
