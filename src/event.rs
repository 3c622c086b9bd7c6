use vstd::prelude::*;

use std::sync::mpsc::{Receiver, RecvError};

use crate::keys::Key;

verus! {

/// One event of the stream that drives the application: a key press, or a
/// tick of the timer.
#[derive(Debug)]
pub enum Event<I> {
    Input(I),
    Tick,
}

/// The receiving end of a channel, as std gives it.
#[verifier::external_type_specification]
#[verifier::external_body]
#[verifier::reject_recursive_types(T)]
pub struct ExReceiver<T>(Receiver<T>);

/// The error of a receive on a channel whose senders are all gone.
#[verifier::external_type_specification]
#[verifier::external_body]
pub struct ExRecvError(RecvError);

/// Relies on std's `Receiver::recv`: blocks until a value sent on the
/// channel arrives, or fails once every sender is gone.
#[verifier::external_body]
fn receive(rx: &Receiver<Event<Key>>) -> (r: Result<Event<Key>, RecvError>) {
    rx.recv()
}

/// The single reader of the event stream: events come out in the order in
/// which the producer sent them.
#[derive(Debug)]
pub struct EventListener {
    rx: Receiver<Event<Key>>,
}

impl EventListener {
    /// A listener that reads the events sent on the other end of `rx`.
    pub fn new(rx: Receiver<Event<Key>>) -> (l: EventListener) {
        EventListener { rx }
    }

    /// Waits for the next event; fails once the producer is gone.
    pub fn next(&self) -> (r: Result<Event<Key>, RecvError>) {
        receive(&self.rx)
    }
}

/// How long to wait for input before the next tick is due, in milliseconds:
/// the interval less the time elapsed since the last tick, and nothing once
/// the tick is due.
pub fn poll_timeout(interval_ms: u64, elapsed_ms: u64) -> (wait: u64)
    ensures
        wait == if elapsed_ms >= interval_ms {
            0
        } else {
            interval_ms - elapsed_ms
        },
        wait <= interval_ms,
{
    if elapsed_ms >= interval_ms {
        0
    } else {
        interval_ms - elapsed_ms
    }
}

/// Whether a tick is due: the time elapsed since the last tick has reached
/// the interval.
pub fn tick_due(interval_ms: u64, elapsed_ms: u64) -> (due: bool)
    ensures
        due == (elapsed_ms >= interval_ms),
{
    elapsed_ms >= interval_ms
}

} // verus!
