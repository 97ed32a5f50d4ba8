//! Plain message-queue data: queues, exchanges, message envelopes, and the
//! processor failure modes. The broker bindings live with the application.

use vstd::prelude::*;

verus! {

/// A queue to consume from, by name.
#[derive(Debug, Clone, Copy)]
pub struct Queue<'a> {
    pub name: &'a str,
}

impl<'a> Queue<'a> {
    pub fn new(name: &'a str) -> (r: Self)
        ensures
            r.name == name,
    {
        Queue { name }
    }
}

/// An exchange to publish to, with an optional fixed routing key.
#[derive(Debug, Clone, Copy)]
pub struct Exchange<'a> {
    pub name: &'a str,
    pub routing_key: Option<&'a str>,
}

impl<'a> Exchange<'a> {
    pub fn new(name: &'a str, routing_key: Option<&'a str>) -> (r: Self)
        ensures
            r.name == name,
            r.routing_key == routing_key,
    {
        Exchange { name, routing_key }
    }
}

/// The envelope every message travels in.
pub struct Envelope<M> {
    pub message: M,
}

impl<M> Envelope<M> {
    pub fn new(message: M) -> (r: Self)
        ensures
            r.message == message,
    {
        Envelope { message }
    }
}

/// How a message processor failed: temporarily, so the message may be
/// requeued, or permanently, so it may not.
#[derive(Debug)]
pub enum ProcessorError {
    TemporaryError(String),
    PermanentError(String),
}

/// Selects the broker endpoint from the process environment; the lookup
/// itself lives with the application.
pub struct CreateChannelConfigFromEnv;

} // verus!
