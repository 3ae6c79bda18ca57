//! Telemetry: what the engines report about each batch.
//!
//! The engines append one event for every datagram they move and one for every
//! error they surface. The publisher keeps the events in the order they were
//! published; its owner reads them after the call and forwards them wherever
//! it likes. Publishing cannot fail and never blocks.

use vstd::prelude::*;

verus! {

/// Datagrams were handed to the socket.
#[derive(Clone, Copy, Debug, PartialEq, Eq, Structural)]
pub struct PlatformTx {
    /// How many datagrams this event accounts for.
    pub count: usize,
}

/// Datagrams were taken from the socket.
#[derive(Clone, Copy, Debug, PartialEq, Eq, Structural)]
pub struct PlatformRx {
    /// How many datagrams this event accounts for.
    pub count: usize,
}

/// The socket failed in a way the engine does not absorb. Both engines report
/// their failures with this event.
#[derive(Clone, Copy, Debug, PartialEq, Eq, Structural)]
pub struct PlatformRxError {
    /// The operating system's error number at the time of the report.
    pub errno: i32,
}

/// One published event.
#[derive(Clone, Copy, Debug, PartialEq, Eq, Structural)]
pub enum Event {
    PlatformTx(PlatformTx),
    PlatformRx(PlatformRx),
    PlatformRxError(PlatformRxError),
}

/// `count` events, each accounting for one transmitted datagram.
pub open spec fn tx_events(count: nat) -> Seq<Event> {
    Seq::new(count, |i: int| Event::PlatformTx(PlatformTx { count: 1 }))
}

/// `count` events, each accounting for one received datagram.
pub open spec fn rx_events(count: nat) -> Seq<Event> {
    Seq::new(count, |i: int| Event::PlatformRx(PlatformRx { count: 1 }))
}

/// The sink the engines publish to: an append-only record of events.
#[derive(Debug)]
pub struct Publisher {
    events: Vec<Event>,
}

impl View for Publisher {
    type V = Seq<Event>;

    closed spec fn view(&self) -> Seq<Event> {
        self.events@
    }
}

impl Publisher {
    /// A publisher with nothing published.
    pub fn new() -> (publisher: Publisher)
        ensures
            publisher@ == Seq::<Event>::empty(),
    {
        Publisher { events: Vec::new() }
    }

    /// Records that datagrams were transmitted.
    pub fn on_platform_tx(&mut self, event: PlatformTx)
        ensures
            final(self)@ == old(self)@.push(Event::PlatformTx(event)),
    {
        self.events.push(Event::PlatformTx(event));
    }

    /// Records that datagrams were received.
    pub fn on_platform_rx(&mut self, event: PlatformRx)
        ensures
            final(self)@ == old(self)@.push(Event::PlatformRx(event)),
    {
        self.events.push(Event::PlatformRx(event));
    }

    /// Records a socket failure.
    pub fn on_platform_rx_error(&mut self, event: PlatformRxError)
        ensures
            final(self)@ == old(self)@.push(Event::PlatformRxError(event)),
    {
        self.events.push(Event::PlatformRxError(event));
    }

    /// Everything published so far, oldest first.
    pub fn events(&self) -> (events: &Vec<Event>)
        ensures
            events@ == self@,
    {
        &self.events
    }
}

} // verus!
