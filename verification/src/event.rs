//! The events that the host is told.

use vstd::prelude::*;

verus! {

/// Names one connection for as long as it is in the directory.
pub type Identifier = u32;

/// What the host is told about its clients.
#[derive(Debug)]
pub enum Event {
    /// The client is ready for traffic on both transports.
    Open(Identifier),
    /// A transport of the client has ended, or its closure was asked for.
    Closed(Identifier),
    /// An opaque payload that the client sent.
    Received(Identifier, Vec<u8>),
}

/// The mathematical value of an [`Event`].
pub ghost enum EventModel {
    Open(Identifier),
    Closed(Identifier),
    Received(Identifier, Seq<u8>),
}

impl EventModel {
    /// The connection that the event speaks of.
    pub open spec fn id(self) -> Identifier {
        match self {
            EventModel::Open(id) => id,
            EventModel::Closed(id) => id,
            EventModel::Received(id, _) => id,
        }
    }
}

impl View for Event {
    type V = EventModel;

    open spec fn view(&self) -> EventModel {
        match self {
            Event::Open(id) => EventModel::Open(*id),
            Event::Closed(id) => EventModel::Closed(*id),
            Event::Received(id, payload) => EventModel::Received(*id, payload@),
        }
    }
}

impl Event {
    /// The connection that the event speaks of.
    pub fn id(&self) -> (id: Identifier)
        ensures
            id == self@.id(),
    {
        match self {
            Event::Open(id) => *id,
            Event::Closed(id) => *id,
            Event::Received(id, _) => *id,
        }
    }
}

} // verus!
