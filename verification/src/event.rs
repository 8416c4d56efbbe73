//! The events carried by the broadcast bus. Immutable value objects; the
//! bus's publish order is their only ordering.
use vstd::prelude::*;

verus! {

/// A room event: a session joined, left, or sent a line of text.
#[derive(Clone, Debug)]
pub enum Event {
    Join(String),
    Leave(String),
    Text { name: String, body: String },
}

/// The display name an event carries.
pub open spec fn spec_event_name(e: Event) -> Seq<char> {
    match e {
        Event::Join(n) => n@,
        Event::Leave(n) => n@,
        Event::Text { name, body: _ } => name@,
    }
}

impl Event {
    /// An equal copy of the event; unlike a derived `Clone`, its contract
    /// pins the result.
    pub fn duplicate(&self) -> (e: Event)
        ensures
            e == *self,
    {
        match self {
            Event::Join(n) => Event::Join(n.clone()),
            Event::Leave(n) => Event::Leave(n.clone()),
            Event::Text { name, body } => Event::Text { name: name.clone(), body: body.clone() },
        }
    }
}

} // verus!
