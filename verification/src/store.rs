//! The durable store: two tables of rows whose identifier columns hold
//! the canonical text form of the identifiers.
//!
//! Identifiers are serialized to text on write and parsed back on read,
//! so a read has an explicit `CorruptIdentifier` failure path where a
//! stored text no longer parses.
use vstd::prelude::*;

verus! {

/// A row of the event table: `id` holds an identifier's text form.
pub struct EventRow {
    pub id: String,
    pub location: String,
    pub time: i64,
    pub description: String,
}

pub ghost struct EventRowView {
    pub id: Seq<char>,
    pub location: Seq<char>,
    pub time: int,
    pub description: Seq<char>,
}

impl View for EventRow {
    type V = EventRowView;

    open spec fn view(&self) -> EventRowView {
        EventRowView {
            id: self.id@,
            location: self.location@,
            time: self.time as int,
            description: self.description@,
        }
    }
}

/// A row of the attendee table: `id` and `event_id` hold identifier
/// text forms.
pub struct AttendeeRow {
    pub id: String,
    pub event_id: String,
    pub first_name: String,
    pub last_name: String,
}

pub ghost struct AttendeeRowView {
    pub id: Seq<char>,
    pub event_id: Seq<char>,
    pub first_name: Seq<char>,
    pub last_name: Seq<char>,
}

impl View for AttendeeRow {
    type V = AttendeeRowView;

    open spec fn view(&self) -> AttendeeRowView {
        AttendeeRowView {
            id: self.id@,
            event_id: self.event_id@,
            first_name: self.first_name@,
            last_name: self.last_name@,
        }
    }
}

/// The embedded store: the event table and the attendee table.
pub struct Store {
    pub events: Vec<EventRow>,
    pub attendees: Vec<AttendeeRow>,
}

pub ghost struct StoreView {
    pub events: Seq<EventRowView>,
    pub attendees: Seq<AttendeeRowView>,
}

impl View for Store {
    type V = StoreView;

    open spec fn view(&self) -> StoreView {
        StoreView {
            events: self.events@.map_values(|r: EventRow| r@),
            attendees: self.attendees@.map_values(|r: AttendeeRow| r@),
        }
    }
}

impl Store {
    /// A store with no rows.
    pub fn new() -> (r: Store)
        ensures
            r@.events == Seq::<EventRowView>::empty(),
            r@.attendees == Seq::<AttendeeRowView>::empty(),
    {
        let r = Store { events: Vec::new(), attendees: Vec::new() };
        proof {
            assert(r@.events =~= Seq::<EventRowView>::empty());
            assert(r@.attendees =~= Seq::<AttendeeRowView>::empty());
        }
        r
    }
}

} // verus!
