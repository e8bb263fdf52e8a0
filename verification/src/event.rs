//! The Event entity and its repository: create one row, fetch one row by
//! identifier.
use vstd::prelude::*;

use crate::errors::AppError;
use crate::ids::{encode_id, id_of_text, id_text_of, lemma_text_round_trip, parse_id};
use crate::store::{EventRow, EventRowView, Store};

verus! {

/// A scheduled gathering: a location, a timestamp (seconds since the Unix
/// epoch, UTC) and a free-text description, keyed by a unique identifier.
pub struct Event {
    pub id: u128,
    pub location: String,
    pub time: i64,
    pub description: String,
}

pub ghost struct EventView {
    pub id: u128,
    pub location: Seq<char>,
    pub time: int,
    pub description: Seq<char>,
}

impl View for Event {
    type V = EventView;

    open spec fn view(&self) -> EventView {
        EventView {
            id: self.id,
            location: self.location@,
            time: self.time as int,
            description: self.description@,
        }
    }
}

/// The row an event is stored as: the identifier in its text form, the
/// other fields unchanged.
pub open spec fn event_row_view_of(e: EventView) -> EventRowView {
    EventRowView {
        id: id_text_of(e.id),
        location: e.location,
        time: e.time,
        description: e.description,
    }
}

/// Whether some row of the event table already carries the text form of
/// identifier `id`.
pub open spec fn event_id_taken(rows: Seq<EventRowView>, id: u128) -> bool {
    exists|i: int| 0 <= i < rows.len() && rows[i].id == id_text_of(id)
}

/// The outcome of a lookup that scans the event table from position `k`
/// and returns the first row whose identifier text matches, parsed back
/// into an event.
pub open spec fn spec_get_event_from(rows: Seq<EventRowView>, id: u128, k: int) -> Result<
    EventView,
    AppError,
>
    decreases rows.len() - k,
{
    if k < 0 || k >= rows.len() {
        Err(AppError::NotFound)
    } else if rows[k].id == id_text_of(id) {
        match id_of_text(rows[k].id) {
            Some(v) => Ok(
                EventView {
                    id: v,
                    location: rows[k].location,
                    time: rows[k].time,
                    description: rows[k].description,
                },
            ),
            None => Err(AppError::CorruptIdentifier),
        }
    } else {
        spec_get_event_from(rows, id, k + 1)
    }
}

/// The outcome of a lookup of `id` over the whole event table.
pub open spec fn spec_get_event(rows: Seq<EventRowView>, id: u128) -> Result<
    EventView,
    AppError,
> {
    spec_get_event_from(rows, id, 0)
}

/// Inserts one event row keyed by `event.id`. Fails with a storage error
/// exactly where the key is already taken, and then leaves the store
/// unchanged.
pub fn create_event(store: &mut Store, event: &Event) -> (r: Result<(), AppError>)
    ensures
        r is Ok <==> !event_id_taken(old(store)@.events, event.id),
        r is Ok ==> final(store)@.events == old(store)@.events.push(event_row_view_of(event@)),
        r is Ok ==> final(store)@.attendees == old(store)@.attendees,
        r is Err ==> *final(store) == *old(store) && r == Err::<(), AppError>(AppError::Storage),
{
    let key = encode_id(event.id);
    let n = store.events.len();
    let mut i: usize = 0;
    while i < n
        invariant
            n == store.events.len(),
            key@ == id_text_of(event.id),
            *store == *old(store),
            forall|t: int| 0 <= t < i ==> old(store)@.events[t].id != id_text_of(event.id),
        decreases n - i,
    {
        if store.events[i].id == key {
            proof {
                assert(old(store)@.events[i as int].id == id_text_of(event.id));
            }
            return Err(AppError::Storage);
        }
        i = i + 1;
    }
    let row = EventRow {
        id: key,
        location: event.location.clone(),
        time: event.time,
        description: event.description.clone(),
    };
    proof {
        assert(row@ == event_row_view_of(event@));
    }
    store.events.push(row);
    proof {
        assert(store@.events =~= old(store)@.events.push(event_row_view_of(event@)));
        assert(store@.attendees =~= old(store)@.attendees);
    }
    Ok(())
}

/// Fetches the event with identifier `event_id`: the first row whose
/// identifier text matches, parsed back; `NotFound` where no row matches.
pub fn get_event_by_id(store: &Store, event_id: u128) -> (r: Result<Event, AppError>)
    ensures
        (r matches Ok(e) ==> spec_get_event(store@.events, event_id) == Ok::<EventView, AppError>(
            e@,
        )),
        (r matches Err(er) ==> spec_get_event(store@.events, event_id) == Err::<
            EventView,
            AppError,
        >(er)),
{
    let key = encode_id(event_id);
    let n = store.events.len();
    let ghost rows = store@.events;
    let mut i: usize = 0;
    while i < n
        invariant
            n == store.events.len(),
            rows == store@.events,
            key@ == id_text_of(event_id),
            0 <= i <= n,
            spec_get_event_from(rows, event_id, 0) == spec_get_event_from(rows, event_id, i as int),
        decreases n - i,
    {
        if store.events[i].id == key {
            let row = &store.events[i];
            match parse_id(row.id.as_str()) {
                Some(v) => {
                    proof {
                        lemma_text_round_trip(event_id);
                        assert(id_of_text(rows[i as int].id) == Some(event_id));
                    }
                    let e = Event {
                        id: v,
                        location: row.location.clone(),
                        time: row.time,
                        description: row.description.clone(),
                    };
                    proof {
                        assert(spec_get_event_from(rows, event_id, i as int) == Ok::<
                            EventView,
                            AppError,
                        >(e@));
                    }
                    return Ok(e);
                },
                None => {
                    proof {
                        lemma_text_round_trip(event_id);
                        assert(false);
                    }
                    return Err(AppError::CorruptIdentifier);
                },
            }
        }
        i = i + 1;
    }
    Err(AppError::NotFound)
}

/// The round trip law: after a successful create of `e` the lookup of
/// `e.id` returns exactly `e`, field for field.
pub proof fn lemma_create_then_get(rows: Seq<EventRowView>, e: EventView)
    requires
        !event_id_taken(rows, e.id),
    ensures
        spec_get_event(rows.push(event_row_view_of(e)), e.id) == Ok::<EventView, AppError>(e),
{
    lemma_get_finds_pushed(rows, e, 0);
}

proof fn lemma_get_finds_pushed(rows: Seq<EventRowView>, e: EventView, k: int)
    requires
        0 <= k <= rows.len(),
        forall|i: int| k <= i < rows.len() ==> rows[i].id != id_text_of(e.id),
    ensures
        spec_get_event_from(rows.push(event_row_view_of(e)), e.id, k) == Ok::<
            EventView,
            AppError,
        >(e),
    decreases rows.len() - k,
{
    let rows2 = rows.push(event_row_view_of(e));
    if k == rows.len() {
        lemma_text_round_trip(e.id);
        assert(rows2[k].id == id_text_of(e.id));
    } else {
        assert(rows2[k] == rows[k]);
        lemma_get_finds_pushed(rows, e, k + 1);
    }
}

/// The not-found law: a lookup of an identifier that no row of the table
/// denotes fails with `NotFound`; it never fabricates an event.
pub proof fn lemma_get_not_found(rows: Seq<EventRowView>, id: u128)
    requires
        forall|i: int| 0 <= i < rows.len() ==> id_of_text(#[trigger] rows[i].id) != Some(id),
    ensures
        spec_get_event(rows, id) == Err::<EventView, AppError>(AppError::NotFound),
{
    lemma_get_not_found_from(rows, id, 0);
}

proof fn lemma_get_not_found_from(rows: Seq<EventRowView>, id: u128, k: int)
    requires
        0 <= k <= rows.len(),
        forall|i: int| 0 <= i < rows.len() ==> id_of_text(#[trigger] rows[i].id) != Some(id),
    ensures
        spec_get_event_from(rows, id, k) == Err::<EventView, AppError>(AppError::NotFound),
    decreases rows.len() - k,
{
    if k < rows.len() {
        if rows[k].id == id_text_of(id) {
            lemma_text_round_trip(id);
            assert(false);
        }
        lemma_get_not_found_from(rows, id, k + 1);
    }
}

/// A lookup never fabricates a foreign event and never reads a corrupt
/// row: a row is matched by the queried identifier's own text, which
/// parses back to that identifier.
pub proof fn lemma_get_event_id(rows: Seq<EventRowView>, id: u128)
    ensures
        (spec_get_event(rows, id) matches Ok(e) ==> e.id == id),
        spec_get_event(rows, id) != Err::<EventView, AppError>(AppError::CorruptIdentifier),
{
    lemma_get_event_id_from(rows, id, 0);
}

proof fn lemma_get_event_id_from(rows: Seq<EventRowView>, id: u128, k: int)
    ensures
        (spec_get_event_from(rows, id, k) matches Ok(e) ==> e.id == id),
        spec_get_event_from(rows, id, k) != Err::<EventView, AppError>(AppError::CorruptIdentifier),
    decreases rows.len() - k,
{
    if 0 <= k < rows.len() {
        if rows[k].id == id_text_of(id) {
            lemma_text_round_trip(id);
        } else {
            lemma_get_event_id_from(rows, id, k + 1);
        }
    }
}

/// All event rows carry pairwise distinct identifier texts.
pub open spec fn unique_event_ids(rows: Seq<EventRowView>) -> bool {
    forall|i: int, j: int| 0 <= i < j < rows.len() ==> rows[i].id != rows[j].id
}

/// The uniqueness law: a successful create never duplicates an
/// identifier, so the table keeps pairwise distinct keys.
pub proof fn lemma_create_preserves_unique(rows: Seq<EventRowView>, e: EventView)
    requires
        unique_event_ids(rows),
        !event_id_taken(rows, e.id),
    ensures
        unique_event_ids(rows.push(event_row_view_of(e))),
{
    let rows2 = rows.push(event_row_view_of(e));
    assert forall|i: int, j: int| 0 <= i < j < rows2.len() implies rows2[i].id != rows2[j].id by {
        if j == rows.len() {
            assert(rows2[i] == rows[i]);
            assert(!(rows[i].id == id_text_of(e.id)));
        } else {
            assert(rows2[i] == rows[i] && rows2[j] == rows[j]);
        }
    }
}

} // verus!
