//! The request handlers: validate the parsed pieces of a request, invoke
//! the repositories, and map every outcome to a response.
//!
//! Each request passes three stages: parsing (a malformed path identifier
//! or form field yields a client error and the repositories are never
//! invoked), executing (repository calls), and responding (a page value
//! for reads, a redirect path for writes, an error otherwise).
use vstd::prelude::*;

use crate::attendee::{
    attendee_id_taken, attendee_row_view_of, create_attendee, lemma_attendee_create_preserves_unique,
    spec_list_attendees, unique_attendee_ids, Attendee, AttendeeView,
};
use crate::errors::AppError;
use crate::event::{
    create_event, event_id_taken, event_row_view_of, get_event_by_id, lemma_create_preserves_unique,
    spec_get_event, unique_event_ids, Event, EventView,
};
use crate::ids::{encode_id, generate_id, id_of_text, id_text_of, parse_id};
use crate::store::{Store, StoreView};

verus! {

/// What `chrono::DateTime::parse_from_rfc3339` yields for a text, reduced
/// to whole seconds since the Unix epoch, or `None` where the text is not
/// a valid RFC 3339 timestamp. The outcome is a function of the text
/// alone.
pub uninterp spec fn rfc3339_utc_secs_of(s: Seq<char>) -> Option<i64>;

/// Parses an RFC 3339 timestamp (for example `2024-06-01T10:00:00Z`) into
/// whole seconds since the Unix epoch, UTC.
///
/// Relies on `chrono::DateTime::parse_from_rfc3339`, which reads the
/// offset from the text itself, and `chrono::DateTime::timestamp`, whose
/// result counts non-leap seconds since the epoch; both depend on the
/// text alone.
#[verifier::external_body]
pub(crate) fn parse_rfc3339_utc(s: &str) -> (r: Option<i64>)
    ensures
        r == rfc3339_utc_secs_of(s@),
{
    match chrono::DateTime::parse_from_rfc3339(s) {
        Ok(dt) => Some(dt.timestamp()),
        Err(_) => None,
    }
}

/// The new-event form after validation: the timestamp field parsed.
pub struct NewEventForm {
    pub location: String,
    pub time_utc: i64,
    pub desc: String,
    pub first_name: String,
    pub last_name: String,
}

/// The new-attendee form: two free-text names, nothing to validate.
pub struct NewAttendeeForm {
    pub first_name: String,
    pub last_name: String,
}

/// The data a rendered event page is made of: the event and its
/// attendees.
pub struct EventPage {
    pub event: Event,
    pub attendees: Vec<Attendee>,
}

/// The path of an event's canonical page.
pub open spec fn event_page_path(id: u128) -> Seq<char> {
    "/event/"@ + id_text_of(id)
}

/// Validates the raw fields of a new-event form. Succeeds exactly where
/// the timestamp field is a valid RFC 3339 timestamp; a malformed one is
/// a parse failure, reported before any repository is touched.
pub fn parse_new_event_form(
    location: String,
    time_utc: &str,
    desc: String,
    first_name: String,
    last_name: String,
) -> (r: Result<NewEventForm, AppError>)
    ensures
        r is Ok <==> rfc3339_utc_secs_of(time_utc@) is Some,
        (r matches Ok(f) ==> {
            &&& f.location@ == location@
            &&& Some(f.time_utc) == rfc3339_utc_secs_of(time_utc@)
            &&& f.desc@ == desc@
            &&& f.first_name@ == first_name@
            &&& f.last_name@ == last_name@
        }),
        (r matches Err(er) ==> er == AppError::Parse),
{
    match parse_rfc3339_utc(time_utc) {
        Some(t) => Ok(
            NewEventForm { location, time_utc: t, desc, first_name, last_name },
        ),
        None => Err(AppError::Parse),
    }
}

fn event_id_free(store: &Store, id: u128) -> (b: bool)
    ensures
        b == !event_id_taken(store@.events, id),
{
    let key = encode_id(id);
    let n = store.events.len();
    let mut i: usize = 0;
    while i < n
        invariant
            n == store.events.len(),
            key@ == id_text_of(id),
            forall|t: int| 0 <= t < i ==> store@.events[t].id != id_text_of(id),
        decreases n - i,
    {
        if store.events[i].id == key {
            proof {
                assert(store@.events[i as int].id == id_text_of(id));
            }
            return false;
        }
        i = i + 1;
    }
    true
}

fn attendee_id_free(store: &Store, id: u128) -> (b: bool)
    ensures
        b == !attendee_id_taken(store@.attendees, id),
{
    let key = encode_id(id);
    let n = store.attendees.len();
    let mut i: usize = 0;
    while i < n
        invariant
            n == store.attendees.len(),
            key@ == id_text_of(id),
            forall|t: int| 0 <= t < i ==> store@.attendees[t].id != id_text_of(id),
        decreases n - i,
    {
        if store.attendees[i].id == key {
            proof {
                assert(store@.attendees[i as int].id == id_text_of(id));
            }
            return false;
        }
        i = i + 1;
    }
    true
}

/// The composite create: one new event and its first attendee, with the
/// given identifiers, as one atomic step — on any failure the store is
/// left unchanged. Succeeds exactly where both identifiers are free, and
/// then redirects to the new event's canonical page.
pub fn new_event_post(store: &mut Store, form: &NewEventForm, event_id: u128, attendee_id: u128)
    -> (r: Result<String, AppError>)
    ensures
        r is Ok <==> !event_id_taken(old(store)@.events, event_id) && !attendee_id_taken(
            old(store)@.attendees,
            attendee_id,
        ),
        r is Ok ==> final(store)@.events == old(store)@.events.push(
            event_row_view_of(
                EventView {
                    id: event_id,
                    location: form.location@,
                    time: form.time_utc as int,
                    description: form.desc@,
                },
            ),
        ),
        r is Ok ==> final(store)@.attendees == old(store)@.attendees.push(
            attendee_row_view_of(
                AttendeeView {
                    id: attendee_id,
                    event_id: event_id,
                    first_name: form.first_name@,
                    last_name: form.last_name@,
                },
            ),
        ),
        (r matches Ok(u) ==> u@ == event_page_path(event_id)),
        r is Err ==> *final(store) == *old(store) && r == Err::<String, AppError>(
            AppError::Storage,
        ),
{
    if !event_id_free(store, event_id) || !attendee_id_free(store, attendee_id) {
        return Err(AppError::Storage);
    }
    let event = Event {
        id: event_id,
        location: form.location.clone(),
        time: form.time_utc,
        description: form.desc.clone(),
    };
    match create_event(store, &event) {
        Ok(_) => (),
        Err(_) => {
            proof {
                assert(false);
            }
            return Err(AppError::Storage);
        },
    }
    let attendee = Attendee {
        id: attendee_id,
        event_id,
        first_name: form.first_name.clone(),
        last_name: form.last_name.clone(),
    };
    match create_attendee(store, &attendee) {
        Ok(_) => (),
        Err(_) => {
            proof {
                assert(false);
            }
            return Err(AppError::Storage);
        },
    }
    let mut u = String::from_str("/event/");
    let key = encode_id(event_id);
    u.append(key.as_str());
    Ok(u)
}

/// The identifier uniqueness law at the composite create: where the
/// composite create succeeds — which its contract owes exactly where both
/// given identifiers are free — both tables keep pairwise distinct keys.
/// Identifiers are never reused within a table; the two tables are
/// separate key spaces, and distinctness of the event identifier from the
/// attendee identifier is a property of the random draw, not owed here.
pub proof fn lemma_composite_create_preserves_unique(s: StoreView, e: EventView, a: AttendeeView)
    requires
        unique_event_ids(s.events),
        unique_attendee_ids(s.attendees),
        !event_id_taken(s.events, e.id),
        !attendee_id_taken(s.attendees, a.id),
    ensures
        unique_event_ids(s.events.push(event_row_view_of(e))),
        unique_attendee_ids(s.attendees.push(attendee_row_view_of(a))),
{
    lemma_create_preserves_unique(s.events, e);
    lemma_attendee_create_preserves_unique(s.attendees, a);
}

/// Serves a submitted new-event form: draws fresh identifiers for the
/// event and its first attendee and applies the composite create. Where
/// both drawn identifiers happen to be free — in practice always — the
/// new rows are exactly the form's data and the redirect names the new
/// event's page.
pub fn handle_new_event(store: &mut Store, form: &NewEventForm) -> (r: Result<String, AppError>)
    ensures
        (r matches Ok(u) ==> {
            let erow = final(store)@.events.last();
            let arow = final(store)@.attendees.last();
            let eid = id_of_text(erow.id)->Some_0;
            let aid = id_of_text(arow.id)->Some_0;
            &&& final(store)@.events == old(store)@.events.push(erow)
            &&& final(store)@.attendees == old(store)@.attendees.push(arow)
            &&& id_of_text(erow.id) is Some
            &&& id_of_text(arow.id) is Some
            &&& !event_id_taken(old(store)@.events, eid)
            &&& !attendee_id_taken(old(store)@.attendees, aid)
            &&& erow == event_row_view_of(
                EventView {
                    id: eid,
                    location: form.location@,
                    time: form.time_utc as int,
                    description: form.desc@,
                },
            )
            &&& arow == attendee_row_view_of(
                AttendeeView {
                    id: aid,
                    event_id: eid,
                    first_name: form.first_name@,
                    last_name: form.last_name@,
                },
            )
            &&& u@ == event_page_path(eid)
        }),
        r is Err ==> *final(store) == *old(store) && r == Err::<String, AppError>(
            AppError::Storage,
        ),
{
    let event_id = generate_id();
    let attendee_id = generate_id();
    let r = new_event_post(store, form, event_id, attendee_id);
    proof {
        if r is Ok {
            crate::ids::lemma_text_round_trip(event_id);
            crate::ids::lemma_text_round_trip(attendee_id);
        }
    }
    r
}

/// Serves an event page request: parses the path identifier, fetches the
/// event and lists its attendees. A malformed identifier is a parse
/// failure and the repositories are never invoked.
pub fn view_event(store: &Store, raw_event_id: &str) -> (r: Result<EventPage, AppError>)
    ensures
        (id_of_text(raw_event_id@) is None ==> r == Err::<EventPage, AppError>(AppError::Parse)),
        (id_of_text(raw_event_id@) matches Some(id) ==> (match r {
            Ok(page) => spec_get_event(store@.events, id) == Ok::<EventView, AppError>(page.event@)
                && spec_list_attendees(store@.attendees, id) == Ok::<Seq<AttendeeView>, AppError>(
                page.attendees@.map_values(|a: Attendee| a@),
            ),
            Err(er) => spec_get_event(store@.events, id) == Err::<EventView, AppError>(er) || (
            spec_get_event(store@.events, id) is Ok && spec_list_attendees(store@.attendees, id)
                == Err::<Seq<AttendeeView>, AppError>(er)),
        })),
{
    let id = match parse_id(raw_event_id) {
        Some(id) => id,
        None => {
            return Err(AppError::Parse);
        },
    };
    let event = match get_event_by_id(store, id) {
        Ok(e) => e,
        Err(er) => {
            return Err(er);
        },
    };
    let attendees = match crate::attendee::get_attendees_by_event_id(store, id) {
        Ok(l) => l,
        Err(er) => {
            return Err(er);
        },
    };
    Ok(EventPage { event, attendees })
}

/// The RSVP write with a given identifier: parses the path identifier,
/// checks the event exists — an attendee must never reference a missing
/// event — and inserts one attendee row. The event table is never
/// modified; on any failure the store is left unchanged.
pub fn new_attendee_post(
    store: &mut Store,
    raw_event_id: &str,
    form: &NewAttendeeForm,
    attendee_id: u128,
) -> (r: Result<String, AppError>)
    ensures
        (id_of_text(raw_event_id@) is None ==> r == Err::<String, AppError>(AppError::Parse)
            && *final(store) == *old(store)),
        (id_of_text(raw_event_id@) matches Some(eid) ==> (match r {
            Ok(u) => {
                &&& spec_get_event(old(store)@.events, eid) is Ok
                &&& !attendee_id_taken(old(store)@.attendees, attendee_id)
                &&& final(store)@.events == old(store)@.events
                &&& final(store)@.attendees == old(store)@.attendees.push(
                    attendee_row_view_of(
                        AttendeeView {
                            id: attendee_id,
                            event_id: eid,
                            first_name: form.first_name@,
                            last_name: form.last_name@,
                        },
                    ),
                )
                &&& u@ == event_page_path(eid)
            },
            Err(er) => {
                &&& *final(store) == *old(store)
                &&& (match spec_get_event(old(store)@.events, eid) {
                    Err(ger) => er == ger,
                    Ok(_) => er == AppError::Storage && attendee_id_taken(
                        old(store)@.attendees,
                        attendee_id,
                    ),
                })
            },
        })),
{
    let eid = match parse_id(raw_event_id) {
        Some(eid) => eid,
        None => {
            return Err(AppError::Parse);
        },
    };
    match get_event_by_id(store, eid) {
        Ok(_) => (),
        Err(er) => {
            return Err(er);
        },
    }
    let attendee = Attendee {
        id: attendee_id,
        event_id: eid,
        first_name: form.first_name.clone(),
        last_name: form.last_name.clone(),
    };
    match create_attendee(store, &attendee) {
        Ok(_) => (),
        Err(er) => {
            return Err(er);
        },
    }
    let mut u = String::from_str("/event/");
    let key = encode_id(eid);
    u.append(key.as_str());
    Ok(u)
}

/// Serves a submitted RSVP form: draws a fresh identifier for the
/// attendee and applies the RSVP write against the event the path names.
pub fn handle_new_attendee(store: &mut Store, raw_event_id: &str, form: &NewAttendeeForm) -> (r:
    Result<String, AppError>)
    ensures
        (id_of_text(raw_event_id@) is None ==> r == Err::<String, AppError>(AppError::Parse)
            && *final(store) == *old(store)),
        (id_of_text(raw_event_id@) matches Some(eid) ==> (match r {
            Ok(u) => {
                let arow = final(store)@.attendees.last();
                &&& spec_get_event(old(store)@.events, eid) is Ok
                &&& final(store)@.events == old(store)@.events
                &&& final(store)@.attendees == old(store)@.attendees.push(arow)
                &&& id_of_text(arow.id) is Some
                &&& !attendee_id_taken(old(store)@.attendees, id_of_text(arow.id)->Some_0)
                &&& arow == attendee_row_view_of(
                    AttendeeView {
                        id: id_of_text(arow.id)->Some_0,
                        event_id: eid,
                        first_name: form.first_name@,
                        last_name: form.last_name@,
                    },
                )
                &&& u@ == event_page_path(eid)
            },
            Err(er) => {
                &&& *final(store) == *old(store)
                &&& (match spec_get_event(old(store)@.events, eid) {
                    Err(ger) => er == ger,
                    Ok(_) => er == AppError::Storage,
                })
            },
        })),
{
    let attendee_id = generate_id();
    let r = new_attendee_post(store, raw_event_id, form, attendee_id);
    proof {
        if r is Ok {
            crate::ids::lemma_text_round_trip(attendee_id);
        }
    }
    r
}

} // verus!
