//! Calendar export: turn one stored event into a downloadable iCalendar
//! byte stream.
use vstd::prelude::*;

use crate::errors::AppError;
use crate::event::{get_event_by_id, spec_get_event, EventView};
use crate::ids::{encode_id, id_of_text, id_text_of, parse_id};
use crate::store::Store;

verus! {

/// What chrono's formatting yields for a timestamp under the compact
/// UTC layout `YYYYMMDDTHHMMSSZ`: a function of the timestamp alone.
pub uninterp spec fn utc_compact_of(secs: i64) -> Seq<char>;

/// Formats a timestamp (whole seconds since the Unix epoch) in the
/// compact UTC layout `YYYYMMDDTHHMMSSZ`.
///
/// Relies on `chrono::DateTime::<Utc>::from_timestamp`, which returns
/// `None` only on an out-of-range number of seconds and in particular
/// covers every second of the years 1970 through 9999, and on chrono's
/// `format`, whose output depends on the timestamp alone.
#[verifier::external_body]
pub(crate) fn format_utc_compact(secs: i64) -> (r: Option<String>)
    ensures
        (r matches Some(t) ==> t@ == utc_compact_of(secs)),
        0 <= secs <= 253402300799 ==> r is Some,
{
    match chrono::DateTime::from_timestamp(secs, 0) {
        Some(dt) => Some(dt.format("%Y%m%dT%H%M%SZ").to_string()),
        None => None,
    }
}

/// What the iCalendar encoding of a single-event calendar is, from the
/// calendar's version and product identifier and the event's unique
/// identifier, timestamp text, summary, location and timezone identifier:
/// a function of these texts alone.
pub uninterp spec fn calendar_bytes_of(
    version: Seq<char>,
    prodid: Seq<char>,
    uid: Seq<char>,
    dtstamp: Seq<char>,
    summary: Seq<char>,
    location: Seq<char>,
    tzid: Seq<char>,
) -> Seq<u8>;

/// Encodes a calendar holding one event with the given properties.
///
/// Relies on `ics::ICalendar` and `ics::Event` with the `Summary`,
/// `Location`, `DtStart` and `TzID` properties, and on
/// `ics::ICalendar::write`, which emits the same bytes `save_file` would
/// put in a file; the encoding is a function of the given texts alone.
#[verifier::external_body]
fn encode_calendar(
    version: &str,
    prodid: &str,
    uid: &str,
    dtstamp: &str,
    summary: &str,
    location: &str,
    tzid: &str,
) -> (r: Vec<u8>)
    ensures
        r@ == calendar_bytes_of(version@, prodid@, uid@, dtstamp@, summary@, location@, tzid@),
{
    let mut ev = ics::Event::new(uid.to_string(), dtstamp.to_string());
    ev.push(ics::properties::Summary::new(summary.to_string()));
    ev.push(ics::properties::Location::new(location.to_string()));
    ev.push(ics::properties::DtStart::new(dtstamp.to_string()));
    ev.push(ics::properties::TzID::new(tzid.to_string()));
    let mut cal = ics::ICalendar::new(version.to_string(), prodid.to_string());
    cal.add_event(ev);
    let mut buf: Vec<u8> = Vec::new();
    let _ = cal.write(&mut buf);
    buf
}

/// Serves a calendar download request: parses the path identifier,
/// fetches the event and encodes it as a single-event iCalendar stream —
/// the event's description as the summary, its identifier text as the
/// unique identifier, its timestamp in compact UTC form as both start and
/// stamp. A timestamp the formatter cannot represent is a storage-level
/// failure.
pub fn generate_ics(store: &Store, raw_event_id: &str) -> (r: Result<Vec<u8>, AppError>)
    ensures
        (id_of_text(raw_event_id@) is None ==> r == Err::<Vec<u8>, AppError>(AppError::Parse)),
        (id_of_text(raw_event_id@) matches Some(id) ==> (match r {
            Ok(bytes) => (match spec_get_event(store@.events, id) {
                Ok(ev) => bytes@ == calendar_bytes_of(
                    "2.0"@,
                    "ics-rs"@,
                    id_text_of(id),
                    utc_compact_of(ev.time as i64),
                    ev.description,
                    ev.location,
                    "/Etc/UTC"@,
                ),
                Err(_) => false,
            }),
            Err(er) => spec_get_event(store@.events, id) == Err::<EventView, AppError>(er) || (er
                == AppError::Storage && spec_get_event(store@.events, id) is Ok),
        })),
        (id_of_text(raw_event_id@) matches Some(id) ==> (spec_get_event(store@.events, id)
            matches Ok(ev) && 0 <= ev.time <= 253402300799 ==> r is Ok)),
{
    let id = match parse_id(raw_event_id) {
        Some(id) => id,
        None => {
            return Err(AppError::Parse);
        },
    };
    let event = match get_event_by_id(store, id) {
        Ok(e) => e,
        Err(er) => {
            return Err(er);
        },
    };
    let ics_time = match format_utc_compact(event.time) {
        Some(t) => t,
        None => {
            return Err(AppError::Storage);
        },
    };
    let uid = encode_id(event.id);
    proof {
        crate::event::lemma_get_event_id(store@.events, id);
        assert(event@.id == id);
    }
    let bytes = encode_calendar(
        "2.0",
        "ics-rs",
        uid.as_str(),
        ics_time.as_str(),
        event.description.as_str(),
        event.location.as_str(),
        "/Etc/UTC",
    );
    Ok(bytes)
}

} // verus!
