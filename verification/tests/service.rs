use join::attendee::{create_attendee, get_attendees_by_event_id, Attendee};
use join::errors::{response_class, AppError, ResponseClass};
use join::event::{create_event, get_event_by_id, Event};
use join::handlers::{
    handle_new_attendee, handle_new_event, new_attendee_post, new_event_post,
    parse_new_event_form, view_event, NewAttendeeForm,
};
use join::ids::encode_id;
use join::store::{AttendeeRow, Store};

const E1: u128 = 0x550e8400e29b41d4a716446655440000;
const E2: u128 = 0x67e5504410b1426f9247bb680e5fe0c8;
const A1: u128 = 0x00112233445566778899aabbccddeeff;
const A2: u128 = 0x0123456789abcdef0123456789abcdef;
const A3: u128 = 0xfedcba98765432100123456789abcdef;

fn sample_event(id: u128) -> Event {
    Event {
        id,
        location: String::from("Park"),
        time: 1717236000,
        description: String::from("Picnic"),
    }
}

fn sample_attendee(id: u128, event_id: u128, first: &str, last: &str) -> Attendee {
    Attendee {
        id,
        event_id,
        first_name: String::from(first),
        last_name: String::from(last),
    }
}

#[test]
fn create_then_get_round_trip() {
    let mut store = Store::new();
    create_event(&mut store, &sample_event(E1)).unwrap();
    let got = get_event_by_id(&store, E1).unwrap();
    assert_eq!(got.id, E1);
    assert_eq!(got.location, "Park");
    assert_eq!(got.time, 1717236000);
    assert_eq!(got.description, "Picnic");
}

#[test]
fn duplicate_event_id_fails() {
    let mut store = Store::new();
    create_event(&mut store, &sample_event(E1)).unwrap();
    let second = create_event(&mut store, &sample_event(E1));
    assert_eq!(second, Err(AppError::Storage));
    assert_eq!(store.events.len(), 1);
}

#[test]
fn duplicate_attendee_id_fails() {
    let mut store = Store::new();
    create_event(&mut store, &sample_event(E1)).unwrap();
    create_attendee(&mut store, &sample_attendee(A1, E1, "Ann", "Lee")).unwrap();
    let second = create_attendee(&mut store, &sample_attendee(A1, E1, "Bob", "Kim"));
    assert_eq!(second, Err(AppError::Storage));
    assert_eq!(store.attendees.len(), 1);
}

#[test]
fn get_unknown_id_is_not_found() {
    let mut store = Store::new();
    create_event(&mut store, &sample_event(E1)).unwrap();
    let missing = get_event_by_id(&store, E2);
    assert_eq!(missing.err(), Some(AppError::NotFound));
}

#[test]
fn list_with_zero_attendees_is_empty_not_error() {
    let mut store = Store::new();
    create_event(&mut store, &sample_event(E1)).unwrap();
    let listed = get_attendees_by_event_id(&store, E1).unwrap();
    assert!(listed.is_empty());
}

#[test]
fn listing_returns_exactly_the_events_attendees() {
    let mut store = Store::new();
    create_event(&mut store, &sample_event(E1)).unwrap();
    create_event(&mut store, &sample_event(E2)).unwrap();
    create_attendee(&mut store, &sample_attendee(A1, E1, "Ann", "Lee")).unwrap();
    create_attendee(&mut store, &sample_attendee(A2, E1, "Bob", "Kim")).unwrap();
    create_attendee(&mut store, &sample_attendee(A3, E2, "Cay", "Roe")).unwrap();

    let mut ids1: Vec<u128> = get_attendees_by_event_id(&store, E1)
        .unwrap()
        .iter()
        .map(|a| a.id)
        .collect();
    ids1.sort();
    let mut expected1 = vec![A1, A2];
    expected1.sort();
    assert_eq!(ids1, expected1);
    for a in get_attendees_by_event_id(&store, E1).unwrap() {
        assert_eq!(a.event_id, E1);
    }

    let listed2 = get_attendees_by_event_id(&store, E2).unwrap();
    assert_eq!(listed2.len(), 1);
    assert_eq!(listed2[0].id, A3);
    assert_eq!(listed2[0].event_id, E2);
    assert_eq!(listed2[0].first_name, "Cay");
    assert_eq!(listed2[0].last_name, "Roe");
}

#[test]
fn corrupt_stored_identifier_is_reported() {
    let mut store = Store::new();
    create_event(&mut store, &sample_event(E1)).unwrap();
    store.attendees.push(AttendeeRow {
        id: String::from("not-a-valid-id"),
        event_id: encode_id(E1),
        first_name: String::from("Ann"),
        last_name: String::from("Lee"),
    });
    let listed = get_attendees_by_event_id(&store, E1);
    assert_eq!(listed.err(), Some(AppError::CorruptIdentifier));
}

#[test]
fn composite_creation_scenario() {
    let mut store = Store::new();
    let form = parse_new_event_form(
        String::from("Park"),
        "2024-06-01T10:00:00Z",
        String::from("Picnic"),
        String::from("Ann"),
        String::from("Lee"),
    )
    .unwrap();
    assert_eq!(form.time_utc, 1717236000);

    let redirect = new_event_post(&mut store, &form, E1, A1).unwrap();
    assert_eq!(redirect, format!("/event/{}", encode_id(E1)));
    assert_eq!(store.events.len(), 1);
    assert_eq!(store.attendees.len(), 1);
    assert_eq!(store.attendees[0].event_id, store.events[0].id);

    let event = get_event_by_id(&store, E1).unwrap();
    assert_eq!(event.location, "Park");
    assert_eq!(event.time, 1717236000);
    assert_eq!(event.description, "Picnic");
    let attendees = get_attendees_by_event_id(&store, E1).unwrap();
    assert_eq!(attendees.len(), 1);
    assert_eq!(attendees[0].first_name, "Ann");
    assert_eq!(attendees[0].last_name, "Lee");
}

#[test]
fn composite_creation_is_atomic() {
    let mut store = Store::new();
    create_event(&mut store, &sample_event(E2)).unwrap();
    create_attendee(&mut store, &sample_attendee(A1, E2, "Ann", "Lee")).unwrap();
    let form = parse_new_event_form(
        String::from("Park"),
        "2024-06-01T10:00:00Z",
        String::from("Picnic"),
        String::from("Ann"),
        String::from("Lee"),
    )
    .unwrap();
    // the attendee identifier is already taken: the whole composite fails
    // and no orphan event row is left behind
    let outcome = new_event_post(&mut store, &form, E1, A1);
    assert_eq!(outcome.err(), Some(AppError::Storage));
    assert_eq!(store.events.len(), 1);
    assert_eq!(store.attendees.len(), 1);
    assert_eq!(get_event_by_id(&store, E1).err(), Some(AppError::NotFound));
}

#[test]
fn composite_creation_with_generated_ids() {
    let mut store = Store::new();
    let form = parse_new_event_form(
        String::from("Park"),
        "2024-06-01T10:00:00Z",
        String::from("Picnic"),
        String::from("Ann"),
        String::from("Lee"),
    )
    .unwrap();
    let redirect = handle_new_event(&mut store, &form).unwrap();
    assert_eq!(store.events.len(), 1);
    assert_eq!(store.attendees.len(), 1);
    assert_eq!(store.attendees[0].event_id, store.events[0].id);
    assert_eq!(redirect, format!("/event/{}", store.events[0].id));
}

#[test]
fn malformed_timestamp_is_a_parse_failure() {
    let outcome = parse_new_event_form(
        String::from("Park"),
        "yesterday at noon",
        String::from("Picnic"),
        String::from("Ann"),
        String::from("Lee"),
    );
    assert_eq!(outcome.err(), Some(AppError::Parse));
}

#[test]
fn independent_attendee_scenario() {
    let mut store = Store::new();
    create_event(&mut store, &sample_event(E1)).unwrap();
    let event_before = get_event_by_id(&store, E1).unwrap();

    let form = NewAttendeeForm {
        first_name: String::from("Bob"),
        last_name: String::from("Kim"),
    };
    let raw = encode_id(E1);
    let redirect = new_attendee_post(&mut store, &raw, &form, A2).unwrap();
    assert_eq!(redirect, format!("/event/{}", raw));

    assert_eq!(store.events.len(), 1);
    assert_eq!(store.attendees.len(), 1);
    let listed = get_attendees_by_event_id(&store, E1).unwrap();
    assert_eq!(listed.len(), 1);
    assert_eq!(listed[0].id, A2);
    assert_eq!(listed[0].event_id, E1);
    assert_eq!(listed[0].first_name, "Bob");
    assert_eq!(listed[0].last_name, "Kim");

    let event_after = get_event_by_id(&store, E1).unwrap();
    assert_eq!(event_after.id, event_before.id);
    assert_eq!(event_after.location, event_before.location);
    assert_eq!(event_after.time, event_before.time);
    assert_eq!(event_after.description, event_before.description);
}

#[test]
fn rsvp_to_unknown_event_is_not_found() {
    let mut store = Store::new();
    create_event(&mut store, &sample_event(E1)).unwrap();
    let form = NewAttendeeForm {
        first_name: String::from("Bob"),
        last_name: String::from("Kim"),
    };
    let raw = encode_id(E2);
    let outcome = handle_new_attendee(&mut store, &raw, &form);
    assert_eq!(outcome.err(), Some(AppError::NotFound));
    assert_eq!(store.attendees.len(), 0);
}

#[test]
fn malformed_identifier_scenario() {
    let mut store = Store::new();
    create_event(&mut store, &sample_event(E1)).unwrap();

    let outcome = view_event(&store, "not-a-valid-id");
    let err = outcome.err().unwrap();
    assert_eq!(err, AppError::Parse);
    assert_eq!(response_class(&err), ResponseClass::ClientError);

    let form = NewAttendeeForm {
        first_name: String::from("Bob"),
        last_name: String::from("Kim"),
    };
    let outcome = new_attendee_post(&mut store, "not-a-valid-id", &form, A1);
    assert_eq!(outcome.err(), Some(AppError::Parse));
    assert_eq!(store.events.len(), 1);
    assert_eq!(store.attendees.len(), 0);
}

#[test]
fn view_event_returns_page_data() {
    let mut store = Store::new();
    create_event(&mut store, &sample_event(E1)).unwrap();
    create_attendee(&mut store, &sample_attendee(A1, E1, "Ann", "Lee")).unwrap();
    let raw = encode_id(E1);
    let page = view_event(&store, &raw).unwrap();
    assert_eq!(page.event.id, E1);
    assert_eq!(page.attendees.len(), 1);
    assert_eq!(page.attendees[0].id, A1);
}

#[test]
fn every_failure_kind_has_a_response_class() {
    assert_eq!(response_class(&AppError::Parse), ResponseClass::ClientError);
    assert_eq!(response_class(&AppError::Storage), ResponseClass::ServerError);
    assert_eq!(response_class(&AppError::NotFound), ResponseClass::ServerError);
    assert_eq!(
        response_class(&AppError::CorruptIdentifier),
        ResponseClass::ServerError
    );
}
