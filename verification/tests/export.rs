use join::calendar::generate_ics;
use join::errors::AppError;
use join::event::{create_event, Event};
use join::handlers::parse_new_event_form;
use join::ids::encode_id;
use join::store::Store;

const E1: u128 = 0x550e8400e29b41d4a716446655440000;
const E2: u128 = 0x67e5504410b1426f9247bb680e5fe0c8;
const E3: u128 = 0x00112233445566778899aabbccddeeff;

fn store_with(events: &[(u128, i64)]) -> Store {
    let mut store = Store::new();
    for (id, time) in events {
        create_event(
            &mut store,
            &Event {
                id: *id,
                location: String::from("Park"),
                time: *time,
                description: String::from("Picnic"),
            },
        )
        .unwrap();
    }
    store
}

fn export_text(store: &Store, id: u128) -> String {
    let raw = encode_id(id);
    String::from_utf8(generate_ics(store, &raw).unwrap()).unwrap()
}

#[test]
fn timestamps_format_to_compact_utc() {
    let store = store_with(&[(E1, 0), (E2, 1717236000), (E3, 253402300799)]);
    assert!(export_text(&store, E1).contains("DTSTART:19700101T000000Z"));
    assert!(export_text(&store, E2).contains("DTSTART:20240601T100000Z"));
    assert!(export_text(&store, E3).contains("DTSTART:99991231T235959Z"));
}

#[test]
fn rfc3339_parses_to_epoch_seconds() {
    let parse = |t: &str| {
        parse_new_event_form(
            String::from("Park"),
            t,
            String::from("Picnic"),
            String::from("Ann"),
            String::from("Lee"),
        )
        .map(|f| f.time_utc)
    };
    assert_eq!(parse("2024-06-01T10:00:00Z"), Ok(1717236000));
    assert_eq!(parse("1970-01-01T00:00:00Z"), Ok(0));
    assert_eq!(parse("2024-06-01T10:00:00+02:00"), Ok(1717228800));
    assert_eq!(parse("yesterday at noon"), Err(AppError::Parse));
    assert_eq!(parse(""), Err(AppError::Parse));
}

#[test]
fn calendar_export_carries_the_event() {
    let store = store_with(&[(E1, 1717236000)]);
    let raw = encode_id(E1);
    let text = export_text(&store, E1);
    assert!(text.contains("BEGIN:VCALENDAR"));
    assert!(text.contains("END:VCALENDAR"));
    assert!(text.contains("BEGIN:VEVENT"));
    assert!(text.contains("SUMMARY:Picnic"));
    assert!(text.contains("LOCATION:Park"));
    assert!(text.contains("DTSTART:20240601T100000Z"));
    assert!(text.contains(&format!("UID:{}", raw)));
    assert!(text.contains("TZID:/Etc/UTC"));
}

#[test]
fn calendar_export_failures() {
    let store = store_with(&[(E1, 1717236000)]);
    assert_eq!(generate_ics(&store, "not-a-valid-id").err(), Some(AppError::Parse));
    let other = encode_id(E2);
    assert_eq!(generate_ics(&store, &other).err(), Some(AppError::NotFound));
}
