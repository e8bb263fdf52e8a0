use join::handlers::{handle_new_event, parse_new_event_form, NewEventForm};
use join::ids::{encode_id, parse_id};
use join::store::Store;

const SAMPLE: u128 = 0x550e8400e29b41d4a716446655440000;
const SAMPLE_TEXT: &str = "550e8400-e29b-41d4-a716-446655440000";

#[test]
fn encode_known_value() {
    assert_eq!(encode_id(SAMPLE), SAMPLE_TEXT);
}

#[test]
fn encode_zero_and_max() {
    assert_eq!(encode_id(0), "00000000-0000-0000-0000-000000000000");
    assert_eq!(encode_id(u128::MAX), "ffffffff-ffff-ffff-ffff-ffffffffffff");
}

#[test]
fn encode_agrees_with_uuid_crate() {
    let samples: [u128; 5] = [0, 1, SAMPLE, u128::MAX, 0x0123456789abcdef0123456789abcdef];
    for v in samples {
        assert_eq!(encode_id(v), uuid::Uuid::from_u128(v).to_string());
    }
}

#[test]
fn parse_round_trip() {
    let samples: [u128; 5] = [0, 1, SAMPLE, u128::MAX, 0xfedcba98765432100123456789abcdef];
    for v in samples {
        assert_eq!(parse_id(&encode_id(v)), Some(v));
    }
}

#[test]
fn parse_agrees_with_uuid_crate() {
    let parsed = uuid::Uuid::parse_str(SAMPLE_TEXT).unwrap().as_u128();
    assert_eq!(parse_id(SAMPLE_TEXT), Some(parsed));
}

#[test]
fn parse_accepts_uppercase() {
    assert_eq!(parse_id("550E8400-E29B-41D4-A716-446655440000"), Some(SAMPLE));
}

#[test]
fn parse_rejects_malformed() {
    assert_eq!(parse_id("not-a-valid-id"), None);
    assert_eq!(parse_id(""), None);
    assert_eq!(parse_id("550e8400-e29b-41d4-a716-44665544000"), None);
    assert_eq!(parse_id("550e8400-e29b-41d4-a716-4466554400000"), None);
    assert_eq!(parse_id("550e8400be29b-41d4-a716-446655440000"), None);
    assert_eq!(parse_id("550e8400-e29b-41d4-a716-44665544000g"), None);
}

fn sample_form() -> NewEventForm {
    parse_new_event_form(
        String::from("Park"),
        "2024-06-01T10:00:00Z",
        String::from("Picnic"),
        String::from("Ann"),
        String::from("Lee"),
    )
    .unwrap()
}

#[test]
fn generated_ids_are_version_four() {
    let mut store = Store::new();
    let form = sample_form();
    for _ in 0..16 {
        handle_new_event(&mut store, &form).unwrap();
    }
    for row in &store.events {
        let v = parse_id(&row.id).unwrap();
        assert_eq!((v >> 76) & 0xf, 4);
        assert_eq!((v >> 62) & 0x3, 2);
        assert!(uuid::Uuid::parse_str(&row.id).is_ok());
    }
    for row in &store.attendees {
        let v = parse_id(&row.id).unwrap();
        assert_eq!((v >> 76) & 0xf, 4);
        assert_eq!((v >> 62) & 0x3, 2);
    }
}

#[test]
fn generated_ids_do_not_collide() {
    let mut store = Store::new();
    let form = sample_form();
    for _ in 0..128 {
        handle_new_event(&mut store, &form).unwrap();
    }
    let mut seen: Vec<u128> = Vec::new();
    for row in &store.events {
        let v = parse_id(&row.id).unwrap();
        assert!(!seen.contains(&v));
        seen.push(v);
    }
    for row in &store.attendees {
        let v = parse_id(&row.id).unwrap();
        assert!(!seen.contains(&v));
        seen.push(v);
    }
}
