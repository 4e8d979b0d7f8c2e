use space_snapshots::apimodels::{PeopleInSpaceModel, PersonModel};
use space_snapshots::fetch::{accept_people_response, FetchError};
use space_snapshots::people::{
    convert_to_model, decode_people_snapshot, encode_people_snapshot, parse_people_document,
};
use space_snapshots::timestamp::{render_timestamp, UtcTimestamp};

fn clock(y: u32, mo: u32, d: u32, h: u32, mi: u32, s: u32) -> UtcTimestamp {
    UtcTimestamp { year: y, month: mo, day: d, hour: h, minute: mi, second: s }
}

#[test]
fn stored_people_snapshot_matches_expected_text() {
    let body = r#"{"people":[{"name":"Jane","craft":"ISS"}],"number":1}"#;
    let api = parse_people_document(body).unwrap();
    let captured = clock(2024, 6, 1, 12, 0, 0);
    let model = convert_to_model(api, &captured);
    let stored = encode_people_snapshot(&model);
    assert_eq!(
        stored,
        r#"{"update_time":"2024-06-01 12:00:00 +0000","people":[{"name":"Jane","craft":"ISS"}]}"#
    );
}

#[test]
fn people_snapshot_round_trips() {
    let model = PeopleInSpaceModel {
        update_time: String::from("2024-06-01 12:00:00 +0000"),
        people: vec![
            PersonModel { name: String::from("Jane"), craft: String::from("ISS") },
            PersonModel { name: String::from("Wei"), craft: String::from("Tiangong") },
        ],
    };
    let text = encode_people_snapshot(&model);
    let back = decode_people_snapshot(text.as_str()).unwrap();
    assert_eq!(back.update_time, model.update_time);
    assert_eq!(back.people.len(), 2);
    assert_eq!(back.people[0].name, "Jane");
    assert_eq!(back.people[0].craft, "ISS");
    assert_eq!(back.people[1].name, "Wei");
    assert_eq!(back.people[1].craft, "Tiangong");
}

#[test]
fn people_snapshot_accepts_updated_time_alias() {
    let text = r#"{"updatedTime":"2023-01-01 00:00:00 +0000","people":[]}"#;
    let back = decode_people_snapshot(text).unwrap();
    assert_eq!(back.update_time, "2023-01-01 00:00:00 +0000");
    assert!(back.people.is_empty());
}

#[test]
fn normalizing_twice_gives_identical_snapshots() {
    let body = r#"{"message":"success","people":[{"name":"Jane","craft":"ISS"}]}"#;
    let captured = clock(2024, 6, 1, 12, 0, 0);
    let a = convert_to_model(parse_people_document(body).unwrap(), &captured);
    let b = convert_to_model(parse_people_document(body).unwrap(), &captured);
    assert_eq!(encode_people_snapshot(&a), encode_people_snapshot(&b));
}

#[test]
fn missing_people_field_is_rejected() {
    assert!(parse_people_document(r#"{"message":"success"}"#).is_none());
}

#[test]
fn person_missing_craft_is_rejected() {
    assert!(parse_people_document(r#"{"people":[{"name":"Jane"}]}"#).is_none());
}

#[test]
fn upstream_failure_status_is_carried_for_people() {
    let r = accept_people_response(503, r#"{"people":[]}"#);
    assert_eq!(r.unwrap_err(), FetchError::UpstreamStatus(503));
}

#[test]
fn malformed_people_body_is_a_deserialization_error() {
    let r = accept_people_response(200, "not json");
    assert_eq!(r.unwrap_err(), FetchError::Deserialization);
}

#[test]
fn timestamp_renders_zero_padded() {
    let t = clock(987, 2, 3, 4, 5, 6);
    assert_eq!(render_timestamp(&t), "0987-02-03 04:05:06 +0000");
}

#[test]
fn names_with_escapes_survive_the_snapshot() {
    let model = PeopleInSpaceModel {
        update_time: String::from("2024-06-01 12:00:00 +0000"),
        people: vec![
            PersonModel { name: String::from("J\"Q\\n\né"), craft: String::from("ISS\t") },
        ],
    };
    let text = encode_people_snapshot(&model);
    let back = decode_people_snapshot(text.as_str()).unwrap();
    assert_eq!(back.people[0].name, "J\"Q\\n\né");
    assert_eq!(back.people[0].craft, "ISS\t");
}
