use space_snapshots::fetch::{accept_feed_response, build_feed_url_for_day, FetchError};
use space_snapshots::neo::{
    convert_to_storage, decode_neo_snapshot, encode_neo_response, encode_neo_snapshot,
    generate_response, parse_feed_document,
};
use space_snapshots::timestamp::UtcTimestamp;

fn one_object_feed() -> String {
    let object = [
        r#"{"id":"123","neo_reference_id":"123","name":"Foo","nasa_jpl_url":"http://x","#,
        r#""absolute_magnitude_h":21.34,"estimated_diameter":{"#,
        r#""kilometers":{"estimated_diameter_min":0.1,"estimated_diameter_max":0.3},"#,
        r#""meters":{"estimated_diameter_min":100,"estimated_diameter_max":300},"#,
        r#""miles":{"estimated_diameter_min":0.06,"estimated_diameter_max":0.18},"#,
        r#""feet":{"estimated_diameter_min":328.1,"estimated_diameter_max":984.2}},"#,
        r#""is_potentially_hazardous_asteroid":false,"close_approach_data":[{"#,
        r#""close_approach_date":"2024-01-01","epoch_date_close_approach":1704067200000,"#,
        r#""relative_velocity":{"kilometers_per_second":"13.5","kilometers_per_hour":"48600.7","#,
        r#""miles_per_hour":"30200.2"},"miss_distance":{"astronomical":"0.365","lunar":"142.0","#,
        r#""kilometers":"54627816.857","miles":"33943707.6"},"orbiting_body":"Earth"}],"#,
        r#""is_sentry_object":false,"links":{"next":null,"prev":null,"self":"http://s"}}"#,
    ]
    .join("");
    format!(
        r#"{{"links":{{"next":"http://n","prev":null,"self":"http://f"}},"element_count":1,"near_earth_objects":{{"2024-01-01":[{}]}}}}"#,
        object
    )
}

fn clock() -> UtcTimestamp {
    UtcTimestamp { year: 2024, month: 1, day: 1, hour: 9, minute: 30, second: 0 }
}

#[test]
fn feed_normalizes_to_single_object_snapshot() {
    let feed = parse_feed_document(one_object_feed().as_str()).unwrap();
    assert_eq!(feed.element_count, 1);
    assert_eq!(feed.near_earth_objects.len(), 1);
    let snapshot = convert_to_storage(&feed, &clock());
    assert_eq!(snapshot.element_count, 1);
    assert_eq!(snapshot.near_earth_objects.len(), 1);
    assert_eq!(snapshot.near_earth_objects[0].id, "123");
    assert_eq!(snapshot.near_earth_objects[0].name, "Foo");
    assert_eq!(snapshot.updated_date_time, "2024-01-01 09:30:00 +0000");
}

#[test]
fn snapshot_preserves_distance_and_velocity_strings_exactly() {
    let feed = parse_feed_document(one_object_feed().as_str()).unwrap();
    let snapshot = convert_to_storage(&feed, &clock());
    let text = encode_neo_snapshot(&snapshot);
    let back = decode_neo_snapshot(text.as_str()).unwrap();
    let cad = &back.near_earth_objects[0].close_approach_data[0];
    assert_eq!(cad.miss_distance.kilometers, "54627816.857");
    assert_eq!(cad.miss_distance.astronomical, "0.365");
    assert_eq!(cad.relative_velocity.kilometers_per_second, "13.5");
    assert_eq!(cad.epoch_date_close_approach, 1704067200000i64);
    let mag = &back.near_earth_objects[0].absolute_magnitude_h;
    assert_eq!(mag, "21.34");
    assert_eq!(back.element_count, 1);
}

#[test]
fn normalizing_the_feed_twice_is_idempotent() {
    let a = convert_to_storage(&parse_feed_document(one_object_feed().as_str()).unwrap(), &clock());
    let b = convert_to_storage(&parse_feed_document(one_object_feed().as_str()).unwrap(), &clock());
    assert_eq!(encode_neo_snapshot(&a), encode_neo_snapshot(&b));
}

#[test]
fn missing_absolute_magnitude_fails_deserialization() {
    let body = one_object_feed().replace(r#""absolute_magnitude_h":21.34,"#, "");
    assert!(parse_feed_document(body.as_str()).is_none());
    let r = accept_feed_response(200, body.as_str());
    assert_eq!(r.unwrap_err(), FetchError::Deserialization);
}

#[test]
fn upstream_status_429_fails_the_fetch_with_that_code() {
    let r = accept_feed_response(429, one_object_feed().as_str());
    assert_eq!(r.unwrap_err(), FetchError::UpstreamStatus(429));
}

#[test]
fn read_path_response_reports_the_capture_timestamp() {
    let feed = parse_feed_document(one_object_feed().as_str()).unwrap();
    let snapshot = convert_to_storage(&feed, &clock());
    let response = generate_response(snapshot);
    assert_eq!(response.updated_date_time, "2024-01-01 09:30:00 +0000");
    assert_eq!(response.data.updated_date_time, "2024-01-01 09:30:00 +0000");
    let body = encode_neo_response(&response);
    assert!(body.starts_with(r#"{"data":{"links":"#));
    assert!(body.ends_with(r#""updated_date_time":"2024-01-01 09:30:00 +0000"}"#));
}

#[test]
fn feed_url_embeds_the_day_and_key() {
    let day = UtcTimestamp { year: 2024, month: 1, day: 1, hour: 0, minute: 0, second: 0 };
    let url = build_feed_url_for_day(&day, "DEMO_KEY");
    assert_eq!(
        url,
        "https://api.nasa.gov/neo/rest/v1/feed?start_date=2024-01-01&end_date=2024-01-01&api_key=DEMO_KEY"
    );
}

#[test]
fn two_date_keys_are_flattened_in_document_order() {
    let body = [
        r#"{"links":{"next":null,"prev":null,"self":null},"element_count":2,"#,
        r#""near_earth_objects":{"2024-01-02":[],"2024-01-01":[]}}"#,
    ]
    .join("");
    let feed = parse_feed_document(body.as_str()).unwrap();
    assert_eq!(feed.near_earth_objects.len(), 2);
    assert_eq!(feed.near_earth_objects[0].date, "2024-01-02");
    assert_eq!(feed.near_earth_objects[1].date, "2024-01-01");
    let snapshot = convert_to_storage(&feed, &clock());
    assert_eq!(snapshot.near_earth_objects.len(), 0);
    assert_eq!(snapshot.element_count, 2);
}

#[test]
fn negative_epoch_survives_the_snapshot() {
    let body = one_object_feed().replace("1704067200000", "-62135596800000");
    let feed = parse_feed_document(body.as_str()).unwrap();
    let snapshot = convert_to_storage(&feed, &clock());
    let text = encode_neo_snapshot(&snapshot);
    let back = decode_neo_snapshot(text.as_str()).unwrap();
    assert_eq!(
        back.near_earth_objects[0].close_approach_data[0].epoch_date_close_approach,
        -62135596800000i64
    );
}
