use space_snapshots::launches::{
    decode_launches_snapshot, encode_launches_response, encode_launches_snapshot,
    generate_response,
};

fn launches_text() -> String {
    let launch = [
        r#"{"id":7,"cospar_id":null,"sort_date":"1700000000","name":"Demo Flight","#,
        r#""provider":{"id":1,"name":"Example Org","slug":"example"},"#,
        r#""vehicle":{"id":2,"name":"Heavy","company_id":1,"slug":"heavy","pad":null},"#,
        r#""pad":{"id":3,"name":"LC-1","location":{"id":4,"name":"Cape","state":"FL","#,
        r#""statename":"Florida","country":"USA","slug":"cape"}},"#,
        r#""missions":[{"id":5,"name":"Demo","description":null}],"#,
        r#""mission_description":"a demo","launch_description":"flies","#,
        r#""win_open":"2024-01-01T00:00Z","t0":null,"win_close":null,"date_str":"Jan 1","#,
        r#""tags":[{"id":6,"text":"crewed"}],"slug":"demo-flight","weather_summary":null,"#,
        r#""weather_temp":21,"weather_condition":"Clear","weather_wind_mph":8,"#,
        r#""weather_icon":null,"weather_updated":null,"quick_text":"soon","#,
        r#""suborbital":false,"modified":"2023-12-31"}"#,
    ]
    .join("");
    format!(
        r#"{{"valid_auth":true,"count":1,"limit":25,"total":90,"last_page":4,"result":[{}]}}"#,
        launch
    )
}

#[test]
fn launches_snapshot_decodes_every_field() {
    let m = decode_launches_snapshot(launches_text().as_str()).unwrap();
    assert!(m.valid_auth);
    assert_eq!(m.count, 1);
    assert_eq!(m.limit, 25);
    assert_eq!(m.total, 90);
    assert_eq!(m.last_page, 4);
    assert_eq!(m.result.len(), 1);
    let l = &m.result[0];
    assert_eq!(l.id, 7);
    assert!(l.cospar_id.is_none());
    assert_eq!(l.name, "Demo Flight");
    assert_eq!(l.provider.name, "Example Org");
    assert_eq!(l.vehicle.company_id, 1);
    assert!(l.vehicle.pad.is_none());
    let pad = l.pad.as_ref().unwrap();
    assert_eq!(pad.location.state_name, "Florida");
    assert_eq!(l.missions.len(), 1);
    assert!(l.missions[0].description.is_none());
    assert_eq!(l.win_open.as_deref(), Some("2024-01-01T00:00Z"));
    assert_eq!(l.tags[0].text, "crewed");
    assert_eq!(l.weather_temp, 21);
    assert_eq!(l.weather_wind_mph, Some(8));
    assert!(!l.suborbital);
    assert_eq!(l.modified, "2023-12-31");
}

#[test]
fn launches_snapshot_accepts_state_name_spellings() {
    let with_canonical = launches_text().replace(r#""statename":"Florida""#, r#""state_name":"Florida""#);
    let m = decode_launches_snapshot(with_canonical.as_str()).unwrap();
    assert_eq!(m.result[0].pad.as_ref().unwrap().location.state_name, "Florida");
}

#[test]
fn launches_snapshot_missing_field_is_rejected() {
    let broken = launches_text().replace(r#""suborbital":false,"#, "");
    assert!(decode_launches_snapshot(broken.as_str()).is_none());
}

#[test]
fn launches_response_carries_placeholder_date() {
    let m = decode_launches_snapshot(launches_text().as_str()).unwrap();
    let r = generate_response(m);
    assert_eq!(r.date, "Coming soon");
    assert_eq!(r.launches.count, 1);
}

#[test]
fn launches_response_body_round_trips_through_a_reference_parser() {
    let m = decode_launches_snapshot(launches_text().as_str()).unwrap();
    let body = encode_launches_response(&generate_response(m));
    let v: serde_json::Value = serde_json::from_str(body.as_str()).unwrap();
    assert_eq!(v["date"], "Coming soon");
    assert_eq!(v["launches"]["count"], 1);
    assert_eq!(v["launches"]["result"][0]["name"], "Demo Flight");
    assert_eq!(v["launches"]["result"][0]["weather_wind_mph"], 8);
    assert_eq!(v["launches"]["result"][0]["pad"]["location"]["state_name"], "Florida");
}

#[test]
fn launches_snapshot_round_trips() {
    let m = decode_launches_snapshot(launches_text().as_str()).unwrap();
    let text = encode_launches_snapshot(&m);
    let back = decode_launches_snapshot(text.as_str()).unwrap();
    assert_eq!(back.count, m.count);
    assert_eq!(back.total, m.total);
    assert_eq!(back.result.len(), 1);
    assert_eq!(back.result[0].name, m.result[0].name);
    assert_eq!(back.result[0].sort_date, m.result[0].sort_date);
    assert_eq!(back.result[0].weather_wind_mph, m.result[0].weather_wind_mph);
    assert_eq!(
        back.result[0].pad.as_ref().unwrap().location.country,
        m.result[0].pad.as_ref().unwrap().location.country
    );
    assert_eq!(encode_launches_snapshot(&back), text);
}

#[test]
fn launch_id_too_large_for_u64_is_rejected() {
    let broken = launches_text().replace(r#""id":7,"#, r#""id":99999999999999999999999999,"#);
    assert!(decode_launches_snapshot(broken.as_str()).is_none());
}
