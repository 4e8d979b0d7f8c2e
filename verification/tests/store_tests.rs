use space_snapshots::apimodels::{PeopleInSpaceModel, PersonModel};
use space_snapshots::store::{
    people_snapshot_bytes, read_launches_snapshot, read_neo_snapshot, read_people_snapshot,
    StoreReadError,
};

#[test]
fn reading_a_never_written_key_is_not_found() {
    let r = read_people_snapshot(None);
    assert_eq!(r.unwrap_err(), StoreReadError::NotFound);
    let r = read_neo_snapshot(None);
    assert_eq!(r.unwrap_err(), StoreReadError::NotFound);
    let r = read_launches_snapshot(None);
    assert_eq!(r.unwrap_err(), StoreReadError::NotFound);
}

#[test]
fn invalid_utf8_is_an_encoding_error() {
    let bytes: Vec<u8> = vec![0xff, 0xfe, 0x00];
    let r = read_people_snapshot(Some(bytes.as_slice()));
    assert_eq!(r.unwrap_err(), StoreReadError::Encoding);
}

#[test]
fn wrong_shape_is_a_deserialization_error() {
    let bytes = b"{}".to_vec();
    let r = read_people_snapshot(Some(bytes.as_slice()));
    assert_eq!(r.unwrap_err(), StoreReadError::Deserialization);
    let bytes = b"[1,2,3]".to_vec();
    let r = read_neo_snapshot(Some(bytes.as_slice()));
    assert_eq!(r.unwrap_err(), StoreReadError::Deserialization);
}

#[test]
fn written_bytes_read_back_as_the_same_snapshot() {
    let model = PeopleInSpaceModel {
        update_time: String::from("2024-06-01 12:00:00 +0000"),
        people: vec![PersonModel { name: String::from("Jane"), craft: String::from("ISS") }],
    };
    let bytes = people_snapshot_bytes(&model);
    let back = read_people_snapshot(Some(bytes.as_slice())).unwrap();
    assert_eq!(back.update_time, model.update_time);
    assert_eq!(back.people.len(), 1);
    assert_eq!(back.people[0].name, "Jane");
    assert_eq!(back.people[0].craft, "ISS");
}

#[test]
fn stored_bytes_are_utf8_json() {
    let model = PeopleInSpaceModel {
        update_time: String::from("2024-06-01 12:00:00 +0000"),
        people: vec![],
    };
    let bytes = people_snapshot_bytes(&model);
    let text = std::str::from_utf8(bytes.as_slice()).unwrap();
    let value: serde_json::Value = serde_json::from_str(text).unwrap();
    assert_eq!(value["update_time"], "2024-06-01 12:00:00 +0000");
    assert!(value["people"].as_array().unwrap().is_empty());
}
