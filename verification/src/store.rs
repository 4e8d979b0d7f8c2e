//! The snapshot store client's logic: turning a canonical model into the
//! exact bytes written under its key, and reading bytes back into a model.
//! The blob store's get and put calls happen outside the library; reading
//! hands in `None` when the key was never written, and a not-found is always
//! reported apart from a malformed object.
use vstd::prelude::*;
use vstd::slice::slice_to_vec;
use vstd::utf8::{decode_utf8, encode_utf8, valid_utf8};

use crate::apimodels::{PeopleInSpaceModel, PeopleInSpaceModelView};
use crate::neo::{encode_neo_snapshot, decode_neo_snapshot, neo_snapshot_of_text,
    neo_snapshot_text};
use crate::people::{encode_people_snapshot, decode_people_snapshot, people_snapshot_of_text,
    people_snapshot_text};
use crate::launches::{decode_launches_snapshot, launches_snapshot_of_text};
use crate::persistencemodels::{NearEarthObjectModel, NearEarthObjectModelView, UpcomingLaunches,
    UpcomingLaunchesView};
use crate::text::utf8_to_str;

verus! {

/// Why a store read failed. A key that was never written is distinct from a
/// malformed object: a failure never silently yields an empty model.
#[derive(Clone, Copy, Debug, PartialEq, Eq, Structural)]
pub enum StoreReadError {
    /// No object exists under the key.
    NotFound,
    /// The object's bytes are not valid UTF-8 text.
    Encoding,
    /// The text does not hold the expected canonical model.
    Deserialization,
}

/// The exact bytes written for a people snapshot.
pub fn people_snapshot_bytes(m: &PeopleInSpaceModel) -> (r: Vec<u8>)
    ensures
        r@ == encode_utf8(people_snapshot_text(m@)),
{
    let s = encode_people_snapshot(m);
    slice_to_vec(s.as_str().as_bytes())
}

/// The exact bytes written for a near-earth-object snapshot.
pub fn neo_snapshot_bytes(m: &NearEarthObjectModel) -> (r: Vec<u8>)
    ensures
        r@ == encode_utf8(neo_snapshot_text(m@)),
{
    let s = encode_neo_snapshot(m);
    slice_to_vec(s.as_str().as_bytes())
}

/// Read a people snapshot out of a store object: `None` stands for a key
/// that was never written and is reported as its own error.
pub fn read_people_snapshot(body: Option<&[u8]>) -> (r: Result<
    PeopleInSpaceModel,
    StoreReadError,
>)
    ensures
        body is None ==> r == Result::<PeopleInSpaceModel, StoreReadError>::Err(
            StoreReadError::NotFound,
        ),
        body matches Some(b) ==> match r {
            Ok(m) => valid_utf8(b@) && people_snapshot_of_text(decode_utf8(b@)) == Some(m@),
            Err(e) => (e == StoreReadError::Encoding && !valid_utf8(b@)) || (e
                == StoreReadError::Deserialization && valid_utf8(b@) && people_snapshot_of_text(
                decode_utf8(b@),
            ) is None),
        },
{
    match body {
        None => Err(StoreReadError::NotFound),
        Some(b) => match utf8_to_str(b) {
            None => Err(StoreReadError::Encoding),
            Some(t) => match decode_people_snapshot(t) {
                Some(m) => Ok(m),
                None => Err(StoreReadError::Deserialization),
            },
        },
    }
}

/// Read a near-earth-object snapshot out of a store object.
pub fn read_neo_snapshot(body: Option<&[u8]>) -> (r: Result<
    NearEarthObjectModel,
    StoreReadError,
>)
    ensures
        body is None ==> r == Result::<NearEarthObjectModel, StoreReadError>::Err(
            StoreReadError::NotFound,
        ),
        body matches Some(b) ==> match r {
            Ok(m) => valid_utf8(b@) && neo_snapshot_of_text(decode_utf8(b@)) == Some(m@),
            Err(e) => (e == StoreReadError::Encoding && !valid_utf8(b@)) || (e
                == StoreReadError::Deserialization && valid_utf8(b@) && neo_snapshot_of_text(
                decode_utf8(b@),
            ) is None),
        },
{
    match body {
        None => Err(StoreReadError::NotFound),
        Some(b) => match utf8_to_str(b) {
            None => Err(StoreReadError::Encoding),
            Some(t) => match decode_neo_snapshot(t) {
                Some(m) => Ok(m),
                None => Err(StoreReadError::Deserialization),
            },
        },
    }
}

/// Read an upcoming-launches snapshot out of a store object.
pub fn read_launches_snapshot(body: Option<&[u8]>) -> (r: Result<
    UpcomingLaunches,
    StoreReadError,
>)
    ensures
        body is None ==> r == Result::<UpcomingLaunches, StoreReadError>::Err(
            StoreReadError::NotFound,
        ),
        body matches Some(b) ==> match r {
            Ok(m) => valid_utf8(b@) && launches_snapshot_of_text(decode_utf8(b@)) == Some(m@),
            Err(e) => (e == StoreReadError::Encoding && !valid_utf8(b@)) || (e
                == StoreReadError::Deserialization && valid_utf8(b@) && launches_snapshot_of_text(
                decode_utf8(b@),
            ) is None),
        },
{
    match body {
        None => Err(StoreReadError::NotFound),
        Some(b) => match utf8_to_str(b) {
            None => Err(StoreReadError::Encoding),
            Some(t) => match decode_launches_snapshot(t) {
                Some(m) => Ok(m),
                None => Err(StoreReadError::Deserialization),
            },
        },
    }
}

/// Writing a people snapshot and reading the bytes back yields the same
/// snapshot: the store's write-then-read guarantee down at the byte level.
pub proof fn lemma_people_store_round_trip(m: PeopleInSpaceModelView)
    ensures
        ({
            let b = encode_utf8(people_snapshot_text(m));
            valid_utf8(b) && people_snapshot_of_text(decode_utf8(b)) == Some(m)
        }),
{
    broadcast use vstd::utf8::encode_utf8_valid_utf8, vstd::utf8::encode_utf8_decode_utf8;

    crate::people::lemma_people_snapshot_round_trip(m);
}

/// The same guarantee for a well-formed near-earth-object snapshot.
pub proof fn lemma_neo_store_round_trip(m: NearEarthObjectModelView)
    requires
        m.wf(),
    ensures
        ({
            let b = encode_utf8(neo_snapshot_text(m));
            valid_utf8(b) && neo_snapshot_of_text(decode_utf8(b)) == Some(m)
        }),
{
    broadcast use vstd::utf8::encode_utf8_valid_utf8, vstd::utf8::encode_utf8_decode_utf8;

    crate::neo::lemma_neo_snapshot_round_trip(m);
}

} // verus!
