//! The people-in-space pipeline: reading the roster the upstream API sends,
//! normalizing it into the canonical snapshot with a supplied capture
//! timestamp, and encoding or decoding the snapshot as JSON text.
use vstd::prelude::*;
use vstd::string::StringExecFns;

use crate::apimodels::{
    PeopleApiResponse, PeopleApiResponseView, PeopleInSpaceModel, PeopleInSpaceModelView,
    PersonModel, PersonModelView,
};
use crate::fields::{
    get_str, lemma_seq_extract_map, lemma_views_of_push, lookup, lookup2, lookup2_spec,
    lookup_spec, seq_extract, str_field, views_of,
};
use crate::json::{
    arr_view, json_to_text, jv_view, obj_view, ser_val, JKv, JsonField, JsonVal, JsonValue,
};
use crate::parse::{parse_json_text, parse_text};
use crate::timestamp::{render_timestamp, timestamp_text, UtcTimestamp};

verus! {

broadcast use vstd::seq::group_seq_axioms, vstd::std_specs::vec::group_vec_axioms, vstd::string::group_string_axioms;

// ---------------------------------------------------------------------------
// One person.
// ---------------------------------------------------------------------------
pub open spec fn person_json(p: PersonModelView) -> JsonVal {
    JsonVal::Obj(
        seq![
            JKv { k: "name"@, v: JsonVal::Str(p.name) },
            JKv { k: "craft"@, v: JsonVal::Str(p.craft) },
        ],
    )
}

pub open spec fn person_of_json(v: JsonVal) -> Option<PersonModelView> {
    match v {
        JsonVal::Obj(fs) => match (
            str_field(lookup_spec(fs, "name"@)),
            str_field(lookup_spec(fs, "craft"@)),
        ) {
            (Option::Some(n), Option::Some(c)) => Option::Some(
                PersonModelView { name: n, craft: c },
            ),
            _ => Option::None,
        },
        _ => Option::None,
    }
}

/// The element extractor, as a value usable inside `seq_extract`.
pub open spec fn person_extractor() -> spec_fn(JsonVal) -> Option<PersonModelView> {
    |x: JsonVal| person_of_json(x)
}

pub fn person_build(p: &PersonModel) -> (r: JsonValue)
    ensures
        jv_view(r) == person_json(p@),
{
    let mut fs: Vec<JsonField> = Vec::new();
    fs.push(JsonField { key: String::from_str("name"), value: JsonValue::Str(p.name.clone()) });
    fs.push(JsonField { key: String::from_str("craft"), value: JsonValue::Str(p.craft.clone()) });
    proof {
        assert(obj_view(fs@) =~= seq![
            JKv { k: "name"@, v: JsonVal::Str(p.name@) },
            JKv { k: "craft"@, v: JsonVal::Str(p.craft@) },
        ]);
    }
    JsonValue::Obj(fs)
}

pub fn person_extract(v: &JsonValue) -> (r: Option<PersonModel>)
    ensures
        r is Some <==> person_of_json(jv_view(*v)) is Some,
        r matches Some(m) ==> person_of_json(jv_view(*v)) == Some(m@),
{
    match v {
        JsonValue::Obj(fields) => {
            let name = get_str(lookup(fields, "name"));
            let craft = get_str(lookup(fields, "craft"));
            match (name, craft) {
                (Some(n), Some(c)) => Some(PersonModel { name: n, craft: c }),
                _ => None,
            }
        },
        _ => None,
    }
}

/// Reading a built person gives the person back.
pub proof fn lemma_person_round(p: PersonModelView)
    ensures
        person_of_json(person_json(p)) == Some(p),
{
    reveal_strlit("name");
    reveal_strlit("craft");
    assert("name"@.len() == 4);
    assert("craft"@.len() == 5);
    let fs = seq![
        JKv { k: "name"@, v: JsonVal::Str(p.name) },
        JKv { k: "craft"@, v: JsonVal::Str(p.craft) },
    ];
    assert(fs[0].k == "name"@);
    assert(fs[0].k != "craft"@);
    assert(fs.drop_first() =~= seq![JKv { k: "craft"@, v: JsonVal::Str(p.craft) }]);
    let tail = fs.drop_first();
    assert(lookup_spec(fs, "name"@) == Some(JsonVal::Str(p.name)));
    assert(lookup_spec(tail, "craft"@) == Some(JsonVal::Str(p.craft)));
    assert(lookup_spec(fs, "craft"@) == lookup_spec(tail, "craft"@));
}

// ---------------------------------------------------------------------------
// Sequences of people.
// ---------------------------------------------------------------------------
pub open spec fn persons_json(ps: Seq<PersonModelView>) -> Seq<JsonVal> {
    Seq::new(ps.len(), |i: int| person_json(ps[i]))
}

pub fn persons_build(list: &Vec<PersonModel>) -> (r: Vec<JsonValue>)
    ensures
        arr_view(r@) == persons_json(views_of(list@)),
{
    let mut out: Vec<JsonValue> = Vec::new();
    let n = list.len();
    let mut i: usize = 0;
    proof {
        assert(arr_view(out@) =~= persons_json(views_of(list@)).take(0));
    }
    while i < n
        invariant
            i <= n,
            n == list@.len(),
            arr_view(out@) == persons_json(views_of(list@)).take(i as int),
        decreases n - i,
    {
        let jv = person_build(&list[i]);
        let ghost prev = out@;
        proof {
            crate::parse::lemma_arr_view_push(prev, jv);
        }
        out.push(jv);
        proof {
            assert(persons_json(views_of(list@)).take(i + 1 as int) =~= persons_json(
                views_of(list@),
            ).take(i as int).push(persons_json(views_of(list@))[i as int]));
            assert(arr_view(out@) == arr_view(prev).push(jv_view(jv)));
            assert(jv_view(jv) == persons_json(views_of(list@))[i as int]);
        }
        i = i + 1;
    }
    proof {
        assert(persons_json(views_of(list@)).take(n as int) =~= persons_json(views_of(list@)));
    }
    out
}

pub open spec fn persons_of_json(v: JsonVal) -> Option<Seq<PersonModelView>> {
    match v {
        JsonVal::Arr(items) => seq_extract(items, person_extractor()),
        _ => Option::None,
    }
}

pub fn persons_extract(v: &JsonValue) -> (r: Option<Vec<PersonModel>>)
    ensures
        r is Some <==> persons_of_json(jv_view(*v)) is Some,
        r matches Some(list) ==> persons_of_json(jv_view(*v)) == Some(views_of(list@)),
{
    match v {
        JsonValue::Arr(items) => {
            let n = items.len();
            let mut out: Vec<PersonModel> = Vec::new();
            let mut i: usize = 0;
            proof {
                assert(arr_view(items@).skip(0) =~= arr_view(items@));
                assert(views_of(out@) =~= Seq::<PersonModelView>::empty());
            }
            while i < n
                invariant
                    i <= n,
                    n == items@.len(),
                    jv_view(*v) == JsonVal::Arr(arr_view(items@)),
                    ({
                        let f = person_extractor();
                        let full = seq_extract(arr_view(items@), f);
                        match seq_extract(arr_view(items@).skip(i as int), f) {
                            Option::None => full is None,
                            Option::Some(rest) => full == Some(views_of(out@) + rest),
                        }
                    }),
                decreases n - i,
            {
                proof {
                    assert(arr_view(items@).skip(i as int)[0] == arr_view(items@)[i as int]);
                    assert(arr_view(items@).skip(i as int).drop_first() =~= arr_view(items@).skip(
                        i + 1 as int,
                    ));
                }
                match person_extract(&items[i]) {
                    None => {
                        proof {
                            let f = person_extractor();
                            assert(f(arr_view(items@).skip(i as int)[0]) == person_of_json(
                                arr_view(items@)[i as int],
                            ));
                            assert(arr_view(items@)[i as int] == jv_view(items@[i as int]));
                            assert(seq_extract(arr_view(items@).skip(i as int), f) is None);
                        }
                        return None;
                    },
                    Some(m) => {
                        proof {
                            lemma_views_of_push(out@, m);
                        }
                        let ghost prev = views_of(out@);
                        let ghost mm = m@;
                        out.push(m);
                        proof {
                            let f = person_extractor();
                            assert(f(arr_view(items@).skip(i as int)[0]) == person_of_json(
                                arr_view(items@)[i as int],
                            ));
                            assert(arr_view(items@)[i as int] == jv_view(items@[i as int]));
                            match seq_extract(arr_view(items@).skip(i + 1 as int), f) {
                                Option::None => {},
                                Option::Some(rest) => {
                                    assert(prev + (seq![mm] + rest) =~= (prev.push(mm)) + rest);
                                },
                            }
                        }
                        i = i + 1;
                    },
                }
            }
            proof {
                assert(arr_view(items@).skip(n as int) =~= Seq::<JsonVal>::empty());
                assert(views_of(out@) + Seq::<PersonModelView>::empty() =~= views_of(out@));
            }
            Some(out)
        },
        _ => None,
    }
}

/// Reading a built person array gives the people back.
pub proof fn lemma_persons_round(ps: Seq<PersonModelView>)
    ensures
        seq_extract(persons_json(ps), person_extractor()) == Some(ps),
{
    assert forall|i: int| 0 <= i < ps.len() implies person_extractor()(
        person_json(#[trigger] ps[i]),
    ) == Some(ps[i]) by {
        lemma_person_round(ps[i]);
    }
    let g = |p: PersonModelView| person_json(p);
    assert forall|i: int| 0 <= i < ps.len() implies person_extractor()(
        g(#[trigger] ps[i]),
    ) == Some(ps[i]) by {
        assert(g(ps[i]) == person_json(ps[i]));
        lemma_person_round(ps[i]);
    }
    lemma_seq_extract_map(ps, g, person_extractor());
    let js1 = Seq::new(ps.len(), |i: int| g(ps[i]));
    assert forall|i: int| 0 <= i < ps.len() implies js1[i] == persons_json(ps)[i] by {
        assert(g(ps[i]) == person_json(ps[i]));
    }
    assert(js1 =~= persons_json(ps));
}

// ---------------------------------------------------------------------------
// The canonical snapshot.
// ---------------------------------------------------------------------------
pub open spec fn people_model_json(m: PeopleInSpaceModelView) -> JsonVal {
    JsonVal::Obj(
        seq![
            JKv { k: "update_time"@, v: JsonVal::Str(m.update_time) },
            JKv { k: "people"@, v: JsonVal::Arr(persons_json(m.people)) },
        ],
    )
}

/// Reading a snapshot accepts the historical alias `updatedTime` for the
/// capture timestamp, but the canonical name is always what is written.
pub open spec fn people_model_of_json(v: JsonVal) -> Option<PeopleInSpaceModelView> {
    match v {
        JsonVal::Obj(fs) => {
            let ut = str_field(lookup2_spec(fs, "update_time"@, "updatedTime"@));
            let ps = match lookup_spec(fs, "people"@) {
                Option::Some(x) => persons_of_json(x),
                Option::None => Option::None,
            };
            match (ut, ps) {
                (Option::Some(u), Option::Some(p)) => Option::Some(
                    PeopleInSpaceModelView { update_time: u, people: p },
                ),
                _ => Option::None,
            }
        },
        _ => Option::None,
    }
}

pub fn people_model_build(m: &PeopleInSpaceModel) -> (r: JsonValue)
    ensures
        jv_view(r) == people_model_json(m@),
{
    let mut fs: Vec<JsonField> = Vec::new();
    fs.push(
        JsonField {
            key: String::from_str("update_time"),
            value: JsonValue::Str(m.update_time.clone()),
        },
    );
    fs.push(
        JsonField { key: String::from_str("people"), value: JsonValue::Arr(persons_build(&m.people)) },
    );
    proof {
        assert(obj_view(fs@) =~= seq![
            JKv { k: "update_time"@, v: JsonVal::Str(m.update_time@) },
            JKv { k: "people"@, v: JsonVal::Arr(persons_json(views_of(m.people@))) },
        ]);
    }
    JsonValue::Obj(fs)
}

pub fn people_model_extract(v: &JsonValue) -> (r: Option<PeopleInSpaceModel>)
    ensures
        r is Some <==> people_model_of_json(jv_view(*v)) is Some,
        r matches Some(m) ==> people_model_of_json(jv_view(*v)) == Some(m@),
{
    match v {
        JsonValue::Obj(fields) => {
            let ut = get_str(lookup2(fields, "update_time", "updatedTime"));
            let ps = match lookup(fields, "people") {
                Some(x) => persons_extract(x),
                None => None,
            };
            match (ut, ps) {
                (Some(u), Some(p)) => Some(PeopleInSpaceModel { update_time: u, people: p }),
                _ => None,
            }
        },
        _ => None,
    }
}

/// Reading a built snapshot gives the snapshot back.
pub proof fn lemma_people_model_round(m: PeopleInSpaceModelView)
    ensures
        people_model_of_json(people_model_json(m)) == Some(m),
{
    reveal_strlit("update_time");
    reveal_strlit("updatedTime");
    reveal_strlit("people");
    assert("update_time"@.len() == 11);
    assert("updatedTime"@.len() == 11);
    assert("people"@.len() == 6);
    let fs = seq![
        JKv { k: "update_time"@, v: JsonVal::Str(m.update_time) },
        JKv { k: "people"@, v: JsonVal::Arr(persons_json(m.people)) },
    ];
    assert(fs[0].k == "update_time"@);
    assert(fs[0].k != "people"@);
    assert(fs.drop_first() =~= seq![JKv { k: "people"@, v: JsonVal::Arr(persons_json(m.people)) }]);
    let tail = fs.drop_first();
    assert(lookup2_spec(fs, "update_time"@, "updatedTime"@) == Some(JsonVal::Str(m.update_time)));
    assert(lookup_spec(tail, "people"@) == Some(JsonVal::Arr(persons_json(m.people))));
    assert(lookup_spec(fs, "people"@) == lookup_spec(tail, "people"@));
    lemma_persons_round(m.people);
}

// ---------------------------------------------------------------------------
// The raw roster document.
// ---------------------------------------------------------------------------
pub open spec fn people_api_of_json(v: JsonVal) -> Option<PeopleApiResponseView> {
    match v {
        JsonVal::Obj(fs) => {
            let msg = crate::fields::opt_str_field(lookup_spec(fs, "message"@));
            let ps = match lookup_spec(fs, "people"@) {
                Option::Some(x) => persons_of_json(x),
                Option::None => Option::None,
            };
            match (msg, ps) {
                (Option::Some(u), Option::Some(p)) => Option::Some(
                    PeopleApiResponseView { message: u, people: p },
                ),
                _ => Option::None,
            }
        },
        _ => Option::None,
    }
}

pub fn people_api_extract(v: &JsonValue) -> (r: Option<PeopleApiResponse>)
    ensures
        r is Some <==> people_api_of_json(jv_view(*v)) is Some,
        r matches Some(m) ==> people_api_of_json(jv_view(*v)) == Some(m@),
{
    match v {
        JsonValue::Obj(fields) => {
            let msg = crate::fields::get_opt_str(lookup(fields, "message"));
            let ps = match lookup(fields, "people") {
                Some(x) => persons_extract(x),
                None => None,
            };
            match (msg, ps) {
                (Some(u), Some(p)) => Some(PeopleApiResponse { message: u, people: p }),
                _ => None,
            }
        },
        _ => None,
    }
}

/// What parsing a whole roster document yields.
pub open spec fn people_api_of_text(s: Seq<char>) -> Option<PeopleApiResponseView> {
    match parse_text(s) {
        Option::Some(v) => people_api_of_json(v),
        Option::None => Option::None,
    }
}

/// Parse the upstream roster document.
pub fn parse_people_document(t: &str) -> (r: Option<PeopleApiResponse>)
    ensures
        r is Some <==> people_api_of_text(t@) is Some,
        r matches Some(m) ==> people_api_of_text(t@) == Some(m@),
{
    match parse_json_text(t) {
        None => None,
        Some(v) => people_api_extract(&v),
    }
}

// ---------------------------------------------------------------------------
// Normalization and the stored text.
// ---------------------------------------------------------------------------
/// The canonical snapshot a roster and a capture clock reading normalize to.
pub open spec fn spec_convert_to_model(a: PeopleApiResponseView, t: UtcTimestamp)
    -> PeopleInSpaceModelView {
    PeopleInSpaceModelView { update_time: timestamp_text(t), people: a.people }
}

/// Normalize the roster into the canonical snapshot, stamping it with the
/// supplied capture time. Pure: the result is a function of the two
/// arguments, so normalizing twice with the same clock reading gives
/// identical snapshots.
pub fn convert_to_model(api_response: PeopleApiResponse, captured_at: &UtcTimestamp) -> (r:
    PeopleInSpaceModel)
    ensures
        r@ == spec_convert_to_model(api_response@, *captured_at),
{
    PeopleInSpaceModel {
        update_time: render_timestamp(captured_at),
        people: api_response.people,
    }
}

/// Normalization is deterministic: the same roster and the same capture
/// clock reading always yield the same canonical snapshot.
pub proof fn lemma_convert_to_model_deterministic(
    a: PeopleApiResponseView,
    t: UtcTimestamp,
    m1: PeopleInSpaceModelView,
    m2: PeopleInSpaceModelView,
)
    requires
        m1 == spec_convert_to_model(a, t),
        m2 == spec_convert_to_model(a, t),
    ensures
        m1 == m2,
{
}

/// The stored text of a snapshot.
pub open spec fn people_snapshot_text(m: PeopleInSpaceModelView) -> Seq<char> {
    ser_val(people_model_json(m))
}

/// Serialize the canonical snapshot to the exact stored text.
pub fn encode_people_snapshot(m: &PeopleInSpaceModel) -> (r: String)
    ensures
        r@ == people_snapshot_text(m@),
{
    let v = people_model_build(m);
    json_to_text(&v)
}

/// What decoding stored text yields.
pub open spec fn people_snapshot_of_text(s: Seq<char>) -> Option<PeopleInSpaceModelView> {
    match parse_text(s) {
        Option::Some(v) => people_model_of_json(v),
        Option::None => Option::None,
    }
}

/// Decode a stored snapshot from its text.
pub fn decode_people_snapshot(t: &str) -> (r: Option<PeopleInSpaceModel>)
    ensures
        r is Some <==> people_snapshot_of_text(t@) is Some,
        r matches Some(m) ==> people_snapshot_of_text(t@) == Some(m@),
{
    match parse_json_text(t) {
        None => None,
        Some(v) => people_model_extract(&v),
    }
}


// ---------------------------------------------------------------------------
// The write-then-read guarantee of the snapshot.
// ---------------------------------------------------------------------------
pub proof fn lemma_person_json_wf(p: PersonModelView)
    ensures
        crate::json::wf_val(person_json(p)),
{
    let fs = person_json(p)->Obj_0;
    assert(crate::json::wf_val(fs[0].v));
    assert(crate::json::wf_val(fs[1].v));
    assert forall|i: int| 0 <= i < fs.len() implies crate::json::wf_val(
        (#[trigger] fs[i]).v,
    ) by {}
}

pub proof fn lemma_people_json_wf(m: PeopleInSpaceModelView)
    ensures
        crate::json::wf_val(people_model_json(m)),
{
    let fs = people_model_json(m)->Obj_0;
    assert(crate::json::wf_val(fs[0].v));
    let items = persons_json(m.people);
    assert forall|j: int| 0 <= j < items.len() implies crate::json::wf_val(
        #[trigger] items[j],
    ) by {
        lemma_person_json_wf(m.people[j]);
    }
    assert(crate::json::wf_val(fs[1].v));
    assert forall|i: int| 0 <= i < fs.len() implies crate::json::wf_val(
        (#[trigger] fs[i]).v,
    ) by {}
}

/// Every canonical people snapshot survives the store unchanged: decoding
/// the exact text the library writes gives the same snapshot back, every
/// name and craft string included.
pub proof fn lemma_people_snapshot_round_trip(m: PeopleInSpaceModelView)
    ensures
        people_snapshot_of_text(people_snapshot_text(m)) == Some(m),
{
    lemma_people_json_wf(m);
    crate::roundtrip::lemma_parse_text_ser(people_model_json(m));
    lemma_people_model_round(m);
}

} // verus!
