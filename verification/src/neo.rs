//! The near-earth-object pipeline: reading the raw date-keyed feed,
//! normalizing it into the flat canonical snapshot with a supplied capture
//! timestamp, and encoding or decoding the snapshot and the read-path
//! response as JSON text.
use vstd::prelude::*;
use vstd::string::StringExecFns;

use crate::apimodels::{
    ApiResponse, ApiResponseLink, ApiResponseLinkView, ApiResponseView, CloseApproachData,
    CloseApproachDataView, EstimatedDiameter, EstimatedDiameterValues,
    EstimatedDiameterValuesView, EstimatedDiameterView, MissDistance, MissDistanceView,
    NearEarthObject, NearEarthObjectView, NeoDateEntry, NeoDateEntryView, RelativeVelocity,
    RelativeVelocityView,
};
use crate::fields::{
    bool_field, get_bool, get_i32, get_i64, get_num_text, get_opt_str, get_str,
    lemma_lookup_at, lemma_seq_extract_map, lemma_views_of_push, lookup, lookup2,
    lookup2_spec, lookup_spec,
    num_text_field, opt_str_field, opt_view, seq_extract, str_field, int_field, views_of,
};
use crate::json::{
    arr_view, json_to_text, jv_view, obj_view, ser_val, JKv, JsonField, JsonVal, JsonValue,
};
use crate::nums::{i64_to_dec, int_text, lemma_int_text_is_number, lemma_int_text_round_trip};
use crate::parse::{lemma_arr_view_push, parse_json_text, parse_text};
use crate::persistencemodels::{
    ApiLinks, ApiLinksView, NearEarthObjectApiResponse, NearEarthObjectApiResponseView,
    NearEarthObjectModel, NearEarthObjectModelView, StoredNearEarthObjectView,
};
use crate::timestamp::{timestamp_text, render_timestamp, UtcTimestamp};

verus! {

broadcast use vstd::seq::group_seq_axioms, vstd::std_specs::vec::group_vec_axioms, vstd::string::group_string_axioms;

// ---------------------------------------------------------------------------
// Optional string fields as JSON values.
// ---------------------------------------------------------------------------
pub open spec fn opt_str_json(o: Option<Seq<char>>) -> JsonVal {
    match o {
        Option::None => JsonVal::Null,
        Option::Some(s) => JsonVal::Str(s),
    }
}

pub(crate) fn build_opt_str(o: &Option<String>) -> (r: JsonValue)
    ensures
        jv_view(r) == opt_str_json(opt_view(*o)),
{
    match o {
        None => JsonValue::Null,
        Some(s) => JsonValue::Str(s.clone()),
    }
}

// ---------------------------------------------------------------------------
// Links: the raw shape and the persisted shape, each with the historical
// `self` alias for the `this` field.
// ---------------------------------------------------------------------------
pub open spec fn api_link_of_json(v: JsonVal) -> Option<ApiResponseLinkView> {
    match v {
        JsonVal::Obj(fs) => match (
            opt_str_field(lookup_spec(fs, "next"@)),
            opt_str_field(lookup_spec(fs, "prev"@)),
            opt_str_field(lookup2_spec(fs, "this"@, "self"@)),
        ) {
            (Option::Some(n), Option::Some(p), Option::Some(t)) => Option::Some(
                ApiResponseLinkView { next: n, prev: p, this: t },
            ),
            _ => Option::None,
        },
        _ => Option::None,
    }
}

pub fn api_link_extract(v: &JsonValue) -> (r: Option<ApiResponseLink>)
    ensures
        r is Some <==> api_link_of_json(jv_view(*v)) is Some,
        r matches Some(m) ==> api_link_of_json(jv_view(*v)) == Some(m@),
{
    match v {
        JsonValue::Obj(fields) => {
            let n = get_opt_str(lookup(fields, "next"));
            let p = get_opt_str(lookup(fields, "prev"));
            let t = get_opt_str(lookup2(fields, "this", "self"));
            match (n, p, t) {
                (Some(n), Some(p), Some(t)) => Some(ApiResponseLink { next: n, prev: p, this: t }),
                _ => None,
            }
        },
        _ => None,
    }
}

pub open spec fn links_json(l: ApiLinksView) -> JsonVal {
    JsonVal::Obj(
        seq![
            JKv { k: "next"@, v: opt_str_json(l.next) },
            JKv { k: "prev"@, v: opt_str_json(l.prev) },
            JKv { k: "this"@, v: opt_str_json(l.this) },
        ],
    )
}

pub open spec fn links_of_json(v: JsonVal) -> Option<ApiLinksView> {
    match v {
        JsonVal::Obj(fs) => match (
            opt_str_field(lookup_spec(fs, "next"@)),
            opt_str_field(lookup_spec(fs, "prev"@)),
            opt_str_field(lookup2_spec(fs, "this"@, "self"@)),
        ) {
            (Option::Some(n), Option::Some(p), Option::Some(t)) => Option::Some(
                ApiLinksView { next: n, prev: p, this: t },
            ),
            _ => Option::None,
        },
        _ => Option::None,
    }
}

pub fn links_build(l: &ApiLinks) -> (r: JsonValue)
    ensures
        jv_view(r) == links_json(l@),
{
    let mut fs: Vec<JsonField> = Vec::new();
    fs.push(JsonField { key: String::from_str("next"), value: build_opt_str(&l.next) });
    fs.push(JsonField { key: String::from_str("prev"), value: build_opt_str(&l.prev) });
    fs.push(JsonField { key: String::from_str("this"), value: build_opt_str(&l.this) });
    proof {
        assert(obj_view(fs@) =~= seq![
            JKv { k: "next"@, v: opt_str_json(opt_view(l.next)) },
            JKv { k: "prev"@, v: opt_str_json(opt_view(l.prev)) },
            JKv { k: "this"@, v: opt_str_json(opt_view(l.this)) },
        ]);
    }
    JsonValue::Obj(fs)
}

pub fn links_extract(v: &JsonValue) -> (r: Option<ApiLinks>)
    ensures
        r is Some <==> links_of_json(jv_view(*v)) is Some,
        r matches Some(m) ==> links_of_json(jv_view(*v)) == Some(m@),
{
    match v {
        JsonValue::Obj(fields) => {
            let n = get_opt_str(lookup(fields, "next"));
            let p = get_opt_str(lookup(fields, "prev"));
            let t = get_opt_str(lookup2(fields, "this", "self"));
            match (n, p, t) {
                (Some(n), Some(p), Some(t)) => Some(ApiLinks { next: n, prev: p, this: t }),
                _ => None,
            }
        },
        _ => None,
    }
}

pub proof fn lemma_links_round(l: ApiLinksView)
    ensures
        links_of_json(links_json(l)) == Some(l),
{
    reveal_strlit("next");
    reveal_strlit("prev");
    reveal_strlit("this");
    reveal_strlit("self");
    assert("next"@.len() == 4 && "prev"@.len() == 4 && "this"@.len() == 4 && "self"@.len() == 4);
    assert("next"@[0] == 'n' && "prev"@[0] == 'p' && "this"@[0] == 't' && "self"@[0] == 's');
    let fs = seq![
        JKv { k: "next"@, v: opt_str_json(l.next) },
        JKv { k: "prev"@, v: opt_str_json(l.prev) },
        JKv { k: "this"@, v: opt_str_json(l.this) },
    ];
    let t1 = fs.drop_first();
    let t2 = t1.drop_first();
    assert(t1 =~= seq![
        JKv { k: "prev"@, v: opt_str_json(l.prev) },
        JKv { k: "this"@, v: opt_str_json(l.this) },
    ]);
    assert(t2 =~= seq![JKv { k: "this"@, v: opt_str_json(l.this) }]);
    assert(lookup_spec(fs, "next"@) == Some(opt_str_json(l.next)));
    assert(lookup_spec(t1, "prev"@) == Some(opt_str_json(l.prev)));
    assert(lookup_spec(fs, "prev"@) == lookup_spec(t1, "prev"@));
    assert(lookup2_spec(t2, "this"@, "self"@) == Some(opt_str_json(l.this)));
    assert(lookup2_spec(t1, "this"@, "self"@) == lookup2_spec(t2, "this"@, "self"@));
    assert(lookup2_spec(fs, "this"@, "self"@) == lookup2_spec(t1, "this"@, "self"@));
    assert(opt_str_field(Some(opt_str_json(l.next))) == Some(l.next));
    assert(opt_str_field(Some(opt_str_json(l.prev))) == Some(l.prev));
    assert(opt_str_field(Some(opt_str_json(l.this))) == Some(l.this));
}

// ---------------------------------------------------------------------------
// Diameter estimates.
// ---------------------------------------------------------------------------
pub open spec fn edv_json(d: EstimatedDiameterValuesView) -> JsonVal {
    JsonVal::Obj(
        seq![
            JKv { k: "estimated_diameter_min"@, v: JsonVal::Num(d.estimated_diameter_min) },
            JKv { k: "estimated_diameter_max"@, v: JsonVal::Num(d.estimated_diameter_max) },
        ],
    )
}

pub open spec fn edv_of_json(v: JsonVal) -> Option<EstimatedDiameterValuesView> {
    match v {
        JsonVal::Obj(fs) => match (
            num_text_field(lookup_spec(fs, "estimated_diameter_min"@)),
            num_text_field(lookup_spec(fs, "estimated_diameter_max"@)),
        ) {
            (Option::Some(lo), Option::Some(hi)) => Option::Some(
                EstimatedDiameterValuesView {
                    estimated_diameter_min: lo,
                    estimated_diameter_max: hi,
                },
            ),
            _ => Option::None,
        },
        _ => Option::None,
    }
}

pub fn edv_build(d: &EstimatedDiameterValues) -> (r: JsonValue)
    ensures
        jv_view(r) == edv_json(d@),
{
    let mut fs: Vec<JsonField> = Vec::new();
    fs.push(
        JsonField {
            key: String::from_str("estimated_diameter_min"),
            value: JsonValue::Num(d.estimated_diameter_min.clone()),
        },
    );
    fs.push(
        JsonField {
            key: String::from_str("estimated_diameter_max"),
            value: JsonValue::Num(d.estimated_diameter_max.clone()),
        },
    );
    proof {
        assert(obj_view(fs@) =~= seq![
            JKv { k: "estimated_diameter_min"@, v: JsonVal::Num(d.estimated_diameter_min@) },
            JKv { k: "estimated_diameter_max"@, v: JsonVal::Num(d.estimated_diameter_max@) },
        ]);
    }
    JsonValue::Obj(fs)
}

pub fn edv_extract(v: &JsonValue) -> (r: Option<EstimatedDiameterValues>)
    ensures
        r is Some <==> edv_of_json(jv_view(*v)) is Some,
        r matches Some(m) ==> edv_of_json(jv_view(*v)) == Some(m@),
{
    match v {
        JsonValue::Obj(fields) => {
            let lo = get_num_text(lookup(fields, "estimated_diameter_min"));
            let hi = get_num_text(lookup(fields, "estimated_diameter_max"));
            match (lo, hi) {
                (Some(lo), Some(hi)) => Some(
                    EstimatedDiameterValues {
                        estimated_diameter_min: lo,
                        estimated_diameter_max: hi,
                    },
                ),
                _ => None,
            }
        },
        _ => None,
    }
}

pub proof fn lemma_edv_round(d: EstimatedDiameterValuesView)
    requires
        d.wf(),
    ensures
        edv_of_json(edv_json(d)) == Some(d),
{
    reveal_strlit("estimated_diameter_min");
    reveal_strlit("estimated_diameter_max");
    assert("estimated_diameter_min"@.len() == 22 && "estimated_diameter_max"@.len() == 22);
    assert("estimated_diameter_min"@[19] == 'm' && "estimated_diameter_min"@[20] == 'i');
    assert("estimated_diameter_max"@[20] == 'a');
    let fs = seq![
        JKv { k: "estimated_diameter_min"@, v: JsonVal::Num(d.estimated_diameter_min) },
        JKv { k: "estimated_diameter_max"@, v: JsonVal::Num(d.estimated_diameter_max) },
    ];
    let t1 = fs.drop_first();
    assert(t1 =~= seq![
        JKv { k: "estimated_diameter_max"@, v: JsonVal::Num(d.estimated_diameter_max) },
    ]);
    assert(lookup_spec(fs, "estimated_diameter_min"@) == Some(
        JsonVal::Num(d.estimated_diameter_min),
    ));
    assert(lookup_spec(t1, "estimated_diameter_max"@) == Some(
        JsonVal::Num(d.estimated_diameter_max),
    ));
    assert(lookup_spec(fs, "estimated_diameter_max"@) == lookup_spec(
        t1,
        "estimated_diameter_max"@,
    ));
}

pub open spec fn ed_json(d: EstimatedDiameterView) -> JsonVal {
    JsonVal::Obj(
        seq![
            JKv { k: "kilometers"@, v: edv_json(d.kilometers) },
            JKv { k: "meters"@, v: edv_json(d.meters) },
            JKv { k: "miles"@, v: edv_json(d.miles) },
            JKv { k: "feet"@, v: edv_json(d.feet) },
        ],
    )
}

pub open spec fn ed_of_json(v: JsonVal) -> Option<EstimatedDiameterView> {
    match v {
        JsonVal::Obj(fs) => {
            let km = match lookup_spec(fs, "kilometers"@) {
                Option::Some(x) => edv_of_json(x),
                Option::None => Option::None,
            };
            let me = match lookup_spec(fs, "meters"@) {
                Option::Some(x) => edv_of_json(x),
                Option::None => Option::None,
            };
            let mi = match lookup_spec(fs, "miles"@) {
                Option::Some(x) => edv_of_json(x),
                Option::None => Option::None,
            };
            let ft = match lookup_spec(fs, "feet"@) {
                Option::Some(x) => edv_of_json(x),
                Option::None => Option::None,
            };
            match (km, me, mi, ft) {
                (Option::Some(km), Option::Some(me), Option::Some(mi), Option::Some(ft)) =>
                    Option::Some(
                    EstimatedDiameterView { kilometers: km, meters: me, miles: mi, feet: ft },
                ),
                _ => Option::None,
            }
        },
        _ => Option::None,
    }
}

pub fn ed_build(d: &EstimatedDiameter) -> (r: JsonValue)
    ensures
        jv_view(r) == ed_json(d@),
{
    let mut fs: Vec<JsonField> = Vec::new();
    fs.push(JsonField { key: String::from_str("kilometers"), value: edv_build(&d.kilometers) });
    fs.push(JsonField { key: String::from_str("meters"), value: edv_build(&d.meters) });
    fs.push(JsonField { key: String::from_str("miles"), value: edv_build(&d.miles) });
    fs.push(JsonField { key: String::from_str("feet"), value: edv_build(&d.feet) });
    proof {
        assert(obj_view(fs@) =~= seq![
            JKv { k: "kilometers"@, v: edv_json(d.kilometers@) },
            JKv { k: "meters"@, v: edv_json(d.meters@) },
            JKv { k: "miles"@, v: edv_json(d.miles@) },
            JKv { k: "feet"@, v: edv_json(d.feet@) },
        ]);
    }
    JsonValue::Obj(fs)
}

pub fn ed_extract(v: &JsonValue) -> (r: Option<EstimatedDiameter>)
    ensures
        r is Some <==> ed_of_json(jv_view(*v)) is Some,
        r matches Some(m) ==> ed_of_json(jv_view(*v)) == Some(m@),
{
    match v {
        JsonValue::Obj(fields) => {
            let km = match lookup(fields, "kilometers") {
                Some(x) => edv_extract(x),
                None => None,
            };
            let me = match lookup(fields, "meters") {
                Some(x) => edv_extract(x),
                None => None,
            };
            let mi = match lookup(fields, "miles") {
                Some(x) => edv_extract(x),
                None => None,
            };
            let ft = match lookup(fields, "feet") {
                Some(x) => edv_extract(x),
                None => None,
            };
            match (km, me, mi, ft) {
                (Some(km), Some(me), Some(mi), Some(ft)) => Some(
                    EstimatedDiameter { kilometers: km, meters: me, miles: mi, feet: ft },
                ),
                _ => None,
            }
        },
        _ => None,
    }
}

pub proof fn lemma_ed_round(d: EstimatedDiameterView)
    requires
        d.wf(),
    ensures
        ed_of_json(ed_json(d)) == Some(d),
{
    reveal_strlit("kilometers");
    reveal_strlit("meters");
    reveal_strlit("miles");
    reveal_strlit("feet");
    assert("kilometers"@.len() == 10 && "meters"@.len() == 6 && "miles"@.len() == 5
        && "feet"@.len() == 4);
    let fs = seq![
        JKv { k: "kilometers"@, v: edv_json(d.kilometers) },
        JKv { k: "meters"@, v: edv_json(d.meters) },
        JKv { k: "miles"@, v: edv_json(d.miles) },
        JKv { k: "feet"@, v: edv_json(d.feet) },
    ];
    let t1 = fs.drop_first();
    let t2 = t1.drop_first();
    let t3 = t2.drop_first();
    assert(t1 =~= seq![
        JKv { k: "meters"@, v: edv_json(d.meters) },
        JKv { k: "miles"@, v: edv_json(d.miles) },
        JKv { k: "feet"@, v: edv_json(d.feet) },
    ]);
    assert(t2 =~= seq![
        JKv { k: "miles"@, v: edv_json(d.miles) },
        JKv { k: "feet"@, v: edv_json(d.feet) },
    ]);
    assert(t3 =~= seq![JKv { k: "feet"@, v: edv_json(d.feet) }]);
    assert(lookup_spec(fs, "kilometers"@) == Some(edv_json(d.kilometers)));
    assert(lookup_spec(fs, "meters"@) == lookup_spec(t1, "meters"@));
    assert(lookup_spec(t1, "meters"@) == Some(edv_json(d.meters)));
    assert(lookup_spec(fs, "miles"@) == lookup_spec(t1, "miles"@));
    assert(lookup_spec(t1, "miles"@) == lookup_spec(t2, "miles"@));
    assert(lookup_spec(t2, "miles"@) == Some(edv_json(d.miles)));
    assert(lookup_spec(fs, "feet"@) == lookup_spec(t1, "feet"@));
    assert(lookup_spec(t1, "feet"@) == lookup_spec(t2, "feet"@));
    assert(lookup_spec(t2, "feet"@) == lookup_spec(t3, "feet"@));
    assert(lookup_spec(t3, "feet"@) == Some(edv_json(d.feet)));
    lemma_edv_round(d.kilometers);
    lemma_edv_round(d.meters);
    lemma_edv_round(d.miles);
    lemma_edv_round(d.feet);
}

// ---------------------------------------------------------------------------
// Velocity and distance: decimals carried as strings by the feed itself.
// ---------------------------------------------------------------------------
pub open spec fn rv_json(r: RelativeVelocityView) -> JsonVal {
    JsonVal::Obj(
        seq![
            JKv { k: "kilometers_per_second"@, v: JsonVal::Str(r.kilometers_per_second) },
            JKv { k: "kilometers_per_hour"@, v: JsonVal::Str(r.kilometers_per_hour) },
            JKv { k: "miles_per_hour"@, v: JsonVal::Str(r.miles_per_hour) },
        ],
    )
}

pub open spec fn rv_of_json(v: JsonVal) -> Option<RelativeVelocityView> {
    match v {
        JsonVal::Obj(fs) => match (
            str_field(lookup_spec(fs, "kilometers_per_second"@)),
            str_field(lookup_spec(fs, "kilometers_per_hour"@)),
            str_field(lookup_spec(fs, "miles_per_hour"@)),
        ) {
            (Option::Some(a), Option::Some(b), Option::Some(c)) => Option::Some(
                RelativeVelocityView {
                    kilometers_per_second: a,
                    kilometers_per_hour: b,
                    miles_per_hour: c,
                },
            ),
            _ => Option::None,
        },
        _ => Option::None,
    }
}

pub fn rv_build(r0: &RelativeVelocity) -> (r: JsonValue)
    ensures
        jv_view(r) == rv_json(r0@),
{
    let mut fs: Vec<JsonField> = Vec::new();
    fs.push(
        JsonField {
            key: String::from_str("kilometers_per_second"),
            value: JsonValue::Str(r0.kilometers_per_second.clone()),
        },
    );
    fs.push(
        JsonField {
            key: String::from_str("kilometers_per_hour"),
            value: JsonValue::Str(r0.kilometers_per_hour.clone()),
        },
    );
    fs.push(
        JsonField {
            key: String::from_str("miles_per_hour"),
            value: JsonValue::Str(r0.miles_per_hour.clone()),
        },
    );
    proof {
        assert(obj_view(fs@) =~= seq![
            JKv { k: "kilometers_per_second"@, v: JsonVal::Str(r0.kilometers_per_second@) },
            JKv { k: "kilometers_per_hour"@, v: JsonVal::Str(r0.kilometers_per_hour@) },
            JKv { k: "miles_per_hour"@, v: JsonVal::Str(r0.miles_per_hour@) },
        ]);
    }
    JsonValue::Obj(fs)
}

pub fn rv_extract(v: &JsonValue) -> (r: Option<RelativeVelocity>)
    ensures
        r is Some <==> rv_of_json(jv_view(*v)) is Some,
        r matches Some(m) ==> rv_of_json(jv_view(*v)) == Some(m@),
{
    match v {
        JsonValue::Obj(fields) => {
            let a = get_str(lookup(fields, "kilometers_per_second"));
            let b = get_str(lookup(fields, "kilometers_per_hour"));
            let c = get_str(lookup(fields, "miles_per_hour"));
            match (a, b, c) {
                (Some(a), Some(b), Some(c)) => Some(
                    RelativeVelocity {
                        kilometers_per_second: a,
                        kilometers_per_hour: b,
                        miles_per_hour: c,
                    },
                ),
                _ => None,
            }
        },
        _ => None,
    }
}

pub proof fn lemma_rv_round(r: RelativeVelocityView)
    ensures
        rv_of_json(rv_json(r)) == Some(r),
{
    reveal_strlit("kilometers_per_second");
    reveal_strlit("kilometers_per_hour");
    reveal_strlit("miles_per_hour");
    assert("kilometers_per_second"@.len() == 21 && "kilometers_per_hour"@.len() == 19
        && "miles_per_hour"@.len() == 14);
    let fs = seq![
        JKv { k: "kilometers_per_second"@, v: JsonVal::Str(r.kilometers_per_second) },
        JKv { k: "kilometers_per_hour"@, v: JsonVal::Str(r.kilometers_per_hour) },
        JKv { k: "miles_per_hour"@, v: JsonVal::Str(r.miles_per_hour) },
    ];
    let t1 = fs.drop_first();
    let t2 = t1.drop_first();
    assert(t1 =~= seq![
        JKv { k: "kilometers_per_hour"@, v: JsonVal::Str(r.kilometers_per_hour) },
        JKv { k: "miles_per_hour"@, v: JsonVal::Str(r.miles_per_hour) },
    ]);
    assert(t2 =~= seq![JKv { k: "miles_per_hour"@, v: JsonVal::Str(r.miles_per_hour) }]);
    assert(lookup_spec(fs, "kilometers_per_second"@) == Some(
        JsonVal::Str(r.kilometers_per_second),
    ));
    assert(lookup_spec(fs, "kilometers_per_hour"@) == lookup_spec(t1, "kilometers_per_hour"@));
    assert(lookup_spec(t1, "kilometers_per_hour"@) == Some(JsonVal::Str(r.kilometers_per_hour)));
    assert(lookup_spec(fs, "miles_per_hour"@) == lookup_spec(t1, "miles_per_hour"@));
    assert(lookup_spec(t1, "miles_per_hour"@) == lookup_spec(t2, "miles_per_hour"@));
    assert(lookup_spec(t2, "miles_per_hour"@) == Some(JsonVal::Str(r.miles_per_hour)));
}

pub open spec fn md_json(m: MissDistanceView) -> JsonVal {
    JsonVal::Obj(
        seq![
            JKv { k: "astronomical"@, v: JsonVal::Str(m.astronomical) },
            JKv { k: "lunar"@, v: JsonVal::Str(m.lunar) },
            JKv { k: "kilometers"@, v: JsonVal::Str(m.kilometers) },
            JKv { k: "miles"@, v: JsonVal::Str(m.miles) },
        ],
    )
}

pub open spec fn md_of_json(v: JsonVal) -> Option<MissDistanceView> {
    match v {
        JsonVal::Obj(fs) => match (
            str_field(lookup_spec(fs, "astronomical"@)),
            str_field(lookup_spec(fs, "lunar"@)),
            str_field(lookup_spec(fs, "kilometers"@)),
            str_field(lookup_spec(fs, "miles"@)),
        ) {
            (Option::Some(a), Option::Some(b), Option::Some(c), Option::Some(d)) => Option::Some(
                MissDistanceView { astronomical: a, lunar: b, kilometers: c, miles: d },
            ),
            _ => Option::None,
        },
        _ => Option::None,
    }
}

pub fn md_build(m: &MissDistance) -> (r: JsonValue)
    ensures
        jv_view(r) == md_json(m@),
{
    let mut fs: Vec<JsonField> = Vec::new();
    fs.push(
        JsonField {
            key: String::from_str("astronomical"),
            value: JsonValue::Str(m.astronomical.clone()),
        },
    );
    fs.push(JsonField { key: String::from_str("lunar"), value: JsonValue::Str(m.lunar.clone()) });
    fs.push(
        JsonField {
            key: String::from_str("kilometers"),
            value: JsonValue::Str(m.kilometers.clone()),
        },
    );
    fs.push(JsonField { key: String::from_str("miles"), value: JsonValue::Str(m.miles.clone()) });
    proof {
        assert(obj_view(fs@) =~= seq![
            JKv { k: "astronomical"@, v: JsonVal::Str(m.astronomical@) },
            JKv { k: "lunar"@, v: JsonVal::Str(m.lunar@) },
            JKv { k: "kilometers"@, v: JsonVal::Str(m.kilometers@) },
            JKv { k: "miles"@, v: JsonVal::Str(m.miles@) },
        ]);
    }
    JsonValue::Obj(fs)
}

pub fn md_extract(v: &JsonValue) -> (r: Option<MissDistance>)
    ensures
        r is Some <==> md_of_json(jv_view(*v)) is Some,
        r matches Some(m) ==> md_of_json(jv_view(*v)) == Some(m@),
{
    match v {
        JsonValue::Obj(fields) => {
            let a = get_str(lookup(fields, "astronomical"));
            let b = get_str(lookup(fields, "lunar"));
            let c = get_str(lookup(fields, "kilometers"));
            let d = get_str(lookup(fields, "miles"));
            match (a, b, c, d) {
                (Some(a), Some(b), Some(c), Some(d)) => Some(
                    MissDistance { astronomical: a, lunar: b, kilometers: c, miles: d },
                ),
                _ => None,
            }
        },
        _ => None,
    }
}

pub proof fn lemma_md_round(m: MissDistanceView)
    ensures
        md_of_json(md_json(m)) == Some(m),
{
    reveal_strlit("astronomical");
    reveal_strlit("lunar");
    reveal_strlit("kilometers");
    reveal_strlit("miles");
    assert("astronomical"@.len() == 12 && "lunar"@.len() == 5 && "kilometers"@.len() == 10
        && "miles"@.len() == 5);
    assert("lunar"@[0] == 'l' && "miles"@[0] == 'm');
    let fs = seq![
        JKv { k: "astronomical"@, v: JsonVal::Str(m.astronomical) },
        JKv { k: "lunar"@, v: JsonVal::Str(m.lunar) },
        JKv { k: "kilometers"@, v: JsonVal::Str(m.kilometers) },
        JKv { k: "miles"@, v: JsonVal::Str(m.miles) },
    ];
    let t1 = fs.drop_first();
    let t2 = t1.drop_first();
    let t3 = t2.drop_first();
    assert(t1 =~= seq![
        JKv { k: "lunar"@, v: JsonVal::Str(m.lunar) },
        JKv { k: "kilometers"@, v: JsonVal::Str(m.kilometers) },
        JKv { k: "miles"@, v: JsonVal::Str(m.miles) },
    ]);
    assert(t2 =~= seq![
        JKv { k: "kilometers"@, v: JsonVal::Str(m.kilometers) },
        JKv { k: "miles"@, v: JsonVal::Str(m.miles) },
    ]);
    assert(t3 =~= seq![JKv { k: "miles"@, v: JsonVal::Str(m.miles) }]);
    assert(lookup_spec(fs, "astronomical"@) == Some(JsonVal::Str(m.astronomical)));
    assert(lookup_spec(fs, "lunar"@) == lookup_spec(t1, "lunar"@));
    assert(lookup_spec(t1, "lunar"@) == Some(JsonVal::Str(m.lunar)));
    assert(lookup_spec(fs, "kilometers"@) == lookup_spec(t1, "kilometers"@));
    assert(lookup_spec(t1, "kilometers"@) == lookup_spec(t2, "kilometers"@));
    assert(lookup_spec(t2, "kilometers"@) == Some(JsonVal::Str(m.kilometers)));
    assert(lookup_spec(fs, "miles"@) == lookup_spec(t1, "miles"@));
    assert(lookup_spec(t1, "miles"@) == lookup_spec(t2, "miles"@));
    assert(lookup_spec(t2, "miles"@) == lookup_spec(t3, "miles"@));
    assert(lookup_spec(t3, "miles"@) == Some(JsonVal::Str(m.miles)));
}

// ---------------------------------------------------------------------------
// Close approaches.
// ---------------------------------------------------------------------------
pub open spec fn cad_json(c: CloseApproachDataView) -> JsonVal {
    JsonVal::Obj(
        seq![
            JKv { k: "close_approach_date"@, v: JsonVal::Str(c.close_approach_date) },
            JKv {
                k: "epoch_date_close_approach"@,
                v: JsonVal::Num(int_text(c.epoch_date_close_approach as int)),
            },
            JKv { k: "relative_velocity"@, v: rv_json(c.relative_velocity) },
            JKv { k: "miss_distance"@, v: md_json(c.miss_distance) },
            JKv { k: "orbiting_body"@, v: JsonVal::Str(c.orbiting_body) },
        ],
    )
}

pub open spec fn cad_of_json(v: JsonVal) -> Option<CloseApproachDataView> {
    match v {
        JsonVal::Obj(fs) => {
            let date = str_field(lookup_spec(fs, "close_approach_date"@));
            let epoch = int_field(
                lookup_spec(fs, "epoch_date_close_approach"@),
                i64::MIN as int,
                i64::MAX as int,
            );
            let rv = match lookup_spec(fs, "relative_velocity"@) {
                Option::Some(x) => rv_of_json(x),
                Option::None => Option::None,
            };
            let md = match lookup_spec(fs, "miss_distance"@) {
                Option::Some(x) => md_of_json(x),
                Option::None => Option::None,
            };
            let ob = str_field(lookup_spec(fs, "orbiting_body"@));
            match (date, epoch, rv, md, ob) {
                (
                    Option::Some(d),
                    Option::Some(e),
                    Option::Some(r),
                    Option::Some(m),
                    Option::Some(o),
                ) => Option::Some(
                    CloseApproachDataView {
                        close_approach_date: d,
                        epoch_date_close_approach: e as i64,
                        relative_velocity: r,
                        miss_distance: m,
                        orbiting_body: o,
                    },
                ),
                _ => Option::None,
            }
        },
        _ => Option::None,
    }
}

/// The element extractor, as a value usable inside `seq_extract`.
pub open spec fn cad_extractor() -> spec_fn(JsonVal) -> Option<CloseApproachDataView> {
    |x: JsonVal| cad_of_json(x)
}

pub fn cad_build(c: &CloseApproachData) -> (r: JsonValue)
    ensures
        jv_view(r) == cad_json(c@),
{
    let mut fs: Vec<JsonField> = Vec::new();
    fs.push(
        JsonField {
            key: String::from_str("close_approach_date"),
            value: JsonValue::Str(c.close_approach_date.clone()),
        },
    );
    fs.push(
        JsonField {
            key: String::from_str("epoch_date_close_approach"),
            value: JsonValue::Num(i64_to_dec(c.epoch_date_close_approach)),
        },
    );
    fs.push(
        JsonField {
            key: String::from_str("relative_velocity"),
            value: rv_build(&c.relative_velocity),
        },
    );
    fs.push(
        JsonField { key: String::from_str("miss_distance"), value: md_build(&c.miss_distance) },
    );
    fs.push(
        JsonField {
            key: String::from_str("orbiting_body"),
            value: JsonValue::Str(c.orbiting_body.clone()),
        },
    );
    proof {
        assert(obj_view(fs@) =~= seq![
            JKv { k: "close_approach_date"@, v: JsonVal::Str(c.close_approach_date@) },
            JKv {
                k: "epoch_date_close_approach"@,
                v: JsonVal::Num(int_text(c.epoch_date_close_approach as int)),
            },
            JKv { k: "relative_velocity"@, v: rv_json(c.relative_velocity@) },
            JKv { k: "miss_distance"@, v: md_json(c.miss_distance@) },
            JKv { k: "orbiting_body"@, v: JsonVal::Str(c.orbiting_body@) },
        ]);
    }
    JsonValue::Obj(fs)
}

pub fn cad_extract(v: &JsonValue) -> (r: Option<CloseApproachData>)
    ensures
        r is Some <==> cad_of_json(jv_view(*v)) is Some,
        r matches Some(m) ==> cad_of_json(jv_view(*v)) == Some(m@),
{
    match v {
        JsonValue::Obj(fields) => {
            let date = get_str(lookup(fields, "close_approach_date"));
            let epoch = get_i64(lookup(fields, "epoch_date_close_approach"));
            let rv = match lookup(fields, "relative_velocity") {
                Some(x) => rv_extract(x),
                None => None,
            };
            let md = match lookup(fields, "miss_distance") {
                Some(x) => md_extract(x),
                None => None,
            };
            let ob = get_str(lookup(fields, "orbiting_body"));
            match (date, epoch, rv, md, ob) {
                (Some(d), Some(e), Some(r), Some(m), Some(o)) => Some(
                    CloseApproachData {
                        close_approach_date: d,
                        epoch_date_close_approach: e,
                        relative_velocity: r,
                        miss_distance: m,
                        orbiting_body: o,
                    },
                ),
                _ => None,
            }
        },
        _ => None,
    }
}

#[verifier::rlimit(40)]
pub proof fn lemma_cad_round(c: CloseApproachDataView)
    ensures
        cad_of_json(cad_json(c)) == Some(c),
{
    reveal_strlit("close_approach_date");
    reveal_strlit("epoch_date_close_approach");
    reveal_strlit("relative_velocity");
    reveal_strlit("miss_distance");
    reveal_strlit("orbiting_body");
    assert("close_approach_date"@.len() == 19 && "epoch_date_close_approach"@.len() == 25
        && "relative_velocity"@.len() == 17 && "miss_distance"@.len() == 13
        && "orbiting_body"@.len() == 13);
    assert("miss_distance"@[0] == 'm' && "orbiting_body"@[0] == 'o');
    let fs = seq![
        JKv { k: "close_approach_date"@, v: JsonVal::Str(c.close_approach_date) },
        JKv {
            k: "epoch_date_close_approach"@,
            v: JsonVal::Num(int_text(c.epoch_date_close_approach as int)),
        },
        JKv { k: "relative_velocity"@, v: rv_json(c.relative_velocity) },
        JKv { k: "miss_distance"@, v: md_json(c.miss_distance) },
        JKv { k: "orbiting_body"@, v: JsonVal::Str(c.orbiting_body) },
    ];
    let t1 = fs.drop_first();
    let t2 = t1.drop_first();
    let t3 = t2.drop_first();
    let t4 = t3.drop_first();
    assert(t1 =~= fs.subrange(1, 5));
    assert(t2 =~= fs.subrange(2, 5));
    assert(t3 =~= fs.subrange(3, 5));
    assert(t4 =~= fs.subrange(4, 5));
    assert(lookup_spec(fs, "close_approach_date"@) == Some(JsonVal::Str(c.close_approach_date)));
    assert(lookup_spec(fs, "epoch_date_close_approach"@) == lookup_spec(
        t1,
        "epoch_date_close_approach"@,
    ));
    assert(t1[0] == fs[1]);
    assert(lookup_spec(t1, "epoch_date_close_approach"@) == Some(
        JsonVal::Num(int_text(c.epoch_date_close_approach as int)),
    ));
    assert(t2[0] == fs[2] && t3[0] == fs[3] && t4[0] == fs[4]);
    assert(lookup_spec(fs, "relative_velocity"@) == lookup_spec(t1, "relative_velocity"@));
    assert(lookup_spec(t1, "relative_velocity"@) == lookup_spec(t2, "relative_velocity"@));
    assert(lookup_spec(t2, "relative_velocity"@) == Some(rv_json(c.relative_velocity)));
    assert(lookup_spec(fs, "miss_distance"@) == lookup_spec(t1, "miss_distance"@));
    assert(lookup_spec(t1, "miss_distance"@) == lookup_spec(t2, "miss_distance"@));
    assert(lookup_spec(t2, "miss_distance"@) == lookup_spec(t3, "miss_distance"@));
    assert(lookup_spec(t3, "miss_distance"@) == Some(md_json(c.miss_distance)));
    assert(lookup_spec(fs, "orbiting_body"@) == lookup_spec(t1, "orbiting_body"@));
    assert(lookup_spec(t1, "orbiting_body"@) == lookup_spec(t2, "orbiting_body"@));
    assert(lookup_spec(t2, "orbiting_body"@) == lookup_spec(t3, "orbiting_body"@));
    assert(lookup_spec(t3, "orbiting_body"@) == lookup_spec(t4, "orbiting_body"@));
    assert(lookup_spec(t4, "orbiting_body"@) == Some(JsonVal::Str(c.orbiting_body)));
    lemma_int_text_is_number(c.epoch_date_close_approach as int);
    lemma_int_text_round_trip(c.epoch_date_close_approach as int);
    lemma_rv_round(c.relative_velocity);
    lemma_md_round(c.miss_distance);
}


// ---------------------------------------------------------------------------
// Sequences of close approaches.
// ---------------------------------------------------------------------------
pub open spec fn cads_json(cs: Seq<CloseApproachDataView>) -> Seq<JsonVal> {
    Seq::new(cs.len(), |i: int| cad_json(cs[i]))
}

pub fn cads_build(list: &Vec<CloseApproachData>) -> (r: Vec<JsonValue>)
    ensures
        arr_view(r@) == cads_json(views_of(list@)),
{
    let mut out: Vec<JsonValue> = Vec::new();
    let n = list.len();
    let mut i: usize = 0;
    proof {
        assert(arr_view(out@) =~= cads_json(views_of(list@)).take(0));
    }
    while i < n
        invariant
            i <= n,
            n == list@.len(),
            arr_view(out@) == cads_json(views_of(list@)).take(i as int),
        decreases n - i,
    {
        let jv = cad_build(&list[i]);
        let ghost prev = out@;
        proof {
            lemma_arr_view_push(prev, jv);
        }
        out.push(jv);
        proof {
            assert(cads_json(views_of(list@)).take(i + 1 as int) =~= cads_json(
                views_of(list@),
            ).take(i as int).push(cads_json(views_of(list@))[i as int]));
        }
        i = i + 1;
    }
    proof {
        assert(cads_json(views_of(list@)).take(n as int) =~= cads_json(views_of(list@)));
    }
    out
}

pub open spec fn cads_of_json(v: JsonVal) -> Option<Seq<CloseApproachDataView>> {
    match v {
        JsonVal::Arr(items) => seq_extract(items, cad_extractor()),
        _ => Option::None,
    }
}

pub fn cads_extract(v: &JsonValue) -> (r: Option<Vec<CloseApproachData>>)
    ensures
        r is Some <==> cads_of_json(jv_view(*v)) is Some,
        r matches Some(list) ==> cads_of_json(jv_view(*v)) == Some(views_of(list@)),
{
    match v {
        JsonValue::Arr(items) => {
            let n = items.len();
            let mut out: Vec<CloseApproachData> = Vec::new();
            let mut i: usize = 0;
            proof {
                assert(arr_view(items@).skip(0) =~= arr_view(items@));
                assert(views_of(out@) =~= Seq::<CloseApproachDataView>::empty());
            }
            while i < n
                invariant
                    i <= n,
                    n == items@.len(),
                    jv_view(*v) == JsonVal::Arr(arr_view(items@)),
                    ({
                        let f = cad_extractor();
                        let full = seq_extract(arr_view(items@), f);
                        match seq_extract(arr_view(items@).skip(i as int), f) {
                            Option::None => full is None,
                            Option::Some(rest) => full == Some(views_of(out@) + rest),
                        }
                    }),
                decreases n - i,
            {
                proof {
                    assert(arr_view(items@).skip(i as int)[0] == arr_view(items@)[i as int]);
                    assert(arr_view(items@).skip(i as int).drop_first() =~= arr_view(items@).skip(
                        i + 1 as int,
                    ));
                }
                match cad_extract(&items[i]) {
                    None => {
                        proof {
                            let f = cad_extractor();
                            assert(f(arr_view(items@).skip(i as int)[0]) == cad_of_json(
                                arr_view(items@)[i as int],
                            ));
                            assert(arr_view(items@)[i as int] == jv_view(items@[i as int]));
                            assert(seq_extract(arr_view(items@).skip(i as int), f) is None);
                        }
                        return None;
                    },
                    Some(m) => {
                        proof {
                            lemma_views_of_push(out@, m);
                        }
                        let ghost prev = views_of(out@);
                        let ghost mm = m@;
                        out.push(m);
                        proof {
                            let f = cad_extractor();
                            assert(f(arr_view(items@).skip(i as int)[0]) == cad_of_json(
                                arr_view(items@)[i as int],
                            ));
                            assert(arr_view(items@)[i as int] == jv_view(items@[i as int]));
                            match seq_extract(arr_view(items@).skip(i + 1 as int), f) {
                                Option::None => {},
                                Option::Some(rest) => {
                                    assert(prev + (seq![mm] + rest) =~= (prev.push(mm)) + rest);
                                },
                            }
                        }
                        i = i + 1;
                    },
                }
            }
            proof {
                assert(arr_view(items@).skip(n as int) =~= Seq::<JsonVal>::empty());
                assert(views_of(out@) + Seq::<CloseApproachDataView>::empty() =~= views_of(out@));
            }
            Some(out)
        },
        _ => None,
    }
}

/// Reading a built close-approach array gives the events back.
pub proof fn lemma_cads_round(cs: Seq<CloseApproachDataView>)
    ensures
        seq_extract(cads_json(cs), cad_extractor()) == Some(cs),
{
    let g = |c: CloseApproachDataView| cad_json(c);
    assert forall|i: int| 0 <= i < cs.len() implies cad_extractor()(
        g(#[trigger] cs[i]),
    ) == Some(cs[i]) by {
        assert(g(cs[i]) == cad_json(cs[i]));
        lemma_cad_round(cs[i]);
    }
    lemma_seq_extract_map(cs, g, cad_extractor());
    let js1 = Seq::new(cs.len(), |i: int| g(cs[i]));
    assert forall|i: int| 0 <= i < cs.len() implies js1[i] == cads_json(cs)[i] by {
        assert(g(cs[i]) == cad_json(cs[i]));
    }
    assert(js1 =~= cads_json(cs));
}

// ---------------------------------------------------------------------------
// The raw near-earth object, and whole raw feed documents.
// ---------------------------------------------------------------------------
pub open spec fn api_neo_of_json(v: JsonVal) -> Option<NearEarthObjectView> {
    match v {
        JsonVal::Obj(fs) => {
            let id = str_field(lookup_spec(fs, "id"@));
            let refid = str_field(lookup_spec(fs, "neo_reference_id"@));
            let name = str_field(lookup_spec(fs, "name"@));
            let url = str_field(lookup_spec(fs, "nasa_jpl_url"@));
            let mag = num_text_field(lookup_spec(fs, "absolute_magnitude_h"@));
            let ed = match lookup_spec(fs, "estimated_diameter"@) {
                Option::Some(x) => ed_of_json(x),
                Option::None => Option::None,
            };
            let haz = bool_field(lookup_spec(fs, "is_potentially_hazardous_asteroid"@));
            let cads = match lookup_spec(fs, "close_approach_data"@) {
                Option::Some(x) => cads_of_json(x),
                Option::None => Option::None,
            };
            let sentry = bool_field(lookup_spec(fs, "is_sentry_object"@));
            let links = match lookup_spec(fs, "links"@) {
                Option::Some(x) => api_link_of_json(x),
                Option::None => Option::None,
            };
            match (id, refid, name, url, mag, ed, haz, cads, sentry, links) {
                (
                    Option::Some(id),
                    Option::Some(refid),
                    Option::Some(name),
                    Option::Some(url),
                    Option::Some(mag),
                    Option::Some(ed),
                    Option::Some(haz),
                    Option::Some(cads),
                    Option::Some(sentry),
                    Option::Some(links),
                ) => Option::Some(
                    NearEarthObjectView {
                        id: id,
                        neo_reference_id: refid,
                        name: name,
                        nasa_jpl_url: url,
                        absolute_magnitude_h: mag,
                        estimated_diameter: ed,
                        is_potentially_hazardous_asteroid: haz,
                        close_approach_data: cads,
                        is_sentry_object: sentry,
                        links: links,
                    },
                ),
                _ => Option::None,
            }
        },
        _ => Option::None,
    }
}

pub open spec fn api_neo_extractor() -> spec_fn(JsonVal) -> Option<NearEarthObjectView> {
    |x: JsonVal| api_neo_of_json(x)
}

pub fn api_neo_extract(v: &JsonValue) -> (r: Option<NearEarthObject>)
    ensures
        r is Some <==> api_neo_of_json(jv_view(*v)) is Some,
        r matches Some(m) ==> api_neo_of_json(jv_view(*v)) == Some(m@),
{
    match v {
        JsonValue::Obj(fields) => {
            let id = get_str(lookup(fields, "id"));
            let refid = get_str(lookup(fields, "neo_reference_id"));
            let name = get_str(lookup(fields, "name"));
            let url = get_str(lookup(fields, "nasa_jpl_url"));
            let mag = get_num_text(lookup(fields, "absolute_magnitude_h"));
            let ed = match lookup(fields, "estimated_diameter") {
                Some(x) => ed_extract(x),
                None => None,
            };
            let haz = get_bool(lookup(fields, "is_potentially_hazardous_asteroid"));
            let cads = match lookup(fields, "close_approach_data") {
                Some(x) => cads_extract(x),
                None => None,
            };
            let sentry = get_bool(lookup(fields, "is_sentry_object"));
            let links = match lookup(fields, "links") {
                Some(x) => api_link_extract(x),
                None => None,
            };
            match (id, refid, name, url, mag, ed, haz, cads, sentry, links) {
                (
                    Some(id),
                    Some(refid),
                    Some(name),
                    Some(url),
                    Some(mag),
                    Some(ed),
                    Some(haz),
                    Some(cads),
                    Some(sentry),
                    Some(links),
                ) => Some(
                    NearEarthObject {
                        id: id,
                        neo_reference_id: refid,
                        name: name,
                        nasa_jpl_url: url,
                        absolute_magnitude_h: mag,
                        estimated_diameter: ed,
                        is_potentially_hazardous_asteroid: haz,
                        close_approach_data: cads,
                        is_sentry_object: sentry,
                        links: links,
                    },
                ),
                _ => None,
            }
        },
        _ => None,
    }
}

pub open spec fn api_neos_of_json(v: JsonVal) -> Option<Seq<NearEarthObjectView>> {
    match v {
        JsonVal::Arr(items) => seq_extract(items, api_neo_extractor()),
        _ => Option::None,
    }
}

pub fn api_neos_extract(v: &JsonValue) -> (r: Option<Vec<NearEarthObject>>)
    ensures
        r is Some <==> api_neos_of_json(jv_view(*v)) is Some,
        r matches Some(list) ==> api_neos_of_json(jv_view(*v)) == Some(views_of(list@)),
{
    match v {
        JsonValue::Arr(items) => {
            let n = items.len();
            let mut out: Vec<NearEarthObject> = Vec::new();
            let mut i: usize = 0;
            proof {
                assert(arr_view(items@).skip(0) =~= arr_view(items@));
                assert(views_of(out@) =~= Seq::<NearEarthObjectView>::empty());
            }
            while i < n
                invariant
                    i <= n,
                    n == items@.len(),
                    jv_view(*v) == JsonVal::Arr(arr_view(items@)),
                    ({
                        let f = api_neo_extractor();
                        let full = seq_extract(arr_view(items@), f);
                        match seq_extract(arr_view(items@).skip(i as int), f) {
                            Option::None => full is None,
                            Option::Some(rest) => full == Some(views_of(out@) + rest),
                        }
                    }),
                decreases n - i,
            {
                proof {
                    assert(arr_view(items@).skip(i as int)[0] == arr_view(items@)[i as int]);
                    assert(arr_view(items@).skip(i as int).drop_first() =~= arr_view(items@).skip(
                        i + 1 as int,
                    ));
                }
                match api_neo_extract(&items[i]) {
                    None => {
                        proof {
                            let f = api_neo_extractor();
                            assert(f(arr_view(items@).skip(i as int)[0]) == api_neo_of_json(
                                arr_view(items@)[i as int],
                            ));
                            assert(arr_view(items@)[i as int] == jv_view(items@[i as int]));
                            assert(seq_extract(arr_view(items@).skip(i as int), f) is None);
                        }
                        return None;
                    },
                    Some(m) => {
                        proof {
                            lemma_views_of_push(out@, m);
                        }
                        let ghost prev = views_of(out@);
                        let ghost mm = m@;
                        out.push(m);
                        proof {
                            let f = api_neo_extractor();
                            assert(f(arr_view(items@).skip(i as int)[0]) == api_neo_of_json(
                                arr_view(items@)[i as int],
                            ));
                            assert(arr_view(items@)[i as int] == jv_view(items@[i as int]));
                            match seq_extract(arr_view(items@).skip(i + 1 as int), f) {
                                Option::None => {},
                                Option::Some(rest) => {
                                    assert(prev + (seq![mm] + rest) =~= (prev.push(mm)) + rest);
                                },
                            }
                        }
                        i = i + 1;
                    },
                }
            }
            proof {
                assert(arr_view(items@).skip(n as int) =~= Seq::<JsonVal>::empty());
                assert(views_of(out@) + Seq::<NearEarthObjectView>::empty() =~= views_of(out@));
            }
            Some(out)
        },
        _ => None,
    }
}

/// Extract one date group per pair of the feed's date-keyed object, keeping
/// document order.
pub open spec fn neo_groups_of(fs: Seq<JKv>) -> Option<Seq<NeoDateEntryView>>
    decreases fs.len(),
{
    if fs.len() == 0 {
        Option::Some(Seq::empty())
    } else {
        match api_neos_of_json(fs[0].v) {
            Option::None => Option::None,
            Option::Some(objs) => match neo_groups_of(fs.drop_first()) {
                Option::None => Option::None,
                Option::Some(rest) => Option::Some(
                    seq![NeoDateEntryView { date: fs[0].k, objects: objs }] + rest,
                ),
            },
        }
    }
}

pub fn neo_groups_extract(fields: &Vec<JsonField>) -> (r: Option<Vec<NeoDateEntry>>)
    ensures
        r is Some <==> neo_groups_of(obj_view(fields@)) is Some,
        r matches Some(list) ==> neo_groups_of(obj_view(fields@)) == Some(views_of(list@)),
{
    let n = fields.len();
    let mut out: Vec<NeoDateEntry> = Vec::new();
    let mut i: usize = 0;
    proof {
        assert(obj_view(fields@).skip(0) =~= obj_view(fields@));
        assert(views_of(out@) =~= Seq::<NeoDateEntryView>::empty());
    }
    while i < n
        invariant
            i <= n,
            n == fields@.len(),
            ({
                let full = neo_groups_of(obj_view(fields@));
                match neo_groups_of(obj_view(fields@).skip(i as int)) {
                    Option::None => full is None,
                    Option::Some(rest) => full == Some(views_of(out@) + rest),
                }
            }),
        decreases n - i,
    {
        proof {
            assert(obj_view(fields@).skip(i as int)[0] == obj_view(fields@)[i as int]);
            assert(obj_view(fields@).skip(i as int).drop_first() =~= obj_view(fields@).skip(
                i + 1 as int,
            ));
        }
        match api_neos_extract(&fields[i].value) {
            None => {
                proof {
                    assert(obj_view(fields@)[i as int].v == jv_view(fields@[i as int].value));
                }
                return None;
            },
            Some(objs) => {
                let entry = NeoDateEntry { date: fields[i].key.clone(), objects: objs };
                proof {
                    lemma_views_of_push(out@, entry);
                    assert(obj_view(fields@)[i as int].v == jv_view(fields@[i as int].value));
                    assert(obj_view(fields@)[i as int].k == fields@[i as int].key@);
                }
                let ghost prev = views_of(out@);
                let ghost ev = entry@;
                out.push(entry);
                proof {
                    match neo_groups_of(obj_view(fields@).skip(i + 1 as int)) {
                        Option::None => {},
                        Option::Some(rest) => {
                            assert(prev + (seq![ev] + rest) =~= (prev.push(ev)) + rest);
                        },
                    }
                }
                i = i + 1;
            },
        }
    }
    proof {
        assert(obj_view(fields@).skip(n as int) =~= Seq::<JKv>::empty());
        assert(views_of(out@) + Seq::<NeoDateEntryView>::empty() =~= views_of(out@));
    }
    Some(out)
}

/// What a raw feed document's JSON value yields.
pub open spec fn feed_of_json(v: JsonVal) -> Option<ApiResponseView> {
    match v {
        JsonVal::Obj(fs) => {
            let links = match lookup_spec(fs, "links"@) {
                Option::Some(x) => api_link_of_json(x),
                Option::None => Option::None,
            };
            let count = int_field(lookup_spec(fs, "element_count"@), i32::MIN as int, i32::MAX as int);
            let groups = match lookup_spec(fs, "near_earth_objects"@) {
                Option::Some(JsonVal::Obj(gs)) => neo_groups_of(gs),
                _ => Option::None,
            };
            match (links, count, groups) {
                (Option::Some(l), Option::Some(c), Option::Some(g)) => Option::Some(
                    ApiResponseView { links: l, element_count: c as i32, near_earth_objects: g },
                ),
                _ => Option::None,
            }
        },
        _ => Option::None,
    }
}

pub fn feed_extract(v: &JsonValue) -> (r: Option<ApiResponse>)
    ensures
        r is Some <==> feed_of_json(jv_view(*v)) is Some,
        r matches Some(m) ==> feed_of_json(jv_view(*v)) == Some(m@),
{
    match v {
        JsonValue::Obj(fields) => {
            let links = match lookup(fields, "links") {
                Some(x) => api_link_extract(x),
                None => None,
            };
            let count = get_i32(lookup(fields, "element_count"));
            let groups = match lookup(fields, "near_earth_objects") {
                Some(JsonValue::Obj(gs)) => neo_groups_extract(gs),
                _ => None,
            };
            match (links, count, groups) {
                (Some(l), Some(c), Some(g)) => Some(
                    ApiResponse { links: l, element_count: c, near_earth_objects: g },
                ),
                _ => None,
            }
        },
        _ => None,
    }
}

/// What parsing a whole raw feed document yields.
pub open spec fn feed_of_text(s: Seq<char>) -> Option<ApiResponseView> {
    match parse_text(s) {
        Option::Some(v) => feed_of_json(v),
        Option::None => Option::None,
    }
}

/// Parse the raw near-earth-object feed document.
pub fn parse_feed_document(t: &str) -> (r: Option<ApiResponse>)
    ensures
        r is Some <==> feed_of_text(t@) is Some,
        r matches Some(m) ==> feed_of_text(t@) == Some(m@),
{
    match parse_json_text(t) {
        None => None,
        Some(v) => feed_extract(&v),
    }
}


// ---------------------------------------------------------------------------
// The stored near-earth object.
// ---------------------------------------------------------------------------
pub open spec fn sneo_json(o: StoredNearEarthObjectView) -> JsonVal {
    JsonVal::Obj(
        seq![
            JKv { k: "id"@, v: JsonVal::Str(o.id) },
            JKv { k: "neo_reference_id"@, v: JsonVal::Str(o.neo_reference_id) },
            JKv { k: "name"@, v: JsonVal::Str(o.name) },
            JKv { k: "nasa_jpl_url"@, v: JsonVal::Str(o.nasa_jpl_url) },
            JKv { k: "absolute_magnitude_h"@, v: JsonVal::Num(o.absolute_magnitude_h) },
            JKv { k: "estimated_diameter"@, v: ed_json(o.estimated_diameter) },
            JKv {
                k: "is_potentially_hazardous_asteroid"@,
                v: JsonVal::Bool(o.is_potentially_hazardous_asteroid),
            },
            JKv { k: "close_approach_data"@, v: JsonVal::Arr(cads_json(o.close_approach_data)) },
            JKv { k: "is_sentry_object"@, v: JsonVal::Bool(o.is_sentry_object) },
            JKv { k: "links"@, v: links_json(o.links) },
        ],
    )
}

pub open spec fn sneo_of_json(v: JsonVal) -> Option<StoredNearEarthObjectView> {
    match v {
        JsonVal::Obj(fs) => {
            let id = str_field(lookup_spec(fs, "id"@));
            let refid = str_field(lookup_spec(fs, "neo_reference_id"@));
            let name = str_field(lookup_spec(fs, "name"@));
            let url = str_field(lookup_spec(fs, "nasa_jpl_url"@));
            let mag = num_text_field(lookup_spec(fs, "absolute_magnitude_h"@));
            let ed = match lookup_spec(fs, "estimated_diameter"@) {
                Option::Some(x) => ed_of_json(x),
                Option::None => Option::None,
            };
            let haz = bool_field(lookup_spec(fs, "is_potentially_hazardous_asteroid"@));
            let cads = match lookup_spec(fs, "close_approach_data"@) {
                Option::Some(x) => cads_of_json(x),
                Option::None => Option::None,
            };
            let sentry = bool_field(lookup_spec(fs, "is_sentry_object"@));
            let links = match lookup_spec(fs, "links"@) {
                Option::Some(x) => links_of_json(x),
                Option::None => Option::None,
            };
            match (id, refid, name, url, mag, ed, haz, cads, sentry, links) {
                (
                    Option::Some(id),
                    Option::Some(refid),
                    Option::Some(name),
                    Option::Some(url),
                    Option::Some(mag),
                    Option::Some(ed),
                    Option::Some(haz),
                    Option::Some(cads),
                    Option::Some(sentry),
                    Option::Some(links),
                ) => Option::Some(
                    StoredNearEarthObjectView {
                        id: id,
                        neo_reference_id: refid,
                        name: name,
                        nasa_jpl_url: url,
                        absolute_magnitude_h: mag,
                        estimated_diameter: ed,
                        is_potentially_hazardous_asteroid: haz,
                        close_approach_data: cads,
                        is_sentry_object: sentry,
                        links: links,
                    },
                ),
                _ => Option::None,
            }
        },
        _ => Option::None,
    }
}

pub open spec fn sneo_extractor() -> spec_fn(JsonVal) -> Option<StoredNearEarthObjectView> {
    |x: JsonVal| sneo_of_json(x)
}

pub fn sneo_build(o: &crate::persistencemodels::NearEarthObject) -> (r: JsonValue)
    ensures
        jv_view(r) == sneo_json(o@),
{
    let mut fs: Vec<JsonField> = Vec::new();
    fs.push(JsonField { key: String::from_str("id"), value: JsonValue::Str(o.id.clone()) });
    fs.push(
        JsonField {
            key: String::from_str("neo_reference_id"),
            value: JsonValue::Str(o.neo_reference_id.clone()),
        },
    );
    fs.push(JsonField { key: String::from_str("name"), value: JsonValue::Str(o.name.clone()) });
    fs.push(
        JsonField {
            key: String::from_str("nasa_jpl_url"),
            value: JsonValue::Str(o.nasa_jpl_url.clone()),
        },
    );
    fs.push(
        JsonField {
            key: String::from_str("absolute_magnitude_h"),
            value: JsonValue::Num(o.absolute_magnitude_h.clone()),
        },
    );
    fs.push(
        JsonField {
            key: String::from_str("estimated_diameter"),
            value: ed_build(&o.estimated_diameter),
        },
    );
    fs.push(
        JsonField {
            key: String::from_str("is_potentially_hazardous_asteroid"),
            value: JsonValue::Bool(o.is_potentially_hazardous_asteroid),
        },
    );
    fs.push(
        JsonField {
            key: String::from_str("close_approach_data"),
            value: JsonValue::Arr(cads_build(&o.close_approach_data)),
        },
    );
    fs.push(
        JsonField {
            key: String::from_str("is_sentry_object"),
            value: JsonValue::Bool(o.is_sentry_object),
        },
    );
    fs.push(JsonField { key: String::from_str("links"), value: links_build(&o.links) });
    proof {
        assert(obj_view(fs@) =~= seq![
            JKv { k: "id"@, v: JsonVal::Str(o.id@) },
            JKv { k: "neo_reference_id"@, v: JsonVal::Str(o.neo_reference_id@) },
            JKv { k: "name"@, v: JsonVal::Str(o.name@) },
            JKv { k: "nasa_jpl_url"@, v: JsonVal::Str(o.nasa_jpl_url@) },
            JKv { k: "absolute_magnitude_h"@, v: JsonVal::Num(o.absolute_magnitude_h@) },
            JKv { k: "estimated_diameter"@, v: ed_json(o.estimated_diameter@) },
            JKv {
                k: "is_potentially_hazardous_asteroid"@,
                v: JsonVal::Bool(o.is_potentially_hazardous_asteroid),
            },
            JKv {
                k: "close_approach_data"@,
                v: JsonVal::Arr(cads_json(views_of(o.close_approach_data@))),
            },
            JKv { k: "is_sentry_object"@, v: JsonVal::Bool(o.is_sentry_object) },
            JKv { k: "links"@, v: links_json(o.links@) },
        ]);
    }
    JsonValue::Obj(fs)
}

pub fn sneo_extract(v: &JsonValue) -> (r: Option<crate::persistencemodels::NearEarthObject>)
    ensures
        r is Some <==> sneo_of_json(jv_view(*v)) is Some,
        r matches Some(m) ==> sneo_of_json(jv_view(*v)) == Some(m@),
{
    match v {
        JsonValue::Obj(fields) => {
            let id = get_str(lookup(fields, "id"));
            let refid = get_str(lookup(fields, "neo_reference_id"));
            let name = get_str(lookup(fields, "name"));
            let url = get_str(lookup(fields, "nasa_jpl_url"));
            let mag = get_num_text(lookup(fields, "absolute_magnitude_h"));
            let ed = match lookup(fields, "estimated_diameter") {
                Some(x) => ed_extract(x),
                None => None,
            };
            let haz = get_bool(lookup(fields, "is_potentially_hazardous_asteroid"));
            let cads = match lookup(fields, "close_approach_data") {
                Some(x) => cads_extract(x),
                None => None,
            };
            let sentry = get_bool(lookup(fields, "is_sentry_object"));
            let links = match lookup(fields, "links") {
                Some(x) => links_extract(x),
                None => None,
            };
            match (id, refid, name, url, mag, ed, haz, cads, sentry, links) {
                (
                    Some(id),
                    Some(refid),
                    Some(name),
                    Some(url),
                    Some(mag),
                    Some(ed),
                    Some(haz),
                    Some(cads),
                    Some(sentry),
                    Some(links),
                ) => Some(
                    crate::persistencemodels::NearEarthObject {
                        id: id,
                        neo_reference_id: refid,
                        name: name,
                        nasa_jpl_url: url,
                        absolute_magnitude_h: mag,
                        estimated_diameter: ed,
                        is_potentially_hazardous_asteroid: haz,
                        close_approach_data: cads,
                        is_sentry_object: sentry,
                        links: links,
                    },
                ),
                _ => None,
            }
        },
        _ => None,
    }
}

#[verifier::rlimit(80)]
pub proof fn lemma_sneo_round(o: StoredNearEarthObjectView)
    requires
        o.wf(),
    ensures
        sneo_of_json(sneo_json(o)) == Some(o),
{
    reveal_strlit("id");
    reveal_strlit("neo_reference_id");
    reveal_strlit("name");
    reveal_strlit("nasa_jpl_url");
    reveal_strlit("absolute_magnitude_h");
    reveal_strlit("estimated_diameter");
    reveal_strlit("is_potentially_hazardous_asteroid");
    reveal_strlit("close_approach_data");
    reveal_strlit("is_sentry_object");
    reveal_strlit("links");
    assert("id"@.len() == 2 && "neo_reference_id"@.len() == 16 && "name"@.len() == 4
        && "nasa_jpl_url"@.len() == 12 && "absolute_magnitude_h"@.len() == 20
        && "estimated_diameter"@.len() == 18 && "is_potentially_hazardous_asteroid"@.len() == 33
        && "close_approach_data"@.len() == 19 && "is_sentry_object"@.len() == 16
        && "links"@.len() == 5);
    assert("neo_reference_id"@[0] == 'n' && "is_sentry_object"@[0] == 'i');
    let fs = sneo_json(o)->Obj_0;
    assert(fs[0].k == "id"@ && fs[1].k == "neo_reference_id"@ && fs[2].k == "name"@ && fs[3].k
        == "nasa_jpl_url"@ && fs[4].k == "absolute_magnitude_h"@ && fs[5].k
        == "estimated_diameter"@ && fs[6].k == "is_potentially_hazardous_asteroid"@ && fs[7].k
        == "close_approach_data"@ && fs[8].k == "is_sentry_object"@ && fs[9].k == "links"@);
    lemma_lookup_at(fs, "id"@, 0);
    lemma_lookup_at(fs, "neo_reference_id"@, 1);
    lemma_lookup_at(fs, "name"@, 2);
    lemma_lookup_at(fs, "nasa_jpl_url"@, 3);
    lemma_lookup_at(fs, "absolute_magnitude_h"@, 4);
    lemma_lookup_at(fs, "estimated_diameter"@, 5);
    lemma_lookup_at(fs, "is_potentially_hazardous_asteroid"@, 6);
    lemma_lookup_at(fs, "close_approach_data"@, 7);
    lemma_lookup_at(fs, "is_sentry_object"@, 8);
    lemma_lookup_at(fs, "links"@, 9);
    lemma_ed_round(o.estimated_diameter);
    lemma_cads_round(o.close_approach_data);
    lemma_links_round(o.links);
}

// ---------------------------------------------------------------------------
// Sequences of stored objects.
// ---------------------------------------------------------------------------
pub open spec fn sneos_json(os: Seq<StoredNearEarthObjectView>) -> Seq<JsonVal> {
    Seq::new(os.len(), |i: int| sneo_json(os[i]))
}

pub fn sneos_build(list: &Vec<crate::persistencemodels::NearEarthObject>) -> (r: Vec<JsonValue>)
    ensures
        arr_view(r@) == sneos_json(views_of(list@)),
{
    let mut out: Vec<JsonValue> = Vec::new();
    let n = list.len();
    let mut i: usize = 0;
    proof {
        assert(arr_view(out@) =~= sneos_json(views_of(list@)).take(0));
    }
    while i < n
        invariant
            i <= n,
            n == list@.len(),
            arr_view(out@) == sneos_json(views_of(list@)).take(i as int),
        decreases n - i,
    {
        let jv = sneo_build(&list[i]);
        let ghost prev = out@;
        proof {
            lemma_arr_view_push(prev, jv);
        }
        out.push(jv);
        proof {
            assert(sneos_json(views_of(list@)).take(i + 1 as int) =~= sneos_json(
                views_of(list@),
            ).take(i as int).push(sneos_json(views_of(list@))[i as int]));
        }
        i = i + 1;
    }
    proof {
        assert(sneos_json(views_of(list@)).take(n as int) =~= sneos_json(views_of(list@)));
    }
    out
}

pub open spec fn sneos_of_json(v: JsonVal) -> Option<Seq<StoredNearEarthObjectView>> {
    match v {
        JsonVal::Arr(items) => seq_extract(items, sneo_extractor()),
        _ => Option::None,
    }
}

pub fn sneos_extract(v: &JsonValue) -> (r: Option<Vec<crate::persistencemodels::NearEarthObject>>)
    ensures
        r is Some <==> sneos_of_json(jv_view(*v)) is Some,
        r matches Some(list) ==> sneos_of_json(jv_view(*v)) == Some(views_of(list@)),
{
    match v {
        JsonValue::Arr(items) => {
            let n = items.len();
            let mut out: Vec<crate::persistencemodels::NearEarthObject> = Vec::new();
            let mut i: usize = 0;
            proof {
                assert(arr_view(items@).skip(0) =~= arr_view(items@));
                assert(views_of(out@) =~= Seq::<StoredNearEarthObjectView>::empty());
            }
            while i < n
                invariant
                    i <= n,
                    n == items@.len(),
                    jv_view(*v) == JsonVal::Arr(arr_view(items@)),
                    ({
                        let f = sneo_extractor();
                        let full = seq_extract(arr_view(items@), f);
                        match seq_extract(arr_view(items@).skip(i as int), f) {
                            Option::None => full is None,
                            Option::Some(rest) => full == Some(views_of(out@) + rest),
                        }
                    }),
                decreases n - i,
            {
                proof {
                    assert(arr_view(items@).skip(i as int)[0] == arr_view(items@)[i as int]);
                    assert(arr_view(items@).skip(i as int).drop_first() =~= arr_view(items@).skip(
                        i + 1 as int,
                    ));
                }
                match sneo_extract(&items[i]) {
                    None => {
                        proof {
                            let f = sneo_extractor();
                            assert(f(arr_view(items@).skip(i as int)[0]) == sneo_of_json(
                                arr_view(items@)[i as int],
                            ));
                            assert(arr_view(items@)[i as int] == jv_view(items@[i as int]));
                            assert(seq_extract(arr_view(items@).skip(i as int), f) is None);
                        }
                        return None;
                    },
                    Some(m) => {
                        proof {
                            lemma_views_of_push(out@, m);
                        }
                        let ghost prev = views_of(out@);
                        let ghost mm = m@;
                        out.push(m);
                        proof {
                            let f = sneo_extractor();
                            assert(f(arr_view(items@).skip(i as int)[0]) == sneo_of_json(
                                arr_view(items@)[i as int],
                            ));
                            assert(arr_view(items@)[i as int] == jv_view(items@[i as int]));
                            match seq_extract(arr_view(items@).skip(i + 1 as int), f) {
                                Option::None => {},
                                Option::Some(rest) => {
                                    assert(prev + (seq![mm] + rest) =~= (prev.push(mm)) + rest);
                                },
                            }
                        }
                        i = i + 1;
                    },
                }
            }
            proof {
                assert(arr_view(items@).skip(n as int) =~= Seq::<JsonVal>::empty());
                assert(views_of(out@) + Seq::<StoredNearEarthObjectView>::empty() =~= views_of(
                    out@,
                ));
            }
            Some(out)
        },
        _ => None,
    }
}

/// Reading a built stored-object array gives the objects back.
pub proof fn lemma_sneos_round(os: Seq<StoredNearEarthObjectView>)
    requires
        forall|i: int| 0 <= i < os.len() ==> (#[trigger] os[i]).wf(),
    ensures
        seq_extract(sneos_json(os), sneo_extractor()) == Some(os),
{
    let g = |o: StoredNearEarthObjectView| sneo_json(o);
    assert forall|i: int| 0 <= i < os.len() implies sneo_extractor()(
        g(#[trigger] os[i]),
    ) == Some(os[i]) by {
        assert(g(os[i]) == sneo_json(os[i]));
        lemma_sneo_round(os[i]);
    }
    lemma_seq_extract_map(os, g, sneo_extractor());
    let js1 = Seq::new(os.len(), |i: int| g(os[i]));
    assert forall|i: int| 0 <= i < os.len() implies js1[i] == sneos_json(os)[i] by {
        assert(g(os[i]) == sneo_json(os[i]));
    }
    assert(js1 =~= sneos_json(os));
}


// ---------------------------------------------------------------------------
// Normalization: flatten the date-keyed mapping into one ordered sequence.
// ---------------------------------------------------------------------------
/// A raw object under the persisted link shape.
pub open spec fn convert_neo_view(o: NearEarthObjectView) -> StoredNearEarthObjectView {
    StoredNearEarthObjectView {
        id: o.id,
        neo_reference_id: o.neo_reference_id,
        name: o.name,
        nasa_jpl_url: o.nasa_jpl_url,
        absolute_magnitude_h: o.absolute_magnitude_h,
        estimated_diameter: o.estimated_diameter,
        is_potentially_hazardous_asteroid: o.is_potentially_hazardous_asteroid,
        close_approach_data: o.close_approach_data,
        is_sentry_object: o.is_sentry_object,
        links: ApiLinksView { next: o.links.next, prev: o.links.prev, this: o.links.this },
    }
}

pub open spec fn convert_neos(os: Seq<NearEarthObjectView>) -> Seq<StoredNearEarthObjectView> {
    Seq::new(os.len(), |i: int| convert_neo_view(os[i]))
}

/// The groups' objects, concatenated in document order, each converted.
pub open spec fn flatten_groups(gs: Seq<NeoDateEntryView>) -> Seq<StoredNearEarthObjectView>
    decreases gs.len(),
{
    if gs.len() == 0 {
        Seq::empty()
    } else {
        convert_neos(gs[0].objects) + flatten_groups(gs.drop_first())
    }
}

pub proof fn lemma_flatten_groups_push(gs: Seq<NeoDateEntryView>, x: NeoDateEntryView)
    ensures
        flatten_groups(gs.push(x)) == flatten_groups(gs) + convert_neos(x.objects),
    decreases gs.len(),
{
    if gs.len() == 0 {
        assert(gs.push(x)[0] == x);
        assert(gs.push(x).drop_first() =~= Seq::<NeoDateEntryView>::empty());
        assert(flatten_groups(Seq::<NeoDateEntryView>::empty())
            == Seq::<StoredNearEarthObjectView>::empty());
        assert(flatten_groups(gs.push(x)) == convert_neos(x.objects) + Seq::<
            StoredNearEarthObjectView,
        >::empty());
        assert(convert_neos(x.objects) + Seq::<StoredNearEarthObjectView>::empty() =~= convert_neos(
            x.objects,
        ));
        assert(flatten_groups(gs) + convert_neos(x.objects) =~= convert_neos(x.objects));
    } else {
        assert(gs.push(x).drop_first() =~= gs.drop_first().push(x));
        assert(gs.push(x)[0] == gs[0]);
        lemma_flatten_groups_push(gs.drop_first(), x);
        assert(flatten_groups(gs.push(x)) == convert_neos(gs[0].objects) + flatten_groups(
            gs.drop_first().push(x),
        ));
        assert(flatten_groups(gs) == convert_neos(gs[0].objects) + flatten_groups(gs.drop_first()));
        assert(convert_neos(gs[0].objects) + (flatten_groups(gs.drop_first()) + convert_neos(
            x.objects,
        )) =~= (convert_neos(gs[0].objects) + flatten_groups(gs.drop_first())) + convert_neos(
            x.objects,
        ));
    }
}

/// The canonical snapshot a raw feed and a capture clock reading normalize
/// to: the links and count carried over, the capture time stamped in, and the
/// date-keyed mapping flattened by concatenating each date's objects in
/// document order.
pub open spec fn spec_convert_to_storage(r: ApiResponseView, t: UtcTimestamp)
    -> NearEarthObjectModelView {
    NearEarthObjectModelView {
        links: ApiLinksView { next: r.links.next, prev: r.links.prev, this: r.links.this },
        element_count: r.element_count,
        updated_date_time: timestamp_text(t),
        near_earth_objects: flatten_groups(r.near_earth_objects),
    }
}

fn rv_copy(r0: &RelativeVelocity) -> (r: RelativeVelocity)
    ensures
        r == *r0,
{
    RelativeVelocity {
        kilometers_per_second: r0.kilometers_per_second.clone(),
        kilometers_per_hour: r0.kilometers_per_hour.clone(),
        miles_per_hour: r0.miles_per_hour.clone(),
    }
}

fn md_copy(m: &MissDistance) -> (r: MissDistance)
    ensures
        r == *m,
{
    MissDistance {
        astronomical: m.astronomical.clone(),
        lunar: m.lunar.clone(),
        kilometers: m.kilometers.clone(),
        miles: m.miles.clone(),
    }
}

fn edv_copy(d: &EstimatedDiameterValues) -> (r: EstimatedDiameterValues)
    ensures
        r == *d,
{
    EstimatedDiameterValues {
        estimated_diameter_min: d.estimated_diameter_min.clone(),
        estimated_diameter_max: d.estimated_diameter_max.clone(),
    }
}

fn ed_copy(d: &EstimatedDiameter) -> (r: EstimatedDiameter)
    ensures
        r == *d,
{
    EstimatedDiameter {
        kilometers: edv_copy(&d.kilometers),
        meters: edv_copy(&d.meters),
        miles: edv_copy(&d.miles),
        feet: edv_copy(&d.feet),
    }
}

fn cad_copy(c: &CloseApproachData) -> (r: CloseApproachData)
    ensures
        r == *c,
{
    CloseApproachData {
        close_approach_date: c.close_approach_date.clone(),
        epoch_date_close_approach: c.epoch_date_close_approach,
        relative_velocity: rv_copy(&c.relative_velocity),
        miss_distance: md_copy(&c.miss_distance),
        orbiting_body: c.orbiting_body.clone(),
    }
}

fn cads_copy(list: &Vec<CloseApproachData>) -> (r: Vec<CloseApproachData>)
    ensures
        r@ == list@,
{
    let mut out: Vec<CloseApproachData> = Vec::new();
    let n = list.len();
    let mut i: usize = 0;
    while i < n
        invariant
            i <= n,
            n == list@.len(),
            out@ == list@.take(i as int),
        decreases n - i,
    {
        out.push(cad_copy(&list[i]));
        proof {
            assert(list@.take(i as int).push(list@[i as int]) =~= list@.take(i + 1 as int));
        }
        i = i + 1;
    }
    proof {
        assert(list@.take(n as int) =~= list@);
    }
    out
}

fn opt_str_copy(o: &Option<String>) -> (r: Option<String>)
    ensures
        r == *o,
{
    match o {
        None => None,
        Some(s) => Some(s.clone()),
    }
}

fn convert_neo(o: &NearEarthObject) -> (r: crate::persistencemodels::NearEarthObject)
    ensures
        r@ == convert_neo_view(o@),
{
    crate::persistencemodels::NearEarthObject {
        id: o.id.clone(),
        neo_reference_id: o.neo_reference_id.clone(),
        name: o.name.clone(),
        nasa_jpl_url: o.nasa_jpl_url.clone(),
        absolute_magnitude_h: o.absolute_magnitude_h.clone(),
        estimated_diameter: ed_copy(&o.estimated_diameter),
        is_potentially_hazardous_asteroid: o.is_potentially_hazardous_asteroid,
        close_approach_data: cads_copy(&o.close_approach_data),
        is_sentry_object: o.is_sentry_object,
        links: ApiLinks {
            next: opt_str_copy(&o.links.next),
            prev: opt_str_copy(&o.links.prev),
            this: opt_str_copy(&o.links.this),
        },
    }
}

/// Normalize a raw feed into the canonical snapshot, stamping it with the
/// supplied capture time. Pure: the result is a function of the two
/// arguments, so normalizing twice with the same clock reading gives
/// identical snapshots. All date keys are flattened, in document order.
pub fn convert_to_storage(response: &ApiResponse, captured_at: &UtcTimestamp) -> (r:
    NearEarthObjectModel)
    ensures
        r@ == spec_convert_to_storage(response@, *captured_at),
{
    let mut objs: Vec<crate::persistencemodels::NearEarthObject> = Vec::new();
    let groups = &response.near_earth_objects;
    let gn = groups.len();
    let mut g: usize = 0;
    proof {
        assert(views_of(response.near_earth_objects@).take(0) =~= Seq::<NeoDateEntryView>::empty());
        assert(views_of(objs@) =~= Seq::<StoredNearEarthObjectView>::empty());
    }
    while g < gn
        invariant
            g <= gn,
            gn == groups@.len(),
            groups == &response.near_earth_objects,
            views_of(objs@) == flatten_groups(views_of(groups@).take(g as int)),
        decreases gn - g,
    {
        let entry = &groups[g];
        let on = entry.objects.len();
        let mut k: usize = 0;
        proof {
            assert(views_of(entry.objects@).take(0) =~= Seq::<NearEarthObjectView>::empty());
            assert(convert_neos(views_of(entry.objects@).take(0)) =~= Seq::<
                StoredNearEarthObjectView,
            >::empty());
            assert(views_of(objs@) + convert_neos(views_of(entry.objects@).take(0)) =~= views_of(
                objs@,
            ));
        }
        let ghost base = views_of(objs@);
        while k < on
            invariant
                k <= on,
                on == entry.objects@.len(),
                views_of(objs@) == base + convert_neos(views_of(entry.objects@).take(k as int)),
            decreases on - k,
        {
            let converted = convert_neo(&entry.objects[k]);
            proof {
                lemma_views_of_push(objs@, converted);
            }
            out_push(&mut objs, converted);
            proof {
                assert(convert_neos(views_of(entry.objects@).take(k + 1 as int)) =~= convert_neos(
                    views_of(entry.objects@).take(k as int),
                ).push(convert_neo_view(views_of(entry.objects@)[k as int])));
                assert(base + convert_neos(views_of(entry.objects@).take(k as int)).push(
                    convert_neo_view(views_of(entry.objects@)[k as int]),
                ) =~= (base + convert_neos(views_of(entry.objects@).take(k as int))).push(
                    convert_neo_view(views_of(entry.objects@)[k as int]),
                ));
            }
            k = k + 1;
        }
        proof {
            assert(views_of(entry.objects@).take(on as int) =~= views_of(entry.objects@));
            lemma_flatten_groups_push(
                views_of(groups@).take(g as int),
                views_of(groups@)[g as int],
            );
            assert(views_of(groups@).take(g + 1 as int) =~= views_of(groups@).take(g as int).push(
                views_of(groups@)[g as int],
            ));
            assert(views_of(groups@)[g as int].objects == views_of(entry.objects@));
        }
        g = g + 1;
    }
    proof {
        assert(views_of(groups@).take(gn as int) =~= views_of(groups@));
    }
    NearEarthObjectModel {
        links: ApiLinks {
            next: opt_str_copy(&response.links.next),
            prev: opt_str_copy(&response.links.prev),
            this: opt_str_copy(&response.links.this),
        },
        element_count: response.element_count,
        updated_date_time: render_timestamp(captured_at),
        near_earth_objects: objs,
    }
}

fn out_push(v: &mut Vec<crate::persistencemodels::NearEarthObject>, x: crate::persistencemodels::NearEarthObject)
    ensures
        final(v)@ == old(v)@.push(x),
{
    v.push(x);
}

/// Normalization is deterministic: the same raw feed and the same capture
/// clock reading always yield the same canonical snapshot.
pub proof fn lemma_convert_to_storage_deterministic(
    r: ApiResponseView,
    t: UtcTimestamp,
    m1: NearEarthObjectModelView,
    m2: NearEarthObjectModelView,
)
    requires
        m1 == spec_convert_to_storage(r, t),
        m2 == spec_convert_to_storage(r, t),
    ensures
        m1 == m2,
{
}

/// With exactly one date key, normalizing preserves the element count and
/// the flattened sequence is exactly that one key's sequence of objects.
pub proof fn lemma_normalize_single_date_key(r: ApiResponseView, t: UtcTimestamp)
    requires
        r.near_earth_objects.len() == 1,
    ensures
        spec_convert_to_storage(r, t).element_count == r.element_count,
        spec_convert_to_storage(r, t).near_earth_objects.len()
            == r.near_earth_objects[0].objects.len(),
        spec_convert_to_storage(r, t).near_earth_objects == convert_neos(
            r.near_earth_objects[0].objects,
        ),
{
    let gs = r.near_earth_objects;
    assert(gs.drop_first() =~= Seq::<NeoDateEntryView>::empty());
    assert(flatten_groups(gs) == convert_neos(gs[0].objects) + flatten_groups(
        Seq::<NeoDateEntryView>::empty(),
    ));
    assert(convert_neos(gs[0].objects) + Seq::<StoredNearEarthObjectView>::empty() =~= convert_neos(
        gs[0].objects,
    ));
}

// ---------------------------------------------------------------------------
// The canonical snapshot as JSON text.
// ---------------------------------------------------------------------------
pub open spec fn neo_model_json(m: NearEarthObjectModelView) -> JsonVal {
    JsonVal::Obj(
        seq![
            JKv { k: "links"@, v: links_json(m.links) },
            JKv { k: "element_count"@, v: JsonVal::Num(int_text(m.element_count as int)) },
            JKv { k: "updated_date_time"@, v: JsonVal::Str(m.updated_date_time) },
            JKv { k: "near_earth_objects"@, v: JsonVal::Arr(sneos_json(m.near_earth_objects)) },
        ],
    )
}

pub open spec fn neo_model_of_json(v: JsonVal) -> Option<NearEarthObjectModelView> {
    match v {
        JsonVal::Obj(fs) => {
            let links = match lookup_spec(fs, "links"@) {
                Option::Some(x) => links_of_json(x),
                Option::None => Option::None,
            };
            let count = int_field(lookup_spec(fs, "element_count"@), i32::MIN as int, i32::MAX as int);
            let ut = str_field(lookup_spec(fs, "updated_date_time"@));
            let objs = match lookup_spec(fs, "near_earth_objects"@) {
                Option::Some(x) => sneos_of_json(x),
                Option::None => Option::None,
            };
            match (links, count, ut, objs) {
                (Option::Some(l), Option::Some(c), Option::Some(u), Option::Some(o)) =>
                    Option::Some(
                    NearEarthObjectModelView {
                        links: l,
                        element_count: c as i32,
                        updated_date_time: u,
                        near_earth_objects: o,
                    },
                ),
                _ => Option::None,
            }
        },
        _ => Option::None,
    }
}

pub fn neo_model_build(m: &NearEarthObjectModel) -> (r: JsonValue)
    ensures
        jv_view(r) == neo_model_json(m@),
{
    let mut fs: Vec<JsonField> = Vec::new();
    fs.push(JsonField { key: String::from_str("links"), value: links_build(&m.links) });
    fs.push(
        JsonField {
            key: String::from_str("element_count"),
            value: JsonValue::Num(i64_to_dec(m.element_count as i64)),
        },
    );
    fs.push(
        JsonField {
            key: String::from_str("updated_date_time"),
            value: JsonValue::Str(m.updated_date_time.clone()),
        },
    );
    fs.push(
        JsonField {
            key: String::from_str("near_earth_objects"),
            value: JsonValue::Arr(sneos_build(&m.near_earth_objects)),
        },
    );
    proof {
        assert(obj_view(fs@) =~= seq![
            JKv { k: "links"@, v: links_json(m.links@) },
            JKv { k: "element_count"@, v: JsonVal::Num(int_text(m.element_count as int)) },
            JKv { k: "updated_date_time"@, v: JsonVal::Str(m.updated_date_time@) },
            JKv {
                k: "near_earth_objects"@,
                v: JsonVal::Arr(sneos_json(views_of(m.near_earth_objects@))),
            },
        ]);
    }
    JsonValue::Obj(fs)
}

pub fn neo_model_extract(v: &JsonValue) -> (r: Option<NearEarthObjectModel>)
    ensures
        r is Some <==> neo_model_of_json(jv_view(*v)) is Some,
        r matches Some(m) ==> neo_model_of_json(jv_view(*v)) == Some(m@),
{
    match v {
        JsonValue::Obj(fields) => {
            let links = match lookup(fields, "links") {
                Some(x) => links_extract(x),
                None => None,
            };
            let count = get_i32(lookup(fields, "element_count"));
            let ut = get_str(lookup(fields, "updated_date_time"));
            let objs = match lookup(fields, "near_earth_objects") {
                Some(x) => sneos_extract(x),
                None => None,
            };
            match (links, count, ut, objs) {
                (Some(l), Some(c), Some(u), Some(o)) => Some(
                    NearEarthObjectModel {
                        links: l,
                        element_count: c,
                        updated_date_time: u,
                        near_earth_objects: o,
                    },
                ),
                _ => None,
            }
        },
        _ => None,
    }
}

/// Reading a built snapshot gives the snapshot back.
pub proof fn lemma_neo_model_round(m: NearEarthObjectModelView)
    requires
        m.wf(),
    ensures
        neo_model_of_json(neo_model_json(m)) == Some(m),
{
    reveal_strlit("links");
    reveal_strlit("element_count");
    reveal_strlit("updated_date_time");
    reveal_strlit("near_earth_objects");
    assert("links"@.len() == 5 && "element_count"@.len() == 13 && "updated_date_time"@.len() == 17
        && "near_earth_objects"@.len() == 18);
    let fs = neo_model_json(m)->Obj_0;
    assert(fs[0].k == "links"@ && fs[1].k == "element_count"@ && fs[2].k == "updated_date_time"@
        && fs[3].k == "near_earth_objects"@);
    lemma_lookup_at(fs, "links"@, 0);
    lemma_lookup_at(fs, "element_count"@, 1);
    lemma_lookup_at(fs, "updated_date_time"@, 2);
    lemma_lookup_at(fs, "near_earth_objects"@, 3);
    lemma_links_round(m.links);
    lemma_int_text_is_number(m.element_count as int);
    lemma_int_text_round_trip(m.element_count as int);
    lemma_sneos_round(m.near_earth_objects);
}

/// The stored text of a snapshot.
pub open spec fn neo_snapshot_text(m: NearEarthObjectModelView) -> Seq<char> {
    ser_val(neo_model_json(m))
}

/// Serialize the canonical snapshot to the exact stored text.
pub fn encode_neo_snapshot(m: &NearEarthObjectModel) -> (r: String)
    ensures
        r@ == neo_snapshot_text(m@),
{
    let v = neo_model_build(m);
    json_to_text(&v)
}

/// What decoding stored text yields.
pub open spec fn neo_snapshot_of_text(s: Seq<char>) -> Option<NearEarthObjectModelView> {
    match parse_text(s) {
        Option::Some(v) => neo_model_of_json(v),
        Option::None => Option::None,
    }
}

/// Decode a stored snapshot from its text.
pub fn decode_neo_snapshot(t: &str) -> (r: Option<NearEarthObjectModel>)
    ensures
        r is Some <==> neo_snapshot_of_text(t@) is Some,
        r matches Some(m) ==> neo_snapshot_of_text(t@) == Some(m@),
{
    match parse_json_text(t) {
        None => None,
        Some(v) => neo_model_extract(&v),
    }
}

// ---------------------------------------------------------------------------
// The read-path response wrapper.
// ---------------------------------------------------------------------------
pub open spec fn neo_response_json(m: NearEarthObjectApiResponseView) -> JsonVal {
    JsonVal::Obj(
        seq![
            JKv { k: "data"@, v: neo_model_json(m.data) },
            JKv { k: "updated_date_time"@, v: JsonVal::Str(m.updated_date_time) },
        ],
    )
}

/// The response reports the snapshot's own capture timestamp, the one the
/// normalizer stamped in when the snapshot was built.
pub open spec fn spec_generate_response(m: NearEarthObjectModelView)
    -> NearEarthObjectApiResponseView {
    NearEarthObjectApiResponseView { data: m, updated_date_time: m.updated_date_time }
}

/// Wrap a stored snapshot for the read-path HTTP response, echoing its
/// capture timestamp.
pub fn generate_response(data: NearEarthObjectModel) -> (r: NearEarthObjectApiResponse)
    ensures
        r@ == spec_generate_response(data@),
{
    NearEarthObjectApiResponse { updated_date_time: data.updated_date_time.clone(), data }
}

pub fn neo_response_build(m: &NearEarthObjectApiResponse) -> (r: JsonValue)
    ensures
        jv_view(r) == neo_response_json(m@),
{
    let mut fs: Vec<JsonField> = Vec::new();
    fs.push(JsonField { key: String::from_str("data"), value: neo_model_build(&m.data) });
    fs.push(
        JsonField {
            key: String::from_str("updated_date_time"),
            value: JsonValue::Str(m.updated_date_time.clone()),
        },
    );
    proof {
        assert(obj_view(fs@) =~= seq![
            JKv { k: "data"@, v: neo_model_json(m.data@) },
            JKv { k: "updated_date_time"@, v: JsonVal::Str(m.updated_date_time@) },
        ]);
    }
    JsonValue::Obj(fs)
}

/// Serialize the read-path response to its exact body text.
pub fn encode_neo_response(m: &NearEarthObjectApiResponse) -> (r: String)
    ensures
        r@ == ser_val(neo_response_json(m@)),
{
    let v = neo_response_build(m);
    json_to_text(&v)
}


// ---------------------------------------------------------------------------
// The write-then-read guarantee of the snapshot.
// ---------------------------------------------------------------------------
pub proof fn lemma_links_json_wf(l: ApiLinksView)
    ensures
        crate::json::wf_val(links_json(l)),
{
    let fs = links_json(l)->Obj_0;
    assert(crate::json::wf_val(fs[0].v));
    assert(crate::json::wf_val(fs[1].v));
    assert(crate::json::wf_val(fs[2].v));
    assert forall|i: int| 0 <= i < fs.len() implies crate::json::wf_val(
        (#[trigger] fs[i]).v,
    ) by {}
}

pub proof fn lemma_edv_json_wf(d: EstimatedDiameterValuesView)
    requires
        d.wf(),
    ensures
        crate::json::wf_val(edv_json(d)),
{
    let fs = edv_json(d)->Obj_0;
    assert(crate::json::wf_val(fs[0].v));
    assert(crate::json::wf_val(fs[1].v));
    assert forall|i: int| 0 <= i < fs.len() implies crate::json::wf_val(
        (#[trigger] fs[i]).v,
    ) by {}
}

pub proof fn lemma_ed_json_wf(d: EstimatedDiameterView)
    requires
        d.wf(),
    ensures
        crate::json::wf_val(ed_json(d)),
{
    let fs = ed_json(d)->Obj_0;
    lemma_edv_json_wf(d.kilometers);
    lemma_edv_json_wf(d.meters);
    lemma_edv_json_wf(d.miles);
    lemma_edv_json_wf(d.feet);
    assert(crate::json::wf_val(fs[0].v));
    assert(crate::json::wf_val(fs[1].v));
    assert(crate::json::wf_val(fs[2].v));
    assert(crate::json::wf_val(fs[3].v));
    assert forall|i: int| 0 <= i < fs.len() implies crate::json::wf_val(
        (#[trigger] fs[i]).v,
    ) by {}
}

pub proof fn lemma_rv_json_wf(r: RelativeVelocityView)
    ensures
        crate::json::wf_val(rv_json(r)),
{
    let fs = rv_json(r)->Obj_0;
    assert(crate::json::wf_val(fs[0].v));
    assert(crate::json::wf_val(fs[1].v));
    assert(crate::json::wf_val(fs[2].v));
    assert forall|i: int| 0 <= i < fs.len() implies crate::json::wf_val(
        (#[trigger] fs[i]).v,
    ) by {}
}

pub proof fn lemma_md_json_wf(m: MissDistanceView)
    ensures
        crate::json::wf_val(md_json(m)),
{
    let fs = md_json(m)->Obj_0;
    assert(crate::json::wf_val(fs[0].v));
    assert(crate::json::wf_val(fs[1].v));
    assert(crate::json::wf_val(fs[2].v));
    assert(crate::json::wf_val(fs[3].v));
    assert forall|i: int| 0 <= i < fs.len() implies crate::json::wf_val(
        (#[trigger] fs[i]).v,
    ) by {}
}

pub proof fn lemma_cad_json_wf(c: CloseApproachDataView)
    ensures
        crate::json::wf_val(cad_json(c)),
{
    let fs = cad_json(c)->Obj_0;
    lemma_int_text_is_number(c.epoch_date_close_approach as int);
    lemma_rv_json_wf(c.relative_velocity);
    lemma_md_json_wf(c.miss_distance);
    assert(crate::json::wf_val(fs[0].v));
    assert(crate::json::wf_val(fs[1].v));
    assert(crate::json::wf_val(fs[2].v));
    assert(crate::json::wf_val(fs[3].v));
    assert(crate::json::wf_val(fs[4].v));
    assert forall|i: int| 0 <= i < fs.len() implies crate::json::wf_val(
        (#[trigger] fs[i]).v,
    ) by {}
}

pub proof fn lemma_sneo_json_wf(o: StoredNearEarthObjectView)
    requires
        o.wf(),
    ensures
        crate::json::wf_val(sneo_json(o)),
{
    let fs = sneo_json(o)->Obj_0;
    lemma_ed_json_wf(o.estimated_diameter);
    lemma_links_json_wf(o.links);
    let cads = cads_json(o.close_approach_data);
    assert forall|j: int| 0 <= j < cads.len() implies crate::json::wf_val(
        #[trigger] cads[j],
    ) by {
        lemma_cad_json_wf(o.close_approach_data[j]);
    }
    assert(crate::json::wf_val(fs[0].v));
    assert(crate::json::wf_val(fs[1].v));
    assert(crate::json::wf_val(fs[2].v));
    assert(crate::json::wf_val(fs[3].v));
    assert(crate::json::wf_val(fs[4].v));
    assert(crate::json::wf_val(fs[5].v));
    assert(crate::json::wf_val(fs[6].v));
    assert(crate::json::wf_val(fs[7].v));
    assert(crate::json::wf_val(fs[8].v));
    assert(crate::json::wf_val(fs[9].v));
    assert forall|i: int| 0 <= i < fs.len() implies crate::json::wf_val(
        (#[trigger] fs[i]).v,
    ) by {}
}

pub proof fn lemma_neo_model_json_wf(m: NearEarthObjectModelView)
    requires
        m.wf(),
    ensures
        crate::json::wf_val(neo_model_json(m)),
{
    let fs = neo_model_json(m)->Obj_0;
    lemma_links_json_wf(m.links);
    lemma_int_text_is_number(m.element_count as int);
    let objs = sneos_json(m.near_earth_objects);
    assert forall|j: int| 0 <= j < objs.len() implies crate::json::wf_val(
        #[trigger] objs[j],
    ) by {
        lemma_sneo_json_wf(m.near_earth_objects[j]);
    }
    assert(crate::json::wf_val(fs[0].v));
    assert(crate::json::wf_val(fs[1].v));
    assert(crate::json::wf_val(fs[2].v));
    assert(crate::json::wf_val(fs[3].v));
    assert forall|i: int| 0 <= i < fs.len() implies crate::json::wf_val(
        (#[trigger] fs[i]).v,
    ) by {}
}

/// Every well-formed canonical snapshot survives the store unchanged:
/// decoding the exact text the library writes gives the same snapshot back —
/// every velocity and miss-distance string identical, never re-formatted.
pub proof fn lemma_neo_snapshot_round_trip(m: NearEarthObjectModelView)
    requires
        m.wf(),
    ensures
        neo_snapshot_of_text(neo_snapshot_text(m)) == Some(m),
{
    lemma_neo_model_json_wf(m);
    crate::roundtrip::lemma_parse_text_ser(neo_model_json(m));
    lemma_neo_model_round(m);
}

/// Normalizing keeps the raw objects' well-formedness.
pub proof fn lemma_flatten_groups_wf(gs: Seq<NeoDateEntryView>)
    requires
        forall|i: int| 0 <= i < gs.len() ==> (#[trigger] gs[i]).wf(),
    ensures
        forall|k: int|
            0 <= k < flatten_groups(gs).len() ==> (#[trigger] flatten_groups(gs)[k]).wf(),
    decreases gs.len(),
{
    if gs.len() > 0 {
        let head = convert_neos(gs[0].objects);
        assert(forall|i: int|
            0 <= i < gs.drop_first().len() ==> (#[trigger] gs.drop_first()[i]).wf());
        lemma_flatten_groups_wf(gs.drop_first());
        assert forall|k: int|
            0 <= k < flatten_groups(gs).len() implies (#[trigger] flatten_groups(gs)[k]).wf() by {
            if k < head.len() {
                assert(flatten_groups(gs)[k] == head[k]);
                assert(head[k] == convert_neo_view(gs[0].objects[k]));
                assert(gs[0].objects[k].wf());
            } else {
                assert(flatten_groups(gs)[k] == flatten_groups(gs.drop_first())[k - head.len()]);
            }
        }
    }
}

/// With exactly one date key, normalizing then writing and reading the
/// snapshot preserves the element count, and the flattened sequence has
/// exactly the one key's length.
pub proof fn lemma_normalized_snapshot_preserved(r: ApiResponseView, t: UtcTimestamp)
    requires
        r.wf(),
        r.near_earth_objects.len() == 1,
    ensures
        ({
            let m = spec_convert_to_storage(r, t);
            &&& neo_snapshot_of_text(neo_snapshot_text(m)) == Some(m)
            &&& m.element_count == r.element_count
            &&& m.near_earth_objects.len() == r.near_earth_objects[0].objects.len()
        }),
{
    let m = spec_convert_to_storage(r, t);
    lemma_normalize_single_date_key(r, t);
    lemma_flatten_groups_wf(r.near_earth_objects);
    assert(m.wf());
    lemma_neo_snapshot_round_trip(m);
}

} // verus!
