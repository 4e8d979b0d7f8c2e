//! The upcoming-launches pipeline: decoding the stored snapshot and wrapping
//! it for the read-path response.
use vstd::prelude::*;
use vstd::string::StringExecFns;

use crate::fields::{
    bool_field, get_bool, get_i32, get_opt_i32, get_opt_str, get_str, get_u32, get_u64, int_field,
    lemma_lookup2_at, lemma_lookup_at, lemma_seq_extract_map, lemma_views_of_push, lookup, lookup2,
    lookup2_spec, lookup_spec, opt_int_field, opt_str_field, opt_view, seq_extract, str_field,
    views_of,
};
use crate::json::{
    arr_view, json_to_text, jv_view, obj_view, ser_val, JKv, JsonField, JsonVal, JsonValue,
};
use crate::neo::{build_opt_str, opt_str_json};
use crate::nums::{i64_to_dec, int_text, lemma_int_text_is_number, lemma_int_text_round_trip,
    u64_to_dec};
use crate::parse::{lemma_arr_view_push, parse_json_text, parse_text};
use crate::persistencemodels::{
    opt_pad_view, UpcomingLaunchMission, UpcomingLaunchMissionView, UpcomingLaunchPad,
    UpcomingLaunchPadLocation, UpcomingLaunchPadLocationView, UpcomingLaunchPadView,
    UpcomingLaunchProvider, UpcomingLaunchProviderView, UpcomingLaunchTag, UpcomingLaunchTagView,
    UpcomingLaunchVehicle, UpcomingLaunchVehicleView, UpcomingLaunches, UpcomingLaunchesLaunch,
    UpcomingLaunchesLaunchView, UpcomingLaunchesView,
};

verus! {

broadcast use vstd::seq::group_seq_axioms, vstd::std_specs::vec::group_vec_axioms, vstd::string::group_string_axioms;

// ---------------------------------------------------------------------------
// Tags.
// ---------------------------------------------------------------------------
pub open spec fn tag_of_json(v: JsonVal) -> Option<UpcomingLaunchTagView> {
    match v {
        JsonVal::Obj(fs) => {
            if int_field(lookup_spec(fs, "id"@), 0, u64::MAX as int) is Some && str_field(
                lookup_spec(fs, "text"@),
            ) is Some {
                Option::Some(
                    UpcomingLaunchTagView {
                        id: int_field(lookup_spec(fs, "id"@), 0, u64::MAX as int)->0 as u64,
                        text: str_field(lookup_spec(fs, "text"@))->0,
                    },
                )
            } else {
                Option::None
            }
        },
        _ => Option::None,
    }
}

pub open spec fn tag_extractor() -> spec_fn(JsonVal) -> Option<UpcomingLaunchTagView> {
    |x: JsonVal| tag_of_json(x)
}

pub fn tag_extract(v: &JsonValue) -> (r: Option<UpcomingLaunchTag>)
    ensures
        r is Some <==> tag_of_json(jv_view(*v)) is Some,
        r matches Some(m) ==> tag_of_json(jv_view(*v)) == Some(m@),
{
    match v {
        JsonValue::Obj(fields) => {
            let id = get_u64(lookup(fields, "id"));
            let text = get_str(lookup(fields, "text"));
            match (id, text) {
                (Some(id), Some(text)) => Some(UpcomingLaunchTag { id, text }),
                _ => None,
            }
        },
        _ => None,
    }
}

// ---------------------------------------------------------------------------
// Missions.
// ---------------------------------------------------------------------------
pub open spec fn mission_of_json(v: JsonVal) -> Option<UpcomingLaunchMissionView> {
    match v {
        JsonVal::Obj(fs) => {
            if int_field(lookup_spec(fs, "id"@), 0, u64::MAX as int) is Some && str_field(
                lookup_spec(fs, "name"@),
            ) is Some && opt_str_field(lookup_spec(fs, "description"@)) is Some {
                Option::Some(
                    UpcomingLaunchMissionView {
                        id: int_field(lookup_spec(fs, "id"@), 0, u64::MAX as int)->0 as u64,
                        name: str_field(lookup_spec(fs, "name"@))->0,
                        description: opt_str_field(lookup_spec(fs, "description"@))->0,
                    },
                )
            } else {
                Option::None
            }
        },
        _ => Option::None,
    }
}

pub open spec fn mission_extractor() -> spec_fn(JsonVal) -> Option<UpcomingLaunchMissionView> {
    |x: JsonVal| mission_of_json(x)
}

pub fn mission_extract(v: &JsonValue) -> (r: Option<UpcomingLaunchMission>)
    ensures
        r is Some <==> mission_of_json(jv_view(*v)) is Some,
        r matches Some(m) ==> mission_of_json(jv_view(*v)) == Some(m@),
{
    match v {
        JsonValue::Obj(fields) => {
            let id = get_u64(lookup(fields, "id"));
            let name = get_str(lookup(fields, "name"));
            let description = get_opt_str(lookup(fields, "description"));
            match (id, name, description) {
                (Some(id), Some(name), Some(description)) => Some(
                    UpcomingLaunchMission { id, name, description },
                ),
                _ => None,
            }
        },
        _ => None,
    }
}

// ---------------------------------------------------------------------------
// Pads and their locations.
// ---------------------------------------------------------------------------
pub open spec fn pad_location_of_json(v: JsonVal) -> Option<UpcomingLaunchPadLocationView> {
    match v {
        JsonVal::Obj(fs) => {
            if int_field(lookup_spec(fs, "id"@), 0, u64::MAX as int) is Some && str_field(
                lookup_spec(fs, "name"@),
            ) is Some && str_field(lookup_spec(fs, "state"@)) is Some && str_field(
                lookup2_spec(fs, "state_name"@, "statename"@),
            ) is Some && str_field(lookup_spec(fs, "country"@)) is Some && str_field(
                lookup_spec(fs, "slug"@),
            ) is Some {
                Option::Some(
                    UpcomingLaunchPadLocationView {
                        id: int_field(lookup_spec(fs, "id"@), 0, u64::MAX as int)->0 as u64,
                        name: str_field(lookup_spec(fs, "name"@))->0,
                        state: str_field(lookup_spec(fs, "state"@))->0,
                        state_name: str_field(lookup2_spec(fs, "state_name"@, "statename"@))->0,
                        country: str_field(lookup_spec(fs, "country"@))->0,
                        slug: str_field(lookup_spec(fs, "slug"@))->0,
                    },
                )
            } else {
                Option::None
            }
        },
        _ => Option::None,
    }
}

pub fn pad_location_extract(v: &JsonValue) -> (r: Option<UpcomingLaunchPadLocation>)
    ensures
        r is Some <==> pad_location_of_json(jv_view(*v)) is Some,
        r matches Some(m) ==> pad_location_of_json(jv_view(*v)) == Some(m@),
{
    match v {
        JsonValue::Obj(fields) => {
            let id = get_u64(lookup(fields, "id"));
            let name = get_str(lookup(fields, "name"));
            let state = get_str(lookup(fields, "state"));
            let state_name = get_str(lookup2(fields, "state_name", "statename"));
            let country = get_str(lookup(fields, "country"));
            let slug = get_str(lookup(fields, "slug"));
            match (id, name, state, state_name, country, slug) {
                (Some(id), Some(name), Some(state), Some(state_name), Some(country), Some(slug)) =>
                    Some(
                    UpcomingLaunchPadLocation { id, name, state, state_name, country, slug },
                ),
                _ => None,
            }
        },
        _ => None,
    }
}

pub open spec fn pad_of_json(v: JsonVal) -> Option<UpcomingLaunchPadView> {
    match v {
        JsonVal::Obj(fs) => {
            let loc = match lookup_spec(fs, "location"@) {
                Option::Some(x) => pad_location_of_json(x),
                Option::None => Option::None,
            };
            if int_field(lookup_spec(fs, "id"@), 0, u64::MAX as int) is Some && str_field(
                lookup_spec(fs, "name"@),
            ) is Some && loc is Some {
                Option::Some(
                    UpcomingLaunchPadView {
                        id: int_field(lookup_spec(fs, "id"@), 0, u64::MAX as int)->0 as u64,
                        name: str_field(lookup_spec(fs, "name"@))->0,
                        location: loc->0,
                    },
                )
            } else {
                Option::None
            }
        },
        _ => Option::None,
    }
}

pub fn pad_extract(v: &JsonValue) -> (r: Option<UpcomingLaunchPad>)
    ensures
        r is Some <==> pad_of_json(jv_view(*v)) is Some,
        r matches Some(m) ==> pad_of_json(jv_view(*v)) == Some(m@),
{
    match v {
        JsonValue::Obj(fields) => {
            let id = get_u64(lookup(fields, "id"));
            let name = get_str(lookup(fields, "name"));
            let loc = match lookup(fields, "location") {
                Some(x) => pad_location_extract(x),
                None => None,
            };
            match (id, name, loc) {
                (Some(id), Some(name), Some(location)) => Some(
                    UpcomingLaunchPad { id, name, location },
                ),
                _ => None,
            }
        },
        _ => None,
    }
}

/// An optional pad field: absent or `null` is an explicit `None`.
pub open spec fn opt_pad_field(v: Option<JsonVal>) -> Option<Option<UpcomingLaunchPadView>> {
    match v {
        Option::None => Option::Some(Option::None),
        Option::Some(JsonVal::Null) => Option::Some(Option::None),
        Option::Some(x) => match pad_of_json(x) {
            Option::Some(p) => Option::Some(Option::Some(p)),
            Option::None => Option::None,
        },
    }
}

pub fn get_opt_pad(v: Option<&JsonValue>) -> (r: Option<Option<UpcomingLaunchPad>>)
    ensures
        ({
            let sv = opt_pad_field(
                match v {
                    Some(x) => Some(jv_view(*x)),
                    None => None,
                },
            );
            match r {
                Some(o) => sv == Some(opt_pad_view(o)),
                None => sv is None,
            }
        }),
{
    match v {
        None => Some(None),
        Some(JsonValue::Null) => Some(None),
        Some(x) => match pad_extract(x) {
            Some(p) => Some(Some(p)),
            None => None,
        },
    }
}

// ---------------------------------------------------------------------------
// Vehicles and providers.
// ---------------------------------------------------------------------------
pub open spec fn vehicle_of_json(v: JsonVal) -> Option<UpcomingLaunchVehicleView> {
    match v {
        JsonVal::Obj(fs) => {
            if int_field(lookup_spec(fs, "id"@), 0, u64::MAX as int) is Some && str_field(
                lookup_spec(fs, "name"@),
            ) is Some && int_field(lookup_spec(fs, "company_id"@), 0, u64::MAX as int) is Some
                && str_field(lookup_spec(fs, "slug"@)) is Some && opt_pad_field(
                lookup_spec(fs, "pad"@),
            ) is Some {
                Option::Some(
                    UpcomingLaunchVehicleView {
                        id: int_field(lookup_spec(fs, "id"@), 0, u64::MAX as int)->0 as u64,
                        name: str_field(lookup_spec(fs, "name"@))->0,
                        company_id: int_field(
                            lookup_spec(fs, "company_id"@),
                            0,
                            u64::MAX as int,
                        )->0 as u64,
                        slug: str_field(lookup_spec(fs, "slug"@))->0,
                        pad: opt_pad_field(lookup_spec(fs, "pad"@))->0,
                    },
                )
            } else {
                Option::None
            }
        },
        _ => Option::None,
    }
}

pub fn vehicle_extract(v: &JsonValue) -> (r: Option<UpcomingLaunchVehicle>)
    ensures
        r is Some <==> vehicle_of_json(jv_view(*v)) is Some,
        r matches Some(m) ==> vehicle_of_json(jv_view(*v)) == Some(m@),
{
    match v {
        JsonValue::Obj(fields) => {
            let id = get_u64(lookup(fields, "id"));
            let name = get_str(lookup(fields, "name"));
            let company_id = get_u64(lookup(fields, "company_id"));
            let slug = get_str(lookup(fields, "slug"));
            let pad = get_opt_pad(lookup(fields, "pad"));
            match (id, name, company_id, slug, pad) {
                (Some(id), Some(name), Some(company_id), Some(slug), Some(pad)) => Some(
                    UpcomingLaunchVehicle { id, name, company_id, slug, pad },
                ),
                _ => None,
            }
        },
        _ => None,
    }
}

pub open spec fn provider_of_json(v: JsonVal) -> Option<UpcomingLaunchProviderView> {
    match v {
        JsonVal::Obj(fs) => {
            if int_field(lookup_spec(fs, "id"@), 0, u64::MAX as int) is Some && str_field(
                lookup_spec(fs, "name"@),
            ) is Some && str_field(lookup_spec(fs, "slug"@)) is Some {
                Option::Some(
                    UpcomingLaunchProviderView {
                        id: int_field(lookup_spec(fs, "id"@), 0, u64::MAX as int)->0 as u64,
                        name: str_field(lookup_spec(fs, "name"@))->0,
                        slug: str_field(lookup_spec(fs, "slug"@))->0,
                    },
                )
            } else {
                Option::None
            }
        },
        _ => Option::None,
    }
}

pub fn provider_extract(v: &JsonValue) -> (r: Option<UpcomingLaunchProvider>)
    ensures
        r is Some <==> provider_of_json(jv_view(*v)) is Some,
        r matches Some(m) ==> provider_of_json(jv_view(*v)) == Some(m@),
{
    match v {
        JsonValue::Obj(fields) => {
            let id = get_u64(lookup(fields, "id"));
            let name = get_str(lookup(fields, "name"));
            let slug = get_str(lookup(fields, "slug"));
            match (id, name, slug) {
                (Some(id), Some(name), Some(slug)) => Some(
                    UpcomingLaunchProvider { id, name, slug },
                ),
                _ => None,
            }
        },
        _ => None,
    }
}


// ---------------------------------------------------------------------------
// Arrays of missions and tags.
// ---------------------------------------------------------------------------
pub open spec fn missions_of_json(v: JsonVal) -> Option<Seq<UpcomingLaunchMissionView>> {
    match v {
        JsonVal::Arr(items) => seq_extract(items, mission_extractor()),
        _ => Option::None,
    }
}

pub fn missions_extract(v: &JsonValue) -> (r: Option<Vec<UpcomingLaunchMission>>)
    ensures
        r is Some <==> missions_of_json(jv_view(*v)) is Some,
        r matches Some(list) ==> missions_of_json(jv_view(*v)) == Some(views_of(list@)),
{
    match v {
        JsonValue::Arr(items) => {
            let n = items.len();
            let mut out: Vec<UpcomingLaunchMission> = Vec::new();
            let mut i: usize = 0;
            proof {
                assert(arr_view(items@).skip(0) =~= arr_view(items@));
                assert(views_of(out@) =~= Seq::<UpcomingLaunchMissionView>::empty());
            }
            while i < n
                invariant
                    i <= n,
                    n == items@.len(),
                    jv_view(*v) == JsonVal::Arr(arr_view(items@)),
                    ({
                        let f = mission_extractor();
                        let full = seq_extract(arr_view(items@), f);
                        match seq_extract(arr_view(items@).skip(i as int), f) {
                            Option::None => full is None,
                            Option::Some(rest) => full == Some(views_of(out@) + rest),
                        }
                    }),
                decreases n - i,
            {
                proof {
                    assert(arr_view(items@).skip(i as int)[0] == arr_view(items@)[i as int]);
                    assert(arr_view(items@).skip(i as int).drop_first() =~= arr_view(items@).skip(
                        i + 1 as int,
                    ));
                }
                match mission_extract(&items[i]) {
                    None => {
                        proof {
                            let f = mission_extractor();
                            assert(f(arr_view(items@).skip(i as int)[0]) == mission_of_json(
                                arr_view(items@)[i as int],
                            ));
                            assert(arr_view(items@)[i as int] == jv_view(items@[i as int]));
                            assert(seq_extract(arr_view(items@).skip(i as int), f) is None);
                        }
                        return None;
                    },
                    Some(m) => {
                        proof {
                            lemma_views_of_push(out@, m);
                        }
                        let ghost prev = views_of(out@);
                        let ghost mm = m@;
                        out.push(m);
                        proof {
                            let f = mission_extractor();
                            assert(f(arr_view(items@).skip(i as int)[0]) == mission_of_json(
                                arr_view(items@)[i as int],
                            ));
                            assert(arr_view(items@)[i as int] == jv_view(items@[i as int]));
                            match seq_extract(arr_view(items@).skip(i + 1 as int), f) {
                                Option::None => {},
                                Option::Some(rest) => {
                                    assert(prev + (seq![mm] + rest) =~= (prev.push(mm)) + rest);
                                },
                            }
                        }
                        i = i + 1;
                    },
                }
            }
            proof {
                assert(arr_view(items@).skip(n as int) =~= Seq::<JsonVal>::empty());
                assert(views_of(out@) + Seq::<UpcomingLaunchMissionView>::empty() =~= views_of(
                    out@,
                ));
            }
            Some(out)
        },
        _ => None,
    }
}

pub open spec fn tags_of_json(v: JsonVal) -> Option<Seq<UpcomingLaunchTagView>> {
    match v {
        JsonVal::Arr(items) => seq_extract(items, tag_extractor()),
        _ => Option::None,
    }
}

pub fn tags_extract(v: &JsonValue) -> (r: Option<Vec<UpcomingLaunchTag>>)
    ensures
        r is Some <==> tags_of_json(jv_view(*v)) is Some,
        r matches Some(list) ==> tags_of_json(jv_view(*v)) == Some(views_of(list@)),
{
    match v {
        JsonValue::Arr(items) => {
            let n = items.len();
            let mut out: Vec<UpcomingLaunchTag> = Vec::new();
            let mut i: usize = 0;
            proof {
                assert(arr_view(items@).skip(0) =~= arr_view(items@));
                assert(views_of(out@) =~= Seq::<UpcomingLaunchTagView>::empty());
            }
            while i < n
                invariant
                    i <= n,
                    n == items@.len(),
                    jv_view(*v) == JsonVal::Arr(arr_view(items@)),
                    ({
                        let f = tag_extractor();
                        let full = seq_extract(arr_view(items@), f);
                        match seq_extract(arr_view(items@).skip(i as int), f) {
                            Option::None => full is None,
                            Option::Some(rest) => full == Some(views_of(out@) + rest),
                        }
                    }),
                decreases n - i,
            {
                proof {
                    assert(arr_view(items@).skip(i as int)[0] == arr_view(items@)[i as int]);
                    assert(arr_view(items@).skip(i as int).drop_first() =~= arr_view(items@).skip(
                        i + 1 as int,
                    ));
                }
                match tag_extract(&items[i]) {
                    None => {
                        proof {
                            let f = tag_extractor();
                            assert(f(arr_view(items@).skip(i as int)[0]) == tag_of_json(
                                arr_view(items@)[i as int],
                            ));
                            assert(arr_view(items@)[i as int] == jv_view(items@[i as int]));
                            assert(seq_extract(arr_view(items@).skip(i as int), f) is None);
                        }
                        return None;
                    },
                    Some(m) => {
                        proof {
                            lemma_views_of_push(out@, m);
                        }
                        let ghost prev = views_of(out@);
                        let ghost mm = m@;
                        out.push(m);
                        proof {
                            let f = tag_extractor();
                            assert(f(arr_view(items@).skip(i as int)[0]) == tag_of_json(
                                arr_view(items@)[i as int],
                            ));
                            assert(arr_view(items@)[i as int] == jv_view(items@[i as int]));
                            match seq_extract(arr_view(items@).skip(i + 1 as int), f) {
                                Option::None => {},
                                Option::Some(rest) => {
                                    assert(prev + (seq![mm] + rest) =~= (prev.push(mm)) + rest);
                                },
                            }
                        }
                        i = i + 1;
                    },
                }
            }
            proof {
                assert(arr_view(items@).skip(n as int) =~= Seq::<JsonVal>::empty());
                assert(views_of(out@) + Seq::<UpcomingLaunchTagView>::empty() =~= views_of(out@));
            }
            Some(out)
        },
        _ => None,
    }
}

// ---------------------------------------------------------------------------
// One launch.
// ---------------------------------------------------------------------------
pub open spec fn launch_of_json(v: JsonVal) -> Option<UpcomingLaunchesLaunchView> {
    match v {
        JsonVal::Obj(fs) => {
            let missions = match lookup_spec(fs, "missions"@) {
                Option::Some(x) => missions_of_json(x),
                Option::None => Option::None,
            };
            let tags = match lookup_spec(fs, "tags"@) {
                Option::Some(x) => tags_of_json(x),
                Option::None => Option::None,
            };
            let provider = match lookup_spec(fs, "provider"@) {
                Option::Some(x) => provider_of_json(x),
                Option::None => Option::None,
            };
            let vehicle = match lookup_spec(fs, "vehicle"@) {
                Option::Some(x) => vehicle_of_json(x),
                Option::None => Option::None,
            };
            if int_field(lookup_spec(fs, "id"@), 0, u64::MAX as int) is Some && opt_str_field(
                lookup_spec(fs, "cospar_id"@),
            ) is Some && str_field(lookup_spec(fs, "sort_date"@)) is Some && str_field(
                lookup_spec(fs, "name"@),
            ) is Some && provider is Some && vehicle is Some && opt_pad_field(
                lookup_spec(fs, "pad"@),
            ) is Some && missions is Some && str_field(lookup_spec(fs, "mission_description"@))
                is Some && str_field(lookup_spec(fs, "launch_description"@)) is Some
                && opt_str_field(lookup_spec(fs, "win_open"@)) is Some && opt_str_field(
                lookup_spec(fs, "t0"@),
            ) is Some && opt_str_field(lookup_spec(fs, "win_close"@)) is Some && str_field(
                lookup_spec(fs, "date_str"@),
            ) is Some && tags is Some && str_field(lookup_spec(fs, "slug"@)) is Some
                && opt_str_field(lookup_spec(fs, "weather_summary"@)) is Some && int_field(
                lookup_spec(fs, "weather_temp"@),
                i32::MIN as int,
                i32::MAX as int,
            ) is Some && opt_str_field(lookup_spec(fs, "weather_condition"@)) is Some
                && opt_int_field(
                lookup_spec(fs, "weather_wind_mph"@),
                i32::MIN as int,
                i32::MAX as int,
            ) is Some && opt_str_field(lookup_spec(fs, "weather_icon"@)) is Some && opt_str_field(
                lookup_spec(fs, "weather_updated"@),
            ) is Some && opt_str_field(lookup_spec(fs, "quick_text"@)) is Some && bool_field(
                lookup_spec(fs, "suborbital"@),
            ) is Some && str_field(lookup_spec(fs, "modified"@)) is Some {
                Option::Some(
                    UpcomingLaunchesLaunchView {
                        id: int_field(lookup_spec(fs, "id"@), 0, u64::MAX as int)->0 as u64,
                        cospar_id: opt_str_field(lookup_spec(fs, "cospar_id"@))->0,
                        sort_date: str_field(lookup_spec(fs, "sort_date"@))->0,
                        name: str_field(lookup_spec(fs, "name"@))->0,
                        provider: provider->0,
                        vehicle: vehicle->0,
                        pad: opt_pad_field(lookup_spec(fs, "pad"@))->0,
                        missions: missions->0,
                        mission_description: str_field(
                            lookup_spec(fs, "mission_description"@),
                        )->0,
                        launch_description: str_field(lookup_spec(fs, "launch_description"@))->0,
                        win_open: opt_str_field(lookup_spec(fs, "win_open"@))->0,
                        t0: opt_str_field(lookup_spec(fs, "t0"@))->0,
                        win_close: opt_str_field(lookup_spec(fs, "win_close"@))->0,
                        date_str: str_field(lookup_spec(fs, "date_str"@))->0,
                        tags: tags->0,
                        slug: str_field(lookup_spec(fs, "slug"@))->0,
                        weather_summary: opt_str_field(lookup_spec(fs, "weather_summary"@))->0,
                        weather_temp: int_field(
                            lookup_spec(fs, "weather_temp"@),
                            i32::MIN as int,
                            i32::MAX as int,
                        )->0 as i32,
                        weather_condition: opt_str_field(
                            lookup_spec(fs, "weather_condition"@),
                        )->0,
                        weather_wind_mph: (match opt_int_field(
                            lookup_spec(fs, "weather_wind_mph"@),
                            i32::MIN as int,
                            i32::MAX as int,
                        )->0 {
                            Option::Some(w) => Option::Some(w as i32),
                            Option::None => Option::None,
                        }),
                        weather_icon: opt_str_field(lookup_spec(fs, "weather_icon"@))->0,
                        weather_updated: opt_str_field(lookup_spec(fs, "weather_updated"@))->0,
                        quick_text: opt_str_field(lookup_spec(fs, "quick_text"@))->0,
                        suborbital: bool_field(lookup_spec(fs, "suborbital"@))->0,
                        modified: str_field(lookup_spec(fs, "modified"@))->0,
                    },
                )
            } else {
                Option::None
            }
        },
        _ => Option::None,
    }
}

pub open spec fn launch_extractor() -> spec_fn(JsonVal) -> Option<UpcomingLaunchesLaunchView> {
    |x: JsonVal| launch_of_json(x)
}

#[verifier::rlimit(100)]
pub fn launch_extract(v: &JsonValue) -> (r: Option<UpcomingLaunchesLaunch>)
    ensures
        r is Some <==> launch_of_json(jv_view(*v)) is Some,
        r matches Some(m) ==> launch_of_json(jv_view(*v)) == Some(m@),
{
    match v {
        JsonValue::Obj(fields) => {
            let id = match get_u64(lookup(fields, "id")) {
                Some(x) => x,
                None => {
                    return None;
                },
            };
            let cospar_id = match get_opt_str(lookup(fields, "cospar_id")) {
                Some(x) => x,
                None => {
                    return None;
                },
            };
            let sort_date = match get_str(lookup(fields, "sort_date")) {
                Some(x) => x,
                None => {
                    return None;
                },
            };
            let name = match get_str(lookup(fields, "name")) {
                Some(x) => x,
                None => {
                    return None;
                },
            };
            let provider = match (match lookup(fields, "provider") {
                Some(x) => provider_extract(x),
                None => None,
            }) {
                Some(x) => x,
                None => {
                    return None;
                },
            };
            let vehicle = match (match lookup(fields, "vehicle") {
                Some(x) => vehicle_extract(x),
                None => None,
            }) {
                Some(x) => x,
                None => {
                    return None;
                },
            };
            let pad = match get_opt_pad(lookup(fields, "pad")) {
                Some(x) => x,
                None => {
                    return None;
                },
            };
            let missions = match (match lookup(fields, "missions") {
                Some(x) => missions_extract(x),
                None => None,
            }) {
                Some(x) => x,
                None => {
                    return None;
                },
            };
            let mission_description = match get_str(lookup(fields, "mission_description")) {
                Some(x) => x,
                None => {
                    return None;
                },
            };
            let launch_description = match get_str(lookup(fields, "launch_description")) {
                Some(x) => x,
                None => {
                    return None;
                },
            };
            let win_open = match get_opt_str(lookup(fields, "win_open")) {
                Some(x) => x,
                None => {
                    return None;
                },
            };
            let t0 = match get_opt_str(lookup(fields, "t0")) {
                Some(x) => x,
                None => {
                    return None;
                },
            };
            let win_close = match get_opt_str(lookup(fields, "win_close")) {
                Some(x) => x,
                None => {
                    return None;
                },
            };
            let date_str = match get_str(lookup(fields, "date_str")) {
                Some(x) => x,
                None => {
                    return None;
                },
            };
            let tags = match (match lookup(fields, "tags") {
                Some(x) => tags_extract(x),
                None => None,
            }) {
                Some(x) => x,
                None => {
                    return None;
                },
            };
            let slug = match get_str(lookup(fields, "slug")) {
                Some(x) => x,
                None => {
                    return None;
                },
            };
            let weather_summary = match get_opt_str(lookup(fields, "weather_summary")) {
                Some(x) => x,
                None => {
                    return None;
                },
            };
            let weather_temp = match get_i32(lookup(fields, "weather_temp")) {
                Some(x) => x,
                None => {
                    return None;
                },
            };
            let weather_condition = match get_opt_str(lookup(fields, "weather_condition")) {
                Some(x) => x,
                None => {
                    return None;
                },
            };
            let weather_wind_mph = match get_opt_i32(lookup(fields, "weather_wind_mph")) {
                Some(x) => x,
                None => {
                    return None;
                },
            };
            let weather_icon = match get_opt_str(lookup(fields, "weather_icon")) {
                Some(x) => x,
                None => {
                    return None;
                },
            };
            let weather_updated = match get_opt_str(lookup(fields, "weather_updated")) {
                Some(x) => x,
                None => {
                    return None;
                },
            };
            let quick_text = match get_opt_str(lookup(fields, "quick_text")) {
                Some(x) => x,
                None => {
                    return None;
                },
            };
            let suborbital = match get_bool(lookup(fields, "suborbital")) {
                Some(x) => x,
                None => {
                    return None;
                },
            };
            let modified = match get_str(lookup(fields, "modified")) {
                Some(x) => x,
                None => {
                    return None;
                },
            };
            Some(
                UpcomingLaunchesLaunch {
                    id,
                    cospar_id,
                    sort_date,
                    name,
                    provider,
                    vehicle,
                    pad,
                    missions,
                    mission_description,
                    launch_description,
                    win_open,
                    t0,
                    win_close,
                    date_str,
                    tags,
                    slug,
                    weather_summary,
                    weather_temp,
                    weather_condition,
                    weather_wind_mph,
                    weather_icon,
                    weather_updated,
                    quick_text,
                    suborbital,
                    modified,
                },
            )
        },
        _ => None,
    }
}


// ---------------------------------------------------------------------------
// The stored snapshot.
// ---------------------------------------------------------------------------
pub open spec fn launches_arr_of_json(v: JsonVal) -> Option<Seq<UpcomingLaunchesLaunchView>> {
    match v {
        JsonVal::Arr(items) => seq_extract(items, launch_extractor()),
        _ => Option::None,
    }
}

pub fn launches_arr_extract(v: &JsonValue) -> (r: Option<Vec<UpcomingLaunchesLaunch>>)
    ensures
        r is Some <==> launches_arr_of_json(jv_view(*v)) is Some,
        r matches Some(list) ==> launches_arr_of_json(jv_view(*v)) == Some(views_of(list@)),
{
    match v {
        JsonValue::Arr(items) => {
            let n = items.len();
            let mut out: Vec<UpcomingLaunchesLaunch> = Vec::new();
            let mut i: usize = 0;
            proof {
                assert(arr_view(items@).skip(0) =~= arr_view(items@));
                assert(views_of(out@) =~= Seq::<UpcomingLaunchesLaunchView>::empty());
            }
            while i < n
                invariant
                    i <= n,
                    n == items@.len(),
                    jv_view(*v) == JsonVal::Arr(arr_view(items@)),
                    ({
                        let f = launch_extractor();
                        let full = seq_extract(arr_view(items@), f);
                        match seq_extract(arr_view(items@).skip(i as int), f) {
                            Option::None => full is None,
                            Option::Some(rest) => full == Some(views_of(out@) + rest),
                        }
                    }),
                decreases n - i,
            {
                proof {
                    assert(arr_view(items@).skip(i as int)[0] == arr_view(items@)[i as int]);
                    assert(arr_view(items@).skip(i as int).drop_first() =~= arr_view(items@).skip(
                        i + 1 as int,
                    ));
                }
                match launch_extract(&items[i]) {
                    None => {
                        proof {
                            let f = launch_extractor();
                            assert(f(arr_view(items@).skip(i as int)[0]) == launch_of_json(
                                arr_view(items@)[i as int],
                            ));
                            assert(arr_view(items@)[i as int] == jv_view(items@[i as int]));
                            assert(seq_extract(arr_view(items@).skip(i as int), f) is None);
                        }
                        return None;
                    },
                    Some(m) => {
                        proof {
                            lemma_views_of_push(out@, m);
                        }
                        let ghost prev = views_of(out@);
                        let ghost mm = m@;
                        out.push(m);
                        proof {
                            let f = launch_extractor();
                            assert(f(arr_view(items@).skip(i as int)[0]) == launch_of_json(
                                arr_view(items@)[i as int],
                            ));
                            assert(arr_view(items@)[i as int] == jv_view(items@[i as int]));
                            match seq_extract(arr_view(items@).skip(i + 1 as int), f) {
                                Option::None => {},
                                Option::Some(rest) => {
                                    assert(prev + (seq![mm] + rest) =~= (prev.push(mm)) + rest);
                                },
                            }
                        }
                        i = i + 1;
                    },
                }
            }
            proof {
                assert(arr_view(items@).skip(n as int) =~= Seq::<JsonVal>::empty());
                assert(views_of(out@) + Seq::<UpcomingLaunchesLaunchView>::empty() =~= views_of(
                    out@,
                ));
            }
            Some(out)
        },
        _ => None,
    }
}

pub open spec fn launches_of_json(v: JsonVal) -> Option<UpcomingLaunchesView> {
    match v {
        JsonVal::Obj(fs) => {
            let result = match lookup_spec(fs, "result"@) {
                Option::Some(x) => launches_arr_of_json(x),
                Option::None => Option::None,
            };
            if bool_field(lookup_spec(fs, "valid_auth"@)) is Some && int_field(
                lookup_spec(fs, "count"@),
                0,
                u32::MAX as int,
            ) is Some && int_field(lookup_spec(fs, "limit"@), 0, u32::MAX as int) is Some
                && int_field(lookup_spec(fs, "total"@), 0, u64::MAX as int) is Some && int_field(
                lookup_spec(fs, "last_page"@),
                0,
                u64::MAX as int,
            ) is Some && result is Some {
                Option::Some(
                    UpcomingLaunchesView {
                        valid_auth: bool_field(lookup_spec(fs, "valid_auth"@))->0,
                        count: int_field(lookup_spec(fs, "count"@), 0, u32::MAX as int)->0 as u32,
                        limit: int_field(lookup_spec(fs, "limit"@), 0, u32::MAX as int)->0 as u32,
                        total: int_field(lookup_spec(fs, "total"@), 0, u64::MAX as int)->0 as u64,
                        last_page: int_field(
                            lookup_spec(fs, "last_page"@),
                            0,
                            u64::MAX as int,
                        )->0 as u64,
                        result: result->0,
                    },
                )
            } else {
                Option::None
            }
        },
        _ => Option::None,
    }
}

pub fn launches_extract(v: &JsonValue) -> (r: Option<UpcomingLaunches>)
    ensures
        r is Some <==> launches_of_json(jv_view(*v)) is Some,
        r matches Some(m) ==> launches_of_json(jv_view(*v)) == Some(m@),
{
    match v {
        JsonValue::Obj(fields) => {
            let valid_auth = get_bool(lookup(fields, "valid_auth"));
            let count = get_u32(lookup(fields, "count"));
            let limit = get_u32(lookup(fields, "limit"));
            let total = get_u64(lookup(fields, "total"));
            let last_page = get_u64(lookup(fields, "last_page"));
            let result = match lookup(fields, "result") {
                Some(x) => launches_arr_extract(x),
                None => None,
            };
            match (valid_auth, count, limit, total, last_page, result) {
                (
                    Some(valid_auth),
                    Some(count),
                    Some(limit),
                    Some(total),
                    Some(last_page),
                    Some(result),
                ) => Some(
                    UpcomingLaunches { valid_auth, count, limit, total, last_page, result },
                ),
                _ => None,
            }
        },
        _ => None,
    }
}

/// What decoding stored text yields.
pub open spec fn launches_snapshot_of_text(s: Seq<char>) -> Option<UpcomingLaunchesView> {
    match parse_text(s) {
        Option::Some(v) => launches_of_json(v),
        Option::None => Option::None,
    }
}

/// Decode a stored launches snapshot from its text.
pub fn decode_launches_snapshot(t: &str) -> (r: Option<UpcomingLaunches>)
    ensures
        r is Some <==> launches_snapshot_of_text(t@) is Some,
        r matches Some(m) ==> launches_snapshot_of_text(t@) == Some(m@),
{
    match parse_json_text(t) {
        None => None,
        Some(v) => launches_extract(&v),
    }
}

// ---------------------------------------------------------------------------
// The read-path response wrapper.
// ---------------------------------------------------------------------------
/// The read-path response around a stored launches snapshot.
#[derive(Debug)]
pub struct UpcomingLaunchesResponse {
    pub launches: UpcomingLaunches,
    pub date: String,
}

pub struct UpcomingLaunchesResponseView {
    pub launches: UpcomingLaunchesView,
    pub date: Seq<char>,
}

impl View for UpcomingLaunchesResponse {
    type V = UpcomingLaunchesResponseView;

    open spec fn view(&self) -> UpcomingLaunchesResponseView {
        UpcomingLaunchesResponseView { launches: self.launches@, date: self.date@ }
    }
}

/// The date the read path reports until real capture metadata exists.
pub open spec fn spec_generate_response(m: UpcomingLaunchesView) -> UpcomingLaunchesResponseView {
    UpcomingLaunchesResponseView { launches: m, date: "Coming soon"@ }
}

/// Wrap a stored launches snapshot for the read-path HTTP response.
pub fn generate_response(launches: UpcomingLaunches) -> (r: UpcomingLaunchesResponse)
    ensures
        r@ == spec_generate_response(launches@),
{
    UpcomingLaunchesResponse { launches, date: String::from_str("Coming soon") }
}


// ---------------------------------------------------------------------------
// Building the response: every piece of the snapshot as JSON.
// ---------------------------------------------------------------------------
/// An unsigned identifier as a JSON number.
pub open spec fn u64_json(n: u64) -> JsonVal {
    JsonVal::Num(int_text(n as int))
}

fn build_u64(n: u64) -> (r: JsonValue)
    ensures
        jv_view(r) == u64_json(n),
{
    JsonValue::Num(u64_to_dec(n))
}

/// An optional signed count as a JSON number or `null`.
pub open spec fn opt_i32_json(o: Option<i32>) -> JsonVal {
    match o {
        Option::None => JsonVal::Null,
        Option::Some(w) => JsonVal::Num(int_text(w as int)),
    }
}

fn build_opt_i32(o: &Option<i32>) -> (r: JsonValue)
    ensures
        jv_view(r) == opt_i32_json(*o),
{
    match o {
        None => JsonValue::Null,
        Some(w) => JsonValue::Num(i64_to_dec(*w as i64)),
    }
}

pub open spec fn tag_json(t: UpcomingLaunchTagView) -> JsonVal {
    JsonVal::Obj(
        seq![
            JKv { k: "id"@, v: u64_json(t.id) },
            JKv { k: "text"@, v: JsonVal::Str(t.text) },
        ],
    )
}

pub fn tag_build(t: &UpcomingLaunchTag) -> (r: JsonValue)
    ensures
        jv_view(r) == tag_json(t@),
{
    let mut fs: Vec<JsonField> = Vec::new();
    fs.push(JsonField { key: String::from_str("id"), value: build_u64(t.id) });
    fs.push(JsonField { key: String::from_str("text"), value: JsonValue::Str(t.text.clone()) });
    proof {
        assert(obj_view(fs@) =~= seq![
            JKv { k: "id"@, v: u64_json(t.id) },
            JKv { k: "text"@, v: JsonVal::Str(t.text@) },
        ]);
    }
    JsonValue::Obj(fs)
}

pub open spec fn mission_json(m: UpcomingLaunchMissionView) -> JsonVal {
    JsonVal::Obj(
        seq![
            JKv { k: "id"@, v: u64_json(m.id) },
            JKv { k: "name"@, v: JsonVal::Str(m.name) },
            JKv { k: "description"@, v: opt_str_json(m.description) },
        ],
    )
}

pub fn mission_build(m: &UpcomingLaunchMission) -> (r: JsonValue)
    ensures
        jv_view(r) == mission_json(m@),
{
    let mut fs: Vec<JsonField> = Vec::new();
    fs.push(JsonField { key: String::from_str("id"), value: build_u64(m.id) });
    fs.push(JsonField { key: String::from_str("name"), value: JsonValue::Str(m.name.clone()) });
    fs.push(JsonField { key: String::from_str("description"), value: build_opt_str(&m.description) });
    proof {
        assert(obj_view(fs@) =~= seq![
            JKv { k: "id"@, v: u64_json(m.id) },
            JKv { k: "name"@, v: JsonVal::Str(m.name@) },
            JKv { k: "description"@, v: opt_str_json(opt_view(m.description)) },
        ]);
    }
    JsonValue::Obj(fs)
}

pub open spec fn pad_location_json(l: UpcomingLaunchPadLocationView) -> JsonVal {
    JsonVal::Obj(
        seq![
            JKv { k: "id"@, v: u64_json(l.id) },
            JKv { k: "name"@, v: JsonVal::Str(l.name) },
            JKv { k: "state"@, v: JsonVal::Str(l.state) },
            JKv { k: "state_name"@, v: JsonVal::Str(l.state_name) },
            JKv { k: "country"@, v: JsonVal::Str(l.country) },
            JKv { k: "slug"@, v: JsonVal::Str(l.slug) },
        ],
    )
}

pub fn pad_location_build(l: &UpcomingLaunchPadLocation) -> (r: JsonValue)
    ensures
        jv_view(r) == pad_location_json(l@),
{
    let mut fs: Vec<JsonField> = Vec::new();
    fs.push(JsonField { key: String::from_str("id"), value: build_u64(l.id) });
    fs.push(JsonField { key: String::from_str("name"), value: JsonValue::Str(l.name.clone()) });
    fs.push(JsonField { key: String::from_str("state"), value: JsonValue::Str(l.state.clone()) });
    fs.push(
        JsonField {
            key: String::from_str("state_name"),
            value: JsonValue::Str(l.state_name.clone()),
        },
    );
    fs.push(
        JsonField { key: String::from_str("country"), value: JsonValue::Str(l.country.clone()) },
    );
    fs.push(JsonField { key: String::from_str("slug"), value: JsonValue::Str(l.slug.clone()) });
    proof {
        assert(obj_view(fs@) =~= seq![
            JKv { k: "id"@, v: u64_json(l.id) },
            JKv { k: "name"@, v: JsonVal::Str(l.name@) },
            JKv { k: "state"@, v: JsonVal::Str(l.state@) },
            JKv { k: "state_name"@, v: JsonVal::Str(l.state_name@) },
            JKv { k: "country"@, v: JsonVal::Str(l.country@) },
            JKv { k: "slug"@, v: JsonVal::Str(l.slug@) },
        ]);
    }
    JsonValue::Obj(fs)
}

pub open spec fn pad_json(p: UpcomingLaunchPadView) -> JsonVal {
    JsonVal::Obj(
        seq![
            JKv { k: "id"@, v: u64_json(p.id) },
            JKv { k: "name"@, v: JsonVal::Str(p.name) },
            JKv { k: "location"@, v: pad_location_json(p.location) },
        ],
    )
}

pub fn pad_build(p: &UpcomingLaunchPad) -> (r: JsonValue)
    ensures
        jv_view(r) == pad_json(p@),
{
    let mut fs: Vec<JsonField> = Vec::new();
    fs.push(JsonField { key: String::from_str("id"), value: build_u64(p.id) });
    fs.push(JsonField { key: String::from_str("name"), value: JsonValue::Str(p.name.clone()) });
    fs.push(JsonField { key: String::from_str("location"), value: pad_location_build(&p.location) });
    proof {
        assert(obj_view(fs@) =~= seq![
            JKv { k: "id"@, v: u64_json(p.id) },
            JKv { k: "name"@, v: JsonVal::Str(p.name@) },
            JKv { k: "location"@, v: pad_location_json(p.location@) },
        ]);
    }
    JsonValue::Obj(fs)
}

pub open spec fn opt_pad_json(o: Option<UpcomingLaunchPadView>) -> JsonVal {
    match o {
        Option::None => JsonVal::Null,
        Option::Some(p) => pad_json(p),
    }
}

fn build_opt_pad(o: &Option<UpcomingLaunchPad>) -> (r: JsonValue)
    ensures
        jv_view(r) == opt_pad_json(opt_pad_view(*o)),
{
    match o {
        None => JsonValue::Null,
        Some(p) => pad_build(p),
    }
}

pub open spec fn vehicle_json(v: UpcomingLaunchVehicleView) -> JsonVal {
    JsonVal::Obj(
        seq![
            JKv { k: "id"@, v: u64_json(v.id) },
            JKv { k: "name"@, v: JsonVal::Str(v.name) },
            JKv { k: "company_id"@, v: u64_json(v.company_id) },
            JKv { k: "slug"@, v: JsonVal::Str(v.slug) },
            JKv { k: "pad"@, v: opt_pad_json(v.pad) },
        ],
    )
}

pub fn vehicle_build(v: &UpcomingLaunchVehicle) -> (r: JsonValue)
    ensures
        jv_view(r) == vehicle_json(v@),
{
    let mut fs: Vec<JsonField> = Vec::new();
    fs.push(JsonField { key: String::from_str("id"), value: build_u64(v.id) });
    fs.push(JsonField { key: String::from_str("name"), value: JsonValue::Str(v.name.clone()) });
    fs.push(JsonField { key: String::from_str("company_id"), value: build_u64(v.company_id) });
    fs.push(JsonField { key: String::from_str("slug"), value: JsonValue::Str(v.slug.clone()) });
    fs.push(JsonField { key: String::from_str("pad"), value: build_opt_pad(&v.pad) });
    proof {
        assert(obj_view(fs@) =~= seq![
            JKv { k: "id"@, v: u64_json(v.id) },
            JKv { k: "name"@, v: JsonVal::Str(v.name@) },
            JKv { k: "company_id"@, v: u64_json(v.company_id) },
            JKv { k: "slug"@, v: JsonVal::Str(v.slug@) },
            JKv { k: "pad"@, v: opt_pad_json(opt_pad_view(v.pad)) },
        ]);
    }
    JsonValue::Obj(fs)
}

pub open spec fn provider_json(p: UpcomingLaunchProviderView) -> JsonVal {
    JsonVal::Obj(
        seq![
            JKv { k: "id"@, v: u64_json(p.id) },
            JKv { k: "name"@, v: JsonVal::Str(p.name) },
            JKv { k: "slug"@, v: JsonVal::Str(p.slug) },
        ],
    )
}

pub fn provider_build(p: &UpcomingLaunchProvider) -> (r: JsonValue)
    ensures
        jv_view(r) == provider_json(p@),
{
    let mut fs: Vec<JsonField> = Vec::new();
    fs.push(JsonField { key: String::from_str("id"), value: build_u64(p.id) });
    fs.push(JsonField { key: String::from_str("name"), value: JsonValue::Str(p.name.clone()) });
    fs.push(JsonField { key: String::from_str("slug"), value: JsonValue::Str(p.slug.clone()) });
    proof {
        assert(obj_view(fs@) =~= seq![
            JKv { k: "id"@, v: u64_json(p.id) },
            JKv { k: "name"@, v: JsonVal::Str(p.name@) },
            JKv { k: "slug"@, v: JsonVal::Str(p.slug@) },
        ]);
    }
    JsonValue::Obj(fs)
}

pub open spec fn missions_json(ms: Seq<UpcomingLaunchMissionView>) -> Seq<JsonVal> {
    Seq::new(ms.len(), |i: int| mission_json(ms[i]))
}

pub fn missions_build(list: &Vec<UpcomingLaunchMission>) -> (r: Vec<JsonValue>)
    ensures
        arr_view(r@) == missions_json(views_of(list@)),
{
    let mut out: Vec<JsonValue> = Vec::new();
    let n = list.len();
    let mut i: usize = 0;
    proof {
        assert(arr_view(out@) =~= missions_json(views_of(list@)).take(0));
    }
    while i < n
        invariant
            i <= n,
            n == list@.len(),
            arr_view(out@) == missions_json(views_of(list@)).take(i as int),
        decreases n - i,
    {
        let jv = mission_build(&list[i]);
        let ghost prev = out@;
        proof {
            lemma_arr_view_push(prev, jv);
        }
        out.push(jv);
        proof {
            assert(missions_json(views_of(list@)).take(i + 1 as int) =~= missions_json(
                views_of(list@),
            ).take(i as int).push(missions_json(views_of(list@))[i as int]));
        }
        i = i + 1;
    }
    proof {
        assert(missions_json(views_of(list@)).take(n as int) =~= missions_json(views_of(list@)));
    }
    out
}

pub open spec fn tags_json(ts: Seq<UpcomingLaunchTagView>) -> Seq<JsonVal> {
    Seq::new(ts.len(), |i: int| tag_json(ts[i]))
}

pub fn tags_build(list: &Vec<UpcomingLaunchTag>) -> (r: Vec<JsonValue>)
    ensures
        arr_view(r@) == tags_json(views_of(list@)),
{
    let mut out: Vec<JsonValue> = Vec::new();
    let n = list.len();
    let mut i: usize = 0;
    proof {
        assert(arr_view(out@) =~= tags_json(views_of(list@)).take(0));
    }
    while i < n
        invariant
            i <= n,
            n == list@.len(),
            arr_view(out@) == tags_json(views_of(list@)).take(i as int),
        decreases n - i,
    {
        let jv = tag_build(&list[i]);
        let ghost prev = out@;
        proof {
            lemma_arr_view_push(prev, jv);
        }
        out.push(jv);
        proof {
            assert(tags_json(views_of(list@)).take(i + 1 as int) =~= tags_json(
                views_of(list@),
            ).take(i as int).push(tags_json(views_of(list@))[i as int]));
        }
        i = i + 1;
    }
    proof {
        assert(tags_json(views_of(list@)).take(n as int) =~= tags_json(views_of(list@)));
    }
    out
}

pub open spec fn launch_json(l: UpcomingLaunchesLaunchView) -> JsonVal {
    JsonVal::Obj(
        seq![
            JKv { k: "id"@, v: u64_json(l.id) },
            JKv { k: "cospar_id"@, v: opt_str_json(l.cospar_id) },
            JKv { k: "sort_date"@, v: JsonVal::Str(l.sort_date) },
            JKv { k: "name"@, v: JsonVal::Str(l.name) },
            JKv { k: "provider"@, v: provider_json(l.provider) },
            JKv { k: "vehicle"@, v: vehicle_json(l.vehicle) },
            JKv { k: "pad"@, v: opt_pad_json(l.pad) },
            JKv { k: "missions"@, v: JsonVal::Arr(missions_json(l.missions)) },
            JKv { k: "mission_description"@, v: JsonVal::Str(l.mission_description) },
            JKv { k: "launch_description"@, v: JsonVal::Str(l.launch_description) },
            JKv { k: "win_open"@, v: opt_str_json(l.win_open) },
            JKv { k: "t0"@, v: opt_str_json(l.t0) },
            JKv { k: "win_close"@, v: opt_str_json(l.win_close) },
            JKv { k: "date_str"@, v: JsonVal::Str(l.date_str) },
            JKv { k: "tags"@, v: JsonVal::Arr(tags_json(l.tags)) },
            JKv { k: "slug"@, v: JsonVal::Str(l.slug) },
            JKv { k: "weather_summary"@, v: opt_str_json(l.weather_summary) },
            JKv { k: "weather_temp"@, v: JsonVal::Num(int_text(l.weather_temp as int)) },
            JKv { k: "weather_condition"@, v: opt_str_json(l.weather_condition) },
            JKv { k: "weather_wind_mph"@, v: opt_i32_json(l.weather_wind_mph) },
            JKv { k: "weather_icon"@, v: opt_str_json(l.weather_icon) },
            JKv { k: "weather_updated"@, v: opt_str_json(l.weather_updated) },
            JKv { k: "quick_text"@, v: opt_str_json(l.quick_text) },
            JKv { k: "suborbital"@, v: JsonVal::Bool(l.suborbital) },
            JKv { k: "modified"@, v: JsonVal::Str(l.modified) },
        ],
    )
}

#[verifier::rlimit(100)]
pub fn launch_build(l: &UpcomingLaunchesLaunch) -> (r: JsonValue)
    ensures
        jv_view(r) == launch_json(l@),
{
    let mut fs: Vec<JsonField> = Vec::new();
    fs.push(JsonField { key: String::from_str("id"), value: build_u64(l.id) });
    fs.push(JsonField { key: String::from_str("cospar_id"), value: build_opt_str(&l.cospar_id) });
    fs.push(
        JsonField { key: String::from_str("sort_date"), value: JsonValue::Str(l.sort_date.clone()) },
    );
    fs.push(JsonField { key: String::from_str("name"), value: JsonValue::Str(l.name.clone()) });
    fs.push(JsonField { key: String::from_str("provider"), value: provider_build(&l.provider) });
    fs.push(JsonField { key: String::from_str("vehicle"), value: vehicle_build(&l.vehicle) });
    fs.push(JsonField { key: String::from_str("pad"), value: build_opt_pad(&l.pad) });
    fs.push(
        JsonField {
            key: String::from_str("missions"),
            value: JsonValue::Arr(missions_build(&l.missions)),
        },
    );
    fs.push(
        JsonField {
            key: String::from_str("mission_description"),
            value: JsonValue::Str(l.mission_description.clone()),
        },
    );
    fs.push(
        JsonField {
            key: String::from_str("launch_description"),
            value: JsonValue::Str(l.launch_description.clone()),
        },
    );
    fs.push(JsonField { key: String::from_str("win_open"), value: build_opt_str(&l.win_open) });
    fs.push(JsonField { key: String::from_str("t0"), value: build_opt_str(&l.t0) });
    fs.push(JsonField { key: String::from_str("win_close"), value: build_opt_str(&l.win_close) });
    fs.push(
        JsonField { key: String::from_str("date_str"), value: JsonValue::Str(l.date_str.clone()) },
    );
    fs.push(
        JsonField { key: String::from_str("tags"), value: JsonValue::Arr(tags_build(&l.tags)) },
    );
    fs.push(JsonField { key: String::from_str("slug"), value: JsonValue::Str(l.slug.clone()) });
    fs.push(
        JsonField {
            key: String::from_str("weather_summary"),
            value: build_opt_str(&l.weather_summary),
        },
    );
    fs.push(
        JsonField {
            key: String::from_str("weather_temp"),
            value: JsonValue::Num(i64_to_dec(l.weather_temp as i64)),
        },
    );
    fs.push(
        JsonField {
            key: String::from_str("weather_condition"),
            value: build_opt_str(&l.weather_condition),
        },
    );
    fs.push(
        JsonField {
            key: String::from_str("weather_wind_mph"),
            value: build_opt_i32(&l.weather_wind_mph),
        },
    );
    fs.push(
        JsonField { key: String::from_str("weather_icon"), value: build_opt_str(&l.weather_icon) },
    );
    fs.push(
        JsonField {
            key: String::from_str("weather_updated"),
            value: build_opt_str(&l.weather_updated),
        },
    );
    fs.push(JsonField { key: String::from_str("quick_text"), value: build_opt_str(&l.quick_text) });
    fs.push(JsonField { key: String::from_str("suborbital"), value: JsonValue::Bool(l.suborbital) });
    fs.push(
        JsonField { key: String::from_str("modified"), value: JsonValue::Str(l.modified.clone()) },
    );
    proof {
        assert(obj_view(fs@) =~= launch_json(l@)->Obj_0);
    }
    JsonValue::Obj(fs)
}

pub open spec fn launches_arr_json(ls: Seq<UpcomingLaunchesLaunchView>) -> Seq<JsonVal> {
    Seq::new(ls.len(), |i: int| launch_json(ls[i]))
}

pub fn launches_arr_build(list: &Vec<UpcomingLaunchesLaunch>) -> (r: Vec<JsonValue>)
    ensures
        arr_view(r@) == launches_arr_json(views_of(list@)),
{
    let mut out: Vec<JsonValue> = Vec::new();
    let n = list.len();
    let mut i: usize = 0;
    proof {
        assert(arr_view(out@) =~= launches_arr_json(views_of(list@)).take(0));
    }
    while i < n
        invariant
            i <= n,
            n == list@.len(),
            arr_view(out@) == launches_arr_json(views_of(list@)).take(i as int),
        decreases n - i,
    {
        let jv = launch_build(&list[i]);
        let ghost prev = out@;
        proof {
            lemma_arr_view_push(prev, jv);
        }
        out.push(jv);
        proof {
            assert(launches_arr_json(views_of(list@)).take(i + 1 as int) =~= launches_arr_json(
                views_of(list@),
            ).take(i as int).push(launches_arr_json(views_of(list@))[i as int]));
        }
        i = i + 1;
    }
    proof {
        assert(launches_arr_json(views_of(list@)).take(n as int) =~= launches_arr_json(
            views_of(list@),
        ));
    }
    out
}

pub open spec fn launches_json(m: UpcomingLaunchesView) -> JsonVal {
    JsonVal::Obj(
        seq![
            JKv { k: "valid_auth"@, v: JsonVal::Bool(m.valid_auth) },
            JKv { k: "count"@, v: u64_json(m.count as u64) },
            JKv { k: "limit"@, v: u64_json(m.limit as u64) },
            JKv { k: "total"@, v: u64_json(m.total) },
            JKv { k: "last_page"@, v: u64_json(m.last_page) },
            JKv { k: "result"@, v: JsonVal::Arr(launches_arr_json(m.result)) },
        ],
    )
}

pub fn launches_build(m: &UpcomingLaunches) -> (r: JsonValue)
    ensures
        jv_view(r) == launches_json(m@),
{
    let mut fs: Vec<JsonField> = Vec::new();
    fs.push(
        JsonField { key: String::from_str("valid_auth"), value: JsonValue::Bool(m.valid_auth) },
    );
    fs.push(JsonField { key: String::from_str("count"), value: build_u64(m.count as u64) });
    fs.push(JsonField { key: String::from_str("limit"), value: build_u64(m.limit as u64) });
    fs.push(JsonField { key: String::from_str("total"), value: build_u64(m.total) });
    fs.push(JsonField { key: String::from_str("last_page"), value: build_u64(m.last_page) });
    fs.push(
        JsonField {
            key: String::from_str("result"),
            value: JsonValue::Arr(launches_arr_build(&m.result)),
        },
    );
    proof {
        assert(obj_view(fs@) =~= launches_json(m@)->Obj_0);
    }
    JsonValue::Obj(fs)
}

pub open spec fn launches_response_json(r: UpcomingLaunchesResponseView) -> JsonVal {
    JsonVal::Obj(
        seq![
            JKv { k: "launches"@, v: launches_json(r.launches) },
            JKv { k: "date"@, v: JsonVal::Str(r.date) },
        ],
    )
}

pub fn launches_response_build(r0: &UpcomingLaunchesResponse) -> (r: JsonValue)
    ensures
        jv_view(r) == launches_response_json(r0@),
{
    let mut fs: Vec<JsonField> = Vec::new();
    fs.push(JsonField { key: String::from_str("launches"), value: launches_build(&r0.launches) });
    fs.push(JsonField { key: String::from_str("date"), value: JsonValue::Str(r0.date.clone()) });
    proof {
        assert(obj_view(fs@) =~= launches_response_json(r0@)->Obj_0);
    }
    JsonValue::Obj(fs)
}

/// Serialize the read-path response to its exact body text.
pub fn encode_launches_response(r0: &UpcomingLaunchesResponse) -> (r: String)
    ensures
        r@ == ser_val(launches_response_json(r0@)),
{
    let v = launches_response_build(r0);
    json_to_text(&v)
}


// ---------------------------------------------------------------------------
// Reading back what was built, field shape by field shape.
// ---------------------------------------------------------------------------
pub proof fn lemma_u64_round(n: u64)
    ensures
        int_field(Some(u64_json(n)), 0, u64::MAX as int) == Some(n as int),
{
    lemma_int_text_round_trip(n as int);
}

pub proof fn lemma_i32_round(w: i32)
    ensures
        int_field(
            Some(JsonVal::Num(int_text(w as int))),
            i32::MIN as int,
            i32::MAX as int,
        ) == Some(w as int),
{
    lemma_int_text_round_trip(w as int);
}

pub proof fn lemma_opt_str_round(o: Option<Seq<char>>)
    ensures
        opt_str_field(Some(opt_str_json(o))) == Some(o),
{
}

pub proof fn lemma_opt_i32_round(o: Option<i32>)
    ensures
        opt_int_field(Some(opt_i32_json(o)), i32::MIN as int, i32::MAX as int) == Some(
            match o {
                Option::Some(w) => Option::Some(w as int),
                Option::None => Option::None,
            },
        ),
{
    match o {
        Option::None => {},
        Option::Some(w) => {
            lemma_int_text_round_trip(w as int);
        },
    }
}

/// Reading a built tag gives the tag back.
pub proof fn lemma_tag_round(t: UpcomingLaunchTagView)
    ensures
        tag_of_json(tag_json(t)) == Some(t),
{
    reveal_strlit("id");
    reveal_strlit("text");
    assert("id"@.len() == 2 && "text"@.len() == 4);
    let fs = tag_json(t)->Obj_0;
    assert(fs[0].k == "id"@ && fs[1].k == "text"@);
    lemma_lookup_at(fs, "id"@, 0);
    lemma_lookup_at(fs, "text"@, 1);
    lemma_u64_round(t.id);
}

/// Reading a built mission gives the mission back.
pub proof fn lemma_mission_round(m: UpcomingLaunchMissionView)
    ensures
        mission_of_json(mission_json(m)) == Some(m),
{
    reveal_strlit("id");
    reveal_strlit("name");
    reveal_strlit("description");
    assert("id"@.len() == 2 && "name"@.len() == 4 && "description"@.len() == 11);
    let fs = mission_json(m)->Obj_0;
    assert(fs[0].k == "id"@ && fs[1].k == "name"@ && fs[2].k == "description"@);
    lemma_lookup_at(fs, "id"@, 0);
    lemma_lookup_at(fs, "name"@, 1);
    lemma_lookup_at(fs, "description"@, 2);
    lemma_u64_round(m.id);
    lemma_opt_str_round(m.description);
}

/// Reading a built pad location gives the location back.
pub proof fn lemma_pad_location_round(l: UpcomingLaunchPadLocationView)
    ensures
        pad_location_of_json(pad_location_json(l)) == Some(l),
{
    reveal_strlit("id");
    reveal_strlit("name");
    reveal_strlit("state");
    reveal_strlit("state_name");
    reveal_strlit("statename");
    reveal_strlit("country");
    reveal_strlit("slug");
    assert("id"@.len() == 2 && "name"@.len() == 4 && "state"@.len() == 5 && "state_name"@.len()
        == 10 && "statename"@.len() == 9 && "country"@.len() == 7 && "slug"@.len() == 4);
    assert("name"@[0] == 'n' && "slug"@[0] == 's');
    let fs = pad_location_json(l)->Obj_0;
    assert(fs[0].k == "id"@ && fs[1].k == "name"@ && fs[2].k == "state"@ && fs[3].k
        == "state_name"@ && fs[4].k == "country"@ && fs[5].k == "slug"@);
    lemma_lookup_at(fs, "id"@, 0);
    lemma_lookup_at(fs, "name"@, 1);
    lemma_lookup_at(fs, "state"@, 2);
    lemma_lookup2_at(fs, "state_name"@, "statename"@, 3);
    lemma_lookup_at(fs, "country"@, 4);
    lemma_lookup_at(fs, "slug"@, 5);
    lemma_u64_round(l.id);
}

/// Reading a built pad gives the pad back.
pub proof fn lemma_pad_round(p: UpcomingLaunchPadView)
    ensures
        pad_of_json(pad_json(p)) == Some(p),
{
    reveal_strlit("id");
    reveal_strlit("name");
    reveal_strlit("location");
    assert("id"@.len() == 2 && "name"@.len() == 4 && "location"@.len() == 8);
    let fs = pad_json(p)->Obj_0;
    assert(fs[0].k == "id"@ && fs[1].k == "name"@ && fs[2].k == "location"@);
    lemma_lookup_at(fs, "id"@, 0);
    lemma_lookup_at(fs, "name"@, 1);
    lemma_lookup_at(fs, "location"@, 2);
    lemma_u64_round(p.id);
    lemma_pad_location_round(p.location);
}

/// Reading a built optional pad gives it back.
pub proof fn lemma_opt_pad_round(o: Option<UpcomingLaunchPadView>)
    ensures
        opt_pad_field(Some(opt_pad_json(o))) == Some(o),
{
    match o {
        Option::None => {},
        Option::Some(p) => {
            lemma_pad_round(p);
        },
    }
}

/// Reading a built vehicle gives the vehicle back.
pub proof fn lemma_vehicle_round(v: UpcomingLaunchVehicleView)
    ensures
        vehicle_of_json(vehicle_json(v)) == Some(v),
{
    reveal_strlit("id");
    reveal_strlit("name");
    reveal_strlit("company_id");
    reveal_strlit("slug");
    reveal_strlit("pad");
    assert("id"@.len() == 2 && "name"@.len() == 4 && "company_id"@.len() == 10 && "slug"@.len()
        == 4 && "pad"@.len() == 3);
    assert("name"@[0] == 'n' && "slug"@[0] == 's');
    let fs = vehicle_json(v)->Obj_0;
    assert(fs[0].k == "id"@ && fs[1].k == "name"@ && fs[2].k == "company_id"@ && fs[3].k
        == "slug"@ && fs[4].k == "pad"@);
    lemma_lookup_at(fs, "id"@, 0);
    lemma_lookup_at(fs, "name"@, 1);
    lemma_lookup_at(fs, "company_id"@, 2);
    lemma_lookup_at(fs, "slug"@, 3);
    lemma_lookup_at(fs, "pad"@, 4);
    lemma_u64_round(v.id);
    lemma_u64_round(v.company_id);
    lemma_opt_pad_round(v.pad);
}

/// Reading a built provider gives the provider back.
pub proof fn lemma_provider_round(p: UpcomingLaunchProviderView)
    ensures
        provider_of_json(provider_json(p)) == Some(p),
{
    reveal_strlit("id");
    reveal_strlit("name");
    reveal_strlit("slug");
    assert("id"@.len() == 2 && "name"@.len() == 4 && "slug"@.len() == 4);
    assert("name"@[0] == 'n' && "slug"@[0] == 's');
    let fs = provider_json(p)->Obj_0;
    assert(fs[0].k == "id"@ && fs[1].k == "name"@ && fs[2].k == "slug"@);
    lemma_lookup_at(fs, "id"@, 0);
    lemma_lookup_at(fs, "name"@, 1);
    lemma_lookup_at(fs, "slug"@, 2);
    lemma_u64_round(p.id);
}

/// Reading a built mission array gives the missions back.
pub proof fn lemma_missions_round(ms: Seq<UpcomingLaunchMissionView>)
    ensures
        seq_extract(missions_json(ms), mission_extractor()) == Some(ms),
{
    let g = |m: UpcomingLaunchMissionView| mission_json(m);
    assert forall|i: int| 0 <= i < ms.len() implies mission_extractor()(
        g(#[trigger] ms[i]),
    ) == Some(ms[i]) by {
        assert(g(ms[i]) == mission_json(ms[i]));
        lemma_mission_round(ms[i]);
    }
    lemma_seq_extract_map(ms, g, mission_extractor());
    let js1 = Seq::new(ms.len(), |i: int| g(ms[i]));
    assert forall|i: int| 0 <= i < ms.len() implies js1[i] == missions_json(ms)[i] by {
        assert(g(ms[i]) == mission_json(ms[i]));
    }
    assert(js1 =~= missions_json(ms));
}

/// Reading a built tag array gives the tags back.
pub proof fn lemma_tags_round(ts: Seq<UpcomingLaunchTagView>)
    ensures
        seq_extract(tags_json(ts), tag_extractor()) == Some(ts),
{
    let g = |t: UpcomingLaunchTagView| tag_json(t);
    assert forall|i: int| 0 <= i < ts.len() implies tag_extractor()(
        g(#[trigger] ts[i]),
    ) == Some(ts[i]) by {
        assert(g(ts[i]) == tag_json(ts[i]));
        lemma_tag_round(ts[i]);
    }
    lemma_seq_extract_map(ts, g, tag_extractor());
    let js1 = Seq::new(ts.len(), |i: int| g(ts[i]));
    assert forall|i: int| 0 <= i < ts.len() implies js1[i] == tags_json(ts)[i] by {
        assert(g(ts[i]) == tag_json(ts[i]));
    }
    assert(js1 =~= tags_json(ts));
}


/// Where each member of a built launch stands, and what lookup finds there.
#[verifier::rlimit(100)]
pub proof fn lemma_launch_lookups(l: UpcomingLaunchesLaunchView)
    ensures
        ({
            let fs = launch_json(l)->Obj_0;
            &&& lookup_spec(fs, "id"@) == Some(u64_json(l.id))
            &&& lookup_spec(fs, "cospar_id"@) == Some(opt_str_json(l.cospar_id))
            &&& lookup_spec(fs, "sort_date"@) == Some(JsonVal::Str(l.sort_date))
            &&& lookup_spec(fs, "name"@) == Some(JsonVal::Str(l.name))
            &&& lookup_spec(fs, "provider"@) == Some(provider_json(l.provider))
            &&& lookup_spec(fs, "vehicle"@) == Some(vehicle_json(l.vehicle))
            &&& lookup_spec(fs, "pad"@) == Some(opt_pad_json(l.pad))
            &&& lookup_spec(fs, "missions"@) == Some(JsonVal::Arr(missions_json(l.missions)))
            &&& lookup_spec(fs, "mission_description"@) == Some(
                JsonVal::Str(l.mission_description),
            )
            &&& lookup_spec(fs, "launch_description"@) == Some(JsonVal::Str(l.launch_description))
            &&& lookup_spec(fs, "win_open"@) == Some(opt_str_json(l.win_open))
            &&& lookup_spec(fs, "t0"@) == Some(opt_str_json(l.t0))
            &&& lookup_spec(fs, "win_close"@) == Some(opt_str_json(l.win_close))
            &&& lookup_spec(fs, "date_str"@) == Some(JsonVal::Str(l.date_str))
            &&& lookup_spec(fs, "tags"@) == Some(JsonVal::Arr(tags_json(l.tags)))
            &&& lookup_spec(fs, "slug"@) == Some(JsonVal::Str(l.slug))
            &&& lookup_spec(fs, "weather_summary"@) == Some(opt_str_json(l.weather_summary))
            &&& lookup_spec(fs, "weather_temp"@) == Some(
                JsonVal::Num(int_text(l.weather_temp as int)),
            )
            &&& lookup_spec(fs, "weather_condition"@) == Some(opt_str_json(l.weather_condition))
            &&& lookup_spec(fs, "weather_wind_mph"@) == Some(opt_i32_json(l.weather_wind_mph))
            &&& lookup_spec(fs, "weather_icon"@) == Some(opt_str_json(l.weather_icon))
            &&& lookup_spec(fs, "weather_updated"@) == Some(opt_str_json(l.weather_updated))
            &&& lookup_spec(fs, "quick_text"@) == Some(opt_str_json(l.quick_text))
            &&& lookup_spec(fs, "suborbital"@) == Some(JsonVal::Bool(l.suborbital))
            &&& lookup_spec(fs, "modified"@) == Some(JsonVal::Str(l.modified))
        }),
{
    reveal_strlit("id");
    reveal_strlit("cospar_id");
    reveal_strlit("sort_date");
    reveal_strlit("name");
    reveal_strlit("provider");
    reveal_strlit("vehicle");
    reveal_strlit("pad");
    reveal_strlit("missions");
    reveal_strlit("mission_description");
    reveal_strlit("launch_description");
    reveal_strlit("win_open");
    reveal_strlit("t0");
    reveal_strlit("win_close");
    reveal_strlit("date_str");
    reveal_strlit("tags");
    reveal_strlit("slug");
    reveal_strlit("weather_summary");
    reveal_strlit("weather_temp");
    reveal_strlit("weather_condition");
    reveal_strlit("weather_wind_mph");
    reveal_strlit("weather_icon");
    reveal_strlit("weather_updated");
    reveal_strlit("quick_text");
    reveal_strlit("suborbital");
    reveal_strlit("modified");
    assert("id"@.len() == 2 && "cospar_id"@.len() == 9 && "sort_date"@.len() == 9 && "name"@.len()
        == 4 && "provider"@.len() == 8 && "vehicle"@.len() == 7 && "pad"@.len() == 3
        && "missions"@.len() == 8 && "mission_description"@.len() == 19
        && "launch_description"@.len() == 18 && "win_open"@.len() == 8 && "t0"@.len() == 2
        && "win_close"@.len() == 9 && "date_str"@.len() == 8 && "tags"@.len() == 4 && "slug"@.len()
        == 4 && "weather_summary"@.len() == 15 && "weather_temp"@.len() == 12
        && "weather_condition"@.len() == 17 && "weather_wind_mph"@.len() == 16
        && "weather_icon"@.len() == 12 && "weather_updated"@.len() == 15 && "quick_text"@.len()
        == 10 && "suborbital"@.len() == 10 && "modified"@.len() == 8);
    assert("id"@[0] == 'i' && "t0"@[0] == 't');
    assert("cospar_id"@[0] == 'c' && "sort_date"@[0] == 's' && "win_close"@[0] == 'w');
    assert("name"@[0] == 'n' && "tags"@[0] == 't' && "slug"@[0] == 's');
    assert("provider"@[0] == 'p' && "missions"@[0] == 'm' && "win_open"@[0] == 'w'
        && "date_str"@[0] == 'd' && "modified"@[0] == 'm');
    assert("missions"@[1] == 'i' && "modified"@[1] == 'o');
    assert("weather_summary"@[8] == 's' && "weather_updated"@[8] == 'u');
    assert("weather_temp"@[8] == 't' && "weather_icon"@[8] == 'i');
    assert("quick_text"@[0] == 'q' && "suborbital"@[0] == 's');
    let fs = launch_json(l)->Obj_0;
    assert(fs[0].k == "id"@ && fs[1].k == "cospar_id"@ && fs[2].k == "sort_date"@ && fs[3].k
        == "name"@ && fs[4].k == "provider"@ && fs[5].k == "vehicle"@ && fs[6].k == "pad"@
        && fs[7].k == "missions"@ && fs[8].k == "mission_description"@ && fs[9].k
        == "launch_description"@ && fs[10].k == "win_open"@ && fs[11].k == "t0"@ && fs[12].k
        == "win_close"@ && fs[13].k == "date_str"@ && fs[14].k == "tags"@ && fs[15].k == "slug"@
        && fs[16].k == "weather_summary"@ && fs[17].k == "weather_temp"@ && fs[18].k
        == "weather_condition"@ && fs[19].k == "weather_wind_mph"@ && fs[20].k == "weather_icon"@
        && fs[21].k == "weather_updated"@ && fs[22].k == "quick_text"@ && fs[23].k == "suborbital"@
        && fs[24].k == "modified"@);
    lemma_lookup_at(fs, "id"@, 0);
    lemma_lookup_at(fs, "cospar_id"@, 1);
    lemma_lookup_at(fs, "sort_date"@, 2);
    lemma_lookup_at(fs, "name"@, 3);
    lemma_lookup_at(fs, "provider"@, 4);
    lemma_lookup_at(fs, "vehicle"@, 5);
    lemma_lookup_at(fs, "pad"@, 6);
    lemma_lookup_at(fs, "missions"@, 7);
    lemma_lookup_at(fs, "mission_description"@, 8);
    lemma_lookup_at(fs, "launch_description"@, 9);
    lemma_lookup_at(fs, "win_open"@, 10);
    lemma_lookup_at(fs, "t0"@, 11);
    lemma_lookup_at(fs, "win_close"@, 12);
    lemma_lookup_at(fs, "date_str"@, 13);
    lemma_lookup_at(fs, "tags"@, 14);
    lemma_lookup_at(fs, "slug"@, 15);
    lemma_lookup_at(fs, "weather_summary"@, 16);
    lemma_lookup_at(fs, "weather_temp"@, 17);
    lemma_lookup_at(fs, "weather_condition"@, 18);
    lemma_lookup_at(fs, "weather_wind_mph"@, 19);
    lemma_lookup_at(fs, "weather_icon"@, 20);
    lemma_lookup_at(fs, "weather_updated"@, 21);
    lemma_lookup_at(fs, "quick_text"@, 22);
    lemma_lookup_at(fs, "suborbital"@, 23);
    lemma_lookup_at(fs, "modified"@, 24);
}

/// Reading a built launch gives the launch back.
#[verifier::rlimit(100)]
pub proof fn lemma_launch_round(l: UpcomingLaunchesLaunchView)
    ensures
        launch_of_json(launch_json(l)) == Some(l),
{
    lemma_launch_lookups(l);
    lemma_u64_round(l.id);
    lemma_opt_str_round(l.cospar_id);
    lemma_provider_round(l.provider);
    lemma_vehicle_round(l.vehicle);
    lemma_opt_pad_round(l.pad);
    lemma_missions_round(l.missions);
    lemma_opt_str_round(l.win_open);
    lemma_opt_str_round(l.t0);
    lemma_opt_str_round(l.win_close);
    lemma_tags_round(l.tags);
    lemma_opt_str_round(l.weather_summary);
    lemma_i32_round(l.weather_temp);
    lemma_opt_str_round(l.weather_condition);
    lemma_opt_i32_round(l.weather_wind_mph);
    lemma_opt_str_round(l.weather_icon);
    lemma_opt_str_round(l.weather_updated);
    lemma_opt_str_round(l.quick_text);
}

pub proof fn lemma_launches_arr_round(ls: Seq<UpcomingLaunchesLaunchView>)
    ensures
        seq_extract(launches_arr_json(ls), launch_extractor()) == Some(ls),
{
    let g = |l: UpcomingLaunchesLaunchView| launch_json(l);
    assert forall|i: int| 0 <= i < ls.len() implies launch_extractor()(
        g(#[trigger] ls[i]),
    ) == Some(ls[i]) by {
        assert(g(ls[i]) == launch_json(ls[i]));
        lemma_launch_round(ls[i]);
    }
    lemma_seq_extract_map(ls, g, launch_extractor());
    let js1 = Seq::new(ls.len(), |i: int| g(ls[i]));
    assert forall|i: int| 0 <= i < ls.len() implies js1[i] == launches_arr_json(ls)[i] by {
        assert(g(ls[i]) == launch_json(ls[i]));
    }
    assert(js1 =~= launches_arr_json(ls));
}

/// Reading a built snapshot gives the snapshot back.
pub proof fn lemma_launches_round(m: UpcomingLaunchesView)
    ensures
        launches_of_json(launches_json(m)) == Some(m),
{
    reveal_strlit("valid_auth");
    reveal_strlit("count");
    reveal_strlit("limit");
    reveal_strlit("total");
    reveal_strlit("last_page");
    reveal_strlit("result");
    assert("valid_auth"@.len() == 10 && "count"@.len() == 5 && "limit"@.len() == 5
        && "total"@.len() == 5 && "last_page"@.len() == 9 && "result"@.len() == 6);
    assert("count"@[0] == 'c' && "limit"@[0] == 'l' && "total"@[0] == 't');
    let fs = launches_json(m)->Obj_0;
    assert(fs[0].k == "valid_auth"@ && fs[1].k == "count"@ && fs[2].k == "limit"@ && fs[3].k
        == "total"@ && fs[4].k == "last_page"@ && fs[5].k == "result"@);
    lemma_lookup_at(fs, "valid_auth"@, 0);
    lemma_lookup_at(fs, "count"@, 1);
    lemma_lookup_at(fs, "limit"@, 2);
    lemma_lookup_at(fs, "total"@, 3);
    lemma_lookup_at(fs, "last_page"@, 4);
    lemma_lookup_at(fs, "result"@, 5);
    lemma_u64_round(m.count as u64);
    lemma_u64_round(m.limit as u64);
    lemma_u64_round(m.total);
    lemma_u64_round(m.last_page);
    lemma_launches_arr_round(m.result);
}


// ---------------------------------------------------------------------------
// The write-then-read guarantee of the snapshot.
// ---------------------------------------------------------------------------
pub proof fn lemma_u64_json_wf(n: u64)
    ensures
        crate::json::wf_val(u64_json(n)),
{
    lemma_int_text_is_number(n as int);
}

pub proof fn lemma_opt_i32_json_wf(o: Option<i32>)
    ensures
        crate::json::wf_val(opt_i32_json(o)),
{
    match o {
        Option::None => {},
        Option::Some(w) => {
            lemma_int_text_is_number(w as int);
        },
    }
}

pub proof fn lemma_tag_json_wf(t: UpcomingLaunchTagView)
    ensures
        crate::json::wf_val(tag_json(t)),
{
    let fs = tag_json(t)->Obj_0;
    lemma_u64_json_wf(t.id);
    assert(crate::json::wf_val(fs[0].v));
    assert(crate::json::wf_val(fs[1].v));
    assert forall|i: int| 0 <= i < fs.len() implies crate::json::wf_val(
        (#[trigger] fs[i]).v,
    ) by {}
}

pub proof fn lemma_mission_json_wf(m: UpcomingLaunchMissionView)
    ensures
        crate::json::wf_val(mission_json(m)),
{
    let fs = mission_json(m)->Obj_0;
    lemma_u64_json_wf(m.id);
    assert(crate::json::wf_val(fs[0].v));
    assert(crate::json::wf_val(fs[1].v));
    assert(crate::json::wf_val(fs[2].v));
    assert forall|i: int| 0 <= i < fs.len() implies crate::json::wf_val(
        (#[trigger] fs[i]).v,
    ) by {}
}

pub proof fn lemma_pad_location_json_wf(l: UpcomingLaunchPadLocationView)
    ensures
        crate::json::wf_val(pad_location_json(l)),
{
    let fs = pad_location_json(l)->Obj_0;
    lemma_u64_json_wf(l.id);
    assert(crate::json::wf_val(fs[0].v));
    assert(crate::json::wf_val(fs[1].v));
    assert(crate::json::wf_val(fs[2].v));
    assert(crate::json::wf_val(fs[3].v));
    assert(crate::json::wf_val(fs[4].v));
    assert(crate::json::wf_val(fs[5].v));
    assert forall|i: int| 0 <= i < fs.len() implies crate::json::wf_val(
        (#[trigger] fs[i]).v,
    ) by {}
}

pub proof fn lemma_pad_json_wf(p: UpcomingLaunchPadView)
    ensures
        crate::json::wf_val(pad_json(p)),
{
    let fs = pad_json(p)->Obj_0;
    lemma_u64_json_wf(p.id);
    lemma_pad_location_json_wf(p.location);
    assert(crate::json::wf_val(fs[0].v));
    assert(crate::json::wf_val(fs[1].v));
    assert(crate::json::wf_val(fs[2].v));
    assert forall|i: int| 0 <= i < fs.len() implies crate::json::wf_val(
        (#[trigger] fs[i]).v,
    ) by {}
}

pub proof fn lemma_opt_pad_json_wf(o: Option<UpcomingLaunchPadView>)
    ensures
        crate::json::wf_val(opt_pad_json(o)),
{
    match o {
        Option::None => {},
        Option::Some(p) => {
            lemma_pad_json_wf(p);
        },
    }
}

pub proof fn lemma_vehicle_json_wf(v: UpcomingLaunchVehicleView)
    ensures
        crate::json::wf_val(vehicle_json(v)),
{
    let fs = vehicle_json(v)->Obj_0;
    lemma_u64_json_wf(v.id);
    lemma_u64_json_wf(v.company_id);
    lemma_opt_pad_json_wf(v.pad);
    assert(crate::json::wf_val(fs[0].v));
    assert(crate::json::wf_val(fs[1].v));
    assert(crate::json::wf_val(fs[2].v));
    assert(crate::json::wf_val(fs[3].v));
    assert(crate::json::wf_val(fs[4].v));
    assert forall|i: int| 0 <= i < fs.len() implies crate::json::wf_val(
        (#[trigger] fs[i]).v,
    ) by {}
}

pub proof fn lemma_provider_json_wf(p: UpcomingLaunchProviderView)
    ensures
        crate::json::wf_val(provider_json(p)),
{
    let fs = provider_json(p)->Obj_0;
    lemma_u64_json_wf(p.id);
    assert(crate::json::wf_val(fs[0].v));
    assert(crate::json::wf_val(fs[1].v));
    assert(crate::json::wf_val(fs[2].v));
    assert forall|i: int| 0 <= i < fs.len() implies crate::json::wf_val(
        (#[trigger] fs[i]).v,
    ) by {}
}

#[verifier::rlimit(100)]
pub proof fn lemma_launch_json_wf(l: UpcomingLaunchesLaunchView)
    ensures
        crate::json::wf_val(launch_json(l)),
{
    let fs = launch_json(l)->Obj_0;
    lemma_u64_json_wf(l.id);
    lemma_provider_json_wf(l.provider);
    lemma_vehicle_json_wf(l.vehicle);
    lemma_opt_pad_json_wf(l.pad);
    let ms = missions_json(l.missions);
    assert forall|j: int| 0 <= j < ms.len() implies crate::json::wf_val(#[trigger] ms[j]) by {
        lemma_mission_json_wf(l.missions[j]);
    }
    let ts = tags_json(l.tags);
    assert forall|j: int| 0 <= j < ts.len() implies crate::json::wf_val(#[trigger] ts[j]) by {
        lemma_tag_json_wf(l.tags[j]);
    }
    lemma_int_text_is_number(l.weather_temp as int);
    lemma_opt_i32_json_wf(l.weather_wind_mph);
    assert(crate::json::wf_val(fs[0].v));
    assert(crate::json::wf_val(fs[1].v));
    assert(crate::json::wf_val(fs[2].v));
    assert(crate::json::wf_val(fs[3].v));
    assert(crate::json::wf_val(fs[4].v));
    assert(crate::json::wf_val(fs[5].v));
    assert(crate::json::wf_val(fs[6].v));
    assert(crate::json::wf_val(fs[7].v));
    assert(crate::json::wf_val(fs[8].v));
    assert(crate::json::wf_val(fs[9].v));
    assert(crate::json::wf_val(fs[10].v));
    assert(crate::json::wf_val(fs[11].v));
    assert(crate::json::wf_val(fs[12].v));
    assert(crate::json::wf_val(fs[13].v));
    assert(crate::json::wf_val(fs[14].v));
    assert(crate::json::wf_val(fs[15].v));
    assert(crate::json::wf_val(fs[16].v));
    assert(crate::json::wf_val(fs[17].v));
    assert(crate::json::wf_val(fs[18].v));
    assert(crate::json::wf_val(fs[19].v));
    assert(crate::json::wf_val(fs[20].v));
    assert(crate::json::wf_val(fs[21].v));
    assert(crate::json::wf_val(fs[22].v));
    assert(crate::json::wf_val(fs[23].v));
    assert(crate::json::wf_val(fs[24].v));
    assert forall|i: int| 0 <= i < fs.len() implies crate::json::wf_val(
        (#[trigger] fs[i]).v,
    ) by {}
}

pub proof fn lemma_launches_json_wf(m: UpcomingLaunchesView)
    ensures
        crate::json::wf_val(launches_json(m)),
{
    let fs = launches_json(m)->Obj_0;
    lemma_u64_json_wf(m.count as u64);
    lemma_u64_json_wf(m.limit as u64);
    lemma_u64_json_wf(m.total);
    lemma_u64_json_wf(m.last_page);
    let ls = launches_arr_json(m.result);
    assert forall|j: int| 0 <= j < ls.len() implies crate::json::wf_val(#[trigger] ls[j]) by {
        lemma_launch_json_wf(m.result[j]);
    }
    assert(crate::json::wf_val(fs[0].v));
    assert(crate::json::wf_val(fs[1].v));
    assert(crate::json::wf_val(fs[2].v));
    assert(crate::json::wf_val(fs[3].v));
    assert(crate::json::wf_val(fs[4].v));
    assert(crate::json::wf_val(fs[5].v));
    assert forall|i: int| 0 <= i < fs.len() implies crate::json::wf_val(
        (#[trigger] fs[i]).v,
    ) by {}
}

/// The stored text of a launches snapshot.
pub open spec fn launches_snapshot_text(m: UpcomingLaunchesView) -> Seq<char> {
    ser_val(launches_json(m))
}

/// Serialize the launches snapshot to the exact stored text.
pub fn encode_launches_snapshot(m: &UpcomingLaunches) -> (r: String)
    ensures
        r@ == launches_snapshot_text(m@),
{
    let v = launches_build(m);
    json_to_text(&v)
}

/// Every launches snapshot survives the store unchanged: decoding the exact
/// text the library writes gives the same snapshot back.
pub proof fn lemma_launches_snapshot_round_trip(m: UpcomingLaunchesView)
    ensures
        launches_snapshot_of_text(launches_snapshot_text(m)) == Some(m),
{
    lemma_launches_json_wf(m);
    crate::roundtrip::lemma_parse_text_ser(launches_json(m));
    lemma_launches_round(m);
}

} // verus!
