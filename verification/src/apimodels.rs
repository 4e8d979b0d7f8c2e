//! The raw, API-shaped documents: the shapes the upstream feeds send. Every
//! numeric value whose precision matters is kept as text (the feeds send
//! decimals that binary floating point cannot round-trip), and the date-keyed
//! mapping of the near-earth-object feed is an ordered sequence of dated
//! groups, in document order.
use vstd::prelude::*;

use crate::fields::{opt_view, views_of};
use crate::json::is_number_text;

verus! {

/// One person currently in orbit. The craft is free-form text: upstream
/// introduces new craft names over time.
#[derive(Debug)]
pub struct PersonModel {
    pub name: String,
    pub craft: String,
}

pub struct PersonModelView {
    pub name: Seq<char>,
    pub craft: Seq<char>,
}

impl View for PersonModel {
    type V = PersonModelView;

    open spec fn view(&self) -> PersonModelView {
        PersonModelView { name: self.name@, craft: self.craft@ }
    }
}

/// The canonical people-in-space snapshot.
#[derive(Debug)]
pub struct PeopleInSpaceModel {
    pub update_time: String,
    pub people: Vec<PersonModel>,
}

pub struct PeopleInSpaceModelView {
    pub update_time: Seq<char>,
    pub people: Seq<PersonModelView>,
}

impl View for PeopleInSpaceModel {
    type V = PeopleInSpaceModelView;

    open spec fn view(&self) -> PeopleInSpaceModelView {
        PeopleInSpaceModelView { update_time: self.update_time@, people: views_of(self.people@) }
    }
}

/// The astronaut roster as the upstream API sends it. The status message is
/// not always present, so it stays optional.
#[derive(Debug)]
pub struct PeopleApiResponse {
    pub message: Option<String>,
    pub people: Vec<PersonModel>,
}

pub struct PeopleApiResponseView {
    pub message: Option<Seq<char>>,
    pub people: Seq<PersonModelView>,
}

impl View for PeopleApiResponse {
    type V = PeopleApiResponseView;

    open spec fn view(&self) -> PeopleApiResponseView {
        PeopleApiResponseView { message: opt_view(self.message), people: views_of(self.people@) }
    }
}

/// Paging links of the near-earth-object feed.
#[derive(Debug)]
pub struct ApiResponseLink {
    pub next: Option<String>,
    pub prev: Option<String>,
    pub this: Option<String>,
}

pub struct ApiResponseLinkView {
    pub next: Option<Seq<char>>,
    pub prev: Option<Seq<char>>,
    pub this: Option<Seq<char>>,
}

impl View for ApiResponseLink {
    type V = ApiResponseLinkView;

    open spec fn view(&self) -> ApiResponseLinkView {
        ApiResponseLinkView {
            next: opt_view(self.next),
            prev: opt_view(self.prev),
            this: opt_view(self.this),
        }
    }
}

/// A single self link, as some feed variants send it.
#[derive(Debug)]
pub struct NearEarthLink {
    pub this: String,
}

pub struct NearEarthLinkView {
    pub this: Seq<char>,
}

impl View for NearEarthLink {
    type V = NearEarthLinkView;

    open spec fn view(&self) -> NearEarthLinkView {
        NearEarthLinkView { this: self.this@ }
    }
}

/// A diameter estimate in one unit system. The bounds are number text.
#[derive(Debug)]
pub struct EstimatedDiameterValues {
    pub estimated_diameter_min: String,
    pub estimated_diameter_max: String,
}

pub struct EstimatedDiameterValuesView {
    pub estimated_diameter_min: Seq<char>,
    pub estimated_diameter_max: Seq<char>,
}

impl View for EstimatedDiameterValues {
    type V = EstimatedDiameterValuesView;

    open spec fn view(&self) -> EstimatedDiameterValuesView {
        EstimatedDiameterValuesView {
            estimated_diameter_min: self.estimated_diameter_min@,
            estimated_diameter_max: self.estimated_diameter_max@,
        }
    }
}

impl EstimatedDiameterValuesView {
    pub open spec fn wf(self) -> bool {
        is_number_text(self.estimated_diameter_min) && is_number_text(self.estimated_diameter_max)
    }
}

/// Diameter estimates in the four unit systems the feed sends.
#[derive(Debug)]
pub struct EstimatedDiameter {
    pub kilometers: EstimatedDiameterValues,
    pub meters: EstimatedDiameterValues,
    pub miles: EstimatedDiameterValues,
    pub feet: EstimatedDiameterValues,
}

pub struct EstimatedDiameterView {
    pub kilometers: EstimatedDiameterValuesView,
    pub meters: EstimatedDiameterValuesView,
    pub miles: EstimatedDiameterValuesView,
    pub feet: EstimatedDiameterValuesView,
}

impl View for EstimatedDiameter {
    type V = EstimatedDiameterView;

    open spec fn view(&self) -> EstimatedDiameterView {
        EstimatedDiameterView {
            kilometers: self.kilometers@,
            meters: self.meters@,
            miles: self.miles@,
            feet: self.feet@,
        }
    }
}

impl EstimatedDiameterView {
    pub open spec fn wf(self) -> bool {
        self.kilometers.wf() && self.meters.wf() && self.miles.wf() && self.feet.wf()
    }
}

/// Relative velocity in three unit systems, each a decimal carried as a
/// string by the feed itself.
#[derive(Debug)]
pub struct RelativeVelocity {
    pub kilometers_per_second: String,
    pub kilometers_per_hour: String,
    pub miles_per_hour: String,
}

pub struct RelativeVelocityView {
    pub kilometers_per_second: Seq<char>,
    pub kilometers_per_hour: Seq<char>,
    pub miles_per_hour: Seq<char>,
}

impl View for RelativeVelocity {
    type V = RelativeVelocityView;

    open spec fn view(&self) -> RelativeVelocityView {
        RelativeVelocityView {
            kilometers_per_second: self.kilometers_per_second@,
            kilometers_per_hour: self.kilometers_per_hour@,
            miles_per_hour: self.miles_per_hour@,
        }
    }
}

/// Miss distance in four unit systems, each a decimal carried as a string by
/// the feed itself.
#[derive(Debug)]
pub struct MissDistance {
    pub astronomical: String,
    pub lunar: String,
    pub kilometers: String,
    pub miles: String,
}

pub struct MissDistanceView {
    pub astronomical: Seq<char>,
    pub lunar: Seq<char>,
    pub kilometers: Seq<char>,
    pub miles: Seq<char>,
}

impl View for MissDistance {
    type V = MissDistanceView;

    open spec fn view(&self) -> MissDistanceView {
        MissDistanceView {
            astronomical: self.astronomical@,
            lunar: self.lunar@,
            kilometers: self.kilometers@,
            miles: self.miles@,
        }
    }
}

/// One close approach of an object.
#[derive(Debug)]
pub struct CloseApproachData {
    pub close_approach_date: String,
    pub epoch_date_close_approach: i64,
    pub relative_velocity: RelativeVelocity,
    pub miss_distance: MissDistance,
    pub orbiting_body: String,
}

pub struct CloseApproachDataView {
    pub close_approach_date: Seq<char>,
    pub epoch_date_close_approach: i64,
    pub relative_velocity: RelativeVelocityView,
    pub miss_distance: MissDistanceView,
    pub orbiting_body: Seq<char>,
}

impl View for CloseApproachData {
    type V = CloseApproachDataView;

    open spec fn view(&self) -> CloseApproachDataView {
        CloseApproachDataView {
            close_approach_date: self.close_approach_date@,
            epoch_date_close_approach: self.epoch_date_close_approach,
            relative_velocity: self.relative_velocity@,
            miss_distance: self.miss_distance@,
            orbiting_body: self.orbiting_body@,
        }
    }
}

/// One near-earth object as the feed sends it. The absolute magnitude is
/// number text.
#[derive(Debug)]
pub struct NearEarthObject {
    pub id: String,
    pub neo_reference_id: String,
    pub name: String,
    pub nasa_jpl_url: String,
    pub absolute_magnitude_h: String,
    pub estimated_diameter: EstimatedDiameter,
    pub is_potentially_hazardous_asteroid: bool,
    pub close_approach_data: Vec<CloseApproachData>,
    pub is_sentry_object: bool,
    pub links: ApiResponseLink,
}

pub struct NearEarthObjectView {
    pub id: Seq<char>,
    pub neo_reference_id: Seq<char>,
    pub name: Seq<char>,
    pub nasa_jpl_url: Seq<char>,
    pub absolute_magnitude_h: Seq<char>,
    pub estimated_diameter: EstimatedDiameterView,
    pub is_potentially_hazardous_asteroid: bool,
    pub close_approach_data: Seq<CloseApproachDataView>,
    pub is_sentry_object: bool,
    pub links: ApiResponseLinkView,
}

impl View for NearEarthObject {
    type V = NearEarthObjectView;

    open spec fn view(&self) -> NearEarthObjectView {
        NearEarthObjectView {
            id: self.id@,
            neo_reference_id: self.neo_reference_id@,
            name: self.name@,
            nasa_jpl_url: self.nasa_jpl_url@,
            absolute_magnitude_h: self.absolute_magnitude_h@,
            estimated_diameter: self.estimated_diameter@,
            is_potentially_hazardous_asteroid: self.is_potentially_hazardous_asteroid,
            close_approach_data: views_of(self.close_approach_data@),
            is_sentry_object: self.is_sentry_object,
            links: self.links@,
        }
    }
}

impl NearEarthObjectView {
    pub open spec fn wf(self) -> bool {
        is_number_text(self.absolute_magnitude_h) && self.estimated_diameter.wf()
    }
}

/// One date key of the feed's mapping with its objects, in document order.
#[derive(Debug)]
pub struct NeoDateEntry {
    pub date: String,
    pub objects: Vec<NearEarthObject>,
}

pub struct NeoDateEntryView {
    pub date: Seq<char>,
    pub objects: Seq<NearEarthObjectView>,
}

impl View for NeoDateEntry {
    type V = NeoDateEntryView;

    open spec fn view(&self) -> NeoDateEntryView {
        NeoDateEntryView { date: self.date@, objects: views_of(self.objects@) }
    }
}

impl NeoDateEntryView {
    pub open spec fn wf(self) -> bool {
        forall|i: int| 0 <= i < self.objects.len() ==> (#[trigger] self.objects[i]).wf()
    }
}

/// The whole raw near-earth-object feed document. The date-keyed mapping is
/// kept as an ordered sequence of entries, one per date key, preserving the
/// document's own order.
#[derive(Debug)]
pub struct ApiResponse {
    pub links: ApiResponseLink,
    pub element_count: i32,
    pub near_earth_objects: Vec<NeoDateEntry>,
}

pub struct ApiResponseView {
    pub links: ApiResponseLinkView,
    pub element_count: i32,
    pub near_earth_objects: Seq<NeoDateEntryView>,
}

impl View for ApiResponse {
    type V = ApiResponseView;

    open spec fn view(&self) -> ApiResponseView {
        ApiResponseView {
            links: self.links@,
            element_count: self.element_count,
            near_earth_objects: views_of(self.near_earth_objects@),
        }
    }
}

impl ApiResponseView {
    pub open spec fn wf(self) -> bool {
        forall|i: int|
            0 <= i < self.near_earth_objects.len() ==> (#[trigger] self.near_earth_objects[i]).wf()
    }
}

} // verus!
