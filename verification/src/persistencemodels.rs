//! The canonical persisted shapes: what the blob store holds and what the
//! read-path responses carry. The unit-structured leaves are the same shapes
//! the raw documents use, so they are shared with the raw models.
use vstd::prelude::*;

pub use crate::apimodels::CloseApproachData;
pub use crate::apimodels::CloseApproachDataView;
pub use crate::apimodels::EstimatedDiameter;
pub use crate::apimodels::EstimatedDiameterValues;
pub use crate::apimodels::EstimatedDiameterValuesView;
pub use crate::apimodels::EstimatedDiameterView;
pub use crate::apimodels::MissDistance;
pub use crate::apimodels::MissDistanceView;
pub use crate::apimodels::RelativeVelocity;
pub use crate::apimodels::RelativeVelocityView;

use crate::fields::{opt_view, views_of};
use crate::json::is_number_text;

verus! {

/// Paging links of the persisted model.
#[derive(Debug)]
pub struct ApiLinks {
    pub next: Option<String>,
    pub prev: Option<String>,
    pub this: Option<String>,
}

pub struct ApiLinksView {
    pub next: Option<Seq<char>>,
    pub prev: Option<Seq<char>>,
    pub this: Option<Seq<char>>,
}

impl View for ApiLinks {
    type V = ApiLinksView;

    open spec fn view(&self) -> ApiLinksView {
        ApiLinksView {
            next: opt_view(self.next),
            prev: opt_view(self.prev),
            this: opt_view(self.this),
        }
    }
}

/// One stored near-earth object: the raw object's fields under the persisted
/// link shape.
#[derive(Debug)]
pub struct NearEarthObject {
    pub id: String,
    pub neo_reference_id: String,
    pub name: String,
    pub nasa_jpl_url: String,
    pub absolute_magnitude_h: String,
    pub estimated_diameter: EstimatedDiameter,
    pub is_potentially_hazardous_asteroid: bool,
    pub close_approach_data: Vec<CloseApproachData>,
    pub is_sentry_object: bool,
    pub links: ApiLinks,
}

pub struct StoredNearEarthObjectView {
    pub id: Seq<char>,
    pub neo_reference_id: Seq<char>,
    pub name: Seq<char>,
    pub nasa_jpl_url: Seq<char>,
    pub absolute_magnitude_h: Seq<char>,
    pub estimated_diameter: EstimatedDiameterView,
    pub is_potentially_hazardous_asteroid: bool,
    pub close_approach_data: Seq<CloseApproachDataView>,
    pub is_sentry_object: bool,
    pub links: ApiLinksView,
}

impl View for NearEarthObject {
    type V = StoredNearEarthObjectView;

    open spec fn view(&self) -> StoredNearEarthObjectView {
        StoredNearEarthObjectView {
            id: self.id@,
            neo_reference_id: self.neo_reference_id@,
            name: self.name@,
            nasa_jpl_url: self.nasa_jpl_url@,
            absolute_magnitude_h: self.absolute_magnitude_h@,
            estimated_diameter: self.estimated_diameter@,
            is_potentially_hazardous_asteroid: self.is_potentially_hazardous_asteroid,
            close_approach_data: views_of(self.close_approach_data@),
            is_sentry_object: self.is_sentry_object,
            links: self.links@,
        }
    }
}

impl StoredNearEarthObjectView {
    pub open spec fn wf(self) -> bool {
        is_number_text(self.absolute_magnitude_h) && self.estimated_diameter.wf()
    }
}

/// The canonical near-earth-object snapshot: the date-keyed mapping
/// flattened into one ordered sequence, stamped with the capture time.
#[derive(Debug)]
pub struct NearEarthObjectModel {
    pub links: ApiLinks,
    pub element_count: i32,
    pub updated_date_time: String,
    pub near_earth_objects: Vec<NearEarthObject>,
}

pub struct NearEarthObjectModelView {
    pub links: ApiLinksView,
    pub element_count: i32,
    pub updated_date_time: Seq<char>,
    pub near_earth_objects: Seq<StoredNearEarthObjectView>,
}

impl View for NearEarthObjectModel {
    type V = NearEarthObjectModelView;

    open spec fn view(&self) -> NearEarthObjectModelView {
        NearEarthObjectModelView {
            links: self.links@,
            element_count: self.element_count,
            updated_date_time: self.updated_date_time@,
            near_earth_objects: views_of(self.near_earth_objects@),
        }
    }
}

impl NearEarthObjectModelView {
    pub open spec fn wf(self) -> bool {
        forall|i: int|
            0 <= i < self.near_earth_objects.len() ==> (#[trigger] self.near_earth_objects[i]).wf()
    }
}

/// The read-path response wrapper around a stored snapshot.
#[derive(Debug)]
pub struct NearEarthObjectApiResponse {
    pub data: NearEarthObjectModel,
    pub updated_date_time: String,
}

pub struct NearEarthObjectApiResponseView {
    pub data: NearEarthObjectModelView,
    pub updated_date_time: Seq<char>,
}

impl View for NearEarthObjectApiResponse {
    type V = NearEarthObjectApiResponseView;

    open spec fn view(&self) -> NearEarthObjectApiResponseView {
        NearEarthObjectApiResponseView {
            data: self.data@,
            updated_date_time: self.updated_date_time@,
        }
    }
}

// ---------------------------------------------------------------------------
// Upcoming launches.
// ---------------------------------------------------------------------------
#[derive(Debug)]
pub struct UpcomingLaunchTag {
    pub id: u64,
    pub text: String,
}

pub struct UpcomingLaunchTagView {
    pub id: u64,
    pub text: Seq<char>,
}

impl View for UpcomingLaunchTag {
    type V = UpcomingLaunchTagView;

    open spec fn view(&self) -> UpcomingLaunchTagView {
        UpcomingLaunchTagView { id: self.id, text: self.text@ }
    }
}

#[derive(Debug)]
pub struct UpcomingLaunchMission {
    pub id: u64,
    pub name: String,
    pub description: Option<String>,
}

pub struct UpcomingLaunchMissionView {
    pub id: u64,
    pub name: Seq<char>,
    pub description: Option<Seq<char>>,
}

impl View for UpcomingLaunchMission {
    type V = UpcomingLaunchMissionView;

    open spec fn view(&self) -> UpcomingLaunchMissionView {
        UpcomingLaunchMissionView {
            id: self.id,
            name: self.name@,
            description: opt_view(self.description),
        }
    }
}

#[derive(Debug)]
pub struct UpcomingLaunchPadLocation {
    pub id: u64,
    pub name: String,
    pub state: String,
    pub state_name: String,
    pub country: String,
    pub slug: String,
}

pub struct UpcomingLaunchPadLocationView {
    pub id: u64,
    pub name: Seq<char>,
    pub state: Seq<char>,
    pub state_name: Seq<char>,
    pub country: Seq<char>,
    pub slug: Seq<char>,
}

impl View for UpcomingLaunchPadLocation {
    type V = UpcomingLaunchPadLocationView;

    open spec fn view(&self) -> UpcomingLaunchPadLocationView {
        UpcomingLaunchPadLocationView {
            id: self.id,
            name: self.name@,
            state: self.state@,
            state_name: self.state_name@,
            country: self.country@,
            slug: self.slug@,
        }
    }
}

#[derive(Debug)]
pub struct UpcomingLaunchPad {
    pub id: u64,
    pub name: String,
    pub location: UpcomingLaunchPadLocation,
}

pub struct UpcomingLaunchPadView {
    pub id: u64,
    pub name: Seq<char>,
    pub location: UpcomingLaunchPadLocationView,
}

impl View for UpcomingLaunchPad {
    type V = UpcomingLaunchPadView;

    open spec fn view(&self) -> UpcomingLaunchPadView {
        UpcomingLaunchPadView { id: self.id, name: self.name@, location: self.location@ }
    }
}

/// The view of an optional pad.
pub open spec fn opt_pad_view(o: Option<UpcomingLaunchPad>) -> Option<UpcomingLaunchPadView> {
    match o {
        Option::None => Option::None,
        Option::Some(p) => Option::Some(p@),
    }
}

#[derive(Debug)]
pub struct UpcomingLaunchVehicle {
    pub id: u64,
    pub name: String,
    pub company_id: u64,
    pub slug: String,
    pub pad: Option<UpcomingLaunchPad>,
}

pub struct UpcomingLaunchVehicleView {
    pub id: u64,
    pub name: Seq<char>,
    pub company_id: u64,
    pub slug: Seq<char>,
    pub pad: Option<UpcomingLaunchPadView>,
}

impl View for UpcomingLaunchVehicle {
    type V = UpcomingLaunchVehicleView;

    open spec fn view(&self) -> UpcomingLaunchVehicleView {
        UpcomingLaunchVehicleView {
            id: self.id,
            name: self.name@,
            company_id: self.company_id,
            slug: self.slug@,
            pad: opt_pad_view(self.pad),
        }
    }
}

#[derive(Debug)]
pub struct UpcomingLaunchProvider {
    pub id: u64,
    pub name: String,
    pub slug: String,
}

pub struct UpcomingLaunchProviderView {
    pub id: u64,
    pub name: Seq<char>,
    pub slug: Seq<char>,
}

impl View for UpcomingLaunchProvider {
    type V = UpcomingLaunchProviderView;

    open spec fn view(&self) -> UpcomingLaunchProviderView {
        UpcomingLaunchProviderView { id: self.id, name: self.name@, slug: self.slug@ }
    }
}

#[derive(Debug)]
pub struct UpcomingLaunchesLaunch {
    pub id: u64,
    pub cospar_id: Option<String>,
    pub sort_date: String,
    pub name: String,
    pub provider: UpcomingLaunchProvider,
    pub vehicle: UpcomingLaunchVehicle,
    pub pad: Option<UpcomingLaunchPad>,
    pub missions: Vec<UpcomingLaunchMission>,
    pub mission_description: String,
    pub launch_description: String,
    pub win_open: Option<String>,
    pub t0: Option<String>,
    pub win_close: Option<String>,
    pub date_str: String,
    pub tags: Vec<UpcomingLaunchTag>,
    pub slug: String,
    pub weather_summary: Option<String>,
    pub weather_temp: i32,
    pub weather_condition: Option<String>,
    pub weather_wind_mph: Option<i32>,
    pub weather_icon: Option<String>,
    pub weather_updated: Option<String>,
    pub quick_text: Option<String>,
    pub suborbital: bool,
    pub modified: String,
}

pub struct UpcomingLaunchesLaunchView {
    pub id: u64,
    pub cospar_id: Option<Seq<char>>,
    pub sort_date: Seq<char>,
    pub name: Seq<char>,
    pub provider: UpcomingLaunchProviderView,
    pub vehicle: UpcomingLaunchVehicleView,
    pub pad: Option<UpcomingLaunchPadView>,
    pub missions: Seq<UpcomingLaunchMissionView>,
    pub mission_description: Seq<char>,
    pub launch_description: Seq<char>,
    pub win_open: Option<Seq<char>>,
    pub t0: Option<Seq<char>>,
    pub win_close: Option<Seq<char>>,
    pub date_str: Seq<char>,
    pub tags: Seq<UpcomingLaunchTagView>,
    pub slug: Seq<char>,
    pub weather_summary: Option<Seq<char>>,
    pub weather_temp: i32,
    pub weather_condition: Option<Seq<char>>,
    pub weather_wind_mph: Option<i32>,
    pub weather_icon: Option<Seq<char>>,
    pub weather_updated: Option<Seq<char>>,
    pub quick_text: Option<Seq<char>>,
    pub suborbital: bool,
    pub modified: Seq<char>,
}

impl View for UpcomingLaunchesLaunch {
    type V = UpcomingLaunchesLaunchView;

    open spec fn view(&self) -> UpcomingLaunchesLaunchView {
        UpcomingLaunchesLaunchView {
            id: self.id,
            cospar_id: opt_view(self.cospar_id),
            sort_date: self.sort_date@,
            name: self.name@,
            provider: self.provider@,
            vehicle: self.vehicle@,
            pad: opt_pad_view(self.pad),
            missions: views_of(self.missions@),
            mission_description: self.mission_description@,
            launch_description: self.launch_description@,
            win_open: opt_view(self.win_open),
            t0: opt_view(self.t0),
            win_close: opt_view(self.win_close),
            date_str: self.date_str@,
            tags: views_of(self.tags@),
            slug: self.slug@,
            weather_summary: opt_view(self.weather_summary),
            weather_temp: self.weather_temp,
            weather_condition: opt_view(self.weather_condition),
            weather_wind_mph: self.weather_wind_mph,
            weather_icon: opt_view(self.weather_icon),
            weather_updated: opt_view(self.weather_updated),
            quick_text: opt_view(self.quick_text),
            suborbital: self.suborbital,
            modified: self.modified@,
        }
    }
}

/// The stored upcoming-launches snapshot.
#[derive(Debug)]
pub struct UpcomingLaunches {
    pub valid_auth: bool,
    pub count: u32,
    pub limit: u32,
    pub total: u64,
    pub last_page: u64,
    pub result: Vec<UpcomingLaunchesLaunch>,
}

pub struct UpcomingLaunchesView {
    pub valid_auth: bool,
    pub count: u32,
    pub limit: u32,
    pub total: u64,
    pub last_page: u64,
    pub result: Seq<UpcomingLaunchesLaunchView>,
}

impl View for UpcomingLaunches {
    type V = UpcomingLaunchesView;

    open spec fn view(&self) -> UpcomingLaunchesView {
        UpcomingLaunchesView {
            valid_auth: self.valid_auth,
            count: self.count,
            limit: self.limit,
            total: self.total,
            last_page: self.last_page,
            result: views_of(self.result@),
        }
    }
}

} // verus!
