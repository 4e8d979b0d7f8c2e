//! The source adapters' decisions: the feed URL, and what to make of an
//! upstream response. The network call itself happens outside the library
//! and hands back the status code and the body text.
use vstd::prelude::*;
use vstd::string::StringExecFns;

use crate::apimodels::{ApiResponse, PeopleApiResponse};
use crate::neo::{feed_of_text, parse_feed_document};
use crate::people::{parse_people_document, people_api_of_text};
use crate::timestamp::{date_text, render_date, UtcTimestamp};

verus! {

/// Why a fetch cycle failed.
#[derive(Clone, Copy, Debug, PartialEq, Eq, Structural)]
pub enum FetchError {
    /// The outbound call itself failed; raised by the caller that made it.
    Network,
    /// The upstream answered with the carried non-success status code.
    UpstreamStatus(u16),
    /// The body did not hold the expected document shape.
    Deserialization,
}

/// The feed URL for one day's range and an API key.
pub open spec fn feed_url_text(start: Seq<char>, end: Seq<char>, key: Seq<char>) -> Seq<char> {
    "https://api.nasa.gov/neo/rest/v1/feed?start_date="@ + start + "&end_date="@ + end
        + "&api_key="@ + key
}

/// Build the feed URL from the two dates and the resolved API key.
pub fn build_feed_url(start_date: &str, end_date: &str, api_key: &str) -> (r: String)
    ensures
        r@ == feed_url_text(start_date@, end_date@, api_key@),
{
    let mut url = String::from_str("https://api.nasa.gov/neo/rest/v1/feed?start_date=");
    url.append(start_date);
    url.append("&end_date=");
    url.append(end_date);
    url.append("&api_key=");
    url.append(api_key);
    url
}

/// Build the feed URL for a single capture day: both range ends are that
/// day's date.
pub fn build_feed_url_for_day(day: &UtcTimestamp, api_key: &str) -> (r: String)
    ensures
        r@ == feed_url_text(date_text(*day), date_text(*day), api_key@),
{
    let d = render_date(day);
    build_feed_url(d.as_str(), d.as_str(), api_key)
}

/// Judge an upstream feed response: any non-success status fails with that
/// status carried, and a success body must parse as the raw feed document.
pub fn accept_feed_response(status: u16, body: &str) -> (r: Result<ApiResponse, FetchError>)
    ensures
        status != 200 ==> r == Result::<ApiResponse, FetchError>::Err(
            FetchError::UpstreamStatus(status),
        ),
        status == 200 ==> match r {
            Ok(m) => feed_of_text(body@) == Some(m@),
            Err(e) => feed_of_text(body@) is None && e == FetchError::Deserialization,
        },
{
    if status != 200 {
        Err(FetchError::UpstreamStatus(status))
    } else {
        match parse_feed_document(body) {
            Some(m) => Ok(m),
            None => Err(FetchError::Deserialization),
        }
    }
}

/// Judge an upstream roster response in the same way.
pub fn accept_people_response(status: u16, body: &str) -> (r: Result<
    PeopleApiResponse,
    FetchError,
>)
    ensures
        status != 200 ==> r == Result::<PeopleApiResponse, FetchError>::Err(
            FetchError::UpstreamStatus(status),
        ),
        status == 200 ==> match r {
            Ok(m) => people_api_of_text(body@) == Some(m@),
            Err(e) => people_api_of_text(body@) is None && e == FetchError::Deserialization,
        },
{
    if status != 200 {
        Err(FetchError::UpstreamStatus(status))
    } else {
        match parse_people_document(body) {
            Some(m) => Ok(m),
            None => Err(FetchError::Deserialization),
        }
    }
}

impl FetchError {
    /// A short description for operational logs.
    pub fn describe(&self) -> (r: String)
        ensures
            *self is Network ==> r@ == "the outbound call failed"@,
            *self is Deserialization ==> r@ == "the body did not match the expected shape"@,
            self matches FetchError::UpstreamStatus(code) ==> r@ == "upstream returned status "@
                + crate::nums::digits_of(code as nat),
    {
        match self {
            FetchError::Network => String::from_str("the outbound call failed"),
            FetchError::Deserialization => String::from_str(
                "the body did not match the expected shape",
            ),
            FetchError::UpstreamStatus(code) => {
                let mut s = String::from_str("upstream returned status ");
                let d = crate::nums::u64_to_dec(*code as u64);
                s.append(d.as_str());
                s
            },
        }
    }
}

} // verus!
