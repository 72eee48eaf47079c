//! The addresses of the feeds' queries.

use vstd::prelude::*;
use vstd::string::StringExecFns;

verus! {

/// The query for the rover's photos of one day.
pub open spec fn rover_query(day: Seq<char>, key: Seq<char>) -> Seq<char> {
    "https://api.nasa.gov/mars-photos/api/v1/rovers/perseverance/photos?earth_date="@ + day
        + "&api_key="@ + key
}

/// The query for the pictures of the day from `first` to `last`.
pub open spec fn daily_query(first: Seq<char>, last: Seq<char>, key: Seq<char>) -> Seq<char> {
    "https://api.nasa.gov/planetary/apod?start_date="@ + first + "&end_date="@ + last
        + "&api_key="@ + key
}

/// The query for the image catalogue.
pub open spec fn catalogue_query() -> Seq<char> {
    "https://images-api.nasa.gov/search?q=''&year_start=2024&year_end=2024&media_type=image"@
}

/// The query for the space-weather notices from `first` to `last`.
pub open spec fn notices_query(first: Seq<char>, last: Seq<char>, key: Seq<char>) -> Seq<char> {
    "https://api.nasa.gov/DONKI/notifications?startDate="@ + first + "&endDate="@ + last
        + "&type=all&api_key="@ + key
}

/// The address of the query for the rover's photos of `day`.
pub fn rover_url(day: &str, key: &str) -> (url: String)
    ensures
        url@ == rover_query(day@, key@),
{
    String::from_str(
        "https://api.nasa.gov/mars-photos/api/v1/rovers/perseverance/photos?earth_date=",
    ).concat(day).concat("&api_key=").concat(key)
}

/// The address of the query for the pictures of the day from `first` to
/// `last`.
pub fn daily_url(first: &str, last: &str, key: &str) -> (url: String)
    ensures
        url@ == daily_query(first@, last@, key@),
{
    String::from_str("https://api.nasa.gov/planetary/apod?start_date=").concat(first).concat(
        "&end_date=",
    ).concat(last).concat("&api_key=").concat(key)
}

/// The address of the query for the image catalogue.
pub fn catalogue_url() -> (url: String)
    ensures
        url@ == catalogue_query(),
{
    String::from_str(
        "https://images-api.nasa.gov/search?q=''&year_start=2024&year_end=2024&media_type=image",
    )
}

/// The address of the query for the space-weather notices from `first` to
/// `last`.
pub fn notices_url(first: &str, last: &str, key: &str) -> (url: String)
    ensures
        url@ == notices_query(first@, last@, key@),
{
    String::from_str("https://api.nasa.gov/DONKI/notifications?startDate=").concat(first).concat(
        "&endDate=",
    ).concat(last).concat("&type=all&api_key=").concat(key)
}

} // verus!
