//! What the searches for places and hotels take and give.

use vstd::prelude::*;

verus! {

/// What a guest asks for.
#[derive(Debug)]
pub struct HotelSearchArgs {
    pub query: String,
    pub check_in: Option<String>,
    pub check_out: Option<String>,
    pub adults: Option<u32>,
    pub children_ages: Option<Vec<u32>>,
    pub rooms: Option<u32>,
}

/// A place that the travel service knows.
#[derive(Debug)]
pub struct LocationOption {
    pub title: String,
    pub geo_id: u64,
    pub document_id: String,
    pub tracking_items: String,
    pub secondary_text: String,
}

/// The place to look for.
#[derive(Debug)]
pub struct LocationSearchArgs {
    pub query: String,
}

/// The identifier of a place, with the name that was asked for.
#[derive(Debug)]
pub struct LocationSearchResult {
    pub geo_id: u64,
    pub location_name: String,
}

/// The body with which the travel service reports an error.
#[derive(Debug)]
pub struct ApiError {
    pub status: bool,
    pub timestamp: u64,
    pub message: String,
}

/// Why a search of the travel service failed.
#[derive(Debug)]
pub enum HotelSearchError {
    HttpRequestFailed(String),
    InvalidResponse(String),
    ApiError(String),
    MissingApiKey,
}

/// The words of an error.
pub open spec fn error_text(e: HotelSearchError) -> Seq<char> {
    match e {
        HotelSearchError::HttpRequestFailed(detail) => "HTTP request failed: "@ + detail@,
        HotelSearchError::InvalidResponse(detail) => "Invalid response structure: "@ + detail@,
        HotelSearchError::ApiError(detail) => "API error: "@ + detail@,
        HotelSearchError::MissingApiKey => "Missing API key"@,
    }
}

impl HotelSearchError {
    /// The words of the error.
    pub fn message(&self) -> (text: String)
        ensures
            text@ == error_text(*self),
    {
        match self {
            HotelSearchError::HttpRequestFailed(detail) => {
                let mut text = "HTTP request failed: ".to_owned();
                text.append(detail.as_str());
                text
            },
            HotelSearchError::InvalidResponse(detail) => {
                let mut text = "Invalid response structure: ".to_owned();
                text.append(detail.as_str());
                text
            },
            HotelSearchError::ApiError(detail) => {
                let mut text = "API error: ".to_owned();
                text.append(detail.as_str());
                text
            },
            HotelSearchError::MissingApiKey => "Missing API key".to_owned(),
        }
    }
}

/// How many guests rated a hotel, and how well; both as the service words
/// them.
#[derive(Debug)]
pub struct BubbleRating {
    pub count: String,
    pub rating: String,
}

/// One hotel of an answer.
#[derive(Debug)]
pub struct HotelOption {
    pub id: String,
    pub title: String,
    pub primary_info: Option<String>,
    pub secondary_info: Option<String>,
    pub bubble_rating: Option<BubbleRating>,
    pub price_for_display: Option<String>,
    pub provider: Option<String>,
}

/// The hotels of an answer.
#[derive(Debug)]
pub struct HotelSearchData {
    pub data: Vec<HotelOption>,
}

/// The tool that searches for hotels.
#[derive(Debug)]
pub struct HotelSearchTool;

impl HotelSearchTool {
    /// The name under which the tool is offered to the model.
    pub fn name() -> (text: String)
        ensures
            text@ == "search_hotel"@,
    {
        "search_hotel".to_owned()
    }

    /// What the tool does, in the words in which it is offered to the model.
    pub fn description() -> (text: String)
        ensures
            text@ == "Search for hotel based on the give parameters and location"@,
    {
        "Search for hotel based on the give parameters and location".to_owned()
    }
}

/// The tool that finds the identifier of a place.
#[derive(Debug)]
pub struct LocationSearchTool;

impl LocationSearchTool {
    /// The name under which the tool is offered to the model.
    pub fn name() -> (text: String)
        ensures
            text@ == "search_location"@,
    {
        "search_location".to_owned()
    }

    /// What the tool does, in the words in which it is offered to the model.
    pub fn description() -> (text: String)
        ensures
            text@ == "Finds the geographic ID for a given city or place name. Required before searching for hotels."@,
    {
        "Finds the geographic ID for a given city or place name. Required before searching for hotels.".to_owned()
    }
}

} // verus!
