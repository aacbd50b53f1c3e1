//! The flight assistant: what it asks of the travel service.

use vstd::prelude::*;
use crate::hotel::dates::{date_text, days_after, days_in_calendar, iso_text, CalendarDate};

verus! {

/// What a traveller asks for.
#[derive(Debug)]
pub struct FlightSearchArgs {
    pub source: String,
    pub destination: String,
    pub date: Option<String>,
    pub sort: Option<String>,
    pub service: Option<String>,
    pub itinerary_type: Option<String>,
    pub adults: Option<u8>,
    pub seniors: Option<u8>,
    pub currency: Option<String>,
    pub nearby: Option<String>,
    pub nonstop: Option<String>,
}

/// Why a search for flights failed.
#[derive(Debug)]
pub enum FlightSearchError {
    HttpRequestFailed(String),
    InvalidResponse,
    ApiError(String),
    MissingApiKey,
}

/// The words of an error.
pub open spec fn error_text(e: FlightSearchError) -> Seq<char> {
    match e {
        FlightSearchError::HttpRequestFailed(detail) => "HTTP request failed: "@ + detail@,
        FlightSearchError::InvalidResponse => "Invalid response structure"@,
        FlightSearchError::ApiError(detail) => "API error: "@ + detail@,
        FlightSearchError::MissingApiKey => "Missing API key"@,
    }
}

impl FlightSearchError {
    /// The words of the error.
    pub fn message(&self) -> (text: String)
        ensures
            text@ == error_text(*self),
    {
        match self {
            FlightSearchError::HttpRequestFailed(detail) => {
                let mut text = "HTTP request failed: ".to_owned();
                text.append(detail.as_str());
                text
            },
            FlightSearchError::InvalidResponse => "Invalid response structure".to_owned(),
            FlightSearchError::ApiError(detail) => {
                let mut text = "API error: ".to_owned();
                text.append(detail.as_str());
                text
            },
            FlightSearchError::MissingApiKey => "Missing API key".to_owned(),
        }
    }
}

/// After how many days a flight leaves when the traveller names no date.
pub const DEFAULT_DAYS_AHEAD: u32 = 30;

/// The date of the flight as it is sent: the date that the traveller named,
/// as it was written, or the day thirty days after `today`.
pub open spec fn flight_date(date: Option<String>, today: CalendarDate) -> Seq<char> {
    match date {
        Some(text) => text@,
        None => {
            let day = days_after(today, DEFAULT_DAYS_AHEAD as nat);
            iso_text(day.year as int, day.month as int, day.day as int)
        },
    }
}

/// The parameters of the request for flights, in the order in which they
/// are set: the two airports, the date, a one-way itinerary and the economy
/// class.
pub open spec fn flight_parameters(
    source: Seq<char>,
    destination: Seq<char>,
    date: Option<String>,
    today: CalendarDate,
) -> Seq<(Seq<char>, Seq<char>)> {
    seq![
        ("sourceAirportCode"@, source),
        ("destinationAirportCode"@, destination),
        ("date"@, flight_date(date, today)),
        ("itineraryType"@, "ONE_WAY"@),
        ("classOfService"@, "ECONOMY"@),
    ]
}

impl FlightSearchArgs {
    /// The parameters of the request for flights, asked on the day `today`;
    /// `None` when no date is named and the calendar has no day thirty days
    /// after `today`.
    pub fn parameters(&self, today: &CalendarDate) -> (res: Option<Vec<(String, String)>>)
        ensures
            res is Some <==> self.date is Some || days_in_calendar(*today, DEFAULT_DAYS_AHEAD as nat),
            res is Some ==> res->0.deep_view() == flight_parameters(
                self.source@,
                self.destination@,
                self.date,
                *today,
            ),
    {
        let date = match &self.date {
            Some(text) => text.clone(),
            None => match today.plus_days(DEFAULT_DAYS_AHEAD) {
                Some(day) => match date_text(&day) {
                    Some(text) => text,
                    None => {
                        return None;
                    },
                },
                None => {
                    return None;
                },
            },
        };
        let mut res: Vec<(String, String)> = Vec::new();
        res.push(("sourceAirportCode".to_owned(), self.source.clone()));
        res.push(("destinationAirportCode".to_owned(), self.destination.clone()));
        res.push(("date".to_owned(), date));
        res.push(("itineraryType".to_owned(), "ONE_WAY".to_owned()));
        res.push(("classOfService".to_owned(), "ECONOMY".to_owned()));
        assert(res.deep_view() =~= flight_parameters(
            self.source@,
            self.destination@,
            self.date,
            *today,
        ));
        Some(res)
    }
}

/// The tool that searches for flights.
#[derive(Debug)]
pub struct FlightSearchTool;

impl FlightSearchTool {
    /// The name under which the tool is offered to the model.
    pub fn name() -> (text: String)
        ensures
            text@ == "search_flights"@,
    {
        "search_flights".to_owned()
    }

    /// What the tool does, in the words in which it is offered to the model.
    pub fn description() -> (text: String)
        ensures
            text@ == "Search for flights between two airports"@,
    {
        "Search for flights between two airports".to_owned()
    }

    /// The words with which the tool answers a search that went through.
    pub fn answer() -> (text: String)
        ensures
            text@ == "Flight search results"@,
    {
        "Flight search results".to_owned()
    }
}

} // verus!
