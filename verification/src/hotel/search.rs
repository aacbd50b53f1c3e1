//! The search for hotels: the dates of the stay, the parameters of the
//! request, and the words of the answer.

use vstd::prelude::*;
use crate::hotel::dates::{
    chosen_date,
    date_text,
    day_after,
    iso_text,
    parse_and_infer_year,
    parsed_date,
    unreadable_date,
    CalendarDate,
};
use crate::hotel::model::{
    ApiError,
    HotelOption,
    HotelSearchArgs,
    HotelSearchData,
    HotelSearchError,
    LocationOption,
    LocationSearchResult,
};
use crate::text::{decimal, decimal_text};

verus! {

/// The date that a text stands for on the day `today`.
pub open spec fn date_read(text: Seq<char>, today: CalendarDate) -> Option<CalendarDate> {
    chosen_date(
        parsed_date(text, "%Y-%m-%d"@),
        parsed_date(text, "%m-%d"@),
        parsed_date(text, "%B %e"@),
        parsed_date(text, "%e %B"@),
        today,
    )
}

/// The two dates of a stay: the day of arrival, which is the day after
/// `today` when none is named, and the day of departure, which is the day
/// after the arrival when none is named. `None` when a day after is needed
/// that the calendar does not have.
pub open spec fn stay_of(
    check_in: Option<CalendarDate>,
    check_out: Option<CalendarDate>,
    today: CalendarDate,
) -> Option<(CalendarDate, CalendarDate)> {
    let arrival = match check_in {
        Some(date) => Some(date),
        None => if today.in_calendar() && day_after(today).in_calendar() {
            Some(day_after(today))
        } else {
            None
        },
    };
    match arrival {
        None => None,
        Some(arrival) => match check_out {
            Some(date) => Some((arrival, date)),
            None => if arrival.in_calendar() && day_after(arrival).in_calendar() {
                Some((arrival, day_after(arrival)))
            } else {
                None
            },
        },
    }
}

/// The dates of a stay from the dates that the guest named.
pub fn stay_dates(check_in: Option<CalendarDate>, check_out: Option<CalendarDate>, today: &CalendarDate) -> (res:
    Option<(CalendarDate, CalendarDate)>)
    ensures
        res == stay_of(check_in, check_out, *today),
{
    let arrival = match check_in {
        Some(date) => date,
        None => match today.next_day() {
            Some(date) => date,
            None => {
                return None;
            },
        },
    };
    match check_out {
        Some(date) => Some((arrival, date)),
        None => match arrival.next_day() {
            Some(date) => Some((arrival, date)),
            None => None,
        },
    }
}

/// The words with which a stay is refused for which the calendar has no
/// dates.
pub open spec fn no_stay_text() -> Seq<char> {
    "Could not parse date: no day after the given date"@
}

impl HotelSearchArgs {
    /// The dates of the stay that the guest asks for, read on the day
    /// `today`. A date that cannot be read is refused with
    /// `InvalidResponse`, the arrival before the departure.
    pub fn stay(&self, today: &CalendarDate) -> (res: Result<(CalendarDate, CalendarDate), HotelSearchError>)
        ensures
            self.check_in is Some && date_read(self.check_in->0@, *today) is None ==> res is Err
                && res->Err_0 is InvalidResponse && res->Err_0->InvalidResponse_0@
                == unreadable_date(self.check_in->0@),
            (self.check_in is Some ==> date_read(self.check_in->0@, *today) is Some)
                && self.check_out is Some && date_read(self.check_out->0@, *today) is None ==> res is Err
                && res->Err_0 is InvalidResponse && res->Err_0->InvalidResponse_0@
                == unreadable_date(self.check_out->0@),
            (self.check_in is Some ==> date_read(self.check_in->0@, *today) is Some) && (
            self.check_out is Some ==> date_read(self.check_out->0@, *today) is Some) ==> {
                let check_in = if self.check_in is Some {
                    date_read(self.check_in->0@, *today)
                } else {
                    None
                };
                let check_out = if self.check_out is Some {
                    date_read(self.check_out->0@, *today)
                } else {
                    None
                };
                match stay_of(check_in, check_out, *today) {
                    Some(stay) => res == Ok::<(CalendarDate, CalendarDate), HotelSearchError>(stay),
                    None => res is Err && res->Err_0 is InvalidResponse
                        && res->Err_0->InvalidResponse_0@ == no_stay_text(),
                }
            },
    {
        let check_in = match &self.check_in {
            Some(text) => match parse_and_infer_year(text.as_str(), today) {
                Ok(date) => Some(date),
                Err(e) => {
                    return Err(e);
                },
            },
            None => None,
        };
        let check_out = match &self.check_out {
            Some(text) => match parse_and_infer_year(text.as_str(), today) {
                Ok(date) => Some(date),
                Err(e) => {
                    return Err(e);
                },
            },
            None => None,
        };
        match stay_dates(check_in, check_out, today) {
            Some(stay) => Ok(stay),
            None => Err(
                HotelSearchError::InvalidResponse(
                    "Could not parse date: no day after the given date".to_owned(),
                ),
            ),
        }
    }
}

/// Numbers written one after the other with commas between them.
pub open spec fn comma_list(numbers: Seq<u32>) -> Seq<char>
    decreases numbers.len(),
{
    if numbers.len() == 0 {
        Seq::empty()
    } else if numbers.len() == 1 {
        decimal_text(numbers[0] as nat)
    } else {
        comma_list(numbers.drop_last()) + ","@ + decimal_text(numbers.last() as nat)
    }
}

/// The numbers written one after the other with commas between them.
pub fn join_numbers(numbers: &Vec<u32>) -> (text: String)
    ensures
        text@ == comma_list(numbers@),
{
    let mut text = String::new();
    let mut i: usize = 0;
    assert(numbers@.take(0) =~= Seq::empty());
    while i < numbers.len()
        invariant
            i <= numbers.len(),
            text@ == comma_list(numbers@.take(i as int)),
        decreases numbers.len() - i,
    {
        proof {
            assert(numbers@.take(i + 1).drop_last() =~= numbers@.take(i as int));
            assert(numbers@.take(i + 1).last() == numbers[i as int]);
        }
        if i > 0 {
            text.append(",");
        }
        text.append(decimal(numbers[i] as u64).as_str());
        proof {
            if i == 0 {
                assert(text@ =~= decimal_text(numbers[0] as nat));
            }
        }
        i += 1;
    }
    assert(numbers@.take(numbers.len() as int) =~= numbers@);
    text
}

/// The number of adults of a request that names none.
pub const DEFAULT_ADULTS: u32 = 1;

/// The parameters of the request for hotels, in the order in which they are
/// set: the place, the two dates, the adults (one when none is named), the
/// ages of the children with commas between them, and the rooms (empty when
/// none is named).
pub open spec fn hotel_parameters(
    geo_id: u64,
    check_in: CalendarDate,
    check_out: CalendarDate,
    adults: Option<u32>,
    children_ages: Option<Vec<u32>>,
    rooms: Option<u32>,
) -> Seq<(Seq<char>, Seq<char>)> {
    seq![
        ("geoId"@, decimal_text(geo_id as nat)),
        ("checkIn"@, iso_text(check_in.year as int, check_in.month as int, check_in.day as int)),
        ("checkOut"@, iso_text(check_out.year as int, check_out.month as int, check_out.day as int)),
        (
            "adults"@,
            decimal_text(
                match adults {
                    Some(n) => n as nat,
                    None => DEFAULT_ADULTS as nat,
                },
            ),
        ),
        (
            "childrenAges"@,
            match children_ages {
                Some(ages) => comma_list(ages@),
                None => Seq::empty(),
            },
        ),
        (
            "rooms"@,
            match rooms {
                Some(n) => decimal_text(n as nat),
                None => Seq::empty(),
            },
        ),
    ]
}

impl HotelSearchArgs {
    /// The parameters of the request for hotels in the place `geo_id` for
    /// the given stay; `None` when the calendar does not have both dates.
    pub fn parameters(&self, geo_id: u64, check_in: &CalendarDate, check_out: &CalendarDate) -> (res:
        Option<Vec<(String, String)>>)
        ensures
            res is Some <==> check_in.in_calendar() && check_out.in_calendar(),
            res is Some ==> res->0.deep_view() == hotel_parameters(
                geo_id,
                *check_in,
                *check_out,
                self.adults,
                self.children_ages,
                self.rooms,
            ),
    {
        let arrival = match date_text(check_in) {
            Some(text) => text,
            None => {
                return None;
            },
        };
        let departure = match date_text(check_out) {
            Some(text) => text,
            None => {
                return None;
            },
        };
        let adults: u32 = match self.adults {
            Some(n) => n,
            None => DEFAULT_ADULTS,
        };
        let children = match &self.children_ages {
            Some(ages) => join_numbers(ages),
            None => String::new(),
        };
        let rooms = match self.rooms {
            Some(n) => decimal(n as u64),
            None => String::new(),
        };
        let mut res: Vec<(String, String)> = Vec::new();
        res.push(("geoId".to_owned(), decimal(geo_id)));
        res.push(("checkIn".to_owned(), arrival));
        res.push(("checkOut".to_owned(), departure));
        res.push(("adults".to_owned(), decimal(adults as u64)));
        res.push(("childrenAges".to_owned(), children));
        res.push(("rooms".to_owned(), rooms));
        assert(res.deep_view() =~= hotel_parameters(
            geo_id,
            *check_in,
            *check_out,
            self.adults,
            self.children_ages,
            self.rooms,
        ));
        Some(res)
    }
}

/// How many hotels an answer shows at most.
pub const SHOWN_HOTELS: usize = 5;

/// The line of the answer that words the price of a hotel.
pub open spec fn price_line(option: HotelOption) -> Seq<char> {
    match option.price_for_display {
        Some(price) => "   \u{e2}\u{20ac}\u{a2} Price: "@ + price@ + "\n"@,
        None => match option.provider {
            Some(provider) => "   \u{e2}\u{20ac}\u{a2} Price: Not available directly. Check on "@
                + provider@ + ".\n"@,
            None => "   \u{e2}\u{20ac}\u{a2} Price: Not available. Please check provider websites.\n"@,
        },
    }
}

/// The line with the number and the title of the hotel at position `i`.
pub open spec fn title_line(i: nat, option: HotelOption) -> Seq<char> {
    decimal_text(i + 1) + ". "@ + option.title@ + "\n"@
}

/// The line with the rating of a hotel, if it is known.
pub open spec fn rating_line(option: HotelOption) -> Seq<char> {
    match option.bubble_rating {
        Some(rating) => "   Rating: "@ + rating.rating@ + "\u{e2}\u{2dc}\u{2026} ("@ + rating.count@
            + " reviews)\n"@,
        None => Seq::empty(),
    }
}

/// A line that names a detail of a hotel, if the detail is known.
pub open spec fn detail_line(label: Seq<char>, detail: Option<String>) -> Seq<char> {
    match detail {
        Some(info) => label + info@ + "\n"@,
        None => Seq::empty(),
    }
}

/// The lines of the answer for the hotel at position `i`: its number and
/// title, then, as far as they are known, its rating, features and location,
/// then its price, and an empty line.
pub open spec fn hotel_entry(i: nat, option: HotelOption) -> Seq<char> {
    title_line(i, option) + rating_line(option) + detail_line(
        "   \u{e2}\u{20ac}\u{a2} Features: "@,
        option.primary_info,
    ) + detail_line("   \u{e2}\u{20ac}\u{a2} Location: "@, option.secondary_info) + price_line(option)
        + "\n"@
}

/// The lines for the first `n` hotels.
pub open spec fn hotel_entries(options: Seq<HotelOption>, n: nat) -> Seq<char>
    decreases n,
{
    if n == 0 {
        Seq::empty()
    } else {
        hotel_entries(options, (n - 1) as nat) + hotel_entry((n - 1) as nat, options[n - 1])
    }
}

/// The words of the answer: a heading, then either the remark that there is
/// no hotel, or the first five hotels, followed, when there are five or
/// more, by the remark that there are more.
pub open spec fn hotel_report(options: Seq<HotelOption>) -> Seq<char> {
    "\u{f0}\u{178}\u{a8} Here are some hotel options:\n\n"@ + (if options.len() == 0 {
        "No hotels found matching your criteria."@
    } else if options.len() < SHOWN_HOTELS {
        hotel_entries(options, options.len())
    } else {
        hotel_entries(options, SHOWN_HOTELS as nat) + "...and more options available.\n"@
    })
}

/// The line with the number and the title of the hotel at position `i`.
fn write_title(i: usize, option: &HotelOption) -> (line: String)
    requires
        i < SHOWN_HOTELS,
    ensures
        line@ == title_line(i as nat, *option),
{
    let mut line = decimal((i + 1) as u64);
    line.append(". ");
    line.append(option.title.as_str());
    line.append("\n");
    assert(line@ =~= title_line(i as nat, *option));
    line
}

/// The line with the rating of a hotel.
fn write_rating(option: &HotelOption) -> (line: String)
    ensures
        line@ == rating_line(*option),
{
    match &option.bubble_rating {
        Some(rating) => {
            let mut line = "   Rating: ".to_owned();
            line.append(rating.rating.as_str());
            line.append("\u{e2}\u{2dc}\u{2026} (");
            line.append(rating.count.as_str());
            line.append(" reviews)\n");
            assert(line@ =~= rating_line(*option));
            line
        },
        None => String::new(),
    }
}

/// A line that names a detail of a hotel.
fn write_detail(label: &str, detail: &Option<String>) -> (line: String)
    ensures
        line@ == detail_line(label@, *detail),
{
    match detail {
        Some(info) => {
            let mut line = label.to_owned();
            line.append(info.as_str());
            line.append("\n");
            assert(line@ =~= detail_line(label@, *detail));
            line
        },
        None => String::new(),
    }
}

/// The line that words the price of a hotel.
fn write_price(option: &HotelOption) -> (line: String)
    ensures
        line@ == price_line(*option),
{
    match &option.price_for_display {
        Some(price) => {
            let mut line = "   \u{e2}\u{20ac}\u{a2} Price: ".to_owned();
            line.append(price.as_str());
            line.append("\n");
            assert(line@ =~= price_line(*option));
            line
        },
        None => match &option.provider {
            Some(provider) => {
                let mut line =
                    "   \u{e2}\u{20ac}\u{a2} Price: Not available directly. Check on ".to_owned();
                line.append(provider.as_str());
                line.append(".\n");
                assert(line@ =~= price_line(*option));
                line
            },
            None => "   \u{e2}\u{20ac}\u{a2} Price: Not available. Please check provider websites.\n".to_owned(),
        },
    }
}

/// The lines of the answer for the hotel at position `i`.
fn write_entry(output: &mut String, i: usize, option: &HotelOption)
    requires
        i < SHOWN_HOTELS,
    ensures
        final(output)@ == old(output)@ + hotel_entry(i as nat, *option),
{
    let mut entry = write_title(i, option);
    entry.append(write_rating(option).as_str());
    entry.append(write_detail("   \u{e2}\u{20ac}\u{a2} Features: ", &option.primary_info).as_str());
    entry.append(write_detail("   \u{e2}\u{20ac}\u{a2} Location: ", &option.secondary_info).as_str());
    entry.append(write_price(option).as_str());
    entry.append("\n");
    assert(entry@ =~= hotel_entry(i as nat, *option));
    output.append(entry.as_str());
}

impl HotelSearchData {
    /// The words in which the hotels are shown to the guest.
    pub fn report(&self) -> (output: String)
        ensures
            output@ == hotel_report(self.data@),
    {
        let mut output = "\u{f0}\u{178}\u{a8} Here are some hotel options:\n\n".to_owned();
        let ghost heading = output@;
        if self.data.len() == 0 {
            output.append("No hotels found matching your criteria.");
            return output;
        }
        let shown: usize = if self.data.len() < SHOWN_HOTELS {
            self.data.len()
        } else {
            SHOWN_HOTELS
        };
        let mut i: usize = 0;
        assert(output@ =~= heading + hotel_entries(self.data@, 0));
        while i < shown
            invariant
                i <= shown <= SHOWN_HOTELS,
                shown <= self.data.len(),
                output@ == heading + hotel_entries(self.data@, i as nat),
            decreases shown - i,
        {
            write_entry(&mut output, i, &self.data[i]);
            assert(output@ =~= heading + hotel_entries(self.data@, (i + 1) as nat));
            i += 1;
        }
        if self.data.len() >= SHOWN_HOTELS {
            output.append("...and more options available.\n");
        }
        assert(output@ =~= hotel_report(self.data@));
        output
    }
}

/// The words of the failure that the service reported with the status
/// `status`: the message of its error body when that could be read,
/// otherwise the body as it came.
pub open spec fn failure_text(status: Seq<char>, error: Option<ApiError>, body: Seq<char>) -> Seq<
    char,
> {
    match error {
        Some(error) => "Tripadvisor API Error (HTTP Status: "@ + status + "): "@ + error.message@,
        None => "API returned HTTP error ("@ + status
            + "). Could not parse error details. Raw: "@ + body,
    }
}

/// The error for an answer that the service gave with a status of failure.
pub fn api_failure(status: &str, error: Option<&ApiError>, body: &str) -> (res: HotelSearchError)
    ensures
        res is HttpRequestFailed,
        res->HttpRequestFailed_0@ == failure_text(
            status@,
            match error {
                Some(e) => Some(*e),
                None => None,
            },
            body@,
        ),
{
    match error {
        Some(error) => {
            let mut text = "Tripadvisor API Error (HTTP Status: ".to_owned();
            text.append(status);
            text.append("): ");
            text.append(error.message.as_str());
            assert(text@ =~= failure_text(status@, Some(*error), body@));
            HotelSearchError::HttpRequestFailed(text)
        },
        None => {
            let mut text = "API returned HTTP error (".to_owned();
            text.append(status);
            text.append("). Could not parse error details. Raw: ");
            text.append(body);
            assert(text@ =~= failure_text(status@, None, body@));
            HotelSearchError::HttpRequestFailed(text)
        },
    }
}

/// The place that the answer of the service names first. An answer that
/// reports a failure is refused with its message as `ApiError`; an answer
/// without places gives `None`.
pub fn first_location(status: bool, message: String, options: Vec<LocationOption>) -> (res: Result<
    Option<LocationOption>,
    HotelSearchError,
>)
    ensures
        !status ==> res == Err::<Option<LocationOption>, HotelSearchError>(
            HotelSearchError::ApiError(message),
        ),
        status && options.len() == 0 ==> res == Ok::<Option<LocationOption>, HotelSearchError>(None),
        status && options.len() > 0 ==> res == Ok::<Option<LocationOption>, HotelSearchError>(
            Some(options[0]),
        ),
{
    if !status {
        return Err(HotelSearchError::ApiError(message));
    }
    let mut options = options;
    if options.len() == 0 {
        Ok(None)
    } else {
        Ok(Some(options.swap_remove(0)))
    }
}

/// The words with which a place is refused that the service does not know.
pub open spec fn unknown_place_text() -> Seq<char> {
    "Location not found from API for input query"@
}

/// The identifier of the place that was found, with the name that was asked
/// for; `InvalidResponse` when no place was found.
pub fn location_result(found: Option<LocationOption>, query: String) -> (res: Result<
    LocationSearchResult,
    HotelSearchError,
>)
    ensures
        found is Some ==> res is Ok && res->Ok_0.geo_id == found->0.geo_id && res->Ok_0.location_name
            == query,
        found is None ==> res is Err && res->Err_0 is InvalidResponse
            && res->Err_0->InvalidResponse_0@ == unknown_place_text(),
{
    match found {
        Some(location) => Ok(LocationSearchResult { geo_id: location.geo_id, location_name: query }),
        None => Err(
            HotelSearchError::InvalidResponse("Location not found from API for input query".to_owned()),
        ),
    }
}

} // verus!
