use semantic_retrieval::flight::{FlightSearchArgs, FlightSearchError, FlightSearchTool};
use semantic_retrieval::hotel::dates::{
    choose_date, date_text, month_length, parse_and_infer_year, CalendarDate,
};
use semantic_retrieval::arxiv::model::ArxivSearchTool;
use semantic_retrieval::hotel::model::{
    ApiError, BubbleRating, HotelOption, HotelSearchArgs, HotelSearchData, HotelSearchError,
    HotelSearchTool, LocationOption, LocationSearchTool,
};
use semantic_retrieval::hotel::search::{
    api_failure, first_location, join_numbers, location_result, stay_dates,
};

fn date(year: i32, month: u32, day: u32) -> CalendarDate {
    CalendarDate { year, month, day }
}

fn args(check_in: Option<&str>, check_out: Option<&str>) -> HotelSearchArgs {
    HotelSearchArgs {
        query: "Paris".to_string(),
        check_in: check_in.map(|s| s.to_string()),
        check_out: check_out.map(|s| s.to_string()),
        adults: None,
        children_ages: None,
        rooms: None,
    }
}

fn option(title: &str) -> HotelOption {
    HotelOption {
        id: "1".to_string(),
        title: title.to_string(),
        primary_info: None,
        secondary_info: None,
        bubble_rating: None,
        price_for_display: None,
        provider: None,
    }
}

#[test]
fn calendar_knows_its_months() {
    assert_eq!(month_length(2024, 2), 29);
    assert_eq!(month_length(2025, 2), 28);
    assert_eq!(month_length(1900, 2), 28);
    assert_eq!(month_length(2000, 2), 29);
    assert_eq!(month_length(-4, 2), 29);
    assert_eq!(month_length(2025, 4), 30);
    assert_eq!(month_length(2025, 12), 31);
    assert!(date(2024, 2, 29).is_valid());
    assert!(!date(2025, 2, 29).is_valid());
    assert!(!date(2025, 0, 1).is_valid());
    assert!(!date(2025, 13, 1).is_valid());
    assert!(!date(2025, 1, 0).is_valid());
    assert!(!date(262143, 1, 1).is_valid());
    assert!(date(2025, 1, 1).is_before(&date(2025, 1, 2)));
    assert!(date(2024, 12, 31).is_before(&date(2025, 1, 1)));
    assert!(!date(2025, 1, 1).is_before(&date(2025, 1, 1)));
}

#[test]
fn days_follow_each_other() {
    assert_eq!(date(2025, 1, 31).next_day(), Some(date(2025, 2, 1)));
    assert_eq!(date(2025, 2, 28).next_day(), Some(date(2025, 3, 1)));
    assert_eq!(date(2024, 2, 28).next_day(), Some(date(2024, 2, 29)));
    assert_eq!(date(2025, 12, 31).next_day(), Some(date(2026, 1, 1)));
    assert_eq!(date(262142, 12, 31).next_day(), None);
    assert_eq!(date(2025, 2, 30).next_day(), None);
    assert_eq!(date(2025, 1, 15).plus_days(30), Some(date(2025, 2, 14)));
    assert_eq!(date(2025, 1, 15).plus_days(0), Some(date(2025, 1, 15)));
    assert_eq!(date(2025, 12, 15).plus_days(30), Some(date(2026, 1, 14)));
    assert_eq!(date(262142, 12, 15).plus_days(30), None);
    assert_eq!(date(2025, 13, 15).plus_days(3), None);
}

#[test]
fn years_are_inferred() {
    let today = date(2025, 6, 15);
    assert!(date(0, 8, 8).can_infer_year(&today));
    assert_eq!(date(0, 8, 8).with_inferred_year(&today), date(2025, 8, 8));
    assert_eq!(date(0, 6, 15).with_inferred_year(&today), date(2025, 6, 15));
    assert_eq!(date(0, 6, 14).with_inferred_year(&today), date(2026, 6, 14));
    assert!(!date(0, 2, 29).can_infer_year(&today));
    assert!(!date(0, 2, 29).can_infer_year(&date(2024, 3, 1)));
    assert!(date(0, 2, 29).can_infer_year(&date(2024, 2, 1)));
    assert!(!date(0, 1, 1).can_infer_year(&date(262142, 6, 1)));
}

#[test]
fn dates_are_chosen_among_the_readings() {
    let today = date(2025, 6, 15);
    let full = Some(date(2030, 1, 2));
    let partial = Some(date(0, 3, 4));
    assert_eq!(choose_date(full, partial, None, None, &today, "x").unwrap(), date(2030, 1, 2));
    assert_eq!(choose_date(None, partial, full, None, &today, "x").unwrap(), date(2026, 3, 4));
    assert_eq!(choose_date(None, None, partial, full, &today, "x").unwrap(), date(2026, 3, 4));
    assert_eq!(
        choose_date(None, None, None, Some(date(1, 7, 1)), &today, "x").unwrap(),
        date(2025, 7, 1)
    );
    match choose_date(None, None, None, None, &today, "soon") {
        Err(HotelSearchError::InvalidResponse(m)) => assert_eq!(m, "Could not parse date: soon"),
        other => panic!("unexpected {:?}", other),
    }
    assert!(matches!(
        choose_date(None, Some(date(0, 2, 29)), None, None, &today, "02-29"),
        Err(HotelSearchError::InvalidResponse(_))
    ));
}

#[test]
fn dates_are_read_and_written() {
    let today = date(2025, 6, 15);
    assert_eq!(parse_and_infer_year("2025-08-08", &today).unwrap(), date(2025, 8, 8));
    assert_eq!(parse_and_infer_year("2024-02-29", &today).unwrap(), date(2024, 2, 29));
    match parse_and_infer_year("next week", &today) {
        Err(HotelSearchError::InvalidResponse(m)) => {
            assert_eq!(m, "Could not parse date: next week")
        }
        other => panic!("unexpected {:?}", other),
    }
    assert!(parse_and_infer_year("2025-02-30", &today).is_err());
    assert_eq!(date_text(&date(2025, 8, 8)), Some("2025-08-08".to_string()));
    assert_eq!(date_text(&date(987, 12, 31)), Some("0987-12-31".to_string()));
    assert_eq!(date_text(&date(2025, 2, 29)), None);
}

#[test]
fn stays_get_their_default_dates() {
    let today = date(2025, 12, 31);
    assert_eq!(stay_dates(None, None, &today), Some((date(2026, 1, 1), date(2026, 1, 2))));
    assert_eq!(
        stay_dates(Some(date(2026, 2, 28)), None, &today),
        Some((date(2026, 2, 28), date(2026, 3, 1)))
    );
    assert_eq!(
        stay_dates(None, Some(date(2026, 5, 5)), &today),
        Some((date(2026, 1, 1), date(2026, 5, 5)))
    );
    assert_eq!(stay_dates(None, None, &date(262142, 12, 31)), None);
    assert_eq!(stay_dates(Some(date(2026, 2, 30)), None, &today), None);

    let stay = args(Some("2026-03-01"), None).stay(&today).unwrap();
    assert_eq!(stay, (date(2026, 3, 1), date(2026, 3, 2)));
    let stay = args(None, Some("2026-03-09")).stay(&today).unwrap();
    assert_eq!(stay, (date(2026, 1, 1), date(2026, 3, 9)));
    match args(Some("tomorrow"), Some("later")).stay(&today) {
        Err(HotelSearchError::InvalidResponse(m)) => assert_eq!(m, "Could not parse date: tomorrow"),
        other => panic!("unexpected {:?}", other),
    }
    match args(None, Some("later")).stay(&today) {
        Err(HotelSearchError::InvalidResponse(m)) => assert_eq!(m, "Could not parse date: later"),
        other => panic!("unexpected {:?}", other),
    }
}

#[test]
fn hotel_requests_are_built() {
    let mut a = args(None, None);
    let p = a.parameters(60763, &date(2025, 8, 8), &date(2025, 8, 14)).unwrap();
    let expected: Vec<(String, String)> = [
        ("geoId", "60763"),
        ("checkIn", "2025-08-08"),
        ("checkOut", "2025-08-14"),
        ("adults", "1"),
        ("childrenAges", ""),
        ("rooms", ""),
    ]
    .iter()
    .map(|(k, v)| (k.to_string(), v.to_string()))
    .collect();
    assert_eq!(p, expected);
    a.adults = Some(2);
    a.children_ages = Some(vec![4, 11, 0]);
    a.rooms = Some(3);
    let p = a.parameters(1, &date(2025, 8, 8), &date(2025, 8, 14)).unwrap();
    assert_eq!(p[3].1, "2");
    assert_eq!(p[4].1, "4,11,0");
    assert_eq!(p[5].1, "3");
    assert!(a.parameters(1, &date(2025, 2, 30), &date(2025, 8, 14)).is_none());
    assert_eq!(join_numbers(&Vec::new()), "");
    assert_eq!(join_numbers(&vec![7]), "7");
}

#[test]
fn hotels_are_reported() {
    let none = HotelSearchData { data: Vec::new() };
    assert_eq!(
        none.report(),
        "\u{f0}\u{178}\u{a8} Here are some hotel options:\n\nNo hotels found matching your criteria."
    );
    let mut first = option("Abode Bombay");
    first.bubble_rating = Some(BubbleRating { count: "1,037".to_string(), rating: "4.5".to_string() });
    first.primary_info = Some("Breakfast included".to_string());
    first.secondary_info = Some("Colaba".to_string());
    first.price_for_display = Some("$120".to_string());
    let mut second = option("Second");
    second.provider = Some("Booking.com".to_string());
    let third = option("Third");
    let some = HotelSearchData { data: vec![first, second, third] };
    let bullet = "\u{e2}\u{20ac}\u{a2}";
    let expected = format!(
        "\u{f0}\u{178}\u{a8} Here are some hotel options:\n\n\
1. Abode Bombay\n   Rating: 4.5\u{e2}\u{2dc}\u{2026} (1,037 reviews)\n   {b} Features: Breakfast included\n   {b} Location: Colaba\n   {b} Price: $120\n\n\
2. Second\n   {b} Price: Not available directly. Check on Booking.com.\n\n\
3. Third\n   {b} Price: Not available. Please check provider websites.\n\n",
        b = bullet
    );
    assert_eq!(some.report(), expected);

    let five = HotelSearchData { data: (0..5).map(|i| option(&format!("H{}", i))).collect() };
    let report = five.report();
    assert!(report.ends_with("5. H4\n   \u{e2}\u{20ac}\u{a2} Price: Not available. Please check provider websites.\n\n...and more options available.\n"));
    let seven = HotelSearchData { data: (0..7).map(|i| option(&format!("H{}", i))).collect() };
    let report = seven.report();
    assert!(report.contains("5. H4\n"));
    assert!(!report.contains("6. H5\n"));
    assert!(report.ends_with("...and more options available.\n"));
    let four = HotelSearchData { data: (0..4).map(|i| option(&format!("H{}", i))).collect() };
    assert!(!four.report().contains("more options"));
}

#[test]
fn failures_of_the_service_are_worded() {
    let body = ApiError { status: false, timestamp: 1, message: "Too many requests".to_string() };
    match api_failure("429 Too Many Requests", Some(&body), "{}") {
        HotelSearchError::HttpRequestFailed(m) => assert_eq!(
            m,
            "Tripadvisor API Error (HTTP Status: 429 Too Many Requests): Too many requests"
        ),
        other => panic!("unexpected {:?}", other),
    }
    match api_failure("500 Internal Server Error", None, "<html>") {
        HotelSearchError::HttpRequestFailed(m) => assert_eq!(
            m,
            "API returned HTTP error (500 Internal Server Error). Could not parse error details. Raw: <html>"
        ),
        other => panic!("unexpected {:?}", other),
    }
    assert_eq!(
        HotelSearchError::HttpRequestFailed("x".to_string()).message(),
        "HTTP request failed: x"
    );
    assert_eq!(
        HotelSearchError::InvalidResponse("y".to_string()).message(),
        "Invalid response structure: y"
    );
    assert_eq!(HotelSearchError::ApiError("z".to_string()).message(), "API error: z");
    assert_eq!(HotelSearchError::MissingApiKey.message(), "Missing API key");
}

#[test]
fn places_are_found() {
    let place = |id: u64| LocationOption {
        title: "Paris".to_string(),
        geo_id: id,
        document_id: "d".to_string(),
        tracking_items: "t".to_string(),
        secondary_text: "France".to_string(),
    };
    match first_location(false, "quota".to_string(), vec![place(1)]) {
        Err(HotelSearchError::ApiError(m)) => assert_eq!(m, "quota"),
        other => panic!("unexpected {:?}", other),
    }
    assert!(first_location(true, "ok".to_string(), Vec::new()).unwrap().is_none());
    let found = first_location(true, "ok".to_string(), vec![place(7), place(8)]).unwrap();
    assert_eq!(found.as_ref().unwrap().geo_id, 7);
    let result = location_result(found, "Paris, France".to_string()).unwrap();
    assert_eq!(result.geo_id, 7);
    assert_eq!(result.location_name, "Paris, France");
    match location_result(None, "Nowhere".to_string()) {
        Err(HotelSearchError::InvalidResponse(m)) => {
            assert_eq!(m, "Location not found from API for input query")
        }
        other => panic!("unexpected {:?}", other),
    }
}

#[test]
fn flight_requests_are_built() {
    let mut a = FlightSearchArgs {
        source: "YVR".to_string(),
        destination: "BEG".to_string(),
        date: Some("2025-07-15".to_string()),
        sort: None,
        service: None,
        itinerary_type: None,
        adults: None,
        seniors: None,
        currency: None,
        nearby: None,
        nonstop: None,
    };
    let today = date(2025, 6, 15);
    let expected = |d: &str| -> Vec<(String, String)> {
        [
            ("sourceAirportCode", "YVR"),
            ("destinationAirportCode", "BEG"),
            ("date", d),
            ("itineraryType", "ONE_WAY"),
            ("classOfService", "ECONOMY"),
        ]
        .iter()
        .map(|(k, v)| (k.to_string(), v.to_string()))
        .collect()
    };
    assert_eq!(a.parameters(&today).unwrap(), expected("2025-07-15"));
    a.date = None;
    assert_eq!(a.parameters(&today).unwrap(), expected("2025-07-15"));
    assert_eq!(a.parameters(&date(2025, 12, 31)).unwrap(), expected("2026-01-30"));
    assert!(a.parameters(&date(262142, 12, 31)).is_none());
    assert_eq!(FlightSearchTool::answer(), "Flight search results");
    assert_eq!(
        FlightSearchError::HttpRequestFailed("x".to_string()).message(),
        "HTTP request failed: x"
    );
    assert_eq!(FlightSearchError::InvalidResponse.message(), "Invalid response structure");
    assert_eq!(FlightSearchError::ApiError("z".to_string()).message(), "API error: z");
    assert_eq!(FlightSearchError::MissingApiKey.message(), "Missing API key");
}

#[test]
fn tools_are_named() {
    assert_eq!(ArxivSearchTool::name(), "search_arxiv");
    assert_eq!(ArxivSearchTool::description(), "Search for academic papers on arXiv");
    assert_eq!(FlightSearchTool::name(), "search_flights");
    assert_eq!(FlightSearchTool::description(), "Search for flights between two airports");
    assert_eq!(HotelSearchTool::name(), "search_hotel");
    assert_eq!(
        HotelSearchTool::description(),
        "Search for hotel based on the give parameters and location"
    );
    assert_eq!(LocationSearchTool::name(), "search_location");
    assert_eq!(
        LocationSearchTool::description(),
        "Finds the geographic ID for a given city or place name. Required before searching for hotels."
    );
}
