use space_traders_api::error::{ApiError, ApiErrorResponse, ClientError, DecodeError};
use space_traders_api::paging::Listing;
use space_traders_api::request::{
    authorization, endpoint, paginate_path, push_decimal, BASE_URL, MAX_PAGE_LIMIT,
};
use space_traders_api::search::{gather_matching, has_enough};
use space_traders_api::types::{
    ApiMeta, SystemSymbol, Trait, Waypoint, WaypointReference, WaypointSymbol, WaypointType,
};

fn json_error() -> serde_json::Error {
    serde_json::from_str::<serde_json::Value>("{").unwrap_err()
}

fn waypoint(symbol: &str, traits: &[&str]) -> Waypoint {
    let symbol = WaypointSymbol::new(symbol).unwrap();
    Waypoint {
        system_symbol: symbol.system_symbol(),
        reference: WaypointReference { symbol, waypoint_type: WaypointType::Planet, x: 0, y: 0 },
        orbitals: Vec::new(),
        faction: None,
        traits: traits
            .iter()
            .map(|t| Trait {
                symbol: String::from(*t),
                name: String::new(),
                description: String::new(),
            })
            .collect(),
        chart: None,
    }
}

#[test]
fn a_page_is_addressed_by_number_and_size() {
    assert_eq!("systems?page=1&limit=20", paginate_path("systems", 1, MAX_PAGE_LIMIT));
    assert_eq!("factions?page=12&limit=5", paginate_path("factions", 12, 5));
    assert_eq!("my/contracts?page=0&limit=0", paginate_path("my/contracts", 0, 0));
    assert_eq!(
        "systems?page=4294967295&limit=19",
        paginate_path("systems", u32::MAX, 19)
    );
}

#[test]
fn the_size_of_a_page_is_capped() {
    assert_eq!("systems?page=3&limit=20", paginate_path("systems", 3, 21));
    assert_eq!("systems?page=3&limit=20", paginate_path("systems", 3, u32::MAX));
}

#[test]
fn numbers_are_written_in_decimal() {
    let mut text = String::from("n=");
    push_decimal(&mut text, 0);
    text.push(',');
    push_decimal(&mut text, 7);
    text.push(',');
    push_decimal(&mut text, 10);
    text.push(',');
    push_decimal(&mut text, 1_203_450);
    assert_eq!("n=0,7,10,1203450", text);
}

#[test]
fn requests_go_to_the_service_with_a_bearer_token() {
    assert_eq!("https://api.spacetraders.io/v2", BASE_URL);
    assert_eq!("https://api.spacetraders.io/v2/my/agent", endpoint("my/agent"));
    assert_eq!("Bearer SECRET-REDACTED", authorization("SECRET-REDACTED"));
    assert_eq!("Bearer ", authorization(""));
}

#[test]
fn a_listing_walks_the_full_pages() {
    // 45 entries, 20 to a page: pages 1 and 2 are full.
    let meta = ApiMeta { total: 45, page: 1, limit: 20 };
    let mut listing = Listing::begin((0..20).collect::<Vec<u32>>(), Some(meta), None);
    assert_eq!(Some(2), listing.wanted());
    listing.absorb((20..40).collect());
    assert_eq!(None, listing.wanted());
    listing.absorb(vec![99]);
    assert_eq!((0..40).collect::<Vec<u32>>(), listing.finish());
}

#[test]
fn a_listing_stops_at_its_limit() {
    let meta = ApiMeta { total: 100, page: 1, limit: 20 };
    let mut listing = Listing::begin((0..20).collect::<Vec<u32>>(), Some(meta), Some(45));
    assert_eq!(Some(2), listing.wanted());
    listing.absorb((20..40).collect());
    assert_eq!(Some(3), listing.wanted());
    listing.absorb((40..60).collect());
    assert_eq!(None, listing.wanted());
    assert_eq!((0..45).collect::<Vec<u32>>(), listing.finish());

    let short = Listing::begin((0..20).collect::<Vec<u32>>(), Some(meta), Some(7));
    assert_eq!(None, short.wanted());
    assert_eq!((0..7).collect::<Vec<u32>>(), short.finish());

    let none = Listing::begin((0..20).collect::<Vec<u32>>(), Some(meta), Some(0));
    assert_eq!(None, none.wanted());
    assert_eq!(Vec::<u32>::new(), none.finish());
}

#[test]
fn a_listing_without_a_count_ends_with_its_first_page() {
    let listing = Listing::begin(vec!['a', 'b'], None, None);
    assert_eq!(None, listing.wanted());
    assert_eq!(vec!['a', 'b'], listing.finish());

    let empty_pages = ApiMeta { total: 10, page: 1, limit: 0 };
    let listing = Listing::begin(vec!['a'], Some(empty_pages), None);
    assert_eq!(None, listing.wanted());

    let one_page = ApiMeta { total: 19, page: 1, limit: 20 };
    let listing = Listing::begin(vec!['a'], Some(one_page), None);
    assert_eq!(None, listing.wanted());
}

#[test]
fn a_listing_of_single_entries_reaches_the_last_page() {
    let meta = ApiMeta { total: u32::MAX, page: 1, limit: 1 };
    let mut listing = Listing::begin(vec![1u8], Some(meta), Some(3));
    assert_eq!(Some(2), listing.wanted());
    listing.absorb(vec![2]);
    assert_eq!(Some(3), listing.wanted());
    listing.absorb(vec![3]);
    assert_eq!(None, listing.wanted());
    assert_eq!(vec![1, 2, 3], listing.finish());
}

#[test]
fn an_error_of_the_service_is_described_by_code_and_message() {
    let error = ApiError { message: String::from("Token was not valid."), code: 4103, data: None };
    assert_eq!("[4103] Token was not valid.", error.describe());
    assert_eq!("[4103] Token was not valid.", ClientError::from(error).describe());
    let error = ApiError { message: String::new(), code: 0, data: None };
    assert_eq!("[0] ", error.describe());
}

#[test]
fn an_answer_that_cannot_be_decoded_is_described_with_the_reason() {
    let reason = json_error();
    let words = reason.to_string();
    assert!(!words.is_empty());
    let error = DecodeError { message: String::from("{"), error: reason };
    assert_eq!("could not decode {: because", error.describe_with("because"));
    assert_eq!(format!("could not decode {{: {}", words), error.describe());
    assert_eq!(format!("could not decode {{: {}", words), ClientError::from(error).describe());
}

#[test]
fn a_request_that_could_not_be_made_is_described_in_the_words_of_the_client() {
    let failure = reqwest::Client::new().get("not an address").build().unwrap_err();
    let words = failure.to_string();
    assert!(!words.is_empty());
    let error = ClientError::from(failure);
    assert!(matches!(error, ClientError::HttpError(_)));
    assert_eq!(words, error.describe());
}

#[test]
fn an_undecoded_answer_that_reports_an_error_raises_that_error() {
    let reported = ApiErrorResponse {
        error: ApiError { message: String::from("no such system"), code: 404, data: None },
    };
    let raised = space_traders_api::error::decode_failure(
        String::from("{\"error\":{}}"),
        json_error(),
        Ok(reported),
    );
    match raised {
        ClientError::ApiError(error) => {
            assert_eq!(404, error.code);
            assert_eq!("no such system", error.message);
        }
        other => panic!("raised {:?}", other),
    }
}

#[test]
fn an_undecoded_answer_that_reports_nothing_raises_itself() {
    let raised = space_traders_api::error::decode_failure(
        String::from("<html>"),
        json_error(),
        Err(serde_json::from_str::<serde_json::Value>("<").unwrap_err()),
    );
    match raised {
        ClientError::DecodeError(error) => {
            assert_eq!("<html>", error.message);
            assert_eq!(json_error().to_string(), error.error.to_string());
        }
        other => panic!("raised {:?}", other),
    }
}

#[test]
fn a_waypoint_with_a_marketplace_is_a_market() {
    assert!(waypoint("X1-JF24-06790Z", &["OVERCROWDED", "MARKETPLACE"]).is_market());
    assert!(waypoint("X1-JF24-06790Z", &["MARKETPLACE"]).is_market());
    assert!(!waypoint("X1-JF24-06790Z", &["SHIPYARD", "marketplace", "MARKETPLACE "]).is_market());
    assert!(!waypoint("X1-JF24-06790Z", &[]).is_market());
}

#[test]
fn matching_waypoints_are_gathered_up_to_the_limit() {
    let batch = vec![
        waypoint("X1-A-1", &["MARKETPLACE"]),
        waypoint("X1-A-2", &[]),
        waypoint("X1-A-3", &["MARKETPLACE"]),
        waypoint("X1-A-4", &["MARKETPLACE"]),
    ];
    let mut found: Vec<WaypointSymbol> = Vec::new();
    assert!(!gather_matching(&mut found, &batch, 5, |w: &Waypoint| w.is_market()));
    assert_eq!(
        vec!["X1-A-1", "X1-A-3", "X1-A-4"],
        found.iter().map(|s| s.waypoint()).collect::<Vec<&str>>()
    );

    let mut found: Vec<WaypointSymbol> = vec![WaypointSymbol::new("X1-B-9").unwrap()];
    assert!(gather_matching(&mut found, &batch, 3, |w: &Waypoint| w.is_market()));
    assert_eq!(
        vec!["X1-B-9", "X1-A-1", "X1-A-3"],
        found.iter().map(|s| s.waypoint()).collect::<Vec<&str>>()
    );

    // A search that has enough looks at nothing more.
    let mut looked: u32 = 0;
    let counter = std::cell::Cell::new(0u32);
    assert!(gather_matching(&mut found, &batch, 3, |_w: &Waypoint| {
        counter.set(counter.get() + 1);
        true
    }));
    looked += counter.get();
    assert_eq!(0, looked);
    assert_eq!(3, found.len());
    assert!(gather_matching(&mut found, &batch, 0, |_w: &Waypoint| true));
    assert_eq!(3, found.len());
}

#[test]
fn a_search_has_enough_at_its_limit() {
    assert!(!has_enough(0, 1));
    assert!(has_enough(1, 1));
    assert!(has_enough(2, 1));
    assert!(has_enough(0, 0));
}

#[test]
fn a_system_symbol_names_the_system_of_a_waypoint() {
    let w = waypoint("X1-JF24-77691C", &[]);
    assert_eq!(SystemSymbol::new("X1-JF24").unwrap(), w.system_symbol);
}
