use space_traders_api::types::{
    Coordinates, SectorSymbol, SystemError, SystemSymbol, WaypointSymbol,
};

/// Builds `{"<key>": "<text>"}` and writes it out as JSON.
fn object_with(key: &str, text: &str) -> String {
    let mut object = serde_json::Map::new();
    object.insert(String::from(key), serde_json::Value::String(String::from(text)));
    serde_json::Value::Object(object).to_string()
}

/// Reads the text that a JSON object holds under `key`.
fn text_under(serialized: &str, key: &str) -> Result<String, String> {
    match serde_json::from_str::<serde_json::Value>(serialized) {
        Ok(value) => match value.get(key).and_then(|held| held.as_str()) {
            Some(text) => Ok(String::from(text)),
            None => Err(format!("no text under {}", key)),
        },
        Err(e) => Err(format!("{:?}", e)),
    }
}

#[test]
fn system_symbol_test_serialize() {
    let expected = String::from("X1-DF55-20250Z");
    let c = WaypointSymbol::new(expected.as_str()).unwrap();
    match serde_json::to_string(&c.into_string()) {
        Ok(s) => {
            assert_eq!(format!("\"{}\"", expected), s);
        }
        Err(e) => assert!(false, "could not serialize: {:?}", e),
    }
}

#[test]
fn system_symbol_test_deserialize() {
    let serialized = object_with("waypoint", "X1-DF55-20250Z");

    match text_under(serialized.as_str(), "waypoint").map(|text| WaypointSymbol::new(&text)) {
        Ok(Ok(waypoint)) => {
            assert_eq!(waypoint.sector(), "X1");
            assert_eq!(waypoint.system(), "X1-DF55");
            assert_eq!(waypoint.waypoint(), "X1-DF55-20250Z");

            let system_symbol = waypoint.system_symbol();
            assert_eq!(system_symbol.system(), "X1-DF55");

            let sector_symbol = waypoint.sector_symbol();
            assert_eq!(sector_symbol.sector(), "X1");
            assert_eq!(sector_symbol, system_symbol.sector_symbol());
        }
        Ok(Err(e)) => assert!(false, "could not deserialize: {:?}", e),
        Err(e) => assert!(false, "could not deserialize: {:?}", e),
    }
}

#[test]
fn system_test_serialize() {
    let expected = String::from("X1-DF55-20250Z");
    let c = Coordinates::new(expected.as_str()).unwrap();
    match serde_json::to_string(&c.into_string()) {
        Ok(s) => {
            assert_eq!(format!("\"{}\"", expected), s);
        }
        Err(e) => assert!(false, "could not serialize: {:?}", e),
    }
}

#[test]
fn system_test_deserialize() {
    let serialized = object_with("coordinates", "X1-DF55-20250Z");

    match text_under(serialized.as_str(), "coordinates").map(|text| Coordinates::new(&text)) {
        Ok(Ok(coordinates)) => {
            assert_eq!(coordinates.sector(), "X1");
            assert_eq!(coordinates.system(), "X1-DF55");
            assert_eq!(coordinates.waypoint(), "X1-DF55-20250Z");
        }
        Ok(Err(e)) => assert!(false, "could not deserialize: {:?}", e),
        Err(e) => assert!(false, "could not deserialize: {:?}", e),
    }
}

#[test]
fn the_number_of_hyphens_decides_what_a_text_names() {
    assert!(SectorSymbol::new("X1").is_ok());
    assert_eq!(Err(SystemError::InvalidCoordinates), SectorSymbol::new("X1-DF55"));
    assert_eq!(Err(SystemError::InvalidCoordinates), SectorSymbol::new("X1-DF55-20250Z"));

    assert_eq!(Err(SystemError::InvalidCoordinates), SystemSymbol::new("X1"));
    assert!(SystemSymbol::new("X1-DF55").is_ok());
    assert_eq!(Err(SystemError::InvalidCoordinates), SystemSymbol::new("X1-DF55-20250Z"));

    assert_eq!(Err(SystemError::InvalidCoordinates), WaypointSymbol::new("X1"));
    assert_eq!(Err(SystemError::InvalidCoordinates), WaypointSymbol::new("X1-DF55"));
    assert!(WaypointSymbol::new("X1-DF55-20250Z").is_ok());
    assert_eq!(Err(SystemError::InvalidCoordinates), WaypointSymbol::new("X1-DF55-20250Z-A"));

    assert_eq!(Err(SystemError::InvalidCoordinates), Coordinates::new(""));
    assert_eq!(Err(SystemError::InvalidCoordinates), Coordinates::new("X1-DF55"));
    assert_eq!(Err(SystemError::InvalidCoordinates), Coordinates::new("A-B-C-D"));
}

#[test]
fn a_level_of_a_symbol_may_be_empty() {
    let sector = SectorSymbol::new("").unwrap();
    assert_eq!("", sector.sector());

    let system = SystemSymbol::new("-").unwrap();
    assert_eq!("", system.sector());
    assert_eq!("-", system.system());

    let waypoint = WaypointSymbol::new("X1--Z").unwrap();
    assert_eq!("X1", waypoint.sector());
    assert_eq!("X1-", waypoint.system());
    assert_eq!("X1--Z", waypoint.waypoint());
    assert_eq!("X1-", waypoint.system_symbol().system());
    assert_eq!("X1", waypoint.system_symbol().sector());

    let coordinates = Coordinates::new("--").unwrap();
    assert_eq!("", coordinates.sector());
    assert_eq!("-", coordinates.system());
    assert_eq!("--", coordinates.waypoint());
}

#[test]
fn symbols_are_split_by_characters_not_bytes() {
    let waypoint = WaypointSymbol::new("\u{e9}t\u{e9}-\u{3a9}1-\u{1f680}").unwrap();
    assert_eq!("\u{e9}t\u{e9}", waypoint.sector());
    assert_eq!("\u{e9}t\u{e9}-\u{3a9}1", waypoint.system());
    assert_eq!("\u{e9}t\u{e9}-\u{3a9}1-\u{1f680}", waypoint.waypoint());
    // An en dash is no hyphen.
    assert_eq!(Err(SystemError::InvalidCoordinates), SystemSymbol::new("X1\u{2013}DF55"));
}

#[test]
fn a_system_knows_its_sector() {
    let system = SystemSymbol::new("X1-JF24").unwrap();
    assert_eq!("X1", system.sector());
    assert_eq!("X1-JF24", system.system());
    assert_eq!(SectorSymbol::new("X1").unwrap(), system.sector_symbol());
    assert_eq!("X1-JF24", system.clone().into_string());
    assert_eq!("X1", system.sector_symbol().into_string());
}

#[test]
fn copies_of_symbols_are_equal() {
    let waypoint = WaypointSymbol::new("X1-JF24-77691C").unwrap();
    assert_eq!(waypoint, waypoint.clone());
    assert_eq!(SystemSymbol::new("X1-JF24").unwrap(), waypoint.system_symbol());
    let coordinates = Coordinates::new("X1-JF24-77691C").unwrap();
    assert_eq!(coordinates, coordinates.clone());
    assert_ne!(WaypointSymbol::new("X1-JF24-77691D").unwrap(), waypoint);
}

#[test]
fn the_error_says_what_went_wrong() {
    assert_eq!("coordinates are improperly formatted", SystemError::InvalidCoordinates.message());
}
