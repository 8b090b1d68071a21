//! Tests of the query encoder: board-type tokens, the product bitmask and its
//! decoder, decimal rendering, and the full parameter list.

use bahntafel::query::usize_to_decimal;
use bahntafel::{
    query_params, BoardType, Date, ProductSet, ProductType, Station, TimeOfDay, TimeTableQuery,
};

#[test]
fn board_type_tokens() {
    assert_eq!(BoardType::Arrival.to_api_type(), "arr");
    assert_eq!(BoardType::Departure.to_api_type(), "dep");
}

#[test]
fn bitmask_empty_set_is_all_zeros() {
    let mask = ProductSet::empty().to_api_type();
    assert_eq!(mask, "0000000000");
    assert_eq!(mask.len(), 10);
}

#[test]
fn bitmask_all_flags_is_all_ones() {
    let mask = ProductSet::all().to_api_type();
    assert_eq!(mask, "1111111111");
    assert_eq!(mask.len(), 10);
}

#[test]
fn bitmask_uses_reserved_positions() {
    assert_eq!(ProductSet::empty().insert(ProductType::ICE).to_api_type(), "1000000000");
    assert_eq!(ProductSet::empty().insert(ProductType::Taxi).to_api_type(), "0000000001");
    let combined = ProductSet::empty()
        .insert(ProductType::ICE)
        .insert(ProductType::SBahn)
        .insert(ProductType::Bus);
    assert_eq!(combined.to_api_type(), "1000110000");
    assert!(combined.contains(ProductType::SBahn));
    assert!(!combined.contains(ProductType::Tram));
}

#[test]
fn bitmask_round_trip_recovers_the_set() {
    let set = ProductSet::empty()
        .insert(ProductType::IC)
        .insert(ProductType::Regio)
        .insert(ProductType::Metro);
    let decoded = ProductSet::from_api_type(set.to_api_type().as_str()).unwrap();
    assert_eq!(decoded.bits, set.bits);

    let all = ProductSet::all();
    let decoded_all = ProductSet::from_api_type(all.to_api_type().as_str()).unwrap();
    assert_eq!(decoded_all.bits, 0x3ff);
}

#[test]
fn bitmask_decoder_rejects_malformed_masks() {
    assert!(ProductSet::from_api_type("10101").is_none());
    assert!(ProductSet::from_api_type("").is_none());
    assert!(ProductSet::from_api_type("10001100a0").is_none());
    assert!(ProductSet::from_api_type("10001100001").is_none());
}

#[test]
fn decimal_rendering() {
    assert_eq!(usize_to_decimal(0), "0");
    assert_eq!(usize_to_decimal(7), "7");
    assert_eq!(usize_to_decimal(10), "10");
    assert_eq!(usize_to_decimal(12345), "12345");
}

#[test]
fn query_params_emits_the_fixed_pairs_in_order() {
    let query = TimeTableQuery {
        stop: Station(String::from("Hackescher Markt (S), Berlin")),
        board_type: BoardType::Arrival,
        products: ProductSet::all(),
        time: TimeOfDay { hour: 12, minute: 30 },
        date: Date { year: 2024, month: 5, day: 1 },
        limit: 10,
    };
    let params = query_params(&query);
    assert_eq!(params.len(), 6);
    assert_eq!(params[0], (String::from("bt"), String::from("arr")));
    assert_eq!(params[1], (String::from("si"), String::from("Hackescher Markt (S), Berlin")));
    assert_eq!(params[2], (String::from("p"), String::from("1111111111")));
    assert_eq!(params[3], (String::from("max"), String::from("10")));
    assert_eq!(params[4], (String::from("rt"), String::from("1")));
    assert_eq!(params[5], (String::from("start"), String::from("1")));
}

#[test]
fn departure_board_changes_only_the_board_token() {
    let query = TimeTableQuery {
        stop: Station(String::from("X")),
        board_type: BoardType::Departure,
        products: ProductSet::empty(),
        time: TimeOfDay { hour: 0, minute: 0 },
        date: Date { year: 2024, month: 1, day: 1 },
        limit: 0,
    };
    let params = query_params(&query);
    assert_eq!(params[0], (String::from("bt"), String::from("dep")));
    assert_eq!(params[2], (String::from("p"), String::from("0000000000")));
    assert_eq!(params[3], (String::from("max"), String::from("0")));
}
