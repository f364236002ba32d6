use placerepo::codec::{
    decode_timestamp, encode_timestamp, parse_row_into_restaurant,
    parse_row_into_restaurant_rating, parse_row_into_restaurant_reservation,
    parse_row_into_vote_history, rating_params, reservation_params, restaurant_params,
    vote_params, SqlValue,
};
use placerepo::decimal::FixedDecimal;
use placerepo::models::{Location, Photo, Reservation, Restaurant, RestaurantRating, VoteHistory};
use placerepo::timestamp::{
    format_calendar, parse_calendar, TimestampRepr, CALENDAR_TS_MAX,
};

fn sample_restaurant() -> Restaurant {
    Restaurant {
        place_id: String::from("p1"),
        name: String::from("Toms Diner"),
        photos: Photo {
            height: 100,
            width: 200,
            photo_reference: String::from("ref1"),
        },
        rating: FixedDecimal { mantissa: 45, scale: 1 },
        vicinity: String::from("Main St"),
        geometry: Location {
            lat: FixedDecimal { mantissa: 123, scale: 2 },
            lng: FixedDecimal { mantissa: 456, scale: 2 },
        },
    }
}

#[test]
fn restaurant_row_roundtrip() {
    let r = sample_restaurant();
    let row = restaurant_params(&r).unwrap();
    let back = parse_row_into_restaurant(&row).unwrap();
    assert_eq!(back, r);
}

#[test]
fn restaurant_params_refuse_oversized_photo() {
    let mut r = sample_restaurant();
    r.photos.height = (i32::MAX as i64) + 1;
    assert!(restaurant_params(&r).is_none());
}

#[test]
fn malformed_restaurant_row_is_rejected() {
    let r = sample_restaurant();
    let mut row = restaurant_params(&r).unwrap();
    row[2] = SqlValue::Text(String::from("not a number"));
    assert!(parse_row_into_restaurant(&row).is_none());
    assert!(parse_row_into_restaurant(&vec![]).is_none());
}

#[test]
fn rating_row_roundtrip_epoch_and_calendar() {
    let rv = RestaurantRating {
        user_id: String::from("u1"),
        place_id: String::from("p1"),
        rating: FixedDecimal { mantissa: 4, scale: 0 },
        description: String::from("fine"),
        timestamp: 1700000000,
    };
    for repr in [TimestampRepr::Epoch, TimestampRepr::Calendar] {
        let row = rating_params(repr, &rv).unwrap();
        let back = parse_row_into_restaurant_rating(repr, &row).unwrap();
        assert_eq!(back, rv);
    }
}

#[test]
fn reservation_row_roundtrip_and_negative_pax_rejected() {
    let rv = Reservation {
        user_id: String::from("u1"),
        place_id: String::from("p1"),
        reservation_timestamp: 1700000000,
        reservation_pax: 4,
    };
    for repr in [TimestampRepr::Epoch, TimestampRepr::Calendar] {
        let row = reservation_params(repr, &rv).unwrap();
        let back = parse_row_into_restaurant_reservation(repr, &row).unwrap();
        assert_eq!(back, rv);
    }
    let row = vec![
        SqlValue::Text(String::from("u1")),
        SqlValue::Text(String::from("p1")),
        SqlValue::I32(1000),
        SqlValue::I32(-1),
    ];
    assert!(parse_row_into_restaurant_reservation(TimestampRepr::Epoch, &row).is_none());
}

#[test]
fn vote_row_roundtrip() {
    let vh = VoteHistory {
        user_ids: vec![String::from("u1"), String::from("u2")],
        vote_timestamp: 777,
        voted_places: vec![String::from("{\"p\":1}")],
    };
    for repr in [TimestampRepr::Epoch, TimestampRepr::Calendar] {
        let row = vote_params(repr, &vh).unwrap();
        let back = parse_row_into_vote_history(repr, &row).unwrap();
        assert_eq!(back, vh);
    }
}

#[test]
fn epoch_encoding_is_the_32_bit_integer() {
    assert_eq!(
        encode_timestamp(TimestampRepr::Epoch, 1000),
        Some(SqlValue::I32(1000))
    );
    assert!(encode_timestamp(TimestampRepr::Epoch, (i32::MAX as i64) + 1).is_none());
    assert_eq!(
        decode_timestamp(TimestampRepr::Epoch, &SqlValue::I32(-5)),
        Some(-5)
    );
}

#[test]
fn calendar_formatting_matches_known_values() {
    assert_eq!(format_calendar(0), "1970-01-01 00:00:00");
    assert_eq!(format_calendar(1700000000), "2023-11-14 22:13:20");
    assert_eq!(format_calendar(951827696), "2000-02-29 12:34:56");
    assert_eq!(format_calendar(CALENDAR_TS_MAX), "2038-01-19 03:14:07");
}

#[test]
fn calendar_parsing_inverts_formatting() {
    for t in [0, 1, 86399, 86400, 951827696, 1700000000, CALENDAR_TS_MAX] {
        assert_eq!(parse_calendar(&format_calendar(t)), Some(t));
    }
}

#[test]
fn calendar_parsing_rejects_non_canonical_text() {
    assert_eq!(parse_calendar(""), None);
    assert_eq!(parse_calendar("2023-11-14"), None);
    assert_eq!(parse_calendar("2023-13-01 00:00:00"), None);
    assert_eq!(parse_calendar("2023-02-30 00:00:00"), None);
    assert_eq!(parse_calendar("1969-12-31 23:59:59"), None);
    assert_eq!(parse_calendar("2023-11-14T22:13:20"), None);
    assert_eq!(parse_calendar("2023-11-14 22:13:2x"), None);
    assert_eq!(parse_calendar("2038-01-19 03:14:08"), None);
}

#[test]
fn calendar_encoding_rejects_out_of_range() {
    assert!(encode_timestamp(TimestampRepr::Calendar, -1).is_none());
    assert!(encode_timestamp(TimestampRepr::Calendar, CALENDAR_TS_MAX + 1).is_none());
    let cell = encode_timestamp(TimestampRepr::Calendar, 0).unwrap();
    assert_eq!(cell, SqlValue::Text(String::from("1970-01-01 00:00:00")));
    assert_eq!(decode_timestamp(TimestampRepr::Calendar, &cell), Some(0));
}
