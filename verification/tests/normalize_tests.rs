use placerepo::decimal::FixedDecimal;
use placerepo::json::JsonValue;
use placerepo::normalize::{normalize_places, strip_quotes, NormalizeError};

fn photo_obj(height: i64, width: i64, reference: &str) -> JsonValue {
    JsonValue::Obj(vec![
        (String::from("height"), JsonValue::Int(height)),
        (String::from("width"), JsonValue::Int(width)),
        (
            String::from("photo_reference"),
            JsonValue::Str(String::from(reference)),
        ),
    ])
}

fn geometry_obj(lat: FixedDecimal, lng: FixedDecimal) -> JsonValue {
    JsonValue::Obj(vec![(
        String::from("location"),
        JsonValue::Obj(vec![
            (String::from("lat"), JsonValue::Num(lat)),
            (String::from("lng"), JsonValue::Num(lng)),
        ]),
    )])
}

fn full_element(place_id: &str, name: &str, rating: JsonValue) -> JsonValue {
    JsonValue::Obj(vec![
        (String::from("place_id"), JsonValue::Str(String::from(place_id))),
        (String::from("name"), JsonValue::Str(String::from(name))),
        (
            String::from("photos"),
            JsonValue::Arr(vec![photo_obj(100, 100, "ref1")]),
        ),
        (String::from("rating"), rating),
        (String::from("vicinity"), JsonValue::Str(String::from("Main St"))),
        (
            String::from("geometry"),
            geometry_obj(
                FixedDecimal { mantissa: 123, scale: 2 },
                FixedDecimal { mantissa: 456, scale: 2 },
            ),
        ),
    ])
}

fn element_missing_rating(place_id: &str) -> JsonValue {
    JsonValue::Obj(vec![
        (String::from("place_id"), JsonValue::Str(String::from(place_id))),
        (String::from("name"), JsonValue::Str(String::from("No Rating"))),
        (
            String::from("photos"),
            JsonValue::Arr(vec![photo_obj(10, 10, "r")]),
        ),
        (String::from("vicinity"), JsonValue::Str(String::from("Side St"))),
        (
            String::from("geometry"),
            geometry_obj(
                FixedDecimal { mantissa: 0, scale: 0 },
                FixedDecimal { mantissa: 0, scale: 0 },
            ),
        ),
    ])
}

#[test]
fn literal_payload_yields_one_canonical_restaurant() {
    let doc = JsonValue::Obj(vec![(
        String::from("results"),
        JsonValue::Arr(vec![full_element(
            "p1",
            "Tom's Diner",
            JsonValue::Num(FixedDecimal { mantissa: 45, scale: 1 }),
        )]),
    )]);
    let out = normalize_places(&doc).unwrap();
    assert_eq!(out.restaurants.len(), 1);
    assert_eq!(out.skipped, 0);
    let r = &out.restaurants[0];
    assert_eq!(r.place_id, "p1");
    assert_eq!(r.name, "Toms Diner");
    assert_eq!(r.rating, FixedDecimal { mantissa: 45, scale: 1 });
    assert_eq!(r.geometry.lat, FixedDecimal { mantissa: 123, scale: 2 });
    assert_eq!(r.geometry.lng, FixedDecimal { mantissa: 456, scale: 2 });
    assert_eq!(r.photos.height, 100);
    assert_eq!(r.photos.width, 100);
    assert_eq!(r.photos.photo_reference, "ref1");
    assert_eq!(r.vicinity, "Main St");
}

#[test]
fn one_malformed_element_of_three_is_skipped_alone() {
    let doc = JsonValue::Obj(vec![(
        String::from("results"),
        JsonValue::Arr(vec![
            full_element("a", "First", JsonValue::Int(4)),
            element_missing_rating("b"),
            full_element("c", "Third", JsonValue::Int(5)),
        ]),
    )]);
    let out = normalize_places(&doc).unwrap();
    assert_eq!(out.restaurants.len(), 2);
    assert_eq!(out.skipped, 1);
    assert_eq!(out.restaurants[0].place_id, "a");
    assert_eq!(out.restaurants[1].place_id, "c");
}

#[test]
fn missing_results_array_fails_the_whole_payload() {
    let doc = JsonValue::Obj(vec![(
        String::from("status"),
        JsonValue::Str(String::from("OK")),
    )]);
    assert_eq!(normalize_places(&doc), Err(NormalizeError::MissingResults));
    let not_an_array = JsonValue::Obj(vec![(
        String::from("results"),
        JsonValue::Str(String::from("nope")),
    )]);
    assert_eq!(
        normalize_places(&not_an_array),
        Err(NormalizeError::MissingResults)
    );
}

#[test]
fn empty_results_yield_empty_batch() {
    let doc = JsonValue::Obj(vec![(String::from("results"), JsonValue::Arr(vec![]))]);
    let out = normalize_places(&doc).unwrap();
    assert_eq!(out.restaurants.len(), 0);
    assert_eq!(out.skipped, 0);
}

#[test]
fn integer_rating_widens_to_decimal() {
    let doc = JsonValue::Obj(vec![(
        String::from("results"),
        JsonValue::Arr(vec![full_element("p2", "Flat Four", JsonValue::Int(4))]),
    )]);
    let out = normalize_places(&doc).unwrap();
    assert_eq!(out.restaurants[0].rating, FixedDecimal { mantissa: 4, scale: 0 });
}

#[test]
fn strip_quotes_removes_both_quote_kinds() {
    assert_eq!(strip_quotes("Tom's \"Diner\""), "Toms Diner");
    assert_eq!(strip_quotes("plain"), "plain");
    assert_eq!(strip_quotes(""), "");
}
