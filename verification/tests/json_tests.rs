use placerepo::decimal::FixedDecimal;
use placerepo::json::{str_eq, JsonValue};
use placerepo::models::make_restaurant_image;
use placerepo::requests::pool_size;
use placerepo::search::contains_ci;

#[test]
fn object_lookup_finds_the_first_match() {
    let doc = JsonValue::Obj(vec![
        (String::from("a"), JsonValue::Int(1)),
        (String::from("b"), JsonValue::Int(2)),
        (String::from("a"), JsonValue::Int(3)),
    ]);
    match doc.get("a") {
        Some(JsonValue::Int(v)) => assert_eq!(*v, 1),
        other => panic!("unexpected lookup result: {:?}", other),
    }
    assert!(doc.get("missing").is_none());
    assert!(JsonValue::Null.get("a").is_none());
}

#[test]
fn accessors_match_their_kinds() {
    let v = JsonValue::Str(String::from("hi"));
    assert_eq!(v.as_str().map(|s| s.as_str()), Some("hi"));
    assert!(v.as_int().is_none());
    assert!(v.as_array().is_none());
    assert_eq!(JsonValue::Int(7).as_int(), Some(7));
    assert_eq!(
        JsonValue::Int(7).as_number(),
        Some(FixedDecimal { mantissa: 7, scale: 0 })
    );
    assert_eq!(
        JsonValue::Num(FixedDecimal { mantissa: 45, scale: 1 }).as_number(),
        Some(FixedDecimal { mantissa: 45, scale: 1 })
    );
}

#[test]
fn string_equality_is_by_characters() {
    assert!(str_eq("abc", "abc"));
    assert!(!str_eq("abc", "abd"));
    assert!(!str_eq("abc", "ab"));
    assert!(str_eq("", ""));
}

#[test]
fn case_insensitive_containment() {
    assert!(contains_ci("Tom's Diner", "tom"));
    assert!(contains_ci("Tom's Diner", "DINER"));
    assert!(contains_ci("anything", ""));
    assert!(!contains_ci("Pizza Palace", "burger"));
    assert!(!contains_ci("ab", "abc"));
}

#[test]
fn image_url_concatenates_domain_and_path() {
    let img = make_restaurant_image("maps.example.com", "/photo/ref1");
    assert_eq!(img.image_url, "maps.example.com/photo/ref1");
}

#[test]
fn pool_capacity_is_twice_the_cores() {
    assert_eq!(pool_size(1), 2);
    assert_eq!(pool_size(8), 16);
    assert_eq!(pool_size(0), 0);
}

#[test]
fn decimal_integer_accessor() {
    assert_eq!(FixedDecimal::from_int(4).as_integer(), Some(4));
    assert_eq!(FixedDecimal { mantissa: 45, scale: 1 }.as_integer(), None);
}
