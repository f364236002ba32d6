use placerepo::codec::SqlValue;
use placerepo::decimal::FixedDecimal;
use placerepo::errors::RepoError;
use placerepo::models::{Location, Photo, Restaurant};
use placerepo::sql::{
    add_reservations_statement, add_user_review_statement, bookmark_place_statement,
    remove_bookmark_statement, retrieve_all_user_valid_reservations_statement,
    retrieve_restaurant_statement, search_for_restaurants_statement,
    store_browsed_places_statement, store_vote_history_statement, update_review_statement,
};
use placerepo::timestamp::TimestampRepr;

fn sample_restaurant(place_id: &str) -> Restaurant {
    Restaurant {
        place_id: String::from(place_id),
        name: String::from("Toms Diner"),
        photos: Photo {
            height: 100,
            width: 200,
            photo_reference: String::from("ref1"),
        },
        rating: FixedDecimal { mantissa: 45, scale: 1 },
        vicinity: String::from("Main St"),
        geometry: Location {
            lat: FixedDecimal { mantissa: 123, scale: 2 },
            lng: FixedDecimal { mantissa: 456, scale: 2 },
        },
    }
}

#[test]
fn empty_batch_builds_no_statement() {
    assert_eq!(store_browsed_places_statement(&vec![]), Ok(None));
}

#[test]
fn batch_insert_is_one_statement_with_nine_arrays() {
    let batch = vec![sample_restaurant("p1"), sample_restaurant("p2")];
    let st = store_browsed_places_statement(&batch).unwrap().unwrap();
    assert!(st.text.starts_with("INSERT INTO places"));
    assert!(st.text.contains("UNNEST"));
    assert!(st.text.ends_with("ON CONFLICT DO NOTHING;"));
    assert_eq!(st.params.len(), 9);
    match &st.params[0] {
        SqlValue::TextArray(ids) => assert_eq!(ids, &vec![String::from("p1"), String::from("p2")]),
        other => panic!("unexpected parameter: {:?}", other),
    }
    match &st.params[2] {
        SqlValue::I32Array(heights) => assert_eq!(heights, &vec![100, 100]),
        other => panic!("unexpected parameter: {:?}", other),
    }
}

#[test]
fn oversized_photo_dimension_is_a_storage_failure() {
    let mut bad = sample_restaurant("p1");
    bad.photos.width = (i32::MAX as i64) + 7;
    let r = store_browsed_places_statement(&vec![bad]);
    match r {
        Err(RepoError::StorageFailure(m)) => {
            assert_eq!(m, "photo dimension out of 32-bit range")
        },
        other => panic!("unexpected result: {:?}", other),
    }
}

#[test]
fn lookup_and_search_are_parameterized() {
    let st = retrieve_restaurant_statement(&String::from("p'; DROP TABLE places;--"));
    assert!(st.text.contains("WHERE place_id = $1"));
    assert!(!st.text.contains("DROP"));
    assert_eq!(
        st.params,
        vec![SqlValue::Text(String::from("p'; DROP TABLE places;--"))]
    );
    let st = search_for_restaurants_statement(&String::from("diner"));
    assert!(st.text.contains("ILIKE '%' || $1 || '%'"));
    assert_eq!(st.params, vec![SqlValue::Text(String::from("diner"))]);
}

#[test]
fn bookmark_statements_carry_the_pair() {
    let st = bookmark_place_statement(
        TimestampRepr::Epoch,
        &String::from("u1"),
        &String::from("p1"),
        1000,
    )
    .unwrap();
    assert!(st.text.contains("ON CONFLICT DO NOTHING"));
    assert_eq!(
        st.params,
        vec![
            SqlValue::Text(String::from("u1")),
            SqlValue::Text(String::from("p1")),
            SqlValue::I32(1000),
        ]
    );
    let st = remove_bookmark_statement(&String::from("u1"), &String::from("p1"));
    assert!(st.text.starts_with("DELETE FROM user_favourite_places"));
    assert_eq!(st.params.len(), 2);
}

#[test]
fn review_statements_share_the_row_shape() {
    let add = add_user_review_statement(
        TimestampRepr::Epoch,
        &String::from("u1"),
        &String::from("p1"),
        FixedDecimal { mantissa: 4, scale: 0 },
        &String::from("fine"),
        1000,
    )
    .unwrap();
    let update = update_review_statement(
        TimestampRepr::Epoch,
        &String::from("u1"),
        &String::from("p1"),
        FixedDecimal { mantissa: 4, scale: 0 },
        &String::from("fine"),
        1000,
    )
    .unwrap();
    assert_eq!(add.params, update.params);
    assert!(update.text.starts_with("UPDATE user_reviews SET"));
}

#[test]
fn reservation_bound_follows_the_representation() {
    let st = retrieve_all_user_valid_reservations_statement(
        TimestampRepr::Calendar,
        &String::from("u1"),
        0,
    )
    .unwrap();
    assert_eq!(
        st.params[1],
        SqlValue::Text(String::from("1970-01-01 00:00:00"))
    );
    assert!(retrieve_all_user_valid_reservations_statement(
        TimestampRepr::Calendar,
        &String::from("u1"),
        -1,
    )
    .is_none());
    let st = add_reservations_statement(
        TimestampRepr::Epoch,
        &String::from("u1"),
        &String::from("p1"),
        2000,
        4,
    )
    .unwrap();
    assert_eq!(st.params[3], SqlValue::I32(4));
}

#[test]
fn vote_history_statement_orders_columns_like_the_table() {
    let st = store_vote_history_statement(
        TimestampRepr::Epoch,
        &vec![String::from("u1")],
        &vec![String::from("{}")],
        777,
    )
    .unwrap();
    assert!(st.text.contains("(voted_places, vote_timestamp, voters)"));
    assert_eq!(st.params[0], SqlValue::TextArray(vec![String::from("{}")]));
    assert_eq!(st.params[1], SqlValue::I32(777));
    assert_eq!(st.params[2], SqlValue::TextArray(vec![String::from("u1")]));
}
