use placerepo::decimal::FixedDecimal;
use placerepo::models::{Location, Photo, Restaurant};
use placerepo::store::Store;

fn restaurant(place_id: &str, name: &str) -> Restaurant {
    Restaurant {
        place_id: String::from(place_id),
        name: String::from(name),
        photos: Photo {
            height: 100,
            width: 200,
            photo_reference: String::from("ref"),
        },
        rating: FixedDecimal { mantissa: 45, scale: 1 },
        vicinity: String::from("Main St"),
        geometry: Location {
            lat: FixedDecimal { mantissa: 123, scale: 2 },
            lng: FixedDecimal { mantissa: 456, scale: 2 },
        },
    }
}

#[test]
fn bookmarking_twice_lists_the_place_once() {
    let mut store = Store::new();
    store.store_browsed_places(vec![restaurant("p1", "Tom's")]);
    let user = String::from("u1");
    let place = String::from("p1");
    store.bookmark_place(&user, &place, 1000);
    store.bookmark_place(&user, &place, 2000);
    assert_eq!(store.bookmarks.len(), 1);
    let listed = store.retrieve_bookmarked_places(&user);
    assert_eq!(listed.len(), 1);
    assert_eq!(listed[0].place_id, "p1");
}

#[test]
fn removing_a_missing_bookmark_is_a_noop() {
    let mut store = Store::new();
    let user = String::from("u1");
    let other = String::from("u2");
    let place = String::from("p1");
    store.bookmark_place(&user, &place, 1000);
    store.remove_bookmark(&other, &place);
    assert_eq!(store.bookmarks.len(), 1);
    store.remove_bookmark(&user, &place);
    assert_eq!(store.bookmarks.len(), 0);
    store.remove_bookmark(&user, &place);
    assert_eq!(store.bookmarks.len(), 0);
}

#[test]
fn past_reservation_excluded_from_valid_included_in_all() {
    let mut store = Store::new();
    let user = String::from("u1");
    let place = String::from("p1");
    let now: i64 = 5000;
    store.add_reservations(&user, &place, 4000, 2);
    store.add_reservations(&user, &place, 6000, 4);
    let all = store.retrieve_all_user_reservations(&user);
    assert_eq!(all.len(), 2);
    let valid = store.retrieve_all_user_valid_reservations(&user, now);
    assert_eq!(valid.len(), 1);
    assert_eq!(valid[0].reservation_timestamp, 6000);
    assert_eq!(valid[0].reservation_pax, 4);
}

#[test]
fn updating_a_review_changes_exactly_one_row() {
    let mut store = Store::new();
    let user = String::from("u1");
    let other_user = String::from("u2");
    let place = String::from("p1");
    let desc = String::from("ok");
    store.add_user_review(&user, &place, FixedDecimal { mantissa: 3, scale: 0 }, &desc, 100);
    store.add_user_review(
        &other_user,
        &place,
        FixedDecimal { mantissa: 5, scale: 0 },
        &desc,
        150,
    );
    let better = String::from("better than expected");
    store.update_review(&user, &place, FixedDecimal { mantissa: 45, scale: 1 }, &better, 200);
    assert_eq!(store.reviews.len(), 2);
    let mine = store.get_user_reviews(&user);
    assert_eq!(mine.len(), 1);
    assert_eq!(mine[0].rating, FixedDecimal { mantissa: 45, scale: 1 });
    assert_eq!(mine[0].description, "better than expected");
    assert_eq!(mine[0].timestamp, 200);
    let theirs = store.get_user_reviews(&other_user);
    assert_eq!(theirs.len(), 1);
    assert_eq!(theirs[0].rating, FixedDecimal { mantissa: 5, scale: 0 });
}

#[test]
fn duplicate_review_insert_keeps_the_first() {
    let mut store = Store::new();
    let user = String::from("u1");
    let place = String::from("p1");
    let first = String::from("first");
    let second = String::from("second");
    store.add_user_review(&user, &place, FixedDecimal { mantissa: 2, scale: 0 }, &first, 100);
    store.add_user_review(&user, &place, FixedDecimal { mantissa: 4, scale: 0 }, &second, 200);
    let mine = store.get_user_reviews(&user);
    assert_eq!(mine.len(), 1);
    assert_eq!(mine[0].description, "first");
}

#[test]
fn review_removal_then_listing_by_place() {
    let mut store = Store::new();
    let user = String::from("u1");
    let place = String::from("p1");
    let desc = String::from("fine");
    store.add_user_review(&user, &place, FixedDecimal { mantissa: 4, scale: 0 }, &desc, 100);
    assert_eq!(store.retrieve_restaurant_reviews(&place).len(), 1);
    store.remove_review(&user, &place);
    assert_eq!(store.retrieve_restaurant_reviews(&place).len(), 0);
    store.remove_review(&user, &place);
    assert_eq!(store.retrieve_restaurant_reviews(&place).len(), 0);
}

#[test]
fn browsed_places_ignore_duplicate_identifiers() {
    let mut store = Store::new();
    store.store_browsed_places(vec![
        restaurant("p1", "Original"),
        restaurant("p1", "Imposter"),
        restaurant("p2", "Second"),
    ]);
    assert_eq!(store.places.len(), 2);
    let found = store.retrieve_restaurant(&String::from("p1")).unwrap();
    assert_eq!(found.name, "Original");
    store.store_browsed_places(vec![restaurant("p1", "Later")]);
    assert_eq!(store.places.len(), 2);
    assert_eq!(
        store.retrieve_restaurant(&String::from("p1")).unwrap().name,
        "Original"
    );
}

#[test]
fn empty_batch_changes_nothing() {
    let mut store = Store::new();
    store.store_browsed_places(vec![]);
    assert_eq!(store.places.len(), 0);
}

#[test]
fn missing_place_lookup_is_none() {
    let store = Store::new();
    assert!(store.retrieve_restaurant(&String::from("nope")).is_none());
}

#[test]
fn search_is_case_insensitive_substring() {
    let mut store = Store::new();
    store.store_browsed_places(vec![
        restaurant("p1", "Tom's Diner"),
        restaurant("p2", "Pizza Palace"),
        restaurant("p3", "dinette"),
    ]);
    let hits = store.search_for_restaurants(&String::from("DINE"));
    assert_eq!(hits.len(), 2);
    assert_eq!(hits[0].place_id, "p1");
    assert_eq!(hits[1].place_id, "p3");
    let none = store.search_for_restaurants(&String::from("burger"));
    assert_eq!(none.len(), 0);
    let all = store.search_for_restaurants(&String::from(""));
    assert_eq!(all.len(), 3);
}

#[test]
fn vote_history_queried_by_membership() {
    let mut store = Store::new();
    store.store_vote_history(
        vec![String::from("u1"), String::from("u2")],
        vec![String::from("{\"place\":\"p1\"}"), String::from("{\"place\":\"p2\"}")],
        777,
    );
    store.store_vote_history(vec![String::from("u3")], vec![], 888);
    let mine = store.retrieve_user_vote_history(&String::from("u2"));
    assert_eq!(mine.len(), 1);
    assert_eq!(mine[0].vote_timestamp, 777);
    assert_eq!(mine[0].voted_places.len(), 2);
    assert_eq!(mine[0].voted_places[0], "{\"place\":\"p1\"}");
    let nobody = store.retrieve_user_vote_history(&String::from("u4"));
    assert_eq!(nobody.len(), 0);
}

#[test]
fn reservation_removal_drops_every_row_of_the_pair() {
    let mut store = Store::new();
    let user = String::from("u1");
    let place = String::from("p1");
    let elsewhere = String::from("p2");
    store.add_reservations(&user, &place, 4000, 2);
    store.add_reservations(&user, &place, 6000, 3);
    store.add_reservations(&user, &elsewhere, 6000, 5);
    store.remove_reservation(&user, &place);
    let left = store.retrieve_all_user_reservations(&user);
    assert_eq!(left.len(), 1);
    assert_eq!(left[0].place_id, "p2");
}
