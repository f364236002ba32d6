//! Statement builders.
//!
//! Every statement is parameterized — values travel as parameters, never
//! spliced into the text — and each builder's contract pins the exact text
//! and the exact parameters. The whole normalized batch goes to the store
//! as one `UNNEST` insert; an empty batch builds no statement at all.

use vstd::prelude::*;
use crate::codec::{
    bookmark_params, bookmark_row_matches, photo_dims_fit, rating_params, rating_row_matches,
    reservation_params, reservation_row_matches, ts_cell_matches, ts_fits, vote_params,
    vote_row_matches, SqlValue,
};
use crate::decimal::FixedDecimal;
use crate::errors::RepoError;
use crate::models::{Bookmark, Reservation, Restaurant, RestaurantRating, RestaurantView, VoteHistory};
use crate::timestamp::TimestampRepr;

verus! {

/// One ready statement: its text and its parameters, in order.
#[derive(Debug, PartialEq)]
pub struct Statement {
    pub text: String,
    pub params: Vec<SqlValue>,
}

/// Whether nine array parameters carry, column by column, the fields of
/// the batch of place records.
pub open spec fn batch_params_match(params: Seq<SqlValue>, batch: Seq<RestaurantView>) -> bool {
    &&& params.len() == 9
    &&& params[0] matches SqlValue::TextArray(v) && v@.len() == batch.len() && (forall|i: int|
        0 <= i < batch.len() ==> v.deep_view()[i] == #[trigger] batch[i].place_id)
    &&& params[1] matches SqlValue::TextArray(v) && v@.len() == batch.len() && (forall|i: int|
        0 <= i < batch.len() ==> v.deep_view()[i] == #[trigger] batch[i].name)
    &&& params[2] matches SqlValue::I32Array(v) && v@.len() == batch.len() && (forall|i: int|
        0 <= i < batch.len() ==> v@[i] as int == #[trigger] batch[i].photos.height)
    &&& params[3] matches SqlValue::I32Array(v) && v@.len() == batch.len() && (forall|i: int|
        0 <= i < batch.len() ==> v@[i] as int == #[trigger] batch[i].photos.width)
    &&& params[4] matches SqlValue::TextArray(v) && v@.len() == batch.len() && (forall|i: int|
        0 <= i < batch.len() ==> v.deep_view()[i] == #[trigger] batch[i].photos.photo_reference)
    &&& params[5] matches SqlValue::DecimalArray(v) && v@.len() == batch.len() && (forall|i: int|
        0 <= i < batch.len() ==> v@[i] == #[trigger] batch[i].rating)
    &&& params[6] matches SqlValue::TextArray(v) && v@.len() == batch.len() && (forall|i: int|
        0 <= i < batch.len() ==> v.deep_view()[i] == #[trigger] batch[i].vicinity)
    &&& params[7] matches SqlValue::DecimalArray(v) && v@.len() == batch.len() && (forall|i: int|
        0 <= i < batch.len() ==> v@[i] == #[trigger] batch[i].geometry.lat)
    &&& params[8] matches SqlValue::DecimalArray(v) && v@.len() == batch.len() && (forall|i: int|
        0 <= i < batch.len() ==> v@[i] == #[trigger] batch[i].geometry.lng)
}

/// Builds the one statement that inserts a whole normalized batch,
/// ignoring conflicting identifiers. An empty batch builds no statement —
/// it must not reach the store — and a photo dimension that cannot fit its
/// 32-bit column is a failure, not a wrap.
pub fn store_browsed_places_statement(batch: &Vec<Restaurant>) -> (r: Result<
    Option<Statement>,
    RepoError,
>)
    ensures
        r matches Ok(None) <==> batch@.len() == 0,
        r is Err <==> (batch@.len() > 0 && exists|i: int|
            0 <= i < batch@.len() && !photo_dims_fit(#[trigger] batch.deep_view()[i])),
        r matches Err(e) ==> e matches RepoError::StorageFailure(m) && m@
            == "photo dimension out of 32-bit range"@,
        r matches Ok(Some(st)) ==> st.text@
            == "INSERT INTO places (place_id, name, photo_height, photo_width, photo_reference, rating, vicinity, lat, lng) SELECT * FROM UNNEST($1::text[], $2::text[], $3::int4[], $4::int4[], $5::text[], $6::float8[], $7::text[], $8::float8[], $9::float8[]) ON CONFLICT DO NOTHING;"@
            && batch_params_match(st.params@, batch.deep_view()),
{
    let n = batch.len();
    if n == 0 {
        return Ok(None);
    }
    let mut ids: Vec<String> = Vec::new();
    let mut names: Vec<String> = Vec::new();
    let mut heights: Vec<i32> = Vec::new();
    let mut widths: Vec<i32> = Vec::new();
    let mut refs: Vec<String> = Vec::new();
    let mut ratings: Vec<FixedDecimal> = Vec::new();
    let mut vics: Vec<String> = Vec::new();
    let mut lats: Vec<FixedDecimal> = Vec::new();
    let mut lngs: Vec<FixedDecimal> = Vec::new();
    let mut i: usize = 0;
    while i < n
        invariant
            n == batch@.len(),
            0 <= i <= n,
            ids@.len() == i && names@.len() == i && heights@.len() == i && widths@.len() == i,
            refs@.len() == i && ratings@.len() == i && vics@.len() == i && lats@.len() == i,
            lngs@.len() == i,
            forall|j: int| 0 <= j < i ==> photo_dims_fit(#[trigger] batch.deep_view()[j]),
            forall|j: int| 0 <= j < i ==> ids.deep_view()[j] == #[trigger] batch.deep_view()[j].place_id,
            forall|j: int| 0 <= j < i ==> names.deep_view()[j] == #[trigger] batch.deep_view()[j].name,
            forall|j: int|
                0 <= j < i ==> heights@[j] as int == #[trigger] batch.deep_view()[j].photos.height,
            forall|j: int|
                0 <= j < i ==> widths@[j] as int == #[trigger] batch.deep_view()[j].photos.width,
            forall|j: int|
                0 <= j < i ==> refs.deep_view()[j]
                    == (#[trigger] batch.deep_view()[j]).photos.photo_reference,
            forall|j: int| 0 <= j < i ==> ratings@[j] == #[trigger] batch.deep_view()[j].rating,
            forall|j: int| 0 <= j < i ==> vics.deep_view()[j] == #[trigger] batch.deep_view()[j].vicinity,
            forall|j: int| 0 <= j < i ==> lats@[j] == #[trigger] batch.deep_view()[j].geometry.lat,
            forall|j: int| 0 <= j < i ==> lngs@[j] == #[trigger] batch.deep_view()[j].geometry.lng,
        decreases n - i,
    {
        let rest = &batch[i];
        if !(i32::MIN as i64 <= rest.photos.height && rest.photos.height <= i32::MAX as i64
            && i32::MIN as i64 <= rest.photos.width && rest.photos.width <= i32::MAX as i64) {
            proof {
                assert(!photo_dims_fit(batch.deep_view()[i as int]));
            }
            return Err(RepoError::StorageFailure(String::from_str(
                "photo dimension out of 32-bit range",
            )));
        }
        ids.push(rest.place_id.clone());
        names.push(rest.name.clone());
        heights.push(rest.photos.height as i32);
        widths.push(rest.photos.width as i32);
        refs.push(rest.photos.photo_reference.clone());
        ratings.push(rest.rating);
        vics.push(rest.vicinity.clone());
        lats.push(rest.geometry.lat);
        lngs.push(rest.geometry.lng);
        i = i + 1;
    }
    Ok(
        Some(
            Statement {
                text: String::from_str(
                    "INSERT INTO places (place_id, name, photo_height, photo_width, photo_reference, rating, vicinity, lat, lng) SELECT * FROM UNNEST($1::text[], $2::text[], $3::int4[], $4::int4[], $5::text[], $6::float8[], $7::text[], $8::float8[], $9::float8[]) ON CONFLICT DO NOTHING;",
                ),
                params: vec![
                    SqlValue::TextArray(ids),
                    SqlValue::TextArray(names),
                    SqlValue::I32Array(heights),
                    SqlValue::I32Array(widths),
                    SqlValue::TextArray(refs),
                    SqlValue::DecimalArray(ratings),
                    SqlValue::TextArray(vics),
                    SqlValue::DecimalArray(lats),
                    SqlValue::DecimalArray(lngs),
                ],
            },
        ),
    )
}

/// Builds the lookup of one cached place by identifier.
pub fn retrieve_restaurant_statement(place_id: &String) -> (st: Statement)
    ensures
        st.text@
            == "SELECT place_id, name, photo_height, photo_width, photo_reference, rating, vicinity, lat, lng FROM places WHERE place_id = $1 LIMIT 1;"@,
        st.params@.len() == 1,
        st.params@[0] matches SqlValue::Text(s) && s@ == place_id@,
{
    Statement {
        text: String::from_str(
            "SELECT place_id, name, photo_height, photo_width, photo_reference, rating, vicinity, lat, lng FROM places WHERE place_id = $1 LIMIT 1;",
        ),
        params: vec![SqlValue::Text(place_id.clone())],
    }
}

/// Builds the case-insensitive name search; the query travels as a
/// parameter and is wrapped by the pattern inside the statement.
pub fn search_for_restaurants_statement(restaurant_name: &String) -> (st: Statement)
    ensures
        st.text@
            == "SELECT place_id, name, photo_height, photo_width, photo_reference, rating, vicinity, lat, lng FROM places WHERE name ILIKE '%' || $1 || '%';"@,
        st.params@.len() == 1,
        st.params@[0] matches SqlValue::Text(s) && s@ == restaurant_name@,
{
    Statement {
        text: String::from_str(
            "SELECT place_id, name, photo_height, photo_width, photo_reference, rating, vicinity, lat, lng FROM places WHERE name ILIKE '%' || $1 || '%';",
        ),
        params: vec![SqlValue::Text(restaurant_name.clone())],
    }
}

/// Builds the insert-or-ignore of one bookmark.
pub fn bookmark_place_statement(
    repr: TimestampRepr,
    user_id: &String,
    place_id: &String,
    timestamp: i64,
) -> (r: Option<Statement>)
    ensures
        r is Some <==> ts_fits(repr, timestamp as int),
        r matches Some(st) ==> st.text@
            == "INSERT INTO user_favourite_places (user_id, place_id, timestamp) VALUES ($1, $2, $3) ON CONFLICT DO NOTHING;"@
            && bookmark_row_matches(
            repr,
            st.params@,
            crate::models::BookmarkView {
                user_id: user_id@,
                place_id: place_id@,
                timestamp: timestamp as int,
            },
        ),
{
    let b = Bookmark { user_id: user_id.clone(), place_id: place_id.clone(), timestamp };
    let params = match bookmark_params(repr, &b) {
        Some(p) => p,
        None => { return None; },
    };
    Some(
        Statement {
            text: String::from_str(
                "INSERT INTO user_favourite_places (user_id, place_id, timestamp) VALUES ($1, $2, $3) ON CONFLICT DO NOTHING;",
            ),
            params,
        },
    )
}

/// Builds the removal of one bookmark; deleting an absent pair is a
/// successful no-op at the store.
pub fn remove_bookmark_statement(user_id: &String, place_id: &String) -> (st: Statement)
    ensures
        st.text@ == "DELETE FROM user_favourite_places WHERE user_id = $1 AND place_id = $2;"@,
        st.params@.len() == 2,
        st.params@[0] matches SqlValue::Text(s) && s@ == user_id@,
        st.params@[1] matches SqlValue::Text(s) && s@ == place_id@,
{
    Statement {
        text: String::from_str(
            "DELETE FROM user_favourite_places WHERE user_id = $1 AND place_id = $2;",
        ),
        params: vec![SqlValue::Text(user_id.clone()), SqlValue::Text(place_id.clone())],
    }
}

/// Builds the listing of the places one user has bookmarked.
pub fn retrieve_bookmarked_places_statement(user_id: &String) -> (st: Statement)
    ensures
        st.text@
            == "SELECT place_id, name, photo_height, photo_width, photo_reference, rating, vicinity, lat, lng FROM places WHERE place_id IN (SELECT place_id FROM user_favourite_places WHERE user_id = $1);"@,
        st.params@.len() == 1,
        st.params@[0] matches SqlValue::Text(s) && s@ == user_id@,
{
    Statement {
        text: String::from_str(
            "SELECT place_id, name, photo_height, photo_width, photo_reference, rating, vicinity, lat, lng FROM places WHERE place_id IN (SELECT place_id FROM user_favourite_places WHERE user_id = $1);",
        ),
        params: vec![SqlValue::Text(user_id.clone())],
    }
}

/// Builds the insert-or-ignore of one review.
pub fn add_user_review_statement(
    repr: TimestampRepr,
    user_id: &String,
    place_id: &String,
    rating: FixedDecimal,
    description: &String,
    timestamp: i64,
) -> (r: Option<Statement>)
    ensures
        r is Some <==> ts_fits(repr, timestamp as int),
        r matches Some(st) ==> st.text@
            == "INSERT INTO user_reviews (user_id, place_id, rating, description, timestamp) VALUES ($1, $2, $3, $4, $5) ON CONFLICT DO NOTHING;"@
            && rating_row_matches(
            repr,
            st.params@,
            crate::models::RestaurantRatingView {
                user_id: user_id@,
                place_id: place_id@,
                rating,
                description: description@,
                timestamp: timestamp as int,
            },
        ),
{
    let rv = RestaurantRating {
        user_id: user_id.clone(),
        place_id: place_id.clone(),
        rating,
        description: description.clone(),
        timestamp,
    };
    let params = match rating_params(repr, &rv) {
        Some(p) => p,
        None => { return None; },
    };
    Some(
        Statement {
            text: String::from_str(
                "INSERT INTO user_reviews (user_id, place_id, rating, description, timestamp) VALUES ($1, $2, $3, $4, $5) ON CONFLICT DO NOTHING;",
            ),
            params,
        },
    )
}

/// Builds the in-place update of one review's rating, description and
/// timestamp.
pub fn update_review_statement(
    repr: TimestampRepr,
    user_id: &String,
    place_id: &String,
    rating: FixedDecimal,
    description: &String,
    timestamp: i64,
) -> (r: Option<Statement>)
    ensures
        r is Some <==> ts_fits(repr, timestamp as int),
        r matches Some(st) ==> st.text@
            == "UPDATE user_reviews SET rating = $3, description = $4, timestamp = $5 WHERE user_id = $1 AND place_id = $2;"@
            && rating_row_matches(
            repr,
            st.params@,
            crate::models::RestaurantRatingView {
                user_id: user_id@,
                place_id: place_id@,
                rating,
                description: description@,
                timestamp: timestamp as int,
            },
        ),
{
    let rv = RestaurantRating {
        user_id: user_id.clone(),
        place_id: place_id.clone(),
        rating,
        description: description.clone(),
        timestamp,
    };
    let params = match rating_params(repr, &rv) {
        Some(p) => p,
        None => { return None; },
    };
    Some(
        Statement {
            text: String::from_str(
                "UPDATE user_reviews SET rating = $3, description = $4, timestamp = $5 WHERE user_id = $1 AND place_id = $2;",
            ),
            params,
        },
    )
}

/// Builds the removal of one review.
pub fn remove_review_statement(user_id: &String, place_id: &String) -> (st: Statement)
    ensures
        st.text@ == "DELETE FROM user_reviews WHERE user_id = $1 AND place_id = $2;"@,
        st.params@.len() == 2,
        st.params@[0] matches SqlValue::Text(s) && s@ == user_id@,
        st.params@[1] matches SqlValue::Text(s) && s@ == place_id@,
{
    Statement {
        text: String::from_str("DELETE FROM user_reviews WHERE user_id = $1 AND place_id = $2;"),
        params: vec![SqlValue::Text(user_id.clone()), SqlValue::Text(place_id.clone())],
    }
}

/// Builds the listing of one place's reviews.
pub fn retrieve_restaurant_reviews_statement(place_id: &String) -> (st: Statement)
    ensures
        st.text@
            == "SELECT user_id, place_id, rating, description, timestamp FROM user_reviews WHERE place_id = $1;"@,
        st.params@.len() == 1,
        st.params@[0] matches SqlValue::Text(s) && s@ == place_id@,
{
    Statement {
        text: String::from_str(
            "SELECT user_id, place_id, rating, description, timestamp FROM user_reviews WHERE place_id = $1;",
        ),
        params: vec![SqlValue::Text(place_id.clone())],
    }
}

/// Builds the listing of one user's reviews.
pub fn get_user_reviews_statement(user_id: &String) -> (st: Statement)
    ensures
        st.text@
            == "SELECT user_id, place_id, rating, description, timestamp FROM user_reviews WHERE user_id = $1;"@,
        st.params@.len() == 1,
        st.params@[0] matches SqlValue::Text(s) && s@ == user_id@,
{
    Statement {
        text: String::from_str(
            "SELECT user_id, place_id, rating, description, timestamp FROM user_reviews WHERE user_id = $1;",
        ),
        params: vec![SqlValue::Text(user_id.clone())],
    }
}

/// Builds the insert of one reservation.
pub fn add_reservations_statement(
    repr: TimestampRepr,
    user_id: &String,
    place_id: &String,
    reservation_timestamp: i64,
    reservation_pax: u32,
) -> (r: Option<Statement>)
    ensures
        r is Some <==> (reservation_pax <= i32::MAX && ts_fits(
            repr,
            reservation_timestamp as int,
        )),
        r matches Some(st) ==> st.text@
            == "INSERT INTO user_reservations (user_id, place_id, reservation_timestamp, reservation_pax) VALUES ($1, $2, $3, $4);"@
            && reservation_row_matches(
            repr,
            st.params@,
            crate::models::ReservationView {
                user_id: user_id@,
                place_id: place_id@,
                reservation_timestamp: reservation_timestamp as int,
                reservation_pax: reservation_pax as int,
            },
        ),
{
    let rv = Reservation {
        user_id: user_id.clone(),
        place_id: place_id.clone(),
        reservation_timestamp,
        reservation_pax,
    };
    let params = match reservation_params(repr, &rv) {
        Some(p) => p,
        None => { return None; },
    };
    Some(
        Statement {
            text: String::from_str(
                "INSERT INTO user_reservations (user_id, place_id, reservation_timestamp, reservation_pax) VALUES ($1, $2, $3, $4);",
            ),
            params,
        },
    )
}

/// Builds the removal of every reservation one user holds at one place.
pub fn remove_reservation_statement(user_id: &String, place_id: &String) -> (st: Statement)
    ensures
        st.text@ == "DELETE FROM user_reservations WHERE user_id = $1 AND place_id = $2;"@,
        st.params@.len() == 2,
        st.params@[0] matches SqlValue::Text(s) && s@ == user_id@,
        st.params@[1] matches SqlValue::Text(s) && s@ == place_id@,
{
    Statement {
        text: String::from_str(
            "DELETE FROM user_reservations WHERE user_id = $1 AND place_id = $2;",
        ),
        params: vec![SqlValue::Text(user_id.clone()), SqlValue::Text(place_id.clone())],
    }
}

/// Builds the listing of one user's reservations still in the future at
/// query time `now`; the bound travels in the representation the
/// deployment stores, so the comparison is consistent with it.
pub fn retrieve_all_user_valid_reservations_statement(
    repr: TimestampRepr,
    user_id: &String,
    now: i64,
) -> (r: Option<Statement>)
    ensures
        r is Some <==> ts_fits(repr, now as int),
        r matches Some(st) ==> st.text@
            == "SELECT user_id, place_id, reservation_timestamp, reservation_pax FROM user_reservations WHERE user_id = $1 AND reservation_timestamp > $2;"@
            && st.params@.len() == 2 && (st.params@[0] matches SqlValue::Text(s) && s@ == user_id@)
            && ts_cell_matches(repr, st.params@[1], now as int),
{
    let bound = match crate::codec::encode_timestamp(repr, now) {
        Some(v) => v,
        None => { return None; },
    };
    Some(
        Statement {
            text: String::from_str(
                "SELECT user_id, place_id, reservation_timestamp, reservation_pax FROM user_reservations WHERE user_id = $1 AND reservation_timestamp > $2;",
            ),
            params: vec![SqlValue::Text(user_id.clone()), bound],
        },
    )
}

/// Builds the listing of all of one user's reservations.
pub fn retrieve_all_user_reservations_statement(user_id: &String) -> (st: Statement)
    ensures
        st.text@
            == "SELECT user_id, place_id, reservation_timestamp, reservation_pax FROM user_reservations WHERE user_id = $1;"@,
        st.params@.len() == 1,
        st.params@[0] matches SqlValue::Text(s) && s@ == user_id@,
{
    Statement {
        text: String::from_str(
            "SELECT user_id, place_id, reservation_timestamp, reservation_pax FROM user_reservations WHERE user_id = $1;",
        ),
        params: vec![SqlValue::Text(user_id.clone())],
    }
}

/// Builds the append of one voting session.
pub fn store_vote_history_statement(
    repr: TimestampRepr,
    user_ids: &Vec<String>,
    voted_places: &Vec<String>,
    vote_session_timestamp: i64,
) -> (r: Option<Statement>)
    ensures
        r is Some <==> ts_fits(repr, vote_session_timestamp as int),
        r matches Some(st) ==> st.text@
            == "INSERT INTO voting_history (voted_places, vote_timestamp, voters) VALUES ($1::jsonb[], $2, $3::text[]);"@
            && vote_row_matches(
            repr,
            st.params@,
            crate::models::VoteHistoryView {
                user_ids: user_ids.deep_view(),
                vote_timestamp: vote_session_timestamp as int,
                voted_places: voted_places.deep_view(),
            },
        ),
{
    let vh = VoteHistory {
        user_ids: crate::models::clone_string_vec(user_ids),
        vote_timestamp: vote_session_timestamp,
        voted_places: crate::models::clone_string_vec(voted_places),
    };
    let params = match vote_params(repr, &vh) {
        Some(p) => p,
        None => { return None; },
    };
    Some(
        Statement {
            text: String::from_str(
                "INSERT INTO voting_history (voted_places, vote_timestamp, voters) VALUES ($1::jsonb[], $2, $3::text[]);",
            ),
            params,
        },
    )
}

/// Builds the listing of the voting sessions one user took part in.
pub fn retrieve_user_vote_history_statement(user_id: &String) -> (st: Statement)
    ensures
        st.text@
            == "SELECT voted_places::text[], vote_timestamp, voters FROM voting_history WHERE $1 = ANY(voters);"@,
        st.params@.len() == 1,
        st.params@[0] matches SqlValue::Text(s) && s@ == user_id@,
{
    Statement {
        text: String::from_str(
            "SELECT voted_places::text[], vote_timestamp, voters FROM voting_history WHERE $1 = ANY(voters);",
        ),
        params: vec![SqlValue::Text(user_id.clone())],
    }
}

} // verus!
