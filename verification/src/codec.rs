//! The row codec.
//!
//! Stored rows are modelled as sequences of typed cells. For each entity
//! there is a decoder from a row to the domain record and an encoder from
//! the record to the statement parameters, both pinned to one row-shape
//! relation, so that decoding what was encoded gives the record back.
//! Integer columns are 32-bit at rest and widened to 64-bit in memory;
//! writing checks the narrowing and never wraps. Timestamps follow the one
//! [`TimestampRepr`] a deployment uses.

use vstd::prelude::*;
use crate::decimal::FixedDecimal;
use crate::models::{
    clone_string_vec, Bookmark, BookmarkView, Location, Photo, Reservation, ReservationView,
    Restaurant, RestaurantRating, RestaurantRatingView, RestaurantView, VoteHistory,
    VoteHistoryView,
};
use crate::timestamp::{
    calendar_string_of, format_calendar, lemma_calendar_string_injective, parse_calendar,
    TimestampRepr, CALENDAR_TS_MAX,
};

verus! {

/// One stored cell: a statement parameter or a column of a result row.
#[derive(Debug, PartialEq)]
pub enum SqlValue {
    Null,
    I32(i32),
    I64(i64),
    Text(String),
    Decimal(FixedDecimal),
    TextArray(Vec<String>),
    I32Array(Vec<i32>),
    DecimalArray(Vec<FixedDecimal>),
}

/// Whether cell `v` stores the timestamp `t` under representation `repr`.
pub open spec fn ts_cell_matches(repr: TimestampRepr, v: SqlValue, t: int) -> bool {
    match repr {
        TimestampRepr::Epoch => v matches SqlValue::I32(x) && x as int == t,
        TimestampRepr::Calendar => v matches SqlValue::Text(s) && 0 <= t <= CALENDAR_TS_MAX as int
            && s@ == calendar_string_of(t),
    }
}

/// Whether timestamp `t` fits representation `repr` without wrapping.
pub open spec fn ts_fits(repr: TimestampRepr, t: int) -> bool {
    match repr {
        TimestampRepr::Epoch => i32::MIN <= t <= i32::MAX,
        TimestampRepr::Calendar => 0 <= t <= CALENDAR_TS_MAX as int,
    }
}

/// Renders a timestamp as a cell under the chosen representation; fails —
/// rather than wrapping — when the value does not fit the representation.
pub fn encode_timestamp(repr: TimestampRepr, t: i64) -> (r: Option<SqlValue>)
    ensures
        r is Some <==> ts_fits(repr, t as int),
        r matches Some(v) ==> ts_cell_matches(repr, v, t as int),
{
    match repr {
        TimestampRepr::Epoch => {
            if i32::MIN as i64 <= t && t <= i32::MAX as i64 {
                Some(SqlValue::I32(t as i32))
            } else {
                None
            }
        },
        TimestampRepr::Calendar => {
            if 0 <= t && t <= CALENDAR_TS_MAX {
                Some(SqlValue::Text(format_calendar(t)))
            } else {
                None
            }
        },
    }
}

/// Reads a timestamp back out of a cell; exactly the cells that store
/// some timestamp under `repr` are accepted, and the stored timestamp
/// comes back.
pub fn decode_timestamp(repr: TimestampRepr, v: &SqlValue) -> (r: Option<i64>)
    ensures
        r matches Some(t) ==> ts_cell_matches(repr, *v, t as int),
        forall|t0: i64| #[trigger] ts_cell_matches(repr, *v, t0 as int) ==> r == Some(t0),
{
    match repr {
        TimestampRepr::Epoch => {
            match v {
                SqlValue::I32(x) => Some(*x as i64),
                _ => None,
            }
        },
        TimestampRepr::Calendar => {
            match v {
                SqlValue::Text(s) => parse_calendar(s.as_str()),
                _ => None,
            }
        },
    }
}

/// The same cell stores at most one timestamp.
pub proof fn lemma_ts_cell_functional(repr: TimestampRepr, v: SqlValue, t1: int, t2: int)
    requires
        ts_cell_matches(repr, v, t1),
        ts_cell_matches(repr, v, t2),
    ensures
        t1 == t2,
{
    if repr is Calendar {
        lemma_calendar_string_injective(t1, t2);
    }
}

/// Whether `row` stores the place record `r`: the columns of the `places`
/// table in order — identifier, name, photo height and width (32-bit),
/// photo reference, rating, vicinity, latitude, longitude.
pub open spec fn restaurant_row_matches(row: Seq<SqlValue>, r: RestaurantView) -> bool {
    &&& row.len() == 9
    &&& row[0] matches SqlValue::Text(s) && s@ == r.place_id
    &&& row[1] matches SqlValue::Text(s) && s@ == r.name
    &&& row[2] matches SqlValue::I32(h) && h as int == r.photos.height
    &&& row[3] matches SqlValue::I32(w) && w as int == r.photos.width
    &&& row[4] matches SqlValue::Text(s) && s@ == r.photos.photo_reference
    &&& row[5] matches SqlValue::Decimal(d) && d == r.rating
    &&& row[6] matches SqlValue::Text(s) && s@ == r.vicinity
    &&& row[7] matches SqlValue::Decimal(d) && d == r.geometry.lat
    &&& row[8] matches SqlValue::Decimal(d) && d == r.geometry.lng
}

/// Whether a place record's photo dimensions fit their 32-bit columns.
pub open spec fn photo_dims_fit(r: RestaurantView) -> bool {
    i32::MIN <= r.photos.height <= i32::MAX && i32::MIN <= r.photos.width <= i32::MAX
}

/// Whether a row has the shape of a `places` row.
pub open spec fn restaurant_row_ok(row: Seq<SqlValue>) -> bool {
    &&& row.len() == 9
    &&& row[0] is Text
    &&& row[1] is Text
    &&& row[2] is I32
    &&& row[3] is I32
    &&& row[4] is Text
    &&& row[5] is Decimal
    &&& row[6] is Text
    &&& row[7] is Decimal
    &&& row[8] is Decimal
}

/// Decodes one `places` row into its place record, widening the 32-bit
/// photo columns.
pub fn parse_row_into_restaurant(row: &Vec<SqlValue>) -> (r: Option<Restaurant>)
    ensures
        r is Some <==> restaurant_row_ok(row@),
        r matches Some(rest) ==> restaurant_row_matches(row@, rest@),
{
    if row.len() != 9 {
        return None;
    }
    let place_id = match &row[0] {
        SqlValue::Text(s) => s.clone(),
        _ => { return None; },
    };
    let name = match &row[1] {
        SqlValue::Text(s) => s.clone(),
        _ => { return None; },
    };
    let height = match &row[2] {
        SqlValue::I32(h) => *h as i64,
        _ => { return None; },
    };
    let width = match &row[3] {
        SqlValue::I32(w) => *w as i64,
        _ => { return None; },
    };
    let photo_reference = match &row[4] {
        SqlValue::Text(s) => s.clone(),
        _ => { return None; },
    };
    let rating = match &row[5] {
        SqlValue::Decimal(d) => *d,
        _ => { return None; },
    };
    let vicinity = match &row[6] {
        SqlValue::Text(s) => s.clone(),
        _ => { return None; },
    };
    let lat = match &row[7] {
        SqlValue::Decimal(d) => *d,
        _ => { return None; },
    };
    let lng = match &row[8] {
        SqlValue::Decimal(d) => *d,
        _ => { return None; },
    };
    Some(
        Restaurant {
            place_id,
            name,
            photos: Photo { height, width, photo_reference },
            rating,
            vicinity,
            geometry: Location { lat, lng },
        },
    )
}

/// Renders a place record as `places` statement parameters; fails — rather
/// than wrapping — when a photo dimension does not fit its 32-bit column.
pub fn restaurant_params(r: &Restaurant) -> (out: Option<Vec<SqlValue>>)
    ensures
        out is Some <==> photo_dims_fit(r@),
        out matches Some(row) ==> restaurant_row_matches(row@, r@),
{
    if !(i32::MIN as i64 <= r.photos.height && r.photos.height <= i32::MAX as i64) {
        return None;
    }
    if !(i32::MIN as i64 <= r.photos.width && r.photos.width <= i32::MAX as i64) {
        return None;
    }
    Some(
        vec![
            SqlValue::Text(r.place_id.clone()),
            SqlValue::Text(r.name.clone()),
            SqlValue::I32(r.photos.height as i32),
            SqlValue::I32(r.photos.width as i32),
            SqlValue::Text(r.photos.photo_reference.clone()),
            SqlValue::Decimal(r.rating),
            SqlValue::Text(r.vicinity.clone()),
            SqlValue::Decimal(r.geometry.lat),
            SqlValue::Decimal(r.geometry.lng),
        ],
    )
}

/// A row stores at most one place record.
pub proof fn lemma_restaurant_row_functional(row: Seq<SqlValue>, r1: RestaurantView, r2: RestaurantView)
    requires
        restaurant_row_matches(row, r1),
        restaurant_row_matches(row, r2),
    ensures
        r1 == r2,
{
}

/// Whether `row` stores the review `rv`: the columns of the
/// `user_reviews` table in order — user, place, rating, description,
/// timestamp.
pub open spec fn rating_row_matches(
    repr: TimestampRepr,
    row: Seq<SqlValue>,
    rv: RestaurantRatingView,
) -> bool {
    &&& row.len() == 5
    &&& row[0] matches SqlValue::Text(s) && s@ == rv.user_id
    &&& row[1] matches SqlValue::Text(s) && s@ == rv.place_id
    &&& row[2] matches SqlValue::Decimal(d) && d == rv.rating
    &&& row[3] matches SqlValue::Text(s) && s@ == rv.description
    &&& ts_cell_matches(repr, row[4], rv.timestamp)
}

/// Whether a row has the shape of a `user_reviews` row, its timestamp
/// cell storing some timestamp under `repr`.
pub open spec fn rating_row_ok(repr: TimestampRepr, row: Seq<SqlValue>) -> bool {
    &&& row.len() == 5
    &&& row[0] is Text
    &&& row[1] is Text
    &&& row[2] is Decimal
    &&& row[3] is Text
    &&& exists|t: int| #[trigger] ts_cell_matches(repr, row[4], t)
}

/// Decodes one `user_reviews` row into its review record.
pub fn parse_row_into_restaurant_rating(repr: TimestampRepr, row: &Vec<SqlValue>) -> (r: Option<
    RestaurantRating,
>)
    ensures
        r is Some <==> rating_row_ok(repr, row@),
        r matches Some(rv) ==> rating_row_matches(repr, row@, rv@),
{
    if row.len() != 5 {
        return None;
    }
    let user_id = match &row[0] {
        SqlValue::Text(s) => s.clone(),
        _ => { return None; },
    };
    let place_id = match &row[1] {
        SqlValue::Text(s) => s.clone(),
        _ => { return None; },
    };
    let rating = match &row[2] {
        SqlValue::Decimal(d) => *d,
        _ => { return None; },
    };
    let description = match &row[3] {
        SqlValue::Text(s) => s.clone(),
        _ => { return None; },
    };
    let timestamp = match decode_timestamp(repr, &row[4]) {
        Some(t) => t,
        None => {
            proof {
                if exists|t: int| #[trigger] ts_cell_matches(repr, row@[4], t) {
                    let t = choose|t: int| #[trigger] ts_cell_matches(repr, row@[4], t);
                    if repr is Epoch {
                        assert(ts_cell_matches(repr, row@[4], (t as i64) as int));
                    } else {
                        assert(ts_cell_matches(repr, row@[4], (t as i64) as int));
                    }
                }
            }
            return None;
        },
    };
    proof {
        assert(ts_cell_matches(repr, row@[4], timestamp as int));
    }
    Some(RestaurantRating { user_id, place_id, rating, description, timestamp })
}

/// Renders a review as `user_reviews` statement parameters; fails when
/// the timestamp does not fit the representation.
pub fn rating_params(repr: TimestampRepr, rv: &RestaurantRating) -> (out: Option<Vec<SqlValue>>)
    ensures
        out is Some <==> ts_fits(repr, rv.timestamp as int),
        out matches Some(row) ==> rating_row_matches(repr, row@, rv@),
{
    let ts = match encode_timestamp(repr, rv.timestamp) {
        Some(v) => v,
        None => { return None; },
    };
    Some(
        vec![
            SqlValue::Text(rv.user_id.clone()),
            SqlValue::Text(rv.place_id.clone()),
            SqlValue::Decimal(rv.rating),
            SqlValue::Text(rv.description.clone()),
            ts,
        ],
    )
}

/// A row stores at most one review record.
pub proof fn lemma_rating_row_functional(
    repr: TimestampRepr,
    row: Seq<SqlValue>,
    r1: RestaurantRatingView,
    r2: RestaurantRatingView,
)
    requires
        rating_row_matches(repr, row, r1),
        rating_row_matches(repr, row, r2),
    ensures
        r1 == r2,
{
    lemma_ts_cell_functional(repr, row[4], r1.timestamp, r2.timestamp);
}

/// Whether `row` stores the reservation `rv`: the columns of the
/// `user_reservations` table in order — user, place, timestamp, party
/// size (32-bit, non-negative).
pub open spec fn reservation_row_matches(
    repr: TimestampRepr,
    row: Seq<SqlValue>,
    rv: ReservationView,
) -> bool {
    &&& row.len() == 4
    &&& row[0] matches SqlValue::Text(s) && s@ == rv.user_id
    &&& row[1] matches SqlValue::Text(s) && s@ == rv.place_id
    &&& ts_cell_matches(repr, row[2], rv.reservation_timestamp)
    &&& row[3] matches SqlValue::I32(x) && x as int == rv.reservation_pax && x >= 0
}

/// Whether a row has the shape of a `user_reservations` row: its
/// timestamp cell stores some timestamp and its party size is
/// non-negative, so widening cannot wrap.
pub open spec fn reservation_row_ok(repr: TimestampRepr, row: Seq<SqlValue>) -> bool {
    &&& row.len() == 4
    &&& row[0] is Text
    &&& row[1] is Text
    &&& exists|t: int| #[trigger] ts_cell_matches(repr, row[2], t)
    &&& row[3] matches SqlValue::I32(x) && x >= 0
}

/// Decodes one `user_reservations` row into its reservation record.
pub fn parse_row_into_restaurant_reservation(repr: TimestampRepr, row: &Vec<SqlValue>) -> (r:
    Option<Reservation>)
    ensures
        r is Some <==> reservation_row_ok(repr, row@),
        r matches Some(rv) ==> reservation_row_matches(repr, row@, rv@),
{
    if row.len() != 4 {
        return None;
    }
    let user_id = match &row[0] {
        SqlValue::Text(s) => s.clone(),
        _ => { return None; },
    };
    let place_id = match &row[1] {
        SqlValue::Text(s) => s.clone(),
        _ => { return None; },
    };
    let reservation_timestamp = match decode_timestamp(repr, &row[2]) {
        Some(t) => t,
        None => {
            proof {
                if exists|t: int| #[trigger] ts_cell_matches(repr, row@[2], t) {
                    let t = choose|t: int| #[trigger] ts_cell_matches(repr, row@[2], t);
                    assert(ts_cell_matches(repr, row@[2], (t as i64) as int));
                }
            }
            return None;
        },
    };
    let reservation_pax = match &row[3] {
        SqlValue::I32(x) => {
            if *x < 0 {
                return None;
            }
            *x as u32
        },
        _ => { return None; },
    };
    proof {
        assert(ts_cell_matches(repr, row@[2], reservation_timestamp as int));
    }
    Some(Reservation { user_id, place_id, reservation_timestamp, reservation_pax })
}

/// Renders a reservation as `user_reservations` statement parameters;
/// fails when the timestamp or party size does not fit its column.
pub fn reservation_params(repr: TimestampRepr, rv: &Reservation) -> (out: Option<Vec<SqlValue>>)
    ensures
        out is Some <==> (rv.reservation_pax <= i32::MAX && ts_fits(
            repr,
            rv.reservation_timestamp as int,
        )),
        out matches Some(row) ==> reservation_row_matches(repr, row@, rv@),
{
    if rv.reservation_pax > i32::MAX as u32 {
        return None;
    }
    let ts = match encode_timestamp(repr, rv.reservation_timestamp) {
        Some(v) => v,
        None => { return None; },
    };
    Some(
        vec![
            SqlValue::Text(rv.user_id.clone()),
            SqlValue::Text(rv.place_id.clone()),
            ts,
            SqlValue::I32(rv.reservation_pax as i32),
        ],
    )
}

/// A row stores at most one reservation record.
pub proof fn lemma_reservation_row_functional(
    repr: TimestampRepr,
    row: Seq<SqlValue>,
    r1: ReservationView,
    r2: ReservationView,
)
    requires
        reservation_row_matches(repr, row, r1),
        reservation_row_matches(repr, row, r2),
    ensures
        r1 == r2,
{
    lemma_ts_cell_functional(repr, row[2], r1.reservation_timestamp, r2.reservation_timestamp);
}

/// Whether `row` stores the voting session `vh`: the columns of the
/// `voting_history` table in order — voted-place payloads, session
/// timestamp, participants.
pub open spec fn vote_row_matches(
    repr: TimestampRepr,
    row: Seq<SqlValue>,
    vh: VoteHistoryView,
) -> bool {
    &&& row.len() == 3
    &&& row[0] matches SqlValue::TextArray(v) && v.deep_view() == vh.voted_places
    &&& ts_cell_matches(repr, row[1], vh.vote_timestamp)
    &&& row[2] matches SqlValue::TextArray(v) && v.deep_view() == vh.user_ids
}

/// Whether a row has the shape of a `voting_history` row.
pub open spec fn vote_row_ok(repr: TimestampRepr, row: Seq<SqlValue>) -> bool {
    &&& row.len() == 3
    &&& row[0] is TextArray
    &&& exists|t: int| #[trigger] ts_cell_matches(repr, row[1], t)
    &&& row[2] is TextArray
}

/// Decodes one `voting_history` row into its session record.
pub fn parse_row_into_vote_history(repr: TimestampRepr, row: &Vec<SqlValue>) -> (r: Option<
    VoteHistory,
>)
    ensures
        r is Some <==> vote_row_ok(repr, row@),
        r matches Some(vh) ==> vote_row_matches(repr, row@, vh@),
{
    if row.len() != 3 {
        return None;
    }
    let voted_places = match &row[0] {
        SqlValue::TextArray(v) => clone_string_vec(v),
        _ => { return None; },
    };
    let vote_timestamp = match decode_timestamp(repr, &row[1]) {
        Some(t) => t,
        None => {
            proof {
                if exists|t: int| #[trigger] ts_cell_matches(repr, row@[1], t) {
                    let t = choose|t: int| #[trigger] ts_cell_matches(repr, row@[1], t);
                    assert(ts_cell_matches(repr, row@[1], (t as i64) as int));
                }
            }
            return None;
        },
    };
    let user_ids = match &row[2] {
        SqlValue::TextArray(v) => clone_string_vec(v),
        _ => { return None; },
    };
    proof {
        assert(ts_cell_matches(repr, row@[1], vote_timestamp as int));
    }
    Some(VoteHistory { user_ids, vote_timestamp, voted_places })
}

/// Renders a voting session as `voting_history` statement parameters;
/// fails when the timestamp does not fit the representation.
pub fn vote_params(repr: TimestampRepr, vh: &VoteHistory) -> (out: Option<Vec<SqlValue>>)
    ensures
        out is Some <==> ts_fits(repr, vh.vote_timestamp as int),
        out matches Some(row) ==> vote_row_matches(repr, row@, vh@),
{
    let ts = match encode_timestamp(repr, vh.vote_timestamp) {
        Some(v) => v,
        None => { return None; },
    };
    Some(
        vec![
            SqlValue::TextArray(clone_string_vec(&vh.voted_places)),
            ts,
            SqlValue::TextArray(clone_string_vec(&vh.user_ids)),
        ],
    )
}

/// Whether `row` stores the bookmark `b`: the columns of the
/// `user_favourite_places` table in order — user, place, timestamp.
pub open spec fn bookmark_row_matches(
    repr: TimestampRepr,
    row: Seq<SqlValue>,
    b: BookmarkView,
) -> bool {
    &&& row.len() == 3
    &&& row[0] matches SqlValue::Text(s) && s@ == b.user_id
    &&& row[1] matches SqlValue::Text(s) && s@ == b.place_id
    &&& ts_cell_matches(repr, row[2], b.timestamp)
}

/// Renders a bookmark as `user_favourite_places` statement parameters;
/// fails when the timestamp does not fit the representation.
pub fn bookmark_params(repr: TimestampRepr, b: &Bookmark) -> (out: Option<Vec<SqlValue>>)
    ensures
        out is Some <==> ts_fits(repr, b.timestamp as int),
        out matches Some(row) ==> bookmark_row_matches(repr, row@, b@),
{
    let ts = match encode_timestamp(repr, b.timestamp) {
        Some(v) => v,
        None => { return None; },
    };
    Some(
        vec![SqlValue::Text(b.user_id.clone()), SqlValue::Text(b.place_id.clone()), ts],
    )
}

} // verus!
