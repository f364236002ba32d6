//! The typed requests of the service boundary, and its configuration.
//!
//! The HTTP layer around the library parses queries and bodies into these
//! carriers and hands them over as plain values; the boundary's own copies
//! add its wire-format derives and convert with `From`.

use vstd::prelude::*;
use crate::decimal::FixedDecimal;

verus! {

/// Process configuration, loaded by the boundary from environment or
/// arguments.
#[derive(Debug, PartialEq)]
pub struct Config {
    pub environment: String,
    pub postgres_url: String,
    pub origin_urls: String,
    pub google_maps_api_url: String,
    pub google_api_key: String,
}

/// A bookmark request: which user bookmarks which place.
#[derive(Debug, PartialEq)]
pub struct BookmarkRestaurant {
    pub user_id: String,
    pub place_id: String,
}

/// Asks for the places one user has bookmarked.
#[derive(Debug, PartialEq)]
pub struct GetFavouriteRestaurantParam {
    pub user_id: String,
}

/// The forwarded place-search query.
#[derive(Debug, PartialEq)]
pub struct GooglePlacesApiParams {
    pub location: String,
    pub radius: String,
    pub place_type: String,
    pub minprice: String,
}

/// The forwarded photo lookup.
#[derive(Debug, PartialEq)]
pub struct GooglePlacesPhotoParams {
    pub photo_reference: String,
}

/// The forwarded place-details lookup.
#[derive(Debug, PartialEq)]
pub struct PlaceDetailsParam {
    pub place_id: String,
}

/// Asks for one cached place.
#[derive(Debug, PartialEq)]
pub struct GetRestaurantParam {
    pub place_id: String,
}

/// Asks for the cached places matching a name.
#[derive(Debug, PartialEq)]
pub struct SearchRestaurantParam {
    pub restaurant_name: String,
}

/// A reservation request.
#[derive(Debug, PartialEq)]
pub struct ReserveRestaurant {
    pub user_id: String,
    pub place_id: String,
    pub reservation_time: i64,
    pub reservation_pax: u32,
}

/// Asks to drop one user's reservations at one place.
#[derive(Debug, PartialEq)]
pub struct DeleteReservationQuery {
    pub user_id: String,
    pub place_id: String,
}

/// Asks for one user's reservations.
#[derive(Debug, PartialEq)]
pub struct GetReservationQuery {
    pub user_id: String,
}

/// A review request.
#[derive(Debug, PartialEq)]
pub struct Review {
    pub user_id: String,
    pub place_id: String,
    pub rating: FixedDecimal,
}

/// Asks to drop one user's review of one place.
#[derive(Debug, PartialEq)]
pub struct RemoveReviewQuery {
    pub user_id: String,
    pub place_id: String,
}

/// Asks for one place's reviews.
#[derive(Debug, PartialEq)]
pub struct RetrieveRestaurantReviews {
    pub place_id: String,
}

/// Asks for one user's reviews.
#[derive(Debug, PartialEq)]
pub struct RetrieveUserReviewsQuery {
    pub user_id: String,
}

/// A voting session to persist: participants and, in parallel, the voted
/// places as opaque serialized documents.
#[derive(Debug, PartialEq)]
pub struct VotingHistory {
    pub user_ids: Vec<String>,
    pub voted_places: Vec<String>,
    pub vote_timestamp: i64,
}

/// Asks for the voting sessions one user took part in.
#[derive(Debug, PartialEq)]
pub struct VoteHistoryParam {
    pub user_id: String,
}

/// The connection pool's capacity: twice the core count, saturating at
/// the pool's 32-bit limit.
pub fn pool_size(cores: usize) -> (r: u32)
    ensures
        2 * cores <= u32::MAX ==> r as int == 2 * cores,
        2 * cores > u32::MAX ==> r == u32::MAX,
{
    if cores <= (u32::MAX / 2) as usize {
        (cores as u32) * 2
    } else {
        u32::MAX
    }
}

} // verus!
