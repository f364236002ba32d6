//! Domain records and their mathematical views.
//!
//! Each stored entity has an executable record and a ghost view; contracts
//! throughout the crate speak of the views. Ratings and coordinates are
//! carried as [`FixedDecimal`] values, and timestamps as 64-bit epoch
//! seconds.

use vstd::prelude::*;
use crate::decimal::FixedDecimal;

verus! {

/// The representative photo of a place.
#[derive(Debug, PartialEq)]
pub struct Photo {
    pub height: i64,
    pub width: i64,
    pub photo_reference: String,
}

pub ghost struct PhotoView {
    pub height: int,
    pub width: int,
    pub photo_reference: Seq<char>,
}

impl View for Photo {
    type V = PhotoView;

    open spec fn view(&self) -> PhotoView {
        PhotoView {
            height: self.height as int,
            width: self.width as int,
            photo_reference: self.photo_reference@,
        }
    }
}

impl DeepView for Photo {
    type V = PhotoView;

    open spec fn deep_view(&self) -> PhotoView {
        self.view()
    }
}

/// A latitude/longitude pair.
#[derive(Clone, Copy, Debug, PartialEq, Eq, Structural)]
pub struct Location {
    pub lat: FixedDecimal,
    pub lng: FixedDecimal,
}

/// A cached place record from the external search API.
#[derive(Debug, PartialEq)]
pub struct Restaurant {
    pub place_id: String,
    pub name: String,
    pub photos: Photo,
    pub rating: FixedDecimal,
    pub vicinity: String,
    pub geometry: Location,
}

pub ghost struct RestaurantView {
    pub place_id: Seq<char>,
    pub name: Seq<char>,
    pub photos: PhotoView,
    pub rating: FixedDecimal,
    pub vicinity: Seq<char>,
    pub geometry: Location,
}

impl View for Restaurant {
    type V = RestaurantView;

    open spec fn view(&self) -> RestaurantView {
        RestaurantView {
            place_id: self.place_id@,
            name: self.name@,
            photos: self.photos@,
            rating: self.rating,
            vicinity: self.vicinity@,
            geometry: self.geometry,
        }
    }
}

impl DeepView for Restaurant {
    type V = RestaurantView;

    open spec fn deep_view(&self) -> RestaurantView {
        self.view()
    }
}

/// One user's review of one place.
#[derive(Debug, PartialEq)]
pub struct RestaurantRating {
    pub user_id: String,
    pub place_id: String,
    pub rating: FixedDecimal,
    pub description: String,
    pub timestamp: i64,
}

pub ghost struct RestaurantRatingView {
    pub user_id: Seq<char>,
    pub place_id: Seq<char>,
    pub rating: FixedDecimal,
    pub description: Seq<char>,
    pub timestamp: int,
}

impl View for RestaurantRating {
    type V = RestaurantRatingView;

    open spec fn view(&self) -> RestaurantRatingView {
        RestaurantRatingView {
            user_id: self.user_id@,
            place_id: self.place_id@,
            rating: self.rating,
            description: self.description@,
            timestamp: self.timestamp as int,
        }
    }
}

impl DeepView for RestaurantRating {
    type V = RestaurantRatingView;

    open spec fn deep_view(&self) -> RestaurantRatingView {
        self.view()
    }
}

/// A user's reservation at a place; a user may hold several at one place.
#[derive(Debug, PartialEq)]
pub struct Reservation {
    pub user_id: String,
    pub place_id: String,
    pub reservation_timestamp: i64,
    pub reservation_pax: u32,
}

pub ghost struct ReservationView {
    pub user_id: Seq<char>,
    pub place_id: Seq<char>,
    pub reservation_timestamp: int,
    pub reservation_pax: int,
}

impl View for Reservation {
    type V = ReservationView;

    open spec fn view(&self) -> ReservationView {
        ReservationView {
            user_id: self.user_id@,
            place_id: self.place_id@,
            reservation_timestamp: self.reservation_timestamp as int,
            reservation_pax: self.reservation_pax as int,
        }
    }
}

impl DeepView for Reservation {
    type V = ReservationView;

    open spec fn deep_view(&self) -> ReservationView {
        self.view()
    }
}

/// One voting session: the participants and, in parallel, the voted-place
/// payloads, kept as opaque serialized documents.
#[derive(Debug, PartialEq)]
pub struct VoteHistory {
    pub user_ids: Vec<String>,
    pub vote_timestamp: i64,
    pub voted_places: Vec<String>,
}

pub ghost struct VoteHistoryView {
    pub user_ids: Seq<Seq<char>>,
    pub vote_timestamp: int,
    pub voted_places: Seq<Seq<char>>,
}

impl View for VoteHistory {
    type V = VoteHistoryView;

    open spec fn view(&self) -> VoteHistoryView {
        VoteHistoryView {
            user_ids: self.user_ids.deep_view(),
            vote_timestamp: self.vote_timestamp as int,
            voted_places: self.voted_places.deep_view(),
        }
    }
}

impl DeepView for VoteHistory {
    type V = VoteHistoryView;

    open spec fn deep_view(&self) -> VoteHistoryView {
        self.view()
    }
}

/// A user's bookmark of a place, unique per `(user_id, place_id)`.
#[derive(Debug, PartialEq)]
pub struct Bookmark {
    pub user_id: String,
    pub place_id: String,
    pub timestamp: i64,
}

pub ghost struct BookmarkView {
    pub user_id: Seq<char>,
    pub place_id: Seq<char>,
    pub timestamp: int,
}

impl View for Bookmark {
    type V = BookmarkView;

    open spec fn view(&self) -> BookmarkView {
        BookmarkView {
            user_id: self.user_id@,
            place_id: self.place_id@,
            timestamp: self.timestamp as int,
        }
    }
}

impl DeepView for Bookmark {
    type V = BookmarkView;

    open spec fn deep_view(&self) -> BookmarkView {
        self.view()
    }
}

/// The resolved URL of a place photo.
#[derive(Debug, PartialEq)]
pub struct RestaurantImage {
    pub image_url: String,
}

/// Copies a vector of strings, keeping its view.
pub fn clone_string_vec(v: &Vec<String>) -> (r: Vec<String>)
    ensures
        r.deep_view() == v.deep_view(),
{
    let mut r: Vec<String> = Vec::new();
    let mut i: usize = 0;
    while i < v.len()
        invariant
            0 <= i <= v@.len(),
            r@.len() == i,
            forall|j: int| 0 <= j < i ==> r@[j]@ == v@[j]@,
        decreases v@.len() - i,
    {
        r.push(v[i].clone());
        i = i + 1;
    }
    proof {
        assert(r.deep_view() =~= v.deep_view());
    }
    r
}

impl Clone for Photo {
    /// Copies the record, keeping its view.
    fn clone(&self) -> (res: Self)
        ensures
            res@ == self@,
    {
        Photo {
            height: self.height,
            width: self.width,
            photo_reference: self.photo_reference.clone(),
        }
    }
}

impl Clone for Restaurant {
    /// Copies the record, keeping its view.
    fn clone(&self) -> (res: Self)
        ensures
            res@ == self@,
    {
        Restaurant {
            place_id: self.place_id.clone(),
            name: self.name.clone(),
            photos: self.photos.clone(),
            rating: self.rating,
            vicinity: self.vicinity.clone(),
            geometry: self.geometry,
        }
    }
}

impl Clone for RestaurantRating {
    /// Copies the record, keeping its view.
    fn clone(&self) -> (res: Self)
        ensures
            res@ == self@,
    {
        RestaurantRating {
            user_id: self.user_id.clone(),
            place_id: self.place_id.clone(),
            rating: self.rating,
            description: self.description.clone(),
            timestamp: self.timestamp,
        }
    }
}

impl Clone for Reservation {
    /// Copies the record, keeping its view.
    fn clone(&self) -> (res: Self)
        ensures
            res@ == self@,
    {
        Reservation {
            user_id: self.user_id.clone(),
            place_id: self.place_id.clone(),
            reservation_timestamp: self.reservation_timestamp,
            reservation_pax: self.reservation_pax,
        }
    }
}

impl Clone for VoteHistory {
    /// Copies the record, keeping its view.
    fn clone(&self) -> (res: Self)
        ensures
            res@ == self@,
    {
        VoteHistory {
            user_ids: clone_string_vec(&self.user_ids),
            vote_timestamp: self.vote_timestamp,
            voted_places: clone_string_vec(&self.voted_places),
        }
    }
}

impl Clone for Bookmark {
    /// Copies the record, keeping its view.
    fn clone(&self) -> (res: Self)
        ensures
            res@ == self@,
    {
        Bookmark {
            user_id: self.user_id.clone(),
            place_id: self.place_id.clone(),
            timestamp: self.timestamp,
        }
    }
}

impl Clone for RestaurantImage {
    /// Copies the record, keeping its view.
    fn clone(&self) -> (res: Self)
        ensures
            res.image_url@ == self.image_url@,
    {
        RestaurantImage { image_url: self.image_url.clone() }
    }
}

/// Builds the photo record handed back by the photo proxy from the domain
/// and path of the response URL.
pub fn make_restaurant_image(domain: &str, path: &str) -> (r: RestaurantImage)
    ensures
        r.image_url@ == domain@ + path@,
{
    let mut url = String::new();
    url.append(domain);
    url.append(path);
    RestaurantImage { image_url: url }
}

} // verus!
