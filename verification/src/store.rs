//! The repository operations and their semantics.
//!
//! `Store` holds the five tables as an explicit in-memory value, and each
//! repository operation is defined — and verified — against the
//! mathematical transitions on its view. The per-entity invariants live
//! here too: places are unique by `place_id`, bookmarks and reviews unique
//! by `(user_id, place_id)`, and duplicate inserts are ignored rather than
//! refused. A deployment against a live relational store executes the
//! statements of [`crate::sql`], whose semantics are these transitions.

use vstd::prelude::*;
use crate::decimal::FixedDecimal;
use crate::models::{
    Bookmark, BookmarkView, Reservation, ReservationView, Restaurant, RestaurantRating,
    RestaurantRatingView, RestaurantView, VoteHistory, VoteHistoryView,
};
use crate::search::{contains_ci, name_matches};
use crate::seq_util::{
    lemma_filter_push, lemma_seq_count_filter_le, lemma_seq_count_one, lemma_seq_count_push,
    lemma_seq_count_zero, lemma_seq_replace_count, lemma_seq_replace_pointwise, seq_count,
    seq_replace,
};

verus! {

/// Whether a place record carries the given identifier.
pub open spec fn place_pred(pid: Seq<char>) -> spec_fn(RestaurantView) -> bool {
    |r: RestaurantView| r.place_id == pid
}

/// Whether a place record's name matches the search query.
pub open spec fn name_pred(q: Seq<char>) -> spec_fn(RestaurantView) -> bool {
    |r: RestaurantView| name_matches(r.name, q)
}

/// Whether a bookmark is the given user's bookmark of the given place.
pub open spec fn bookmark_pair(u: Seq<char>, p: Seq<char>) -> spec_fn(BookmarkView) -> bool {
    |b: BookmarkView| b.user_id == u && b.place_id == p
}

/// Whether a bookmark survives removal of the given pair.
pub open spec fn bookmark_keep(u: Seq<char>, p: Seq<char>) -> spec_fn(BookmarkView) -> bool {
    |b: BookmarkView| !(b.user_id == u && b.place_id == p)
}

/// Whether a place is bookmarked by the given user.
pub open spec fn bookmarked_pred(bks: Seq<BookmarkView>, u: Seq<char>) -> spec_fn(
    RestaurantView,
) -> bool {
    |r: RestaurantView| seq_count(bks, bookmark_pair(u, r.place_id)) >= 1
}

/// Whether a review is the given user's review of the given place.
pub open spec fn review_pair(u: Seq<char>, p: Seq<char>) -> spec_fn(RestaurantRatingView) -> bool {
    |rv: RestaurantRatingView| rv.user_id == u && rv.place_id == p
}

/// Whether a review survives removal of the given pair.
pub open spec fn review_keep(u: Seq<char>, p: Seq<char>) -> spec_fn(RestaurantRatingView) -> bool {
    |rv: RestaurantRatingView| !(rv.user_id == u && rv.place_id == p)
}

/// Whether a review concerns the given place.
pub open spec fn review_place(p: Seq<char>) -> spec_fn(RestaurantRatingView) -> bool {
    |rv: RestaurantRatingView| rv.place_id == p
}

/// Whether a review was written by the given user.
pub open spec fn review_user(u: Seq<char>) -> spec_fn(RestaurantRatingView) -> bool {
    |rv: RestaurantRatingView| rv.user_id == u
}

/// Whether a reservation survives removal of the given pair.
pub open spec fn reservation_keep(u: Seq<char>, p: Seq<char>) -> spec_fn(ReservationView) -> bool {
    |r: ReservationView| !(r.user_id == u && r.place_id == p)
}

/// Whether a reservation belongs to the given user.
pub open spec fn reservation_user(u: Seq<char>) -> spec_fn(ReservationView) -> bool {
    |r: ReservationView| r.user_id == u
}

/// Whether a reservation belongs to the given user and still lies in the
/// future at query time `now` — the computed notion of a valid reservation.
pub open spec fn reservation_valid(u: Seq<char>, now: int) -> spec_fn(ReservationView) -> bool {
    |r: ReservationView| r.user_id == u && r.reservation_timestamp > now
}

/// Whether a voting session counts the given user among its participants.
pub open spec fn vote_member(u: Seq<char>) -> spec_fn(VoteHistoryView) -> bool {
    |v: VoteHistoryView| v.user_ids.contains(u)
}

/// The mathematical state of the five tables.
pub ghost struct StoreView {
    pub places: Seq<RestaurantView>,
    pub bookmarks: Seq<BookmarkView>,
    pub reviews: Seq<RestaurantRatingView>,
    pub reservations: Seq<ReservationView>,
    pub votes: Seq<VoteHistoryView>,
}

impl StoreView {
    /// The state with nothing stored.
    pub open spec fn empty() -> StoreView {
        StoreView {
            places: Seq::empty(),
            bookmarks: Seq::empty(),
            reviews: Seq::empty(),
            reservations: Seq::empty(),
            votes: Seq::empty(),
        }
    }

    /// The per-entity invariants: places unique by identifier, bookmarks
    /// and reviews unique by `(user_id, place_id)`.
    pub open spec fn wf(self) -> bool {
        &&& forall|pid: Seq<char>| #[trigger] seq_count(self.places, place_pred(pid)) <= 1
        &&& forall|u: Seq<char>, p: Seq<char>|
            #[trigger] seq_count(self.bookmarks, bookmark_pair(u, p)) <= 1
        &&& forall|u: Seq<char>, p: Seq<char>|
            #[trigger] seq_count(self.reviews, review_pair(u, p)) <= 1
    }

    /// Whether a place with this identifier is cached.
    pub open spec fn has_place(self, pid: Seq<char>) -> bool {
        seq_count(self.places, place_pred(pid)) >= 1
    }

    /// Insert-or-ignore of one place record.
    pub open spec fn insert_place(self, r: RestaurantView) -> StoreView {
        if self.has_place(r.place_id) {
            self
        } else {
            StoreView { places: self.places.push(r), ..self }
        }
    }

    /// Insert-or-ignore of a whole normalized batch, in order.
    pub open spec fn store_browsed(self, batch: Seq<RestaurantView>) -> StoreView
        decreases batch.len(),
    {
        if batch.len() == 0 {
            self
        } else {
            self.store_browsed(batch.drop_last()).insert_place(batch.last())
        }
    }

    /// The cached places whose name matches the query, in table order.
    pub open spec fn search_results(self, q: Seq<char>) -> Seq<RestaurantView> {
        self.places.filter(name_pred(q))
    }

    /// Whether the user has bookmarked the place.
    pub open spec fn has_bookmark(self, u: Seq<char>, p: Seq<char>) -> bool {
        seq_count(self.bookmarks, bookmark_pair(u, p)) >= 1
    }

    /// Insert-or-ignore of one bookmark.
    pub open spec fn bookmark_place(self, u: Seq<char>, p: Seq<char>, t: int) -> StoreView {
        if self.has_bookmark(u, p) {
            self
        } else {
            StoreView {
                bookmarks: self.bookmarks.push(BookmarkView { user_id: u, place_id: p, timestamp: t }),
                ..self
            }
        }
    }

    /// Removal of one bookmark; removing an absent pair changes nothing.
    pub open spec fn remove_bookmark(self, u: Seq<char>, p: Seq<char>) -> StoreView {
        StoreView { bookmarks: self.bookmarks.filter(bookmark_keep(u, p)), ..self }
    }

    /// The cached places the user has bookmarked, in table order.
    pub open spec fn bookmarked_places(self, u: Seq<char>) -> Seq<RestaurantView> {
        self.places.filter(bookmarked_pred(self.bookmarks, u))
    }

    /// Whether the user has reviewed the place.
    pub open spec fn has_review(self, u: Seq<char>, p: Seq<char>) -> bool {
        seq_count(self.reviews, review_pair(u, p)) >= 1
    }

    /// Insert-or-ignore of one review.
    pub open spec fn add_review(
        self,
        u: Seq<char>,
        p: Seq<char>,
        rating: FixedDecimal,
        description: Seq<char>,
        t: int,
    ) -> StoreView {
        if self.has_review(u, p) {
            self
        } else {
            StoreView {
                reviews: self.reviews.push(
                    RestaurantRatingView {
                        user_id: u,
                        place_id: p,
                        rating,
                        description,
                        timestamp: t,
                    },
                ),
                ..self
            }
        }
    }

    /// In-place update of the user's review of the place: rating,
    /// description and timestamp change, nothing else does.
    pub open spec fn update_review(
        self,
        u: Seq<char>,
        p: Seq<char>,
        rating: FixedDecimal,
        description: Seq<char>,
        t: int,
    ) -> StoreView {
        StoreView {
            reviews: seq_replace(
                self.reviews,
                review_pair(u, p),
                RestaurantRatingView { user_id: u, place_id: p, rating, description, timestamp: t },
            ),
            ..self
        }
    }

    /// Removal of one review; removing an absent pair changes nothing.
    pub open spec fn remove_review(self, u: Seq<char>, p: Seq<char>) -> StoreView {
        StoreView { reviews: self.reviews.filter(review_keep(u, p)), ..self }
    }

    /// All reviews of one place, in table order.
    pub open spec fn reviews_for_place(self, p: Seq<char>) -> Seq<RestaurantRatingView> {
        self.reviews.filter(review_place(p))
    }

    /// All reviews by one user, in table order.
    pub open spec fn reviews_by_user(self, u: Seq<char>) -> Seq<RestaurantRatingView> {
        self.reviews.filter(review_user(u))
    }

    /// Appending one reservation; no uniqueness applies.
    pub open spec fn add_reservation(
        self,
        u: Seq<char>,
        p: Seq<char>,
        ts: int,
        pax: int,
    ) -> StoreView {
        StoreView {
            reservations: self.reservations.push(
                ReservationView {
                    user_id: u,
                    place_id: p,
                    reservation_timestamp: ts,
                    reservation_pax: pax,
                },
            ),
            ..self
        }
    }

    /// Removal of every reservation of the pair.
    pub open spec fn remove_reservation(self, u: Seq<char>, p: Seq<char>) -> StoreView {
        StoreView { reservations: self.reservations.filter(reservation_keep(u, p)), ..self }
    }

    /// All of the user's reservations, in table order.
    pub open spec fn reservations_of(self, u: Seq<char>) -> Seq<ReservationView> {
        self.reservations.filter(reservation_user(u))
    }

    /// The user's reservations still in the future at query time `now`.
    pub open spec fn valid_reservations_of(self, u: Seq<char>, now: int) -> Seq<ReservationView> {
        self.reservations.filter(reservation_valid(u, now))
    }

    /// Appending one voting session.
    pub open spec fn add_vote_history(
        self,
        users: Seq<Seq<char>>,
        voted: Seq<Seq<char>>,
        t: int,
    ) -> StoreView {
        StoreView {
            votes: self.votes.push(
                VoteHistoryView { user_ids: users, vote_timestamp: t, voted_places: voted },
            ),
            ..self
        }
    }

    /// The sessions the user took part in, in table order.
    pub open spec fn vote_histories_of(self, u: Seq<char>) -> Seq<VoteHistoryView> {
        self.votes.filter(vote_member(u))
    }
}

/// The five tables, as an explicit value.
#[derive(Debug)]
pub struct Store {
    pub places: Vec<Restaurant>,
    pub bookmarks: Vec<Bookmark>,
    pub reviews: Vec<RestaurantRating>,
    pub reservations: Vec<Reservation>,
    pub votes: Vec<VoteHistory>,
}

impl View for Store {
    type V = StoreView;

    open spec fn view(&self) -> StoreView {
        StoreView {
            places: self.places.deep_view(),
            bookmarks: self.bookmarks.deep_view(),
            reviews: self.reviews.deep_view(),
            reservations: self.reservations.deep_view(),
            votes: self.votes.deep_view(),
        }
    }
}

impl Store {
    /// An empty store.
    pub fn new() -> (s: Store)
        ensures
            s@ == StoreView::empty(),
            s@.wf(),
    {
        let s = Store {
            places: Vec::new(),
            bookmarks: Vec::new(),
            reviews: Vec::new(),
            reservations: Vec::new(),
            votes: Vec::new(),
        };
        proof {
            assert(s@.places =~= Seq::<RestaurantView>::empty());
            assert(s@.bookmarks =~= Seq::<BookmarkView>::empty());
            assert(s@.reviews =~= Seq::<RestaurantRatingView>::empty());
            assert(s@.reservations =~= Seq::<ReservationView>::empty());
            assert(s@.votes =~= Seq::<VoteHistoryView>::empty());
            assert(s@ =~= StoreView::empty()) by {
                assert(s@.places == StoreView::empty().places);
                assert(s@.bookmarks == StoreView::empty().bookmarks);
                assert(s@.reviews == StoreView::empty().reviews);
                assert(s@.reservations == StoreView::empty().reservations);
                assert(s@.votes == StoreView::empty().votes);
            }
        }
        s
    }

    /// Whether a place with this identifier is cached.
    fn has_place_exec(&self, place_id: &String) -> (r: bool)
        ensures
            r == self@.has_place(place_id@),
    {
        let n = self.places.len();
        let mut i: usize = 0;
        while i < n
            invariant
                n == self.places@.len(),
                0 <= i <= n,
                forall|j: int| 0 <= j < i ==> !place_pred(place_id@)(#[trigger] self@.places[j]),
            decreases n - i,
        {
            if self.places[i].place_id == *place_id {
                proof {
                    lemma_seq_count_one(self@.places, place_pred(place_id@), i as int);
                }
                return true;
            }
            i = i + 1;
        }
        proof {
            lemma_seq_count_zero(self@.places, place_pred(place_id@));
        }
        false
    }

    /// Insert-or-ignore of a whole normalized batch: a duplicate
    /// identifier — already cached or repeated within the batch — is
    /// ignored, never an error, and an empty batch changes nothing.
    pub fn store_browsed_places(&mut self, list_of_restaurants: Vec<Restaurant>)
        requires
            old(self)@.wf(),
        ensures
            final(self)@ == old(self)@.store_browsed(list_of_restaurants.deep_view()),
            final(self)@.wf(),
    {
        let ghost batch = list_of_restaurants.deep_view();
        let n = list_of_restaurants.len();
        let mut i: usize = 0;
        proof {
            assert(batch.subrange(0, 0) =~= Seq::<RestaurantView>::empty());
        }
        while i < n
            invariant
                n == batch.len(),
                list_of_restaurants.deep_view() == batch,
                0 <= i <= n,
                self@ == old(self)@.store_browsed(batch.subrange(0, i as int)),
                self@.wf(),
            decreases n - i,
        {
            proof {
                assert(batch.subrange(0, i + 1).drop_last() =~= batch.subrange(0, i as int));
                assert(batch.subrange(0, i + 1).last() == batch[i as int]);
            }
            let ghost cur = self@;
            let r = &list_of_restaurants[i];
            if !self.has_place_exec(&r.place_id) {
                self.places.push(r.clone());
                proof {
                    assert(self@.places =~= cur.places.push(batch[i as int]));
                    assert(self@ =~= cur.insert_place(batch[i as int]));
                    assert forall|pid: Seq<char>|
                        #[trigger] seq_count(self@.places, place_pred(pid)) <= 1 by {
                        lemma_seq_count_push(cur.places, place_pred(pid), batch[i as int]);
                    }
                }
            } else {
                proof {
                    assert(self@ =~= cur.insert_place(batch[i as int]));
                }
            }
            i = i + 1;
        }
        proof {
            assert(batch.subrange(0, n as int) =~= batch);
        }
    }

    /// The cached place with this identifier, if any.
    pub fn retrieve_restaurant(&self, place_id: &String) -> (r: Option<Restaurant>)
        ensures
            r is Some <==> self@.has_place(place_id@),
            r matches Some(v) ==> v@.place_id == place_id@ && self@.places.contains(v@),
    {
        let n = self.places.len();
        let mut i: usize = 0;
        while i < n
            invariant
                n == self.places@.len(),
                0 <= i <= n,
                forall|j: int| 0 <= j < i ==> !place_pred(place_id@)(#[trigger] self@.places[j]),
            decreases n - i,
        {
            if self.places[i].place_id == *place_id {
                proof {
                    lemma_seq_count_one(self@.places, place_pred(place_id@), i as int);
                }
                return Some(self.places[i].clone());
            }
            i = i + 1;
        }
        proof {
            lemma_seq_count_zero(self@.places, place_pred(place_id@));
        }
        None
    }

    /// The cached places whose name contains the query, ignoring ASCII
    /// case, in table order.
    pub fn search_for_restaurants(&self, restaurant_name: &String) -> (r: Vec<Restaurant>)
        ensures
            r.deep_view() == self@.search_results(restaurant_name@),
    {
        let n = self.places.len();
        let mut out: Vec<Restaurant> = Vec::new();
        let mut i: usize = 0;
        proof {
            assert(self@.places.subrange(0, 0) =~= Seq::<RestaurantView>::empty());
            assert(out.deep_view() =~= self@.places.subrange(0, 0).filter(
                name_pred(restaurant_name@),
            )) by {
                reveal(Seq::filter);
            }
        }
        while i < n
            invariant
                n == self.places@.len(),
                0 <= i <= n,
                out.deep_view() == self@.places.subrange(0, i as int).filter(
                    name_pred(restaurant_name@),
                ),
            decreases n - i,
        {
            let ghost prefix = self@.places.subrange(0, i as int);
            proof {
                assert(self@.places.subrange(0, i + 1) =~= prefix.push(self@.places[i as int]));
                lemma_filter_push(prefix, name_pred(restaurant_name@), self@.places[i as int]);
            }
            if contains_ci(self.places[i].name.as_str(), restaurant_name.as_str()) {
                out.push(self.places[i].clone());
                proof {
                    assert(out.deep_view() =~= prefix.filter(name_pred(restaurant_name@)).push(
                        self@.places[i as int],
                    ));
                }
            }
            i = i + 1;
        }
        proof {
            assert(self@.places.subrange(0, n as int) =~= self@.places);
        }
        out
    }

    /// Whether the user has bookmarked the place.
    fn has_bookmark_exec(&self, user_id: &String, place_id: &String) -> (r: bool)
        ensures
            r == self@.has_bookmark(user_id@, place_id@),
    {
        let n = self.bookmarks.len();
        let mut i: usize = 0;
        while i < n
            invariant
                n == self.bookmarks@.len(),
                0 <= i <= n,
                forall|j: int|
                    0 <= j < i ==> !bookmark_pair(user_id@, place_id@)(
                        #[trigger] self@.bookmarks[j],
                    ),
            decreases n - i,
        {
            if self.bookmarks[i].user_id == *user_id && self.bookmarks[i].place_id == *place_id {
                proof {
                    lemma_seq_count_one(
                        self@.bookmarks,
                        bookmark_pair(user_id@, place_id@),
                        i as int,
                    );
                }
                return true;
            }
            i = i + 1;
        }
        proof {
            lemma_seq_count_zero(self@.bookmarks, bookmark_pair(user_id@, place_id@));
        }
        false
    }

    /// Insert-or-ignore of one bookmark: bookmarking a pair that is
    /// already bookmarked succeeds and changes nothing.
    pub fn bookmark_place(&mut self, user_id: &String, place_id: &String, timestamp: i64)
        requires
            old(self)@.wf(),
        ensures
            final(self)@ == old(self)@.bookmark_place(user_id@, place_id@, timestamp as int),
            final(self)@.wf(),
    {
        let ghost cur = self@;
        if !self.has_bookmark_exec(user_id, place_id) {
            let ghost b = BookmarkView {
                user_id: user_id@,
                place_id: place_id@,
                timestamp: timestamp as int,
            };
            self.bookmarks.push(
                Bookmark {
                    user_id: user_id.clone(),
                    place_id: place_id.clone(),
                    timestamp,
                },
            );
            proof {
                assert(self@.bookmarks =~= cur.bookmarks.push(b));
                assert(self@ =~= cur.bookmark_place(user_id@, place_id@, timestamp as int));
                assert forall|u: Seq<char>, p: Seq<char>|
                    #[trigger] seq_count(self@.bookmarks, bookmark_pair(u, p)) <= 1 by {
                    lemma_seq_count_push(cur.bookmarks, bookmark_pair(u, p), b);
                }
            }
        } else {
            proof {
                assert(self@ =~= cur.bookmark_place(user_id@, place_id@, timestamp as int));
            }
        }
    }

    /// Removes the user's bookmark of the place; removing one that does
    /// not exist succeeds and changes nothing.
    pub fn remove_bookmark(&mut self, user_id: &String, place_id: &String)
        requires
            old(self)@.wf(),
        ensures
            final(self)@ == old(self)@.remove_bookmark(user_id@, place_id@),
            final(self)@.wf(),
    {
        let ghost orig = self@.bookmarks;
        let ghost keep = bookmark_keep(user_id@, place_id@);
        let n = self.bookmarks.len();
        let mut kept: Vec<Bookmark> = Vec::new();
        let mut i: usize = 0;
        proof {
            assert(orig.subrange(0, 0) =~= Seq::<BookmarkView>::empty());
            assert(kept.deep_view() =~= orig.subrange(0, 0).filter(keep)) by {
                reveal(Seq::filter);
            }
        }
        while i < n
            invariant
                n == self.bookmarks@.len(),
                self@.bookmarks == orig,
                keep == bookmark_keep(user_id@, place_id@),
                0 <= i <= n,
                kept.deep_view() == orig.subrange(0, i as int).filter(keep),
            decreases n - i,
        {
            let ghost prefix = orig.subrange(0, i as int);
            proof {
                assert(orig.subrange(0, i + 1) =~= prefix.push(orig[i as int]));
                lemma_filter_push(prefix, keep, orig[i as int]);
            }
            if !(self.bookmarks[i].user_id == *user_id && self.bookmarks[i].place_id
                == *place_id) {
                kept.push(self.bookmarks[i].clone());
                proof {
                    assert(kept.deep_view() =~= prefix.filter(keep).push(orig[i as int]));
                }
            }
            i = i + 1;
        }
        proof {
            assert(orig.subrange(0, n as int) =~= orig);
        }
        self.bookmarks = kept;
        proof {
            assert(self@ =~= old(self)@.remove_bookmark(user_id@, place_id@));
            assert forall|u: Seq<char>, p: Seq<char>|
                #[trigger] seq_count(self@.bookmarks, bookmark_pair(u, p)) <= 1 by {
                lemma_seq_count_filter_le(orig, keep, bookmark_pair(u, p));
            }
        }
    }

    /// The cached places the user has bookmarked, in table order.
    pub fn retrieve_bookmarked_places(&self, user_id: &String) -> (r: Vec<Restaurant>)
        ensures
            r.deep_view() == self@.bookmarked_places(user_id@),
    {
        let ghost pred = bookmarked_pred(self@.bookmarks, user_id@);
        let n = self.places.len();
        let mut out: Vec<Restaurant> = Vec::new();
        let mut i: usize = 0;
        proof {
            assert(self@.places.subrange(0, 0) =~= Seq::<RestaurantView>::empty());
            assert(out.deep_view() =~= self@.places.subrange(0, 0).filter(pred)) by {
                reveal(Seq::filter);
            }
        }
        while i < n
            invariant
                n == self.places@.len(),
                pred == bookmarked_pred(self@.bookmarks, user_id@),
                0 <= i <= n,
                out.deep_view() == self@.places.subrange(0, i as int).filter(pred),
            decreases n - i,
        {
            let ghost prefix = self@.places.subrange(0, i as int);
            proof {
                assert(self@.places.subrange(0, i + 1) =~= prefix.push(self@.places[i as int]));
                lemma_filter_push(prefix, pred, self@.places[i as int]);
            }
            if self.has_bookmark_exec(user_id, &self.places[i].place_id) {
                out.push(self.places[i].clone());
                proof {
                    assert(out.deep_view() =~= prefix.filter(pred).push(self@.places[i as int]));
                }
            }
            i = i + 1;
        }
        proof {
            assert(self@.places.subrange(0, n as int) =~= self@.places);
        }
        out
    }

    /// Whether the user has reviewed the place.
    fn has_review_exec(&self, user_id: &String, place_id: &String) -> (r: bool)
        ensures
            r == self@.has_review(user_id@, place_id@),
    {
        let n = self.reviews.len();
        let mut i: usize = 0;
        while i < n
            invariant
                n == self.reviews@.len(),
                0 <= i <= n,
                forall|j: int|
                    0 <= j < i ==> !review_pair(user_id@, place_id@)(#[trigger] self@.reviews[j]),
            decreases n - i,
        {
            if self.reviews[i].user_id == *user_id && self.reviews[i].place_id == *place_id {
                proof {
                    lemma_seq_count_one(self@.reviews, review_pair(user_id@, place_id@), i as int);
                }
                return true;
            }
            i = i + 1;
        }
        proof {
            lemma_seq_count_zero(self@.reviews, review_pair(user_id@, place_id@));
        }
        false
    }

    /// Insert-or-ignore of one review: a pair that already has a review
    /// keeps it unchanged.
    pub fn add_user_review(
        &mut self,
        user_id: &String,
        place_id: &String,
        rating: FixedDecimal,
        description: &String,
        timestamp: i64,
    )
        requires
            old(self)@.wf(),
        ensures
            final(self)@ == old(self)@.add_review(
                user_id@,
                place_id@,
                rating,
                description@,
                timestamp as int,
            ),
            final(self)@.wf(),
    {
        let ghost cur = self@;
        if !self.has_review_exec(user_id, place_id) {
            let ghost rv = RestaurantRatingView {
                user_id: user_id@,
                place_id: place_id@,
                rating,
                description: description@,
                timestamp: timestamp as int,
            };
            self.reviews.push(
                RestaurantRating {
                    user_id: user_id.clone(),
                    place_id: place_id.clone(),
                    rating,
                    description: description.clone(),
                    timestamp,
                },
            );
            proof {
                assert(self@.reviews =~= cur.reviews.push(rv));
                assert(self@ =~= cur.add_review(
                    user_id@,
                    place_id@,
                    rating,
                    description@,
                    timestamp as int,
                ));
                assert forall|u: Seq<char>, p: Seq<char>|
                    #[trigger] seq_count(self@.reviews, review_pair(u, p)) <= 1 by {
                    lemma_seq_count_push(cur.reviews, review_pair(u, p), rv);
                }
            }
        } else {
            proof {
                assert(self@ =~= cur.add_review(
                    user_id@,
                    place_id@,
                    rating,
                    description@,
                    timestamp as int,
                ));
            }
        }
    }

    /// Updates the user's review of the place in place: its rating,
    /// description and timestamp take the given values; every other row is
    /// untouched; no history is kept.
    pub fn update_review(
        &mut self,
        user_id: &String,
        place_id: &String,
        rating: FixedDecimal,
        description: &String,
        timestamp: i64,
    )
        requires
            old(self)@.wf(),
        ensures
            final(self)@ == old(self)@.update_review(
                user_id@,
                place_id@,
                rating,
                description@,
                timestamp as int,
            ),
            final(self)@.wf(),
    {
        let ghost pred = review_pair(user_id@, place_id@);
        let ghost x = RestaurantRatingView {
            user_id: user_id@,
            place_id: place_id@,
            rating,
            description: description@,
            timestamp: timestamp as int,
        };
        let ghost orig = self@.reviews;
        let n = self.reviews.len();
        let mut i: usize = 0;
        while i < n
            invariant
                n == orig.len(),
                self.reviews@.len() == n,
                0 <= i <= n,
                forall|j: int|
                    0 <= j < i ==> self@.reviews[j] == (if pred(#[trigger] orig[j]) {
                        x
                    } else {
                        orig[j]
                    }),
                forall|j: int| i <= j < n ==> #[trigger] self@.reviews[j] == orig[j],
                self@.places == old(self)@.places,
                self@.bookmarks == old(self)@.bookmarks,
                self@.reservations == old(self)@.reservations,
                self@.votes == old(self)@.votes,
                pred == review_pair(user_id@, place_id@),
                x == (RestaurantRatingView {
                    user_id: user_id@,
                    place_id: place_id@,
                    rating,
                    description: description@,
                    timestamp: timestamp as int,
                }),
            decreases n - i,
        {
            proof {
                assert(self@.reviews[i as int] == orig[i as int]);
            }
            if self.reviews[i].user_id == *user_id && self.reviews[i].place_id == *place_id {
                proof {
                    assert(pred(orig[i as int]));
                }
                let newr = RestaurantRating {
                    user_id: user_id.clone(),
                    place_id: place_id.clone(),
                    rating,
                    description: description.clone(),
                    timestamp,
                };
                proof {
                    assert(newr@ == x);
                }
                let ghost prev_vec = self.reviews@;
                let ghost before = self@.reviews;
                self.reviews.set(i, newr);
                proof {
                    assert forall|j: int|
                        0 <= j < n && j != i implies #[trigger] self@.reviews[j] == before[j] by {
                        assert(self.reviews@[j] == prev_vec[j]);
                        assert(before[j] == prev_vec[j].deep_view());
                        assert(self@.reviews[j] == self.reviews@[j].deep_view());
                    }
                    assert(self@.reviews[i as int] == x);
                }
            } else {
                proof {
                    assert(!pred(orig[i as int]));
                }
            }
            i = i + 1;
        }
        proof {
            lemma_seq_replace_pointwise(orig, pred, x);
            assert forall|k: int|
                0 <= k < orig.len() implies self@.reviews[k] == seq_replace(orig, pred, x)[k] by {
                assert(self@.reviews[k] == (if pred(orig[k]) {
                    x
                } else {
                    orig[k]
                }));
                assert(seq_replace(orig, pred, x)[k] == (if pred(orig[k]) {
                    x
                } else {
                    orig[k]
                }));
            }
            assert(self@.reviews =~= seq_replace(orig, pred, x));
            assert(self@ =~= old(self)@.update_review(
                user_id@,
                place_id@,
                rating,
                description@,
                timestamp as int,
            ));
            assert forall|u: Seq<char>, p: Seq<char>|
                #[trigger] seq_count(self@.reviews, review_pair(u, p)) <= 1 by {
                lemma_seq_replace_count(orig, pred, x, review_pair(u, p));
            }
        }
    }

    /// Removes the user's review of the place; removing one that does not
    /// exist succeeds and changes nothing.
    pub fn remove_review(&mut self, user_id: &String, place_id: &String)
        requires
            old(self)@.wf(),
        ensures
            final(self)@ == old(self)@.remove_review(user_id@, place_id@),
            final(self)@.wf(),
    {
        let ghost orig = self@.reviews;
        let ghost keep = review_keep(user_id@, place_id@);
        let n = self.reviews.len();
        let mut kept: Vec<RestaurantRating> = Vec::new();
        let mut i: usize = 0;
        proof {
            assert(orig.subrange(0, 0) =~= Seq::<RestaurantRatingView>::empty());
            assert(kept.deep_view() =~= orig.subrange(0, 0).filter(keep)) by {
                reveal(Seq::filter);
            }
        }
        while i < n
            invariant
                n == self.reviews@.len(),
                self@.reviews == orig,
                keep == review_keep(user_id@, place_id@),
                0 <= i <= n,
                kept.deep_view() == orig.subrange(0, i as int).filter(keep),
            decreases n - i,
        {
            let ghost prefix = orig.subrange(0, i as int);
            proof {
                assert(orig.subrange(0, i + 1) =~= prefix.push(orig[i as int]));
                lemma_filter_push(prefix, keep, orig[i as int]);
            }
            if !(self.reviews[i].user_id == *user_id && self.reviews[i].place_id == *place_id) {
                kept.push(self.reviews[i].clone());
                proof {
                    assert(kept.deep_view() =~= prefix.filter(keep).push(orig[i as int]));
                }
            }
            i = i + 1;
        }
        proof {
            assert(orig.subrange(0, n as int) =~= orig);
        }
        self.reviews = kept;
        proof {
            assert(self@ =~= old(self)@.remove_review(user_id@, place_id@));
            assert forall|u: Seq<char>, p: Seq<char>|
                #[trigger] seq_count(self@.reviews, review_pair(u, p)) <= 1 by {
                lemma_seq_count_filter_le(orig, keep, review_pair(u, p));
            }
        }
    }

    /// All reviews of one place, in table order.
    pub fn retrieve_restaurant_reviews(&self, place_id: &String) -> (r: Vec<RestaurantRating>)
        ensures
            r.deep_view() == self@.reviews_for_place(place_id@),
    {
        let ghost pred = review_place(place_id@);
        let n = self.reviews.len();
        let mut out: Vec<RestaurantRating> = Vec::new();
        let mut i: usize = 0;
        proof {
            assert(self@.reviews.subrange(0, 0) =~= Seq::<RestaurantRatingView>::empty());
            assert(out.deep_view() =~= self@.reviews.subrange(0, 0).filter(pred)) by {
                reveal(Seq::filter);
            }
        }
        while i < n
            invariant
                n == self.reviews@.len(),
                pred == review_place(place_id@),
                0 <= i <= n,
                out.deep_view() == self@.reviews.subrange(0, i as int).filter(pred),
            decreases n - i,
        {
            let ghost prefix = self@.reviews.subrange(0, i as int);
            proof {
                assert(self@.reviews.subrange(0, i + 1) =~= prefix.push(self@.reviews[i as int]));
                lemma_filter_push(prefix, pred, self@.reviews[i as int]);
            }
            if self.reviews[i].place_id == *place_id {
                out.push(self.reviews[i].clone());
                proof {
                    assert(out.deep_view() =~= prefix.filter(pred).push(self@.reviews[i as int]));
                }
            }
            i = i + 1;
        }
        proof {
            assert(self@.reviews.subrange(0, n as int) =~= self@.reviews);
        }
        out
    }

    /// All reviews by one user, in table order.
    pub fn get_user_reviews(&self, user_id: &String) -> (r: Vec<RestaurantRating>)
        ensures
            r.deep_view() == self@.reviews_by_user(user_id@),
    {
        let ghost pred = review_user(user_id@);
        let n = self.reviews.len();
        let mut out: Vec<RestaurantRating> = Vec::new();
        let mut i: usize = 0;
        proof {
            assert(self@.reviews.subrange(0, 0) =~= Seq::<RestaurantRatingView>::empty());
            assert(out.deep_view() =~= self@.reviews.subrange(0, 0).filter(pred)) by {
                reveal(Seq::filter);
            }
        }
        while i < n
            invariant
                n == self.reviews@.len(),
                pred == review_user(user_id@),
                0 <= i <= n,
                out.deep_view() == self@.reviews.subrange(0, i as int).filter(pred),
            decreases n - i,
        {
            let ghost prefix = self@.reviews.subrange(0, i as int);
            proof {
                assert(self@.reviews.subrange(0, i + 1) =~= prefix.push(self@.reviews[i as int]));
                lemma_filter_push(prefix, pred, self@.reviews[i as int]);
            }
            if self.reviews[i].user_id == *user_id {
                out.push(self.reviews[i].clone());
                proof {
                    assert(out.deep_view() =~= prefix.filter(pred).push(self@.reviews[i as int]));
                }
            }
            i = i + 1;
        }
        proof {
            assert(self@.reviews.subrange(0, n as int) =~= self@.reviews);
        }
        out
    }

    /// Appends one reservation; a user may hold several at one place.
    pub fn add_reservations(
        &mut self,
        user_id: &String,
        place_id: &String,
        reservation_timestamp: i64,
        reservation_pax: u32,
    )
        requires
            old(self)@.wf(),
        ensures
            final(self)@ == old(self)@.add_reservation(
                user_id@,
                place_id@,
                reservation_timestamp as int,
                reservation_pax as int,
            ),
            final(self)@.wf(),
    {
        self.reservations.push(
            Reservation {
                user_id: user_id.clone(),
                place_id: place_id.clone(),
                reservation_timestamp,
                reservation_pax,
            },
        );
        proof {
            assert(self@.reservations =~= old(self)@.reservations.push(
                ReservationView {
                    user_id: user_id@,
                    place_id: place_id@,
                    reservation_timestamp: reservation_timestamp as int,
                    reservation_pax: reservation_pax as int,
                },
            ));
            assert(self@ =~= old(self)@.add_reservation(
                user_id@,
                place_id@,
                reservation_timestamp as int,
                reservation_pax as int,
            ));
        }
    }

    /// Removes every reservation the user holds at the place; removing
    /// none succeeds and changes nothing.
    pub fn remove_reservation(&mut self, user_id: &String, place_id: &String)
        requires
            old(self)@.wf(),
        ensures
            final(self)@ == old(self)@.remove_reservation(user_id@, place_id@),
            final(self)@.wf(),
    {
        let ghost orig = self@.reservations;
        let ghost keep = reservation_keep(user_id@, place_id@);
        let n = self.reservations.len();
        let mut kept: Vec<Reservation> = Vec::new();
        let mut i: usize = 0;
        proof {
            assert(orig.subrange(0, 0) =~= Seq::<ReservationView>::empty());
            assert(kept.deep_view() =~= orig.subrange(0, 0).filter(keep)) by {
                reveal(Seq::filter);
            }
        }
        while i < n
            invariant
                n == self.reservations@.len(),
                self@.reservations == orig,
                keep == reservation_keep(user_id@, place_id@),
                0 <= i <= n,
                kept.deep_view() == orig.subrange(0, i as int).filter(keep),
            decreases n - i,
        {
            let ghost prefix = orig.subrange(0, i as int);
            proof {
                assert(orig.subrange(0, i + 1) =~= prefix.push(orig[i as int]));
                lemma_filter_push(prefix, keep, orig[i as int]);
            }
            if !(self.reservations[i].user_id == *user_id && self.reservations[i].place_id
                == *place_id) {
                kept.push(self.reservations[i].clone());
                proof {
                    assert(kept.deep_view() =~= prefix.filter(keep).push(orig[i as int]));
                }
            }
            i = i + 1;
        }
        proof {
            assert(orig.subrange(0, n as int) =~= orig);
        }
        self.reservations = kept;
        proof {
            assert(self@ =~= old(self)@.remove_reservation(user_id@, place_id@));
        }
    }

    /// The user's reservations whose timestamp still lies in the future at
    /// query time `now`, in table order.
    pub fn retrieve_all_user_valid_reservations(&self, user_id: &String, now: i64) -> (r: Vec<
        Reservation,
    >)
        ensures
            r.deep_view() == self@.valid_reservations_of(user_id@, now as int),
    {
        let ghost pred = reservation_valid(user_id@, now as int);
        let n = self.reservations.len();
        let mut out: Vec<Reservation> = Vec::new();
        let mut i: usize = 0;
        proof {
            assert(self@.reservations.subrange(0, 0) =~= Seq::<ReservationView>::empty());
            assert(out.deep_view() =~= self@.reservations.subrange(0, 0).filter(pred)) by {
                reveal(Seq::filter);
            }
        }
        while i < n
            invariant
                n == self.reservations@.len(),
                pred == reservation_valid(user_id@, now as int),
                0 <= i <= n,
                out.deep_view() == self@.reservations.subrange(0, i as int).filter(pred),
            decreases n - i,
        {
            let ghost prefix = self@.reservations.subrange(0, i as int);
            proof {
                assert(self@.reservations.subrange(0, i + 1) =~= prefix.push(
                    self@.reservations[i as int],
                ));
                lemma_filter_push(prefix, pred, self@.reservations[i as int]);
            }
            if self.reservations[i].user_id == *user_id && self.reservations[i]
                .reservation_timestamp > now {
                out.push(self.reservations[i].clone());
                proof {
                    assert(out.deep_view() =~= prefix.filter(pred).push(
                        self@.reservations[i as int],
                    ));
                }
            }
            i = i + 1;
        }
        proof {
            assert(self@.reservations.subrange(0, n as int) =~= self@.reservations);
        }
        out
    }

    /// All of the user's reservations, past ones included, in table order.
    pub fn retrieve_all_user_reservations(&self, user_id: &String) -> (r: Vec<Reservation>)
        ensures
            r.deep_view() == self@.reservations_of(user_id@),
    {
        let ghost pred = reservation_user(user_id@);
        let n = self.reservations.len();
        let mut out: Vec<Reservation> = Vec::new();
        let mut i: usize = 0;
        proof {
            assert(self@.reservations.subrange(0, 0) =~= Seq::<ReservationView>::empty());
            assert(out.deep_view() =~= self@.reservations.subrange(0, 0).filter(pred)) by {
                reveal(Seq::filter);
            }
        }
        while i < n
            invariant
                n == self.reservations@.len(),
                pred == reservation_user(user_id@),
                0 <= i <= n,
                out.deep_view() == self@.reservations.subrange(0, i as int).filter(pred),
            decreases n - i,
        {
            let ghost prefix = self@.reservations.subrange(0, i as int);
            proof {
                assert(self@.reservations.subrange(0, i + 1) =~= prefix.push(
                    self@.reservations[i as int],
                ));
                lemma_filter_push(prefix, pred, self@.reservations[i as int]);
            }
            if self.reservations[i].user_id == *user_id {
                out.push(self.reservations[i].clone());
                proof {
                    assert(out.deep_view() =~= prefix.filter(pred).push(
                        self@.reservations[i as int],
                    ));
                }
            }
            i = i + 1;
        }
        proof {
            assert(self@.reservations.subrange(0, n as int) =~= self@.reservations);
        }
        out
    }

    /// Appends one voting session: the participants and the voted-place
    /// payloads are two parallel ordered lists, related only by standing
    /// in one record.
    pub fn store_vote_history(
        &mut self,
        user_ids: Vec<String>,
        voted_places: Vec<String>,
        vote_session_timestamp: i64,
    )
        requires
            old(self)@.wf(),
        ensures
            final(self)@ == old(self)@.add_vote_history(
                user_ids.deep_view(),
                voted_places.deep_view(),
                vote_session_timestamp as int,
            ),
            final(self)@.wf(),
    {
        let ghost v = VoteHistoryView {
            user_ids: user_ids.deep_view(),
            vote_timestamp: vote_session_timestamp as int,
            voted_places: voted_places.deep_view(),
        };
        self.votes.push(
            VoteHistory { user_ids, vote_timestamp: vote_session_timestamp, voted_places },
        );
        proof {
            assert(self@.votes =~= old(self)@.votes.push(v));
            assert(self@ =~= old(self)@.add_vote_history(
                v.user_ids,
                v.voted_places,
                vote_session_timestamp as int,
            ));
        }
    }

    /// The voting sessions the user took part in, in table order.
    pub fn retrieve_user_vote_history(&self, user_id: &String) -> (r: Vec<VoteHistory>)
        ensures
            r.deep_view() == self@.vote_histories_of(user_id@),
    {
        let ghost pred = vote_member(user_id@);
        let n = self.votes.len();
        let mut out: Vec<VoteHistory> = Vec::new();
        let mut i: usize = 0;
        proof {
            assert(self@.votes.subrange(0, 0) =~= Seq::<VoteHistoryView>::empty());
            assert(out.deep_view() =~= self@.votes.subrange(0, 0).filter(pred)) by {
                reveal(Seq::filter);
            }
        }
        while i < n
            invariant
                n == self.votes@.len(),
                pred == vote_member(user_id@),
                0 <= i <= n,
                out.deep_view() == self@.votes.subrange(0, i as int).filter(pred),
            decreases n - i,
        {
            let ghost prefix = self@.votes.subrange(0, i as int);
            proof {
                assert(self@.votes.subrange(0, i + 1) =~= prefix.push(self@.votes[i as int]));
                lemma_filter_push(prefix, pred, self@.votes[i as int]);
            }
            if vote_has_member(&self.votes[i], user_id) {
                out.push(self.votes[i].clone());
                proof {
                    assert(out.deep_view() =~= prefix.filter(pred).push(self@.votes[i as int]));
                }
            }
            i = i + 1;
        }
        proof {
            assert(self@.votes.subrange(0, n as int) =~= self@.votes);
        }
        out
    }
}

/// Whether the session's participant list carries the user.
fn vote_has_member(v: &VoteHistory, user_id: &String) -> (r: bool)
    ensures
        r == v@.user_ids.contains(user_id@),
{
    let n = v.user_ids.len();
    let mut i: usize = 0;
    while i < n
        invariant
            n == v.user_ids@.len(),
            0 <= i <= n,
            forall|j: int| 0 <= j < i ==> #[trigger] v@.user_ids[j] != user_id@,
        decreases n - i,
    {
        if v.user_ids[i] == *user_id {
            proof {
                assert(v@.user_ids[i as int] == user_id@);
            }
            return true;
        }
        i = i + 1;
    }
    false
}

} // verus!
