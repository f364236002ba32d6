//! The store's guarantees, stated and proved once and for all.
//!
//! Each law quantifies over every well-formed store state and speaks of the
//! transitions that the operations of [`crate::store`] are verified
//! against.

use vstd::prelude::*;
use crate::decimal::FixedDecimal;
use crate::models::{BookmarkView, RestaurantRatingView};
use crate::seq_util::{
    lemma_filter_all_kept, lemma_seq_count_filter_le, lemma_seq_count_push, lemma_seq_count_zero,
    lemma_seq_replace_count, lemma_seq_replace_pointwise, seq_count,
};
use crate::store::{
    bookmark_keep, bookmark_pair, bookmarked_pred, place_pred, review_pair, review_user,
    StoreView,
};

verus! {

/// Bookmarking the same `(user_id, place_id)` pair twice, in a store that
/// held it at most once, leaves exactly one bookmark entry for the pair:
/// the insert is idempotent.
pub proof fn lemma_bookmark_twice_single_entry(
    s0: StoreView,
    u: Seq<char>,
    p: Seq<char>,
    t1: int,
    t2: int,
)
    requires
        s0.wf(),
    ensures
        seq_count(
            s0.bookmark_place(u, p, t1).bookmark_place(u, p, t2).bookmarks,
            bookmark_pair(u, p),
        ) == 1,
{
    let s1 = s0.bookmark_place(u, p, t1);
    if s0.has_bookmark(u, p) {
        assert(seq_count(s0.bookmarks, bookmark_pair(u, p)) == 1);
    } else {
        let b = BookmarkView { user_id: u, place_id: p, timestamp: t1 };
        lemma_seq_count_push(s0.bookmarks, bookmark_pair(u, p), b);
        assert(seq_count(s1.bookmarks, bookmark_pair(u, p)) == 1);
    }
}

/// The bookmark listing of a well-formed store never repeats a place: it
/// holds at most one entry per place identifier.
pub proof fn lemma_bookmarked_places_unique(s: StoreView, u: Seq<char>)
    requires
        s.wf(),
    ensures
        forall|pid: Seq<char>|
            #[trigger] seq_count(s.bookmarked_places(u), place_pred(pid)) <= 1,
{
    assert forall|pid: Seq<char>|
        #[trigger] seq_count(s.bookmarked_places(u), place_pred(pid)) <= 1 by {
        lemma_seq_count_filter_le(s.places, bookmarked_pred(s.bookmarks, u), place_pred(pid));
    }
}

/// Removing a bookmark that does not exist succeeds and changes nothing at
/// all: the delete is a no-op.
pub proof fn lemma_remove_missing_bookmark_noop(s0: StoreView, u: Seq<char>, p: Seq<char>)
    requires
        !s0.has_bookmark(u, p),
    ensures
        s0.remove_bookmark(u, p) == s0,
{
    lemma_seq_count_zero(s0.bookmarks, bookmark_pair(u, p));
    assert(forall|i: int|
        0 <= i < s0.bookmarks.len() ==> bookmark_keep(u, p)(#[trigger] s0.bookmarks[i]));
    lemma_filter_all_kept(s0.bookmarks, bookmark_keep(u, p));
}

/// A reservation already in the past at query time is excluded from the
/// valid reservations but still included among all reservations.
pub proof fn lemma_past_reservation_partition(s: StoreView, u: Seq<char>, i: int, now: int)
    requires
        0 <= i < s.reservations.len(),
        s.reservations[i].user_id == u,
        s.reservations[i].reservation_timestamp <= now,
    ensures
        s.reservations_of(u).contains(s.reservations[i]),
        !s.valid_reservations_of(u, now).contains(s.reservations[i]),
{
    s.reservations.lemma_filter_contains(crate::store::reservation_user(u), i);
    let valid = s.valid_reservations_of(u, now);
    if valid.contains(s.reservations[i]) {
        let j = choose|j: int| 0 <= j < valid.len() && valid[j] == s.reservations[i];
        s.reservations.lemma_filter_pred(crate::store::reservation_valid(u, now), j);
    }
}

/// Storing a review and then updating it changes exactly the one stored
/// row: the table grows by one over the original state, the pair keeps a
/// single entry carrying the latest rating — never both — every other row
/// is untouched, and the user's review listing contains the latest record.
pub proof fn lemma_review_update_single_row(
    s0: StoreView,
    u: Seq<char>,
    p: Seq<char>,
    r1: FixedDecimal,
    d1: Seq<char>,
    t1: int,
    r2: FixedDecimal,
    d2: Seq<char>,
    t2: int,
)
    requires
        s0.wf(),
        !s0.has_review(u, p),
    ensures
        ({
            let s2 = s0.add_review(u, p, r1, d1, t1).update_review(u, p, r2, d2, t2);
            let latest = RestaurantRatingView {
                user_id: u,
                place_id: p,
                rating: r2,
                description: d2,
                timestamp: t2,
            };
            &&& s2.reviews.len() == s0.reviews.len() + 1
            &&& s2.reviews[s0.reviews.len() as int] == latest
            &&& forall|j: int| 0 <= j < s0.reviews.len() ==> #[trigger] s2.reviews[j] == s0.reviews[j]
            &&& seq_count(s2.reviews, review_pair(u, p)) == 1
            &&& s2.reviews_by_user(u).contains(latest)
        }),
{
    let pred = review_pair(u, p);
    let first = RestaurantRatingView {
        user_id: u,
        place_id: p,
        rating: r1,
        description: d1,
        timestamp: t1,
    };
    let latest = RestaurantRatingView {
        user_id: u,
        place_id: p,
        rating: r2,
        description: d2,
        timestamp: t2,
    };
    let s1 = s0.add_review(u, p, r1, d1, t1);
    assert(s1.reviews == s0.reviews.push(first));
    lemma_seq_count_zero(s0.reviews, pred);
    lemma_seq_count_push(s0.reviews, pred, first);
    let s2 = s1.update_review(u, p, r2, d2, t2);
    lemma_seq_replace_pointwise(s1.reviews, pred, latest);
    assert forall|j: int| 0 <= j < s0.reviews.len() implies #[trigger] s2.reviews[j]
        == s0.reviews[j] by {
        assert(s1.reviews[j] == s0.reviews[j]);
        assert(!pred(s1.reviews[j]));
    }
    assert(s1.reviews[s0.reviews.len() as int] == first);
    assert(s2.reviews[s0.reviews.len() as int] == latest);
    lemma_seq_replace_count(s1.reviews, pred, latest, pred);
    assert(review_user(u)(latest));
    s2.reviews.lemma_filter_contains(review_user(u), s0.reviews.len() as int);
}

} // verus!
