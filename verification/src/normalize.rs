//! The place normalizer.
//!
//! One external search payload, shaped like `{ "results": [ ... ] }`, is
//! turned into canonical [`Restaurant`] records. A document without a
//! `results` array fails as a whole; a malformed element — one missing any
//! required field — is skipped on its own, never aborting the batch.
//! Output keeps the input order; duplicate `place_id`s are allowed here and
//! collapse later under the store's insert-or-ignore policy.

use vstd::prelude::*;
use crate::decimal::FixedDecimal;
use crate::json::JsonValue;
use crate::models::{Location, Photo, PhotoView, Restaurant, RestaurantView};
use crate::seq_util::lemma_filter_push;

verus! {

/// `s` with every embedded quote character removed.
pub open spec fn strip_quotes_spec(s: Seq<char>) -> Seq<char> {
    s.filter(|c: char| c != '"' && c != '\'')
}

/// Removes embedded quote characters from a name.
pub fn strip_quotes(s: &str) -> (r: String)
    ensures
        r@ == strip_quotes_spec(s@),
{
    let n = s.unicode_len();
    let mut r = String::new();
    let mut i: usize = 0;
    proof {
        assert(s@.subrange(0, 0) =~= Seq::<char>::empty());
        assert(Seq::<char>::empty().filter(|c: char| c != '"' && c != '\'')
            =~= Seq::<char>::empty()) by {
            reveal(Seq::filter);
        }
    }
    while i < n
        invariant
            n == s@.len(),
            0 <= i <= n,
            r@ == strip_quotes_spec(s@.subrange(0, i as int)),
        decreases n - i,
    {
        let c = s.get_char(i);
        if !(c == '"' || c == '\'') {
            let piece = s.substring_char(i, i + 1);
            r.append(piece);
            proof {
                assert(r@ =~= strip_quotes_spec(s@.subrange(0, i as int)).push(s@[i as int]));
            }
        }
        proof {
            assert(s@.subrange(0, i + 1).drop_last() =~= s@.subrange(0, i as int));
            assert(s@.subrange(0, i + 1) =~= s@.subrange(0, i as int).push(s@[i as int]));
            lemma_filter_push(
                s@.subrange(0, i as int),
                |c: char| c != '"' && c != '\'',
                s@[i as int],
            );
        }
        i = i + 1;
    }
    proof {
        assert(s@.subrange(0, n as int) =~= s@);
    }
    r
}

/// The representative photo of an element: the first entry of its `photos`
/// array, which must carry integral `height` and `width` and a string
/// `photo_reference`.
pub open spec fn spec_photo_of(elem: JsonValue) -> Option<PhotoView> {
    match elem.spec_get("photos"@) {
        Some(ph) => match ph.spec_as_array() {
            Some(items) => if items.len() > 0 {
                let first = items[0];
                match (
                    first.spec_get("height"@),
                    first.spec_get("width"@),
                    first.spec_get("photo_reference"@),
                ) {
                    (Some(h), Some(w), Some(pr)) => match (
                        h.spec_as_int(),
                        w.spec_as_int(),
                        pr.spec_as_str(),
                    ) {
                        (Some(height), Some(width), Some(photo_reference)) => Some(
                            PhotoView { height, width, photo_reference },
                        ),
                        _ => None,
                    },
                    _ => None,
                }
            } else {
                None
            },
            None => None,
        },
        None => None,
    }
}

/// The coordinates of an element: `geometry.location.{lat,lng}`, both
/// numeric.
pub open spec fn spec_location_of(elem: JsonValue) -> Option<Location> {
    match elem.spec_get("geometry"@) {
        Some(g) => match g.spec_get("location"@) {
            Some(loc) => match (loc.spec_get("lat"@), loc.spec_get("lng"@)) {
                (Some(la), Some(ln)) => match (la.spec_as_number(), ln.spec_as_number()) {
                    (Some(lat), Some(lng)) => Some(Location { lat, lng }),
                    _ => None,
                },
                _ => None,
            },
            None => None,
        },
        None => None,
    }
}

/// The canonical record of one element, or `None` when any required field
/// is missing or of the wrong kind. The name loses its embedded quotes.
pub open spec fn spec_extract(elem: JsonValue) -> Option<RestaurantView> {
    match (
        elem.spec_get("place_id"@),
        elem.spec_get("name"@),
        elem.spec_get("rating"@),
        elem.spec_get("vicinity"@),
    ) {
        (Some(p), Some(n), Some(rt), Some(v)) => match (
            p.spec_as_str(),
            n.spec_as_str(),
            rt.spec_as_number(),
            v.spec_as_str(),
        ) {
            (Some(place_id), Some(name), Some(rating), Some(vicinity)) => match (
                spec_photo_of(elem),
                spec_location_of(elem),
            ) {
                (Some(photos), Some(geometry)) => Some(
                    RestaurantView {
                        place_id,
                        name: strip_quotes_spec(name),
                        photos,
                        rating,
                        vicinity,
                        geometry,
                    },
                ),
                _ => None,
            },
            _ => None,
        },
        _ => None,
    }
}

/// The records of the well-formed elements, in input order.
pub open spec fn spec_normalize(items: Seq<JsonValue>) -> Seq<RestaurantView>
    decreases items.len(),
{
    if items.len() == 0 {
        Seq::empty()
    } else {
        let prefix = spec_normalize(items.drop_last());
        match spec_extract(items.last()) {
            Some(r) => prefix.push(r),
            None => prefix,
        }
    }
}

/// Extracts the canonical record of one raw element.
pub fn extract_restaurant(elem: &JsonValue) -> (r: Option<Restaurant>)
    ensures
        match r {
            Some(rest) => spec_extract(*elem) == Some(rest@),
            None => spec_extract(*elem) is None,
        },
{
    let place_id = match elem.get("place_id") {
        Some(v) => match v.as_str() {
            Some(s) => s.clone(),
            None => { return None; },
        },
        None => { return None; },
    };
    let raw_name = match elem.get("name") {
        Some(v) => match v.as_str() {
            Some(s) => s.clone(),
            None => { return None; },
        },
        None => { return None; },
    };
    let rating = match elem.get("rating") {
        Some(v) => match v.as_number() {
            Some(d) => d,
            None => { return None; },
        },
        None => { return None; },
    };
    let vicinity = match elem.get("vicinity") {
        Some(v) => match v.as_str() {
            Some(s) => s.clone(),
            None => { return None; },
        },
        None => { return None; },
    };
    let photos = match photo_of(elem) {
        Some(p) => p,
        None => { return None; },
    };
    let geometry = match location_of(elem) {
        Some(l) => l,
        None => { return None; },
    };
    let name = strip_quotes(raw_name.as_str());
    Some(Restaurant { place_id, name, photos, rating, vicinity, geometry })
}

/// Reads the representative photo out of one raw element.
fn photo_of(elem: &JsonValue) -> (r: Option<Photo>)
    ensures
        match r {
            Some(p) => spec_photo_of(*elem) == Some(p@),
            None => spec_photo_of(*elem) is None,
        },
{
    let items = match elem.get("photos") {
        Some(v) => match v.as_array() {
            Some(items) => items,
            None => { return None; },
        },
        None => { return None; },
    };
    if items.len() == 0 {
        return None;
    }
    let first = &items[0];
    let height = match first.get("height") {
        Some(v) => match v.as_int() {
            Some(i) => i,
            None => { return None; },
        },
        None => { return None; },
    };
    let width = match first.get("width") {
        Some(v) => match v.as_int() {
            Some(i) => i,
            None => { return None; },
        },
        None => { return None; },
    };
    let photo_reference = match first.get("photo_reference") {
        Some(v) => match v.as_str() {
            Some(s) => s.clone(),
            None => { return None; },
        },
        None => { return None; },
    };
    Some(Photo { height, width, photo_reference })
}

/// Reads the coordinates out of one raw element.
fn location_of(elem: &JsonValue) -> (r: Option<Location>)
    ensures
        match r {
            Some(l) => spec_location_of(*elem) == Some(l),
            None => spec_location_of(*elem) is None,
        },
{
    let loc = match elem.get("geometry") {
        Some(g) => match g.get("location") {
            Some(loc) => loc,
            None => { return None; },
        },
        None => { return None; },
    };
    let lat = match loc.get("lat") {
        Some(v) => match v.as_number() {
            Some(d) => d,
            None => { return None; },
        },
        None => { return None; },
    };
    let lng = match loc.get("lng") {
        Some(v) => match v.as_number() {
            Some(d) => d,
            None => { return None; },
        },
        None => { return None; },
    };
    Some(Location { lat, lng })
}

/// What normalization produced: the canonical records and how many
/// malformed elements were skipped.
#[derive(Debug, PartialEq)]
pub struct NormalizedPlaces {
    pub restaurants: Vec<Restaurant>,
    pub skipped: usize,
}

/// Why a whole payload was rejected.
#[derive(Clone, Copy, Debug, PartialEq, Eq, Structural)]
pub enum NormalizeError {
    /// The document carries no `results` array.
    MissingResults,
}

/// Normalizes one search payload. Fails only when the document has no
/// `results` array; otherwise every well-formed element becomes a record,
/// in input order, and each malformed element is counted as skipped.
pub fn normalize_places(doc: &JsonValue) -> (r: Result<NormalizedPlaces, NormalizeError>)
    ensures
        r is Ok <==> (doc.spec_get("results"@) matches Some(v) && v.spec_as_array() is Some),
        r matches Ok(out) ==> {
            let items = doc.spec_get("results"@)->Some_0.spec_as_array()->Some_0;
            &&& out.restaurants.deep_view() == spec_normalize(items)
            &&& out.skipped + out.restaurants@.len() == items.len()
        },
        r is Err ==> r->Err_0 == NormalizeError::MissingResults,
{
    let items = match doc.get("results") {
        Some(v) => match v.as_array() {
            Some(items) => items,
            None => { return Err(NormalizeError::MissingResults); },
        },
        None => { return Err(NormalizeError::MissingResults); },
    };
    let ghost gitems = doc.spec_get("results"@)->Some_0.spec_as_array()->Some_0;
    let n = items.len();
    let mut restaurants: Vec<Restaurant> = Vec::new();
    let mut skipped: usize = 0;
    let mut i: usize = 0;
    proof {
        assert(gitems.subrange(0, 0) =~= Seq::<JsonValue>::empty());
        assert(restaurants.deep_view() =~= spec_normalize(gitems.subrange(0, 0)));
    }
    while i < n
        invariant
            n == gitems.len(),
            items@ == gitems,
            0 <= i <= n,
            restaurants.deep_view() == spec_normalize(gitems.subrange(0, i as int)),
            skipped + restaurants@.len() == i,
        decreases n - i,
    {
        proof {
            assert(gitems.subrange(0, i + 1).drop_last() =~= gitems.subrange(0, i as int));
            assert(gitems.subrange(0, i + 1).last() == gitems[i as int]);
        }
        match extract_restaurant(&items[i]) {
            Some(rest) => {
                restaurants.push(rest);
                proof {
                    assert(restaurants.deep_view() =~= spec_normalize(
                        gitems.subrange(0, i + 1),
                    ));
                }
            },
            None => {
                skipped = skipped + 1;
            },
        }
        i = i + 1;
    }
    proof {
        assert(gitems.subrange(0, n as int) =~= gitems);
    }
    Ok(NormalizedPlaces { restaurants, skipped })
}

/// In a batch of three where exactly the middle element is malformed, the
/// two well-formed records come through and nothing else: the skip is
/// per-element, never per-batch.
pub proof fn lemma_one_bad_of_three(a: JsonValue, b: JsonValue, c: JsonValue)
    requires
        spec_extract(a) is Some,
        spec_extract(b) is None,
        spec_extract(c) is Some,
    ensures
        spec_normalize(seq![a, b, c]) =~= seq![spec_extract(a)->Some_0, spec_extract(c)->Some_0],
        spec_normalize(seq![a, b, c]).len() == 2,
{
    reveal_with_fuel(spec_normalize, 5);
    let s = seq![a, b, c];
    assert(s.drop_last() =~= seq![a, b]);
    assert(seq![a, b].drop_last() =~= seq![a]);
    assert(seq![a].drop_last() =~= Seq::<JsonValue>::empty());
    assert(spec_normalize(seq![a]) =~= seq![spec_extract(a)->Some_0]);
}

} // verus!
