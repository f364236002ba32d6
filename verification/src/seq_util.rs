//! Small sequence lemmas and helpers shared across the crate.

use vstd::prelude::*;

verus! {

/// How `filter` grows when one element is appended.
pub proof fn lemma_filter_push<A>(s: Seq<A>, pred: spec_fn(A) -> bool, x: A)
    ensures
        s.push(x).filter(pred) == if pred(x) {
            s.filter(pred).push(x)
        } else {
            s.filter(pred)
        },
{
    reveal(Seq::filter);
    assert(s.push(x).drop_last() =~= s);
    assert(s.push(x).last() == x);
}

/// Keeping everything filters nothing away.
pub proof fn lemma_filter_all_kept<A>(s: Seq<A>, pred: spec_fn(A) -> bool)
    requires
        forall|i: int| 0 <= i < s.len() ==> pred(#[trigger] s[i]),
    ensures
        s.filter(pred) == s,
    decreases s.len(),
{
    reveal(Seq::filter);
    if s.len() > 0 {
        assert(forall|i: int|
            0 <= i < s.drop_last().len() ==> pred(#[trigger] s.drop_last()[i]));
        lemma_filter_all_kept(s.drop_last(), pred);
        assert(s.drop_last().push(s.last()) =~= s);
    }
}

/// How many elements of `s` satisfy `pred`.
pub open spec fn seq_count<A>(s: Seq<A>, pred: spec_fn(A) -> bool) -> nat
    decreases s.len(),
{
    if s.len() == 0 {
        0
    } else {
        seq_count(s.drop_last(), pred) + if pred(s.last()) {
            1nat
        } else {
            0nat
        }
    }
}

/// How the count grows when one element is appended.
pub proof fn lemma_seq_count_push<A>(s: Seq<A>, pred: spec_fn(A) -> bool, x: A)
    ensures
        seq_count(s.push(x), pred) == seq_count(s, pred) + if pred(x) {
            1nat
        } else {
            0nat
        },
{
    assert(s.push(x).drop_last() =~= s);
    assert(s.push(x).last() == x);
}

/// The count is zero exactly when no element matches.
pub proof fn lemma_seq_count_zero<A>(s: Seq<A>, pred: spec_fn(A) -> bool)
    ensures
        (seq_count(s, pred) == 0) <==> (forall|i: int| 0 <= i < s.len() ==> !pred(#[trigger] s[i])),
    decreases s.len(),
{
    if s.len() > 0 {
        lemma_seq_count_zero(s.drop_last(), pred);
        assert(forall|i: int| 0 <= i < s.len() - 1 ==> s.drop_last()[i] == s[i]);
        assert(s.last() == s[s.len() - 1]);
    }
}

/// A matching position puts the count at one or more.
pub proof fn lemma_seq_count_one<A>(s: Seq<A>, pred: spec_fn(A) -> bool, i: int)
    requires
        0 <= i < s.len(),
        pred(s[i]),
    ensures
        seq_count(s, pred) >= 1,
    decreases s.len(),
{
    if i < s.len() - 1 {
        lemma_seq_count_one(s.drop_last(), pred, i);
    }
}

/// Filtering never raises a count.
pub proof fn lemma_seq_count_filter_le<A>(
    s: Seq<A>,
    keep: spec_fn(A) -> bool,
    pred: spec_fn(A) -> bool,
)
    ensures
        seq_count(s.filter(keep), pred) <= seq_count(s, pred),
    decreases s.len(),
{
    reveal(Seq::filter);
    if s.len() > 0 {
        lemma_seq_count_filter_le(s.drop_last(), keep, pred);
        if keep(s.last()) {
            lemma_seq_count_push(s.drop_last().filter(keep), pred, s.last());
        }
    }
}

/// `s` with every element matching `pred` replaced by `x`.
pub open spec fn seq_replace<A>(s: Seq<A>, pred: spec_fn(A) -> bool, x: A) -> Seq<A>
    decreases s.len(),
{
    if s.len() == 0 {
        Seq::empty()
    } else {
        seq_replace(s.drop_last(), pred, x).push(
            if pred(s.last()) {
                x
            } else {
                s.last()
            },
        )
    }
}

/// What `seq_replace` does position by position.
pub proof fn lemma_seq_replace_pointwise<A>(s: Seq<A>, pred: spec_fn(A) -> bool, x: A)
    ensures
        seq_replace(s, pred, x).len() == s.len(),
        forall|i: int|
            0 <= i < s.len() ==> seq_replace(s, pred, x)[i] == (if pred(#[trigger] s[i]) {
                x
            } else {
                s[i]
            }),
    decreases s.len(),
{
    if s.len() > 0 {
        lemma_seq_replace_pointwise(s.drop_last(), pred, x);
        assert(forall|i: int| 0 <= i < s.len() - 1 ==> s.drop_last()[i] == s[i]);
        assert(s.last() == s[s.len() - 1]);
    }
}

/// Replacement keeps any count whose predicate cannot tell a matching
/// element from its replacement.
pub proof fn lemma_seq_replace_count<A>(
    s: Seq<A>,
    pred: spec_fn(A) -> bool,
    x: A,
    other: spec_fn(A) -> bool,
)
    requires
        forall|y: A| #[trigger] pred(y) ==> (other(y) <==> other(x)),
    ensures
        seq_count(seq_replace(s, pred, x), other) == seq_count(s, other),
    decreases s.len(),
{
    if s.len() > 0 {
        lemma_seq_replace_count(s.drop_last(), pred, x, other);
        lemma_seq_count_push(
            seq_replace(s.drop_last(), pred, x),
            other,
            if pred(s.last()) {
                x
            } else {
                s.last()
            },
        );
    }
}

} // verus!
