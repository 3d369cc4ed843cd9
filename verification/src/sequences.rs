//! Facts about sequences that the registries rest on.

use vstd::prelude::*;

verus! {

/// Filtering keeps a sequence whole when every element passes.
pub proof fn lemma_filter_keeps_all<A>(s: Seq<A>, pred: spec_fn(A) -> bool)
    requires
        forall|i: int| 0 <= i < s.len() ==> pred(#[trigger] s[i]),
    ensures
        s.filter(pred) == s,
    decreases s.len(),
{
    reveal(Seq::filter);
    if s.len() > 0 {
        lemma_filter_keeps_all(s.drop_last(), pred);
        assert(s =~= s.drop_last().push(s.last()));
    }
}

/// Filtering removes one element when that one alone fails.
pub proof fn lemma_filter_drops_one<A>(s: Seq<A>, pred: spec_fn(A) -> bool, at: int)
    requires
        0 <= at < s.len(),
        !pred(s[at]),
        forall|i: int| 0 <= i < s.len() && i != at ==> pred(#[trigger] s[i]),
    ensures
        s.filter(pred) == s.remove(at),
    decreases s.len(),
{
    reveal(Seq::filter);
    let front = s.drop_last();
    if at == s.len() - 1 {
        lemma_filter_keeps_all(front, pred);
        assert(s.remove(at) =~= front);
    } else {
        lemma_filter_drops_one(front, pred, at);
        assert(s.remove(at) =~= front.remove(at).push(s.last()));
    }
}

/// Filtering a sequence whose elements differ pairwise under `key` leaves
/// a sequence whose elements do too.
pub proof fn lemma_filter_keeps_distinct<A, K>(
    s: Seq<A>,
    pred: spec_fn(A) -> bool,
    key: spec_fn(A) -> K,
)
    requires
        forall|i: int, j: int| 0 <= i < j < s.len() ==> key(#[trigger] s[i]) != key(#[trigger] s[j]),
    ensures
        forall|i: int, j: int|
            0 <= i < j < s.filter(pred).len() ==> key(#[trigger] s.filter(pred)[i]) != key(
                #[trigger] s.filter(pred)[j],
            ),
    decreases s.len(),
{
    reveal(Seq::filter);
    if s.len() > 0 {
        let front = s.drop_last();
        let kept = s.filter(pred);
        let inner = front.filter(pred);
        assert forall|i: int, j: int| 0 <= i < j < front.len() implies key(#[trigger] front[i])
            != key(#[trigger] front[j]) by {
            assert(front[i] == s[i] && front[j] == s[j]);
        }
        lemma_filter_keeps_distinct(front, pred, key);
        assert forall|i: int, j: int| 0 <= i < j < kept.len() implies key(#[trigger] kept[i])
            != key(#[trigger] kept[j]) by {
            if j < inner.len() {
                assert(kept[i] == inner[i] && kept[j] == inner[j]);
            } else {
                assert(kept[i] == inner[i]);
                assert(inner.contains(inner[i]));
                front.lemma_filter_contains_rev(pred, inner[i]);
                let k = choose|k: int| 0 <= k < front.len() && front[k] == inner[i];
                assert(s[k] == front[k]);
                assert(kept[j] == s[s.len() - 1]);
            }
        }
    }
}

/// Position of the first element equal to `wanted`, if there is one.
pub open spec fn first_match<A>(s: Seq<A>, wanted: A) -> Option<int>
    decreases s.len(),
{
    if s.len() == 0 {
        None
    } else if s[0] == wanted {
        Some(0)
    } else {
        match first_match(s.drop_first(), wanted) {
            Some(i) => Some(i + 1),
            None => None,
        }
    }
}

/// `first_match` finds an element exactly when the sequence holds it, and
/// then the first place where it stands.
pub proof fn lemma_first_match<A>(s: Seq<A>, wanted: A)
    ensures
        first_match(s, wanted) is Some <==> s.contains(wanted),
        first_match(s, wanted) matches Some(i) ==> 0 <= i < s.len() && s[i] == wanted && forall|
            k: int,
        | 0 <= k < i ==> s[k] != wanted,
    decreases s.len(),
{
    if s.len() > 0 {
        let rest = s.drop_first();
        lemma_first_match(rest, wanted);
        if s[0] != wanted {
            if s.contains(wanted) {
                let k = choose|k: int| 0 <= k < s.len() && s[k] == wanted;
                assert(rest[k - 1] == wanted);
            }
            if rest.contains(wanted) {
                let k = choose|k: int| 0 <= k < rest.len() && rest[k] == wanted;
                assert(s[k + 1] == wanted);
            }
            if let Some(i) = first_match(rest, wanted) {
                assert forall|k: int| 0 <= k < i + 1 implies s[k] != wanted by {
                    if k > 0 {
                        assert(rest[k - 1] == s[k]);
                    }
                }
            }
        }
    }
}

/// The place where an element stands with nothing equal before it is the
/// place `first_match` finds.
pub proof fn lemma_first_match_at<A>(s: Seq<A>, wanted: A, at: int)
    requires
        0 <= at < s.len(),
        s[at] == wanted,
        forall|k: int| 0 <= k < at ==> s[k] != wanted,
    ensures
        first_match(s, wanted) == Some(at),
{
    lemma_first_match(s, wanted);
}

} // verus!
