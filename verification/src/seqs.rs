//! Facts about filtered sequences that the tables rest on.

use vstd::prelude::*;

verus! {

/// No two elements of the sequence have the same key.
pub open spec fn distinct_keys<A, K>(s: Seq<A>, key: spec_fn(A) -> K) -> bool {
    forall|i: int, j: int| 0 <= i < j < s.len() ==> key(#[trigger] s[i]) != key(#[trigger] s[j])
}

/// Every element of the sequence has the property.
pub open spec fn all_hold<A>(s: Seq<A>, prop: spec_fn(A) -> bool) -> bool {
    forall|i: int| 0 <= i < s.len() ==> prop(#[trigger] s[i])
}

/// Every element that a filter keeps is an element of the sequence.
pub proof fn lemma_filter_source<A>(s: Seq<A>, pred: spec_fn(A) -> bool, i: int)
    requires
        0 <= i < s.filter(pred).len(),
    ensures
        exists|k: int| 0 <= k < s.len() && #[trigger] s[k] == s.filter(pred)[i],
        pred(s.filter(pred)[i]),
{
    let kept = s.filter(pred);
    assert(kept.contains(kept[i]));
    s.lemma_filter_contains_rev(pred, kept[i]);
    s.lemma_filter_pred(pred, i);
}

/// What holds of every element holds of every element that a filter keeps.
pub proof fn lemma_filter_all_hold<A>(s: Seq<A>, pred: spec_fn(A) -> bool, prop: spec_fn(A) -> bool)
    requires
        all_hold(s, prop),
    ensures
        all_hold(s.filter(pred), prop),
{
    assert forall|i: int| 0 <= i < s.filter(pred).len() implies prop(
        #[trigger] s.filter(pred)[i],
    ) by {
        lemma_filter_source(s, pred, i);
    }
}

/// A filter keeps keys distinct.
pub proof fn lemma_filter_distinct<A, K>(s: Seq<A>, pred: spec_fn(A) -> bool, key: spec_fn(A) -> K)
    requires
        distinct_keys(s, key),
    ensures
        distinct_keys(s.filter(pred), key),
    decreases s.len(),
{
    reveal(Seq::filter);
    if s.len() > 0 {
        let rest = s.drop_last();
        assert forall|i: int, j: int| 0 <= i < j < rest.len() implies key(#[trigger] rest[i])
            != key(#[trigger] rest[j]) by {
            assert(rest[i] == s[i] && rest[j] == s[j]);
        }
        lemma_filter_distinct(rest, pred, key);
        if pred(s.last()) {
            let kept = rest.filter(pred);
            assert forall|i: int, j: int| 0 <= i < j < kept.push(s.last()).len() implies key(
                #[trigger] kept.push(s.last())[i],
            ) != key(#[trigger] kept.push(s.last())[j]) by {
                if j == kept.len() {
                    lemma_filter_source(rest, pred, i);
                    let k = choose|k: int| 0 <= k < rest.len() && #[trigger] rest[k] == kept[i];
                    assert(rest[k] == s[k]);
                    assert(key(s[k]) != key(s[s.len() - 1]));
                } else {
                    assert(kept.push(s.last())[i] == kept[i]);
                    assert(kept.push(s.last())[j] == kept[j]);
                }
            }
        }
    }
}

/// Where no element is left out, a filter changes nothing.
pub proof fn lemma_filter_keeps_all<A>(s: Seq<A>, pred: spec_fn(A) -> bool)
    requires
        all_hold(s, pred),
    ensures
        s.filter(pred) == s,
    decreases s.len(),
{
    reveal(Seq::filter);
    if s.len() > 0 {
        let rest = s.drop_last();
        assert forall|i: int| 0 <= i < rest.len() implies pred(#[trigger] rest[i]) by {
            assert(rest[i] == s[i]);
        }
        lemma_filter_keeps_all(rest, pred);
        assert(pred(s[s.len() - 1]));
        assert(rest.push(s.last()) =~= s);
    }
}

/// Filtering what a wider filter has kept is filtering the sequence itself.
pub proof fn lemma_filter_narrows<A>(s: Seq<A>, wide: spec_fn(A) -> bool, narrow: spec_fn(A) -> bool)
    requires
        forall|x: A| #[trigger] narrow(x) ==> wide(x),
    ensures
        s.filter(wide).filter(narrow) == s.filter(narrow),
    decreases s.len(),
{
    reveal(Seq::filter);
    if s.len() > 0 {
        let rest = s.drop_last();
        lemma_filter_narrows(rest, wide, narrow);
        if wide(s.last()) {
            rest.filter(wide).lemma_filter_push(s.last(), narrow);
        } else {
            assert(!narrow(s.last()));
        }
    }
}

/// Whether the numbers are pairwise different and each at least 1 and below
/// `next`.
pub open spec fn ids_in_order(ids: Seq<i64>, next: i64) -> bool {
    &&& forall|i: int| 0 <= i < ids.len() ==> 1 <= #[trigger] ids[i] < next
    &&& forall|i: int, j: int| 0 <= i < j < ids.len() ==> #[trigger] ids[i] != #[trigger] ids[j]
}

/// Whether the texts are pairwise different.
pub open spec fn texts_differ(texts: Seq<Seq<char>>) -> bool {
    forall|i: int, j: int| 0 <= i < j < texts.len() ==> #[trigger] texts[i] != #[trigger] texts[j]
}

/// The views of some texts.
pub open spec fn views_of(texts: Seq<String>) -> Seq<Seq<char>> {
    texts.map_values(|t: String| t@)
}

/// Checks that ids are pairwise different and within the range that a
/// counter has given out.
pub fn check_ids(ids: &Vec<i64>, next: i64) -> (ok: bool)
    ensures
        ok == ids_in_order(ids@, next),
{
    let mut i: usize = 0;
    while i < ids.len()
        invariant
            i <= ids@.len(),
            forall|a: int| 0 <= a < i ==> 1 <= #[trigger] ids@[a] < next,
            forall|a: int, b: int| 0 <= a < b < i ==> #[trigger] ids@[a] != #[trigger] ids@[b],
        decreases ids@.len() - i,
    {
        if ids[i] < 1 || ids[i] >= next {
            return false;
        }
        let mut j: usize = 0;
        while j < i
            invariant
                j <= i < ids@.len(),
                forall|a: int| 0 <= a < j ==> #[trigger] ids@[a] != ids@[i as int],
            decreases i - j,
        {
            if ids[j] == ids[i] {
                return false;
            }
            j = j + 1;
        }
        i = i + 1;
    }
    true
}

/// Checks that texts are pairwise different.
pub fn check_texts(texts: &Vec<String>) -> (ok: bool)
    ensures
        ok == texts_differ(views_of(texts@)),
{
    let mut i: usize = 0;
    while i < texts.len()
        invariant
            i <= texts@.len(),
            forall|a: int, b: int|
                0 <= a < b < i ==> #[trigger] views_of(texts@)[a] != #[trigger] views_of(
                    texts@,
                )[b],
        decreases texts@.len() - i,
    {
        let mut j: usize = 0;
        while j < i
            invariant
                j <= i < texts@.len(),
                forall|a: int| 0 <= a < j ==> #[trigger] views_of(texts@)[a] != views_of(texts@)[i as int],
            decreases i - j,
        {
            if crate::text::str_eq(texts[j].as_str(), texts[i].as_str()) {
                assert(views_of(texts@)[j as int] == views_of(texts@)[i as int]);
                return false;
            }
            j = j + 1;
        }
        i = i + 1;
    }
    true
}

} // verus!
