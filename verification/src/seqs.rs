//! Two ways of reading a sequence that the parsers share: taking the first
//! value there is, and keeping the values there are.

use vstd::prelude::*;

verus! {

/// The first of `candidates` that is there.
pub open spec fn first_some<T>(candidates: Seq<Option<T>>) -> Option<T>
    decreases candidates.len(),
{
    if candidates.len() == 0 {
        None
    } else if candidates[0] is Some {
        candidates[0]
    } else {
        first_some(candidates.drop_first())
    }
}

/// What `f` gives for the elements of `s`, in their order; the elements for
/// which it gives nothing are left out.
pub open spec fn filter_map<A, B>(s: Seq<A>, f: spec_fn(A) -> Option<B>) -> Seq<B>
    decreases s.len(),
{
    if s.len() == 0 {
        Seq::empty()
    } else {
        let before = filter_map(s.drop_last(), f);
        match f(s.last()) {
            Some(b) => before.push(b),
            None => before,
        }
    }
}

/// The first value there is comes before every other, and there is none
/// exactly when no candidate has one.
pub proof fn lemma_first_some<T>(candidates: Seq<Option<T>>)
    ensures
        match first_some(candidates) {
            Some(v) => exists|i: int|
                0 <= i < candidates.len() && #[trigger] candidates[i] == Some(v) && forall|j: int|
                    0 <= j < i ==> #[trigger] candidates[j] is None,
            None => forall|j: int| 0 <= j < candidates.len() ==> #[trigger] candidates[j] is None,
        },
    decreases candidates.len(),
{
    if candidates.len() > 0 && candidates[0] is None {
        let rest = candidates.drop_first();
        lemma_first_some(rest);
        match first_some(rest) {
            Some(v) => {
                let i = choose|i: int|
                    0 <= i < rest.len() && #[trigger] rest[i] == Some(v) && forall|j: int|
                        0 <= j < i ==> #[trigger] rest[j] is None;
                assert(candidates[i + 1] == Some(v));
                assert forall|j: int| 0 <= j < i + 1 implies #[trigger] candidates[j] is None by {
                    if j > 0 {
                        assert(candidates[j] == rest[j - 1]);
                    }
                }
            },
            None => {
                assert forall|j: int| 0 <= j < candidates.len() implies #[trigger] candidates[j]
                    is None by {
                    if j > 0 {
                        assert(candidates[j] == rest[j - 1]);
                    }
                }
            },
        }
    } else if candidates.len() > 0 {
        assert(candidates[0] == Some(candidates[0]->0));
    }
}

/// Of two candidates the first wins wherever it is there, and the second
/// counts only where the first is not.
pub proof fn lemma_first_of_two<T>(first: Option<T>, second: Option<T>)
    ensures
        first_some(seq![first, second]) == if first is Some {
            first
        } else {
            second
        },
{
    let candidates = seq![first, second];
    assert(candidates.drop_first() =~= seq![second]);
    assert(candidates.drop_first().drop_first() =~= Seq::<Option<T>>::empty());
    reveal_with_fuel(first_some, 3);
}

/// The first value there is, looked for from position `from` on, is the
/// candidate at `from` where that one is there, and is looked for from the
/// next position on where it is not.
pub proof fn lemma_first_some_step<T>(candidates: Seq<Option<T>>, from: int)
    requires
        0 <= from < candidates.len(),
    ensures
        first_some(candidates.skip(from)) == if candidates[from] is Some {
            candidates[from]
        } else {
            first_some(candidates.skip(from + 1))
        },
{
    assert(candidates.skip(from)[0] == candidates[from]);
    assert(candidates.skip(from).drop_first() == candidates.skip(from + 1));
}

/// One more element adds what `f` gives for it, if it gives anything.
pub proof fn lemma_filter_map_push<A, B>(s: Seq<A>, a: A, f: spec_fn(A) -> Option<B>)
    ensures
        filter_map(s.push(a), f) == match f(a) {
            Some(b) => filter_map(s, f).push(b),
            None => filter_map(s, f),
        },
{
    assert(s.push(a).drop_last() == s);
}

/// Keeping what `f` gives is the same as keeping the elements for which it
/// gives something, and then taking what it gives for each.
pub proof fn lemma_filter_map_is_filter_then_map<A, B>(s: Seq<A>, f: spec_fn(A) -> Option<B>)
    ensures
        filter_map(s, f) == s.filter(|a: A| f(a) is Some).map_values(|a: A| f(a)->0),
    decreases s.len(),
{
    reveal(Seq::filter);
    let kept = s.filter(|a: A| f(a) is Some);
    if s.len() == 0 {
        assert(kept.map_values(|a: A| f(a)->0) =~= Seq::<B>::empty());
    } else {
        let before = s.drop_last();
        lemma_filter_map_is_filter_then_map(before, f);
        let kept_before = before.filter(|a: A| f(a) is Some);
        match f(s.last()) {
            Some(b) => {
                assert(kept == kept_before.push(s.last()));
                assert(kept.map_values(|a: A| f(a)->0) =~= kept_before.map_values(
                    |a: A| f(a)->0,
                ).push(b));
            },
            None => {
                assert(kept == kept_before);
            },
        }
    }
}

/// The first of `candidates` that is there: the readers of one metric, say,
/// in the order of preference.
pub fn first_available<T: Copy>(candidates: &[Option<T>]) -> (r: Option<T>)
    ensures
        r == first_some(candidates@),
{
    let mut i: usize = 0;
    proof {
        assert(candidates@.skip(0) == candidates@);
    }
    while i < candidates.len()
        invariant
            i <= candidates@.len(),
            first_some(candidates@) == first_some(candidates@.skip(i as int)),
        decreases candidates@.len() - i,
    {
        proof {
            lemma_first_some_step(candidates@, i as int);
        }
        match candidates[i] {
            Some(v) => {
                return Some(v);
            },
            None => {},
        }
        i += 1;
    }
    None
}

} // verus!
