//! Sums over finite sets, as folds whose steps add what each element weighs.

use vstd::prelude::*;
use vstd::set::fold::is_fun_commutative;
use vstd::set::fold::lemma_fold_empty;
use vstd::set::fold::lemma_fold_insert;

verus! {

/// Two sums over a finite set are equal where their steps agree on every
/// element of the set.
pub proof fn lemma_sums_agree<A>(keys: Set<A>, f: spec_fn(int, A) -> int, g: spec_fn(int, A) -> int)
    requires
        keys.finite(),
        is_fun_commutative(f),
        is_fun_commutative(g),
        forall|sum: int, key: A| keys.contains(key) ==> #[trigger] f(sum, key) == g(sum, key),
    ensures
        keys.fold(0int, f) == keys.fold(0int, g),
    decreases keys.len(),
{
    if keys.len() == 0 {
        keys.lemma_len0_is_empty();
        lemma_fold_empty(0int, f);
        lemma_fold_empty(0int, g);
    } else {
        let key = keys.choose();
        let rest = keys.remove(key);
        lemma_sums_agree(rest, f, g);
        lemma_fold_insert(rest, 0int, f, key);
        lemma_fold_insert(rest, 0int, g, key);
        assert(rest.insert(key) =~= keys);
    }
}

/// A sum over a finite set is not negative where no step lowers it.
pub proof fn lemma_sum_is_not_negative<A>(keys: Set<A>, f: spec_fn(int, A) -> int)
    requires
        keys.finite(),
        is_fun_commutative(f),
        forall|sum: int, key: A| keys.contains(key) ==> #[trigger] f(sum, key) >= sum,
    ensures
        keys.fold(0int, f) >= 0,
    decreases keys.len(),
{
    if keys.len() == 0 {
        keys.lemma_len0_is_empty();
        lemma_fold_empty(0int, f);
    } else {
        let key = keys.choose();
        let rest = keys.remove(key);
        lemma_sum_is_not_negative(rest, f);
        lemma_fold_insert(rest, 0int, f, key);
        assert(rest.insert(key) =~= keys);
    }
}

} // verus!
