//! Least numbers with a property, by which the recursions over a template are measured.
use vstd::prelude::*;

verus! {

/// The least number that has the property `p`. It means nothing where no number has it.
pub open spec fn least(p: spec_fn(nat) -> bool) -> nat {
    choose|n: nat| #[trigger] p(n) && forall|m: nat| m < n ==> !#[trigger] p(m)
}

/// Where a number `n` has the property, so has the least one, and it is at most `n`.
pub proof fn lemma_least(p: spec_fn(nat) -> bool, n: nat)
    requires
        p(n),
    ensures
        p(least(p)),
        least(p) <= n,
    decreases n,
{
    if exists|m: nat| m < n && #[trigger] p(m) {
        let m = choose|m: nat| m < n && #[trigger] p(m);
        lemma_least(p, m);
    } else {
        assert(p(n) && forall|m: nat| m < n ==> !#[trigger] p(m));
    }
}

} // verus!
