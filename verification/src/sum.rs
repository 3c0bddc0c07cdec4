//! Finite sums of field elements, and how they may be rearranged.

use crate::field::{lemma_four_swap, lemma_zero_add, Field};
use vstd::prelude::*;

verus! {

/// The sum `f(0) + f(1) + ... + f(n - 1)`.
pub open spec fn sum<T: Field>(f: spec_fn(int) -> T, n: nat) -> T
    decreases n,
{
    if n == 0 {
        T::zero_spec()
    } else {
        sum(f, (n - 1) as nat).add_spec(f(n - 1))
    }
}

/// Whether the first `n` values of `f` are field elements.
pub open spec fn terms_wf<T: Field>(f: spec_fn(int) -> T, n: nat) -> bool {
    forall|i: int| 0 <= i < n ==> (#[trigger] f(i)).wf()
}

/// A sum of elements is an element.
pub proof fn lemma_sum_wf<T: Field>(f: spec_fn(int) -> T, n: nat)
    requires
        terms_wf(f, n),
    ensures
        sum(f, n).wf(),
    decreases n,
{
    T::lemma_identities_wf();
    if n > 0 {
        lemma_sum_wf(f, (n - 1) as nat);
        T::lemma_closed(sum(f, (n - 1) as nat), f(n - 1));
    }
}

/// Terms that are zero from `m` on add nothing.
pub proof fn lemma_sum_extend<T: Field>(f: spec_fn(int) -> T, m: nat, n: nat)
    requires
        m <= n,
        terms_wf(f, m),
        forall|i: int| m <= i < n ==> #[trigger] f(i) == T::zero_spec(),
    ensures
        sum(f, n) == sum(f, m),
    decreases n,
{
    if n > m {
        lemma_sum_extend(f, m, (n - 1) as nat);
        lemma_sum_wf(f, m);
        T::lemma_add_zero(sum(f, m));
    }
}

/// A sum of zeros is zero.
pub proof fn lemma_sum_zero<T: Field>(f: spec_fn(int) -> T, n: nat)
    requires
        forall|i: int| 0 <= i < n ==> #[trigger] f(i) == T::zero_spec(),
    ensures
        sum(f, n) == T::zero_spec(),
{
    lemma_sum_extend(f, 0, n);
}

/// A sum with a single term that is not zero is that term.
pub proof fn lemma_sum_single<T: Field>(f: spec_fn(int) -> T, n: nat, j: int)
    requires
        0 <= j < n,
        f(j).wf(),
        forall|i: int| 0 <= i < n && i != j ==> #[trigger] f(i) == T::zero_spec(),
    ensures
        sum(f, n) == f(j),
{
    T::lemma_identities_wf();
    assert(terms_wf(f, (j + 1) as nat));
    lemma_sum_extend(f, (j + 1) as nat, n);
    lemma_sum_zero(f, j as nat);
    lemma_zero_add(f(j));
}

/// The sum of termwise sums is the sum of the sums.
pub proof fn lemma_sum_add<T: Field>(
    f: spec_fn(int) -> T,
    g: spec_fn(int) -> T,
    h: spec_fn(int) -> T,
    n: nat,
)
    requires
        terms_wf(f, n),
        terms_wf(g, n),
        forall|i: int| 0 <= i < n ==> #[trigger] h(i) == f(i).add_spec(g(i)),
    ensures
        sum(h, n) == sum(f, n).add_spec(sum(g, n)),
    decreases n,
{
    T::lemma_identities_wf();
    if n == 0 {
        T::lemma_add_zero(T::zero_spec());
    } else {
        let m = (n - 1) as nat;
        lemma_sum_add(f, g, h, m);
        lemma_sum_wf(f, m);
        lemma_sum_wf(g, m);
        lemma_four_swap(sum(f, m), sum(g, m), f(n - 1), g(n - 1));
    }
}

/// The first term may be taken out of a sum, the rest moving down by one.
pub proof fn lemma_sum_peel_first<T: Field>(f: spec_fn(int) -> T, g: spec_fn(int) -> T, n: nat)
    requires
        terms_wf(f, n + 1),
        forall|i: int| 0 <= i < n ==> #[trigger] g(i) == f(i + 1),
    ensures
        sum(f, n + 1) == f(0).add_spec(sum(g, n)),
    decreases n,
{
    T::lemma_identities_wf();
    assert(f(0).wf());
    if n == 0 {
        assert(sum(f, 0) == T::zero_spec());
        lemma_zero_add(f(0));
        T::lemma_add_zero(f(0));
    } else {
        let m = (n - 1) as nat;
        lemma_sum_peel_first(f, g, m);
        assert(terms_wf(g, m)) by {
            assert forall|i: int| 0 <= i < m implies (#[trigger] g(i)).wf() by {
                assert(f(i + 1).wf());
            }
        }
        lemma_sum_wf(g, m);
        assert(f(n as int).wf());
        assert(g(n - 1) == f(n as int));
        T::lemma_add_assoc(f(0), sum(g, m), f(n as int));
    }
}

/// A sum may be taken in the opposite order.
pub proof fn lemma_sum_reverse<T: Field>(f: spec_fn(int) -> T, g: spec_fn(int) -> T, n: nat)
    requires
        terms_wf(f, n),
        forall|i: int| 0 <= i < n ==> #[trigger] g(i) == f(n - 1 - i),
    ensures
        sum(f, n) == sum(g, n),
    decreases n,
{
    if n > 0 {
        let m = (n - 1) as nat;
        let rest = |i: int| f(i + 1);
        assert(terms_wf(rest, m)) by {
            assert forall|i: int| 0 <= i < m implies (#[trigger] rest(i)).wf() by {
                assert(f(i + 1).wf());
            }
        }
        assert forall|i: int| 0 <= i < m implies #[trigger] g(i) == rest(m - 1 - i) by {
            assert(g(i) == f(n - 1 - i));
        }
        lemma_sum_reverse(rest, g, m);
        lemma_sum_peel_first(f, rest, m);
        lemma_sum_wf(rest, m);
        assert(f(0).wf());
        assert(g(n - 1) == f(0));
        T::lemma_add_comm(f(0), sum(rest, m));
    }
}

} // verus!
