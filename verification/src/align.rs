//! Walking two coefficient vectors side by side, the longer one to its end.

use itertools::Itertools;
use vstd::prelude::*;

verus! {

/// The entries of `a` and `b` paired by position, up to the end of the
/// longer sequence; where one has run out its side of the pair is `None`.
pub open spec fn paired<T>(a: Seq<T>, b: Seq<T>) -> Seq<(Option<T>, Option<T>)> {
    Seq::new(
        if a.len() >= b.len() {
            a.len()
        } else {
            b.len()
        },
        |i: int|
            (
                if i < a.len() {
                    Some(a[i])
                } else {
                    None
                },
                if i < b.len() {
                    Some(b[i])
                } else {
                    None
                },
            ),
    )
}

/// `itertools::Itertools::zip_longest` on the two vectors' iterators, with
/// each `EitherOrBoth` it yields written as a pair of options. The iterator
/// yields `Both` while both inputs have items, then `Left` or `Right` for
/// what remains of the longer one, and ends when both have ended: the
/// result is `paired` of the two inputs.
#[verifier::external_body]
pub(crate) fn zip_longest<T: Copy>(a: &Vec<T>, b: &Vec<T>) -> (r: Vec<(Option<T>, Option<T>)>)
    ensures
        r@ == paired(a@, b@),
{
    a.iter().zip_longest(b.iter()).map(
        |p|
            match p {
                itertools::EitherOrBoth::Both(l, r) => (Some(*l), Some(*r)),
                itertools::EitherOrBoth::Left(l) => (Some(*l), None),
                itertools::EitherOrBoth::Right(r) => (None, Some(*r)),
            },
    ).collect()
}

} // verus!
