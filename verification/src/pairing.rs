use vstd::prelude::*;
use itertools::EitherOrBoth;
use itertools::Itertools;
use crate::text::longest;

verus! {

/// One position of two sequences walked side by side: an item of each, or of
/// the one that is the longer.
pub enum Paired<A, B> {
    Both(A, B),
    Left(A),
    Right(B),
}

/// What stands at position `i` when `left` and `right` are walked side by
/// side, for `i` below the length of the longer one.
pub open spec fn paired_at<A, B>(left: Seq<A>, right: Seq<B>, i: int) -> Paired<A, B> {
    if i < left.len() && i < right.len() {
        Paired::Both(left[i], right[i])
    } else if i < left.len() {
        Paired::Left(left[i])
    } else {
        Paired::Right(right[i])
    }
}

/// Calls `Itertools::zip_longest` on the items of the two vectors and
/// collects what it yields.
///
/// Taken on trust: the result is as long as the longer vector, and holds at
/// each position both items while neither vector has ended, and after that
/// the item of the one that goes on.
#[verifier::external_body]
pub(crate) fn zip_longest<A, B>(left: Vec<A>, right: Vec<B>) -> (pairs: Vec<Paired<A, B>>)
    ensures
        pairs@.len() == longest(left@.len(), right@.len()),
        forall|i: int|
            0 <= i < pairs@.len() ==> #[trigger] pairs@[i] == paired_at(left@, right@, i),
{
    left.into_iter().zip_longest(right).map(
        |pair| match pair {
            EitherOrBoth::Both(a, b) => Paired::Both(a, b),
            EitherOrBoth::Left(a) => Paired::Left(a),
            EitherOrBoth::Right(b) => Paired::Right(b),
        },
    ).collect()
}

} // verus!
