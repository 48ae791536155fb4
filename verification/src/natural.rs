//! Natural ordering of path texts: runs of digits compare as numbers, so
//! `x.pacnew.2` comes before `x.pacnew.10`.
//!
//! The comparison itself is `natord::compare`.  The sort built on it is
//! verified here and is exact whatever the comparison answers.

use crate::text::views;
use vstd::prelude::*;

verus! {

/// The answer of a three-way comparison.
#[derive(Clone, Copy, PartialEq, Eq, Structural, Debug)]
pub enum Order {
    /// The left text sorts before the right one.
    Less,
    /// Neither text sorts before the other.
    Equal,
    /// The left text sorts after the right one.
    Greater,
}

/// What `natord::compare` answers for `left` and `right`.
pub uninterp spec fn natural_order(left: Seq<char>, right: Seq<char>) -> Order;

/// Calls `natord::compare(left, right)`.  The crate computes its answer from
/// the characters of the two texts alone and always returns; the contract
/// gives that answer its name and claims nothing else of it.
#[verifier::external_body]
pub(crate) fn compare_naturally(left: &str, right: &str) -> (r: Order)
    ensures
        r == natural_order(left@, right@),
{
    match natord::compare(left, right) {
        std::cmp::Ordering::Less => Order::Less,
        std::cmp::Ordering::Equal => Order::Equal,
        std::cmp::Ordering::Greater => Order::Greater,
    }
}

/// `sorted` with `x` put in from the right: `x` passes every item that it
/// sorts before and stops behind the first one that it does not.
pub open spec fn insert_naturally(sorted: Seq<Seq<char>>, x: Seq<char>) -> Seq<Seq<char>>
    decreases sorted.len(),
{
    if sorted.len() > 0 && natural_order(x, sorted.last()) == Order::Less {
        insert_naturally(sorted.drop_last(), x).push(sorted.last())
    } else {
        sorted.push(x)
    }
}

/// `s` in natural order: its items put in one by one with
/// [`insert_naturally`].  Items that do not sort before one another keep the
/// order in which `s` holds them.
pub open spec fn sorted_naturally(s: Seq<Seq<char>>) -> Seq<Seq<char>>
    decreases s.len(),
{
    if s.len() == 0 {
        s
    } else {
        insert_naturally(sorted_naturally(s.drop_last()), s.last())
    }
}

/// Whether `a` may stand directly before `b`: `b` does not sort before `a`,
/// or else `a` sorts before `b` as well.
pub open spec fn in_order(a: Seq<char>, b: Seq<char>) -> bool {
    natural_order(b, a) != Order::Less || natural_order(a, b) == Order::Less
}

/// Whether every item of `s` may stand before its successor.
pub open spec fn is_ordered(s: Seq<Seq<char>>) -> bool {
    forall|i: int| 0 <= i < s.len() - 1 ==> in_order(#[trigger] s[i], s[i + 1])
}

/// Where `x` stops: `insert_naturally` puts `x` at index `at` when `x` sorts
/// before every item from `at` on and not before the item in front of `at`.
pub proof fn lemma_insert_at(sorted: Seq<Seq<char>>, x: Seq<char>, at: int)
    requires
        0 <= at <= sorted.len(),
        forall|k: int| at <= k < sorted.len() ==> natural_order(x, #[trigger] sorted[k]) == Order::Less,
        at > 0 ==> natural_order(x, sorted[at - 1]) != Order::Less,
    ensures
        insert_naturally(sorted, x) == sorted.insert(at, x),
    decreases sorted.len() - at,
{
    if at < sorted.len() {
        let init = sorted.drop_last();
        lemma_insert_at(init, x, at);
        assert(init.insert(at, x).push(sorted.last()) == sorted.insert(at, x));
    } else {
        assert(sorted.push(x) == sorted.insert(at, x));
    }
}

/// Sorts `paths` into natural order.
pub fn sort_naturally(paths: Vec<String>) -> (sorted: Vec<String>)
    ensures
        views(sorted@) == sorted_naturally(views(paths@)),
{
    let mut sorted: Vec<String> = Vec::new();
    let ghost all = views(paths@);
    for x in it: paths
        invariant
            it.seq() == paths@,
            all == views(paths@),
            views(sorted@) == sorted_naturally(all.take(it.index() as int)),
    {
        let ghost before = views(sorted@);
        let mut at: usize = sorted.len();
        while at > 0 && compare_naturally(x.as_str(), sorted[at - 1].as_str()) == Order::Less
            invariant
                at <= sorted.len(),
                before == views(sorted@),
                forall|k: int| at <= k < sorted.len() ==> natural_order(x@, #[trigger] before[k]) == Order::Less,
            decreases at,
        {
            at -= 1;
        }
        proof {
            lemma_insert_at(before, x@, at as int);
            let upto = all.take(it.index() + 1);
            assert(upto.drop_last() == all.take(it.index() as int));
            assert(upto.last() == x@);
            assert(views(sorted@.insert(at as int, x)) == before.insert(at as int, x@));
        }
        sorted.insert(at, x);
    }
    proof {
        assert(all.take(paths@.len() as int) == all);
    }
    sorted
}

/// The index at which [`insert_naturally`] puts `x`.
pub open spec fn insertion_index(sorted: Seq<Seq<char>>, x: Seq<char>) -> int
    decreases sorted.len(),
{
    if sorted.len() > 0 && natural_order(x, sorted.last()) == Order::Less {
        insertion_index(sorted.drop_last(), x)
    } else {
        sorted.len() as int
    }
}

/// [`insert_naturally`] adds `x` at [`insertion_index`] and moves nothing
/// else: `x` sorts before all that follows it and not before what precedes it.
pub proof fn lemma_insertion_index(sorted: Seq<Seq<char>>, x: Seq<char>)
    ensures
        0 <= insertion_index(sorted, x) <= sorted.len(),
        insert_naturally(sorted, x) == sorted.insert(insertion_index(sorted, x), x),
        forall|k: int|
            insertion_index(sorted, x) <= k < sorted.len() ==> natural_order(
                x,
                #[trigger] sorted[k],
            ) == Order::Less,
        insertion_index(sorted, x) > 0 ==> natural_order(
            x,
            sorted[insertion_index(sorted, x) - 1],
        ) != Order::Less,
    decreases sorted.len(),
{
    if sorted.len() > 0 && natural_order(x, sorted.last()) == Order::Less {
        let init = sorted.drop_last();
        lemma_insertion_index(init, x);
        let at = insertion_index(init, x);
        assert forall|k: int| at <= k < sorted.len() implies natural_order(
            x,
            #[trigger] sorted[k],
        ) == Order::Less by {
            if k < init.len() {
                assert(sorted[k] == init[k]);
            }
        }
        if at > 0 {
            assert(init[at - 1] == sorted[at - 1]);
        }
        lemma_insert_at(sorted, x, at);
    } else {
        lemma_insert_at(sorted, x, sorted.len() as int);
    }
}

/// Sorting rearranges: the sorted list holds each text as often as the
/// list it was made from.
pub proof fn lemma_sorted_is_permutation(s: Seq<Seq<char>>)
    ensures
        sorted_naturally(s).to_multiset() == s.to_multiset(),
        sorted_naturally(s).len() == s.len(),
    decreases s.len(),
{
    if s.len() > 0 {
        let init = s.drop_last();
        lemma_sorted_is_permutation(init);
        lemma_insertion_index(sorted_naturally(init), s.last());
        vstd::seq_lib::to_multiset_insert(
            sorted_naturally(init),
            insertion_index(sorted_naturally(init), s.last()),
            s.last(),
        );
        vstd::seq_lib::to_multiset_build(init, s.last());
        assert(init.push(s.last()) == s);
    }
}

/// Sorting orders: in the sorted list every item may stand before its
/// successor.
pub proof fn lemma_sorted_is_ordered(s: Seq<Seq<char>>)
    ensures
        is_ordered(sorted_naturally(s)),
    decreases s.len(),
{
    if s.len() > 0 {
        let before = sorted_naturally(s.drop_last());
        let x = s.last();
        lemma_sorted_is_ordered(s.drop_last());
        lemma_insertion_index(before, x);
        let at = insertion_index(before, x);
        let after = before.insert(at, x);
        assert forall|i: int| 0 <= i < after.len() - 1 implies in_order(
            #[trigger] after[i],
            after[i + 1],
        ) by {
            if i + 1 < at {
                assert(in_order(before[i], before[i + 1]));
            } else if i + 1 == at {
                assert(after[i] == before[at - 1]);
            } else if i == at {
                assert(after[i + 1] == before[at]);
            } else {
                assert(in_order(before[i - 1], before[i]));
            }
        }
    }
}

} // verus!
