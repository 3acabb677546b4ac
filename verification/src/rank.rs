//! Ranking: the best of a list, in order, by a rank that is a pair of numbers.

use crate::rows::{find, first, is_first, lemma_first, Cond, Pick, Row};
use vstd::prelude::*;
use vstd::seq_lib::{to_multiset_build, to_multiset_insert};

verus! {

/// A way to rank the items of a list. The higher rank comes first; of two
/// items of one rank, the one that came first in the list stays first.
pub trait Ranking<T> {
    /// The rank of an item: ranks compare by the first number, then by the second.
    spec fn rank(&self, item: &T) -> (int, int);

    /// Whether `a` ranks strictly higher than `b`.
    fn outranks(&self, a: &T, b: &T) -> (r: bool)
        ensures
            r == higher(self.rank(a), self.rank(b)),
    ;
}

/// Whether the rank `a` is strictly higher than the rank `b`.
pub open spec fn higher(a: (int, int), b: (int, int)) -> bool {
    a.0 > b.0 || (a.0 == b.0 && a.1 > b.1)
}

/// The items that a given item outranks.
pub struct Outranked<'a, T, R> {
    pub by: &'a T,
    pub ranking: &'a R,
}

impl<'a, T, R: Ranking<T>> Cond<T> for Outranked<'a, T, R> {
    open spec fn picks(&self, row: &T) -> bool {
        higher(self.ranking.rank(self.by), self.ranking.rank(row))
    }
}

impl<'a, T, R: Ranking<T>> Pick<T> for Outranked<'a, T, R> {
    fn test(&self, row: &T) -> (r: bool) {
        self.ranking.outranks(self.by, row)
    }
}

/// Where `item` goes in a list in order: before the first item that it
/// outranks, and at the end where it outranks none.
pub open spec fn place<T, R: Ranking<T>>(list: Seq<T>, item: T, ranking: &R) -> int {
    match first(list, &Outranked { by: &item, ranking }) {
        Some(i) => i,
        None => list.len() as int,
    }
}

/// The list in order: each item put in its place, one after the other.
pub open spec fn ranked<T, R: Ranking<T>>(list: Seq<T>, ranking: &R) -> Seq<T>
    decreases list.len(),
{
    if list.len() == 0 {
        list
    } else {
        let front = ranked(list.drop_last(), ranking);
        front.insert(place(front, list.last(), ranking), list.last())
    }
}

/// The first `n` items of a list, or all of them where it has fewer.
pub open spec fn leading<T>(list: Seq<T>, n: int) -> Seq<T> {
    if 0 <= n <= list.len() {
        list.take(n)
    } else {
        list
    }
}

/// Whether no item of the list is outranked by one that stands before it.
pub open spec fn in_order<T, R: Ranking<T>>(list: Seq<T>, ranking: &R) -> bool {
    forall|i: int, j: int|
        0 <= i < j < list.len() ==> !higher(
            ranking.rank(&#[trigger] list[j]),
            ranking.rank(&#[trigger] list[i]),
        )
}

/// The place of an item lies in the list or at its end.
pub proof fn lemma_place<T, R: Ranking<T>>(list: Seq<T>, item: T, ranking: &R)
    ensures
        0 <= place(list, item, ranking) <= list.len(),
        forall|j: int|
            0 <= j < place(list, item, ranking) ==> !higher(
                ranking.rank(&item),
                ranking.rank(&#[trigger] list[j]),
            ),
        place(list, item, ranking) < list.len() ==> higher(
            ranking.rank(&item),
            ranking.rank(&list[place(list, item, ranking)]),
        ),
{
    lemma_first(list, &Outranked { by: &item, ranking });
}

/// A ranked list is in order, has the length of the list, and holds the
/// same items as often.
pub proof fn lemma_ranked<T, R: Ranking<T>>(list: Seq<T>, ranking: &R)
    ensures
        in_order(ranked(list, ranking), ranking),
        ranked(list, ranking).len() == list.len(),
        ranked(list, ranking).to_multiset() == list.to_multiset(),
    decreases list.len(),
{
    if list.len() > 0 {
        let x = list.last();
        let front = ranked(list.drop_last(), ranking);
        lemma_ranked(list.drop_last(), ranking);
        lemma_place(front, x, ranking);
        let p = place(front, x, ranking);
        let r = front.insert(p, x);
        assert forall|i: int, j: int| 0 <= i < j < r.len() implies !higher(
            ranking.rank(&#[trigger] r[j]),
            ranking.rank(&#[trigger] r[i]),
        ) by {
            if j < p {
                assert(r[i] == front[i] && r[j] == front[j]);
            } else if j == p {
                assert(r[i] == front[i]);
            } else if i < p {
                assert(r[i] == front[i] && r[j] == front[j - 1]);
            } else if i == p {
                assert(r[j] == front[j - 1]);
                if p < j - 1 {
                    assert(!higher(ranking.rank(&front[j - 1]), ranking.rank(&front[p])));
                }
            } else {
                assert(r[i] == front[i - 1] && r[j] == front[j - 1]);
            }
        }
        to_multiset_insert(front, p, x);
        assert(list.drop_last().push(x) =~= list);
        to_multiset_build(list.drop_last(), x);
    }
}

/// Putting an item in its place and keeping the first `n` can be done on
/// the first `n` alone.
pub proof fn lemma_leading_insert<T, R: Ranking<T>>(list: Seq<T>, item: T, ranking: &R, n: int)
    requires
        0 <= n,
    ensures
        leading(list.insert(place(list, item, ranking), item), n) == ({
            let best = leading(list, n);
            match first(best, &Outranked { by: &item, ranking }) {
                Some(p) => leading(best.insert(p, item), n),
                None => if best.len() < n {
                    best.push(item)
                } else {
                    best
                },
            }
        }),
{
    let cond = Outranked { by: &item, ranking };
    let best = leading(list, n);
    lemma_first(best, &cond);
    lemma_first(list, &cond);
    lemma_place(list, item, ranking);
    let whole = list.insert(place(list, item, ranking), item);
    match first(best, &cond) {
        Some(p) => {
            assert(best[p] == list[p]);
            assert forall|j: int| 0 <= j < p implies !cond.picks(&#[trigger] list[j]) by {
                assert(best[j] == list[j]);
            }
            assert(is_first(list, &cond, p));
            crate::rows::lemma_first_is(list, &cond, p);
            assert(leading(whole, n) =~= leading(best.insert(p, item), n));
        },
        None => {
            if best.len() < n {
                assert(best == list);
                assert(whole =~= best.push(item));
            } else {
                assert(best.len() == n);
                if place(list, item, ranking) < n {
                    let q = place(list, item, ranking);
                    assert(best[q] == list[q]);
                    assert(cond.picks(&best[q]));
                }
                assert(leading(whole, n) =~= best);
            }
        },
    }
}

/// Copies of the `n` best items of a list, best first.
pub fn best<T: Row, R: Ranking<T>>(list: &Vec<T>, ranking: &R, n: usize) -> (r: Vec<T>)
    ensures
        r@ == leading(ranked(list@, ranking), n as int),
{
    let mut out: Vec<T> = Vec::new();
    let mut i: usize = 0;
    assert(list@.take(0) =~= Seq::<T>::empty());
    assert(leading(Seq::<T>::empty(), n as int) =~= Seq::<T>::empty());
    while i < list.len()
        invariant
            i <= list.len(),
            out@ == leading(ranked(list@.take(i as int), ranking), n as int),
        decreases list.len() - i,
    {
        let item: &T = &list[i];
        proof {
            let next = list@.take(i + 1);
            assert(next.drop_last() =~= list@.take(i as int));
            assert(next.last() == *item);
            lemma_leading_insert(ranked(list@.take(i as int), ranking), *item, ranking, n as int);
        }
        match find(&out, &Outranked { by: item, ranking }) {
            Some(p) => {
                out.insert(p, item.duplicate());
                if out.len() > n {
                    out.truncate(n);
                }
            },
            None => {
                if out.len() < n {
                    out.push(item.duplicate());
                }
            },
        }
        i += 1;
    }
    assert(list@.take(list.len() as int) =~= list@);
    out
}

} // verus!
