//! Selecting rows of a table: a table is a sequence of rows, and a selector
//! says of each row whether it is meant. Also what tells the rows of a
//! table apart: a key, for some a second mark, and an id.

use vstd::prelude::*;

verus! {

/// A row that can be copied out of a table.
pub trait Row: Sized {
    fn duplicate(&self) -> (r: Self)
        ensures
            r == *self,
    ;
}

/// A condition on the rows of a table.
pub trait Cond<T> {
    /// Whether the row is one of those meant.
    spec fn picks(&self, row: &T) -> bool;
}

/// A condition that can be tested on a row.
pub trait Pick<T>: Cond<T> {
    fn test(&self, row: &T) -> (r: bool)
        ensures
            r == self.picks(row),
    ;
}

/// The rows that `p` picks, in the order of the table.
pub open spec fn kept<T, P: Cond<T>>(rows: Seq<T>, p: &P) -> Seq<T>
    decreases rows.len(),
{
    if rows.len() == 0 {
        rows
    } else if p.picks(&rows.last()) {
        kept(rows.drop_last(), p).push(rows.last())
    } else {
        kept(rows.drop_last(), p)
    }
}

/// The rows that `p` does not pick, in the order of the table.
pub open spec fn dropped<T, P: Cond<T>>(rows: Seq<T>, p: &P) -> Seq<T>
    decreases rows.len(),
{
    if rows.len() == 0 {
        rows
    } else if p.picks(&rows.last()) {
        dropped(rows.drop_last(), p)
    } else {
        dropped(rows.drop_last(), p).push(rows.last())
    }
}

/// How many rows `p` picks.
pub open spec fn count<T, P: Cond<T>>(rows: Seq<T>, p: &P) -> nat {
    kept(rows, p).len()
}

/// Whether `p` picks any row.
pub open spec fn any<T, P: Cond<T>>(rows: Seq<T>, p: &P) -> bool {
    exists|i: int| 0 <= i < rows.len() && p.picks(&#[trigger] rows[i])
}

/// Whether `i` is the place of the first row that `p` picks.
pub open spec fn is_first<T, P: Cond<T>>(rows: Seq<T>, p: &P, i: int) -> bool {
    &&& 0 <= i < rows.len()
    &&& p.picks(&rows[i])
    &&& forall|j: int| 0 <= j < i ==> !p.picks(&#[trigger] rows[j])
}

/// The place of the first row that `p` picks.
pub open spec fn first<T, P: Cond<T>>(rows: Seq<T>, p: &P) -> Option<int> {
    if any(rows, p) {
        Some(choose|i: int| is_first(rows, p, i))
    } else {
        None
    }
}

/// The first row that `p` picks.
pub open spec fn first_row<T, P: Cond<T>>(rows: Seq<T>, p: &P) -> Option<T> {
    match first(rows, p) {
        Some(i) => Some(rows[i]),
        None => None,
    }
}

/// Two places that are both first are one place.
pub proof fn lemma_first_unique<T, P: Cond<T>>(rows: Seq<T>, p: &P, i: int, j: int)
    requires
        is_first(rows, p, i),
        is_first(rows, p, j),
    ensures
        i == j,
{
    if i < j {
        assert(!p.picks(&rows[i]));
    } else if j < i {
        assert(!p.picks(&rows[j]));
    }
}

/// A place that is first is the one that `first` names.
pub proof fn lemma_first_is<T, P: Cond<T>>(rows: Seq<T>, p: &P, i: int)
    requires
        is_first(rows, p, i),
    ensures
        first(rows, p) == Some(i),
        first_row(rows, p) == Some(rows[i]),
{
    assert(p.picks(&rows[i]));
    let k = choose|k: int| is_first(rows, p, k);
    lemma_first_unique(rows, p, i, k);
}

/// Where no row is picked, none is first.
pub proof fn lemma_first_none<T, P: Cond<T>>(rows: Seq<T>, p: &P)
    requires
        forall|j: int| 0 <= j < rows.len() ==> !p.picks(&#[trigger] rows[j]),
    ensures
        first(rows, p) is None,
        first_row(rows, p) is None,
{
}

/// What `first` names is a first place, and it names one whenever a row is picked.
pub proof fn lemma_first<T, P: Cond<T>>(rows: Seq<T>, p: &P)
    ensures
        match first(rows, p) {
            Some(i) => is_first(rows, p, i),
            None => forall|j: int| 0 <= j < rows.len() ==> !p.picks(&#[trigger] rows[j]),
        },
    decreases rows.len(),
{
    if any(rows, p) {
        let w = choose|i: int| 0 <= i < rows.len() && p.picks(&#[trigger] rows[i]);
        lemma_least(rows, p, w);
    }
}

proof fn lemma_least<T, P: Cond<T>>(rows: Seq<T>, p: &P, w: int)
    requires
        0 <= w < rows.len(),
        p.picks(&rows[w]),
    ensures
        exists|i: int| is_first(rows, p, i),
    decreases w,
{
    if exists|j: int| 0 <= j < w && p.picks(&#[trigger] rows[j]) {
        let j = choose|j: int| 0 <= j < w && p.picks(&#[trigger] rows[j]);
        lemma_least(rows, p, j);
    } else {
        assert(is_first(rows, p, w));
    }
}

/// Every kept row is picked and stands in the table; every dropped row is
/// not picked and stands in the table; together they are all the rows.
pub proof fn lemma_kept_dropped<T, P: Cond<T>>(rows: Seq<T>, p: &P)
    ensures
        forall|i: int|
            0 <= i < kept(rows, p).len() ==> p.picks(&#[trigger] kept(rows, p)[i]) && rows.contains(
                kept(rows, p)[i],
            ),
        forall|i: int|
            0 <= i < dropped(rows, p).len() ==> !p.picks(&#[trigger] dropped(rows, p)[i])
                && rows.contains(dropped(rows, p)[i]),
        forall|i: int|
            0 <= i < rows.len() && p.picks(&#[trigger] rows[i]) ==> kept(rows, p).contains(rows[i]),
        forall|i: int|
            0 <= i < rows.len() && !p.picks(&#[trigger] rows[i]) ==> dropped(rows, p).contains(
                rows[i],
            ),
        kept(rows, p).len() + dropped(rows, p).len() == rows.len(),
    decreases rows.len(),
{
    if rows.len() > 0 {
        let front = rows.drop_last();
        let last = rows.last();
        lemma_kept_dropped(front, p);
        let k = kept(rows, p);
        let d = dropped(rows, p);
        assert forall|i: int| 0 <= i < k.len() implies p.picks(&#[trigger] k[i]) && rows.contains(
            k[i],
        ) by {
            if i < kept(front, p).len() {
                let x = kept(front, p)[i];
                assert(front.contains(x));
                let j = choose|j: int| 0 <= j < front.len() && front[j] == x;
                assert(rows[j] == x);
            } else {
                assert(rows[rows.len() - 1] == last);
            }
        }
        assert forall|i: int| 0 <= i < d.len() implies !p.picks(&#[trigger] d[i]) && rows.contains(
            d[i],
        ) by {
            if i < dropped(front, p).len() {
                let x = dropped(front, p)[i];
                assert(front.contains(x));
                let j = choose|j: int| 0 <= j < front.len() && front[j] == x;
                assert(rows[j] == x);
            } else {
                assert(rows[rows.len() - 1] == last);
            }
        }
        assert forall|i: int| 0 <= i < rows.len() && p.picks(&#[trigger] rows[i]) implies k.contains(
            rows[i],
        ) by {
            if i < front.len() {
                assert(front[i] == rows[i]);
                assert(kept(front, p).contains(rows[i]));
                let j = choose|j: int| 0 <= j < kept(front, p).len() && kept(front, p)[j] == rows[i];
                assert(k[j] == rows[i]);
            } else {
                assert(k[k.len() - 1] == rows[i]);
            }
        }
        assert forall|i: int|
            0 <= i < rows.len() && !p.picks(&#[trigger] rows[i]) implies d.contains(rows[i]) by {
            if i < front.len() {
                assert(front[i] == rows[i]);
                assert(dropped(front, p).contains(rows[i]));
                let j = choose|j: int|
                    0 <= j < dropped(front, p).len() && dropped(front, p)[j] == rows[i];
                assert(d[j] == rows[i]);
            } else {
                assert(d[d.len() - 1] == rows[i]);
            }
        }
    }
}

/// Where nothing is picked, nothing is dropped from the table.
pub proof fn lemma_dropped_none<T, P: Cond<T>>(rows: Seq<T>, p: &P)
    requires
        forall|j: int| 0 <= j < rows.len() ==> !p.picks(&#[trigger] rows[j]),
    ensures
        dropped(rows, p) == rows,
        kept(rows, p) == Seq::<T>::empty(),
    decreases rows.len(),
{
    if rows.len() > 0 {
        let front = rows.drop_last();
        assert forall|j: int| 0 <= j < front.len() implies !p.picks(&#[trigger] front[j]) by {
            assert(front[j] == rows[j]);
        }
        lemma_dropped_none(front, p);
        assert(!p.picks(&rows[rows.len() - 1]));
        assert(front.push(rows.last()) =~= rows);
    } else {
        assert(rows =~= Seq::<T>::empty());
    }
}

/// The place of the first row that `p` picks, if it picks any.
pub fn find<T, P: Pick<T>>(rows: &Vec<T>, p: &P) -> (r: Option<usize>)
    ensures
        match r {
            Some(i) => first(rows@, p) == Some(i as int) && is_first(rows@, p, i as int),
            None => first(rows@, p) is None && !any(rows@, p),
        },
{
    let mut i: usize = 0;
    while i < rows.len()
        invariant
            i <= rows.len(),
            forall|j: int| 0 <= j < i ==> !p.picks(&#[trigger] rows@[j]),
        decreases rows.len() - i,
    {
        if p.test(&rows[i]) {
            proof {
                lemma_first_is(rows@, p, i as int);
            }
            return Some(i);
        }
        i += 1;
    }
    proof {
        lemma_first_none(rows@, p);
    }
    None
}

/// Copies of the rows that `p` picks, in the order of the table.
pub fn select<T: Row, P: Pick<T>>(rows: &Vec<T>, p: &P) -> (r: Vec<T>)
    ensures
        r@ == kept(rows@, p),
{
    let mut out: Vec<T> = Vec::new();
    let mut i: usize = 0;
    assert(rows@.take(0) =~= Seq::<T>::empty());
    while i < rows.len()
        invariant
            i <= rows.len(),
            out@ == kept(rows@.take(i as int), p),
        decreases rows.len() - i,
    {
        proof {
            let next = rows@.take(i + 1);
            assert(next.drop_last() =~= rows@.take(i as int));
            assert(next.last() == rows@[i as int]);
        }
        if p.test(&rows[i]) {
            out.push(rows[i].duplicate());
        }
        i += 1;
    }
    assert(rows@.take(rows.len() as int) =~= rows@);
    out
}

/// Takes the rows that `p` picks out of the table; the others keep their order.
pub fn remove_picked<T, P: Pick<T>>(rows: &mut Vec<T>, p: &P)
    ensures
        final(rows)@ == dropped(old(rows)@, p),
{
    let ghost before = rows@;
    let mut i: usize = 0;
    let mut seen: Ghost<int> = Ghost(0);
    assert(before.take(0) =~= Seq::<T>::empty());
    assert(before.skip(0) =~= before);
    while i < rows.len()
        invariant
            0 <= seen@ <= before.len(),
            i == dropped(before.take(seen@), p).len(),
            rows@ == dropped(before.take(seen@), p) + before.skip(seen@),
        decreases before.len() - seen@,
    {
        proof {
            let next = before.take(seen@ + 1);
            assert(seen@ < before.len());
            assert(next.drop_last() =~= before.take(seen@));
            assert(next.last() == before[seen@]);
            assert(rows@[i as int] == before[seen@]);
        }
        if p.test(&rows[i]) {
            rows.remove(i);
            proof {
                assert(rows@ =~= dropped(before.take(seen@ + 1), p) + before.skip(seen@ + 1));
                seen@ = seen@ + 1;
            }
        } else {
            proof {
                assert(rows@ =~= dropped(before.take(seen@ + 1), p) + before.skip(seen@ + 1));
                seen@ = seen@ + 1;
            }
            i += 1;
        }
    }
    proof {
        assert(before.skip(seen@).len() == 0);
        assert(seen@ == before.len());
        assert(before.take(seen@) =~= before);
        assert(rows@ =~= dropped(before, p));
    }
}

/// Where everything is picked, nothing is taken from the kept rows.
pub proof fn lemma_kept_all<T, P: Cond<T>>(rows: Seq<T>, p: &P)
    requires
        forall|j: int| 0 <= j < rows.len() ==> p.picks(&#[trigger] rows[j]),
    ensures
        kept(rows, p) == rows,
        dropped(rows, p) == Seq::<T>::empty(),
    decreases rows.len(),
{
    if rows.len() > 0 {
        let front = rows.drop_last();
        assert forall|j: int| 0 <= j < front.len() implies p.picks(&#[trigger] front[j]) by {
            assert(front[j] == rows[j]);
        }
        lemma_kept_all(front, p);
        assert(p.picks(&rows[rows.len() - 1]));
        assert(front.push(rows.last()) =~= rows);
    } else {
        assert(rows =~= Seq::<T>::empty());
    }
}

/// The rows kept of two tables joined are the rows kept of each, joined.
pub proof fn lemma_kept_joined<T, P: Cond<T>>(a: Seq<T>, b: Seq<T>, p: &P)
    ensures
        kept(a + b, p) == kept(a, p) + kept(b, p),
        dropped(a + b, p) == dropped(a, p) + dropped(b, p),
    decreases b.len(),
{
    if b.len() == 0 {
        assert(a + b =~= a);
        assert(kept(a, p) + kept(b, p) =~= kept(a, p));
        assert(dropped(a, p) + dropped(b, p) =~= dropped(a, p));
    } else {
        let front = b.drop_last();
        lemma_kept_joined(a, front, p);
        assert((a + b).drop_last() =~= a + front);
        assert((a + b).last() == b.last());
        if p.picks(&b.last()) {
            assert(kept(a, p) + kept(front, p).push(b.last()) =~= (kept(a, p) + kept(front, p)).push(
                b.last(),
            ));
        } else {
            assert(dropped(a, p) + dropped(front, p).push(b.last()) =~= (dropped(a, p) + dropped(
                front,
                p,
            )).push(b.last()));
        }
    }
}

/// Taking out the rows of one condition leaves the rows of a condition
/// that never holds together with it as they were.
pub proof fn lemma_kept_of_dropped<T, P: Cond<T>, Q: Cond<T>>(rows: Seq<T>, p: &P, q: &Q)
    requires
        forall|row: T| q.picks(&row) ==> !p.picks(&row),
    ensures
        kept(dropped(rows, p), q) == kept(rows, q),
    decreases rows.len(),
{
    if rows.len() > 0 {
        let front = rows.drop_last();
        let last = rows.last();
        lemma_kept_of_dropped(front, p, q);
        if p.picks(&last) {
            assert(!q.picks(&last));
        } else {
            let d = dropped(front, p).push(last);
            assert(d.drop_last() =~= dropped(front, p));
            assert(d.last() == last);
        }
    }
}

/// Of the rows that a condition leaves, it picks none.
pub proof fn lemma_dropped_has_none<T, P: Cond<T>>(rows: Seq<T>, p: &P)
    ensures
        kept(dropped(rows, p), p) == Seq::<T>::empty(),
{
    lemma_kept_dropped(rows, p);
    lemma_dropped_none(dropped(rows, p), p);
}

/// Two conditions that agree on every row select the same rows.
pub proof fn lemma_same_cond<T, P: Cond<T>, Q: Cond<T>>(rows: Seq<T>, p: &P, q: &Q)
    requires
        forall|row: T| p.picks(&row) == q.picks(&row),
    ensures
        kept(rows, p) == kept(rows, q),
        dropped(rows, p) == dropped(rows, q),
    decreases rows.len(),
{
    if rows.len() > 0 {
        lemma_same_cond(rows.drop_last(), p, q);
        assert(p.picks(&rows.last()) == q.picks(&rows.last()));
    }
}

/// A row that is told from the others of its table by a key.
pub trait Keyed {
    type Key;

    spec fn key(&self) -> Self::Key;

    /// Whether two rows have one key.
    fn same_key(&self, other: &Self) -> (r: bool)
        ensures
            r == (self.key() == other.key()),
    ;
}

/// No two rows of the table share a key.
pub open spec fn unique<T: Keyed>(rows: Seq<T>) -> bool {
    forall|i: int, j: int|
        0 <= i < j < rows.len() ==> (#[trigger] rows[i]).key() != (#[trigger] rows[j]).key()
}

/// Whether a row of the table has the key.
pub open spec fn has_key<T: Keyed>(rows: Seq<T>, key: T::Key) -> bool {
    exists|i: int| 0 <= i < rows.len() && (#[trigger] rows[i]).key() == key
}

/// A row that belongs to a row of another table, which it names by its key.
pub trait Owned<P: Keyed> {
    /// The key of the row that this one belongs to.
    spec fn owner(&self) -> P::Key;

    /// Whether this row belongs to `parent`.
    fn belongs_to(&self, parent: &P) -> (r: bool)
        ensures
            r == (parent.key() == self.owner()),
    ;
}

/// Whether every row belongs to a row of the other table.
pub open spec fn all_owned<T: Owned<P>, P: Keyed>(rows: Seq<T>, parents: Seq<P>) -> bool {
    forall|i: int| 0 <= i < rows.len() ==> has_key(parents, (#[trigger] rows[i]).owner())
}

/// Whether no two rows of the table share a key.
pub fn is_unique<T: Keyed>(rows: &Vec<T>) -> (r: bool)
    ensures
        r == unique(rows@),
{
    let mut j: usize = 0;
    while j < rows.len()
        invariant
            j <= rows.len(),
            forall|a: int, b: int|
                0 <= a < b < j ==> (#[trigger] rows@[a]).key() != (#[trigger] rows@[b]).key(),
        decreases rows.len() - j,
    {
        let mut i: usize = 0;
        while i < j
            invariant
                i <= j < rows.len(),
                forall|a: int| 0 <= a < i ==> (#[trigger] rows@[a]).key() != rows@[j as int].key(),
            decreases j - i,
        {
            if rows[i].same_key(&rows[j]) {
                return false;
            }
            i += 1;
        }
        j += 1;
    }
    true
}

/// Whether every row belongs to a row of the other table.
pub fn is_owned<T: Owned<P>, P: Keyed>(rows: &Vec<T>, parents: &Vec<P>) -> (r: bool)
    ensures
        r == all_owned(rows@, parents@),
{
    let mut i: usize = 0;
    while i < rows.len()
        invariant
            i <= rows.len(),
            forall|a: int| 0 <= a < i ==> has_key(parents@, (#[trigger] rows@[a]).owner()),
        decreases rows.len() - i,
    {
        let mut found: bool = false;
        let mut k: usize = 0;
        while k < parents.len() && !found
            invariant
                k <= parents.len(),
                i < rows.len(),
                found ==> has_key(parents@, rows@[i as int].owner()),
                !found ==> forall|b: int|
                    0 <= b < k ==> (#[trigger] parents@[b]).key() != rows@[i as int].owner(),
            decreases parents.len() - k + if found { 0int } else { 1int },
        {
            if rows[i].belongs_to(&parents[k]) {
                found = true;
            } else {
                k += 1;
            }
        }
        if !found {
            proof {
                let row = rows@[i as int];
                if has_key(parents@, row.owner()) {
                    let b = choose|b: int|
                        0 <= b < parents@.len() && (#[trigger] parents@[b]).key() == row.owner();
                    assert(parents@[b].key() != row.owner());
                }
                assert(!has_key(parents@, rows@[i as int].owner()));
            }
            return false;
        }
        i += 1;
    }
    true
}

/// Taking rows out of a table leaves the keys of the others apart.
pub proof fn lemma_dropped_unique<T: Keyed, P: Cond<T>>(rows: Seq<T>, p: &P)
    requires
        unique(rows),
    ensures
        unique(dropped(rows, p)),
    decreases rows.len(),
{
    if rows.len() > 0 {
        let front = rows.drop_last();
        assert forall|i: int, j: int| 0 <= i < j < front.len() implies (#[trigger] front[i]).key() != (
        #[trigger] front[j]).key() by {
            assert(front[i] == rows[i] && front[j] == rows[j]);
        }
        lemma_dropped_unique(front, p);
        lemma_kept_dropped(front, p);
        let d = dropped(rows, p);
        if !p.picks(&rows.last()) {
            assert forall|i: int, j: int| 0 <= i < j < d.len() implies (#[trigger] d[i]).key() != (
            #[trigger] d[j]).key() by {
                if j == d.len() - 1 {
                    let x = dropped(front, p)[i];
                    assert(front.contains(x));
                    let a = choose|a: int| 0 <= a < front.len() && front[a] == x;
                    assert(rows[a] == x);
                    assert(rows[a].key() != rows[rows.len() - 1].key());
                } else {
                    assert(d[i] == dropped(front, p)[i] && d[j] == dropped(front, p)[j]);
                }
            }
        }
    }
}

/// A row that stays when rows are taken out keeps its key in the table.
pub proof fn lemma_stays<T: Keyed, P: Cond<T>>(rows: Seq<T>, p: &P, i: int)
    requires
        0 <= i < rows.len(),
        !p.picks(&rows[i]),
    ensures
        has_key(dropped(rows, p), rows[i].key()),
{
    lemma_kept_dropped(rows, p);
    let d = dropped(rows, p);
    assert(d.contains(rows[i]));
    let j = choose|j: int| 0 <= j < d.len() && d[j] == rows[i];
    assert(d[j].key() == rows[i].key());
}

/// A row that is left after rows were taken out stood in the table and was not picked.
pub proof fn lemma_stayed<T, P: Cond<T>>(rows: Seq<T>, p: &P, j: int) -> (i: int)
    requires
        0 <= j < dropped(rows, p).len(),
    ensures
        0 <= i < rows.len(),
        rows[i] == dropped(rows, p)[j],
        !p.picks(&rows[i]),
{
    lemma_kept_dropped(rows, p);
    let d = dropped(rows, p);
    assert(!p.picks(&d[j]));
    assert(rows.contains(d[j]));
    choose|i: int| 0 <= i < rows.len() && rows[i] == d[j]
}

/// A new row whose key is not in use leaves the keys apart.
pub proof fn lemma_push_unique<T: Keyed>(rows: Seq<T>, row: T)
    requires
        unique(rows),
        !has_key(rows, row.key()),
    ensures
        unique(rows.push(row)),
{
    let next = rows.push(row);
    assert forall|i: int, j: int| 0 <= i < j < next.len() implies (#[trigger] next[i]).key() != (
    #[trigger] next[j]).key() by {
        assert(next[i] == rows[i]);
        if j == rows.len() {
            assert(rows[i].key() != row.key());
        } else {
            assert(next[j] == rows[j]);
        }
    }
}

/// A key that is in a table is in it after a row is added.
pub proof fn lemma_push_has_key<T: Keyed>(rows: Seq<T>, row: T, key: T::Key)
    requires
        has_key(rows, key),
    ensures
        has_key(rows.push(row), key),
{
    let i = choose|i: int| 0 <= i < rows.len() && (#[trigger] rows[i]).key() == key;
    assert(rows.push(row)[i].key() == key);
}

/// A row replaced by one with its key leaves the keys apart.
pub proof fn lemma_update_unique<T: Keyed>(rows: Seq<T>, at: int, row: T)
    requires
        unique(rows),
        0 <= at < rows.len(),
        rows[at].key() == row.key(),
    ensures
        unique(rows.update(at, row)),
{
    let next = rows.update(at, row);
    assert forall|i: int, j: int| 0 <= i < j < next.len() implies (#[trigger] next[i]).key() != (
    #[trigger] next[j]).key() by {
        assert(rows[i].key() != rows[j].key());
    }
}

/// A condition that holds of one key alone picks at most one row of a table
/// whose keys are apart, and exactly one where a row has the key.
pub proof fn lemma_count_key<T: Keyed, P: Cond<T>>(rows: Seq<T>, p: &P, key: T::Key)
    requires
        unique(rows),
        forall|row: T| p.picks(&row) <==> row.key() == key,
    ensures
        count(rows, p) <= 1,
        count(rows, p) == 1 <==> has_key(rows, key),
        has_key(rows, key) <==> any(rows, p),
    decreases rows.len(),
{
    if rows.len() > 0 {
        let front = rows.drop_last();
        assert forall|i: int, j: int| 0 <= i < j < front.len() implies (#[trigger] front[i]).key() != (
        #[trigger] front[j]).key() by {
            assert(front[i] == rows[i] && front[j] == rows[j]);
        }
        lemma_count_key(front, p, key);
        if p.picks(&rows.last()) {
            assert(rows[rows.len() - 1].key() == key);
            assert forall|j: int| 0 <= j < front.len() implies !p.picks(&#[trigger] front[j]) by {
                assert(front[j] == rows[j]);
                assert(rows[j].key() != rows[rows.len() - 1].key());
            }
            lemma_dropped_none(front, p);
        } else {
            if has_key(rows, key) {
                let i = choose|i: int| 0 <= i < rows.len() && (#[trigger] rows[i]).key() == key;
                assert(p.picks(&rows[i]));
                assert(front[i] == rows[i]);
            }
            if has_key(front, key) {
                let i = choose|i: int| 0 <= i < front.len() && (#[trigger] front[i]).key() == key;
                assert(rows[i] == front[i]);
            }
        }
    }
    if any(rows, p) {
        let i = choose|i: int| 0 <= i < rows.len() && p.picks(&#[trigger] rows[i]);
        assert(rows[i].key() == key);
    }
    if has_key(rows, key) {
        let i = choose|i: int| 0 <= i < rows.len() && (#[trigger] rows[i]).key() == key;
        assert(p.picks(&rows[i]));
    }
}

/// A row that carries, beside its key, a mark that no other row of its
/// table may share.
pub trait Marked {
    type Mark;

    spec fn mark(&self) -> Self::Mark;

    /// Whether two rows carry one mark.
    fn same_mark(&self, other: &Self) -> (r: bool)
        ensures
            r == (self.mark() == other.mark()),
    ;
}

/// No two rows of the table share a mark.
pub open spec fn apart<T: Marked>(rows: Seq<T>) -> bool {
    forall|i: int, j: int|
        0 <= i < j < rows.len() ==> (#[trigger] rows[i]).mark() != (#[trigger] rows[j]).mark()
}

/// Whether a row of the table carries the mark.
pub open spec fn has_mark<T: Marked>(rows: Seq<T>, mark: T::Mark) -> bool {
    exists|i: int| 0 <= i < rows.len() && (#[trigger] rows[i]).mark() == mark
}

/// Whether no two rows of the table share a mark.
pub fn is_apart<T: Marked>(rows: &Vec<T>) -> (r: bool)
    ensures
        r == apart(rows@),
{
    let mut j: usize = 0;
    while j < rows.len()
        invariant
            j <= rows.len(),
            forall|a: int, b: int|
                0 <= a < b < j ==> (#[trigger] rows@[a]).mark() != (#[trigger] rows@[b]).mark(),
        decreases rows.len() - j,
    {
        let mut i: usize = 0;
        while i < j
            invariant
                i <= j < rows.len(),
                forall|a: int| 0 <= a < i ==> (#[trigger] rows@[a]).mark() != rows@[j as int].mark(),
            decreases j - i,
        {
            if rows[i].same_mark(&rows[j]) {
                return false;
            }
            i += 1;
        }
        j += 1;
    }
    true
}

/// Taking rows out of a table leaves the marks of the others apart.
pub proof fn lemma_dropped_apart<T: Marked, P: Cond<T>>(rows: Seq<T>, p: &P)
    requires
        apart(rows),
    ensures
        apart(dropped(rows, p)),
    decreases rows.len(),
{
    if rows.len() > 0 {
        let front = rows.drop_last();
        assert forall|i: int, j: int| 0 <= i < j < front.len() implies (#[trigger] front[i]).mark() != (
        #[trigger] front[j]).mark() by {
            assert(front[i] == rows[i] && front[j] == rows[j]);
        }
        lemma_dropped_apart(front, p);
        lemma_kept_dropped(front, p);
        let d = dropped(rows, p);
        if !p.picks(&rows.last()) {
            assert forall|i: int, j: int| 0 <= i < j < d.len() implies (#[trigger] d[i]).mark() != (
            #[trigger] d[j]).mark() by {
                if j == d.len() - 1 {
                    let x = dropped(front, p)[i];
                    assert(front.contains(x));
                    let a = choose|a: int| 0 <= a < front.len() && front[a] == x;
                    assert(rows[a] == x);
                    assert(rows[a].mark() != rows[rows.len() - 1].mark());
                } else {
                    assert(d[i] == dropped(front, p)[i] && d[j] == dropped(front, p)[j]);
                }
            }
        }
    }
}

/// A new row whose mark is not in use leaves the marks apart.
pub proof fn lemma_push_apart<T: Marked>(rows: Seq<T>, row: T)
    requires
        apart(rows),
        !has_mark(rows, row.mark()),
    ensures
        apart(rows.push(row)),
{
    let next = rows.push(row);
    assert forall|i: int, j: int| 0 <= i < j < next.len() implies (#[trigger] next[i]).mark() != (
    #[trigger] next[j]).mark() by {
        assert(next[i] == rows[i]);
        if j == rows.len() {
            assert(rows[i].mark() != row.mark());
        } else {
            assert(next[j] == rows[j]);
        }
    }
}

/// A condition that holds of one mark alone picks at most one row of a
/// table whose marks are apart, and exactly one where a row carries the mark.
pub proof fn lemma_count_mark<T: Marked, P: Cond<T>>(rows: Seq<T>, p: &P, mark: T::Mark)
    requires
        apart(rows),
        forall|row: T| p.picks(&row) <==> row.mark() == mark,
    ensures
        count(rows, p) <= 1,
        count(rows, p) == 1 <==> has_mark(rows, mark),
        has_mark(rows, mark) <==> any(rows, p),
    decreases rows.len(),
{
    if rows.len() > 0 {
        let front = rows.drop_last();
        assert forall|i: int, j: int| 0 <= i < j < front.len() implies (#[trigger] front[i]).mark() != (
        #[trigger] front[j]).mark() by {
            assert(front[i] == rows[i] && front[j] == rows[j]);
        }
        lemma_count_mark(front, p, mark);
        if p.picks(&rows.last()) {
            assert(rows[rows.len() - 1].mark() == mark);
            assert forall|j: int| 0 <= j < front.len() implies !p.picks(&#[trigger] front[j]) by {
                assert(front[j] == rows[j]);
                assert(rows[j].mark() != rows[rows.len() - 1].mark());
            }
            lemma_dropped_none(front, p);
        } else {
            if has_mark(rows, mark) {
                let i = choose|i: int| 0 <= i < rows.len() && (#[trigger] rows[i]).mark() == mark;
                assert(p.picks(&rows[i]));
                assert(front[i] == rows[i]);
            }
            if has_mark(front, mark) {
                let i = choose|i: int| 0 <= i < front.len() && (#[trigger] front[i]).mark() == mark;
                assert(rows[i] == front[i]);
            }
        }
    }
    if any(rows, p) {
        let i = choose|i: int| 0 <= i < rows.len() && p.picks(&#[trigger] rows[i]);
        assert(rows[i].mark() == mark);
    }
    if has_mark(rows, mark) {
        let i = choose|i: int| 0 <= i < rows.len() && (#[trigger] rows[i]).mark() == mark;
        assert(p.picks(&rows[i]));
    }
}

/// A row that has an id of its own.
pub trait Numbered {
    spec fn number(&self) -> i64;

    /// The id of the row.
    fn id_number(&self) -> (r: i64)
        ensures
            r == self.number(),
    ;
}

/// Whether the id of every row lies below a bound.
pub open spec fn all_below<T: Numbered>(rows: Seq<T>, bound: int) -> bool {
    forall|i: int| 0 <= i < rows.len() ==> (#[trigger] rows[i]).number() < bound
}

/// Whether the id of every row lies below a bound.
pub fn is_below<T: Numbered>(rows: &Vec<T>, bound: i64) -> (r: bool)
    ensures
        r == all_below(rows@, bound as int),
{
    let mut i: usize = 0;
    while i < rows.len()
        invariant
            i <= rows.len(),
            forall|k: int| 0 <= k < i ==> (#[trigger] rows@[k]).number() < bound,
        decreases rows.len() - i,
    {
        if rows[i].id_number() >= bound {
            return false;
        }
        i += 1;
    }
    true
}

/// Taking rows out of a table leaves the ids of the others below the bound.
pub proof fn lemma_dropped_below<T: Numbered, P: Cond<T>>(rows: Seq<T>, p: &P, bound: int)
    requires
        all_below(rows, bound),
    ensures
        all_below(dropped(rows, p), bound),
{
    let d = dropped(rows, p);
    assert forall|j: int| 0 <= j < d.len() implies (#[trigger] d[j]).number() < bound by {
        let i = lemma_stayed(rows, p, j);
    }
}

/// No two rows of the table share an id.
pub open spec fn distinct<T: Numbered>(rows: Seq<T>) -> bool {
    forall|i: int, j: int|
        0 <= i < j < rows.len() ==> (#[trigger] rows[i]).number() != (#[trigger] rows[j]).number()
}

/// Whether no two rows of the table share an id.
pub fn is_distinct<T: Numbered>(rows: &Vec<T>) -> (r: bool)
    ensures
        r == distinct(rows@),
{
    let mut j: usize = 0;
    while j < rows.len()
        invariant
            j <= rows.len(),
            forall|a: int, b: int|
                0 <= a < b < j ==> (#[trigger] rows@[a]).number() != (#[trigger] rows@[b]).number(),
        decreases rows.len() - j,
    {
        let mut i: usize = 0;
        while i < j
            invariant
                i <= j < rows.len(),
                forall|a: int|
                    0 <= a < i ==> (#[trigger] rows@[a]).number() != rows@[j as int].number(),
            decreases j - i,
        {
            if rows[i].id_number() == rows[j].id_number() {
                return false;
            }
            i += 1;
        }
        j += 1;
    }
    true
}

/// Taking rows out of a table leaves the ids of the others distinct.
pub proof fn lemma_dropped_distinct<T: Numbered, P: Cond<T>>(rows: Seq<T>, p: &P)
    requires
        distinct(rows),
    ensures
        distinct(dropped(rows, p)),
    decreases rows.len(),
{
    if rows.len() > 0 {
        let front = rows.drop_last();
        assert forall|i: int, j: int| 0 <= i < j < front.len() implies (
        #[trigger] front[i]).number() != (#[trigger] front[j]).number() by {
            assert(front[i] == rows[i] && front[j] == rows[j]);
        }
        lemma_dropped_distinct(front, p);
        lemma_kept_dropped(front, p);
        let d = dropped(rows, p);
        if !p.picks(&rows.last()) {
            assert forall|i: int, j: int| 0 <= i < j < d.len() implies (#[trigger] d[i]).number() != (
            #[trigger] d[j]).number() by {
                if j == d.len() - 1 {
                    let x = dropped(front, p)[i];
                    assert(front.contains(x));
                    let a = choose|a: int| 0 <= a < front.len() && front[a] == x;
                    assert(rows[a] == x);
                    assert(rows[a].number() != rows[rows.len() - 1].number());
                } else {
                    assert(d[i] == dropped(front, p)[i] && d[j] == dropped(front, p)[j]);
                }
            }
        }
    }
}

/// Rows with distinct ids from a bound on, behind rows with distinct ids
/// below the bound, leave the ids distinct.
pub proof fn lemma_joined_distinct<T: Numbered>(rows: Seq<T>, more: Seq<T>, bound: int)
    requires
        distinct(rows),
        all_below(rows, bound),
        distinct(more),
        forall|k: int| 0 <= k < more.len() ==> (#[trigger] more[k]).number() >= bound,
    ensures
        distinct(rows + more),
{
    let all = rows + more;
    assert forall|i: int, j: int| 0 <= i < j < all.len() implies (#[trigger] all[i]).number() != (
    #[trigger] all[j]).number() by {
        if j < rows.len() {
            assert(all[i] == rows[i] && all[j] == rows[j]);
        } else if i < rows.len() {
            assert(all[i] == rows[i] && all[j] == more[j - rows.len()]);
        } else {
            assert(all[i] == more[i - rows.len()] && all[j] == more[j - rows.len()]);
        }
    }
}

/// A new row with an id at or above the bound of the others leaves the ids distinct.
pub proof fn lemma_push_distinct<T: Numbered>(rows: Seq<T>, row: T, bound: int)
    requires
        distinct(rows),
        all_below(rows, bound),
        row.number() >= bound,
    ensures
        distinct(rows.push(row)),
{
    lemma_joined_distinct(rows, seq![row], bound);
    assert(rows + seq![row] =~= rows.push(row));
}

/// A row replaced by one with its id leaves the ids distinct and below their bound.
pub proof fn lemma_update_distinct<T: Numbered>(rows: Seq<T>, at: int, row: T, bound: int)
    requires
        distinct(rows),
        all_below(rows, bound),
        0 <= at < rows.len(),
        rows[at].number() == row.number(),
    ensures
        distinct(rows.update(at, row)),
        all_below(rows.update(at, row), bound),
{
    let next = rows.update(at, row);
    assert forall|i: int, j: int| 0 <= i < j < next.len() implies (#[trigger] next[i]).number() != (
    #[trigger] next[j]).number() by {
        assert(rows[i].number() != rows[j].number());
    }
    assert forall|i: int| 0 <= i < next.len() implies (#[trigger] next[i]).number() < bound by {
        assert(rows[i].number() < bound);
    }
}

} // verus!
