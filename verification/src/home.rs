//! The home feed of a session: the best rated recent items, and the movies
//! and series that entered the catalog last.

use crate::api_error::{ApiError, ApiResult};
use crate::database::{Database, Tables};
use crate::entities::home::Kind;
use crate::entities::prelude::{Home, Login};
use crate::get::CatalogItem;
use crate::login::get_session;
use crate::rank::{best, higher, leading, lemma_ranked, ranked, Ranking};
use crate::rows::{
    distinct, dropped, find, has_key, kept, lemma_count_key, lemma_dropped_below,
    lemma_dropped_distinct, lemma_dropped_has_none, lemma_dropped_none, lemma_joined_distinct,
    lemma_kept_all, lemma_kept_joined, lemma_kept_of_dropped, lemma_stayed, select, Cond, Keyed,
    Numbered, Pick, Row,
};
use crate::select::{HomeOfKind, OfSession, TopEntry, WithId};
use vstd::prelude::*;

verus! {

/// How many items the top list holds at most.
pub const TOP_LEN: usize = 10;

/// How many items each of the two lists by date holds at most.
pub const RECENT_LEN: usize = 20;

/// A session's home feed, list by list.
#[derive(Clone, Debug, PartialEq, Eq)]
pub struct Homes {
    pub top: Vec<Home>,
    pub movies: Vec<Home>,
    pub series: Vec<Home>,
}

/// An item that stands for the top list, with the kind of entry it would make.
#[derive(Clone, Debug, PartialEq, Eq)]
pub struct Top {
    pub kind: Kind,
    pub value: CatalogItem,
}

impl Row for Top {
    fn duplicate(&self) -> (r: Self) {
        Top { kind: self.kind, value: self.value.duplicate() }
    }
}

/// What one account's catalog pull brought: the lists, or why one is missing.
#[derive(Debug, PartialEq, Eq)]
pub struct Pull {
    pub login: Login,
    pub movies: ApiResult<Vec<CatalogItem>>,
    pub series: ApiResult<Vec<CatalogItem>>,
}

/// A number that may be missing, as a rank: a missing one ranks below all.
pub open spec fn level(n: Option<i64>) -> int {
    match n {
        Some(v) => v as int,
        None => i64::MIN - 1,
    }
}

/// Whether the number `a` ranks above `b`, a missing one below all.
fn above(a: Option<i64>, b: Option<i64>) -> (r: bool)
    ensures
        r == (level(a) > level(b)),
{
    match (a, b) {
        (Some(x), Some(y)) => x > y,
        (Some(_), None) => true,
        (None, _) => false,
    }
}

/// Whether `a` and `b` rank alike.
fn level_with(a: Option<i64>, b: Option<i64>) -> (r: bool)
    ensures
        r == (level(a) == level(b)),
{
    match (a, b) {
        (Some(x), Some(y)) => x == y,
        (None, None) => true,
        _ => false,
    }
}

/// The ranking of the top list: by rating, then by the date of entry.
pub struct ByRating {}

impl Ranking<Top> for ByRating {
    open spec fn rank(&self, item: &Top) -> (int, int) {
        (level(item.value.rating), level(item.value.added))
    }

    fn outranks(&self, a: &Top, b: &Top) -> (r: bool) {
        above(a.value.rating, b.value.rating) || (level_with(a.value.rating, b.value.rating)
            && above(a.value.added, b.value.added))
    }
}

/// The ranking of the lists by date: by the date of entry alone.
pub struct ByDate {}

impl Ranking<CatalogItem> for ByDate {
    open spec fn rank(&self, item: &CatalogItem) -> (int, int) {
        (level(item.added), 0)
    }

    fn outranks(&self, a: &CatalogItem, b: &CatalogItem) -> (r: bool) {
        above(a.added, b.added)
    }
}

/// The items with a rating that entered the catalog after `since`.
pub struct Rated {
    pub since: i64,
}

impl Cond<CatalogItem> for Rated {
    open spec fn picks(&self, row: &CatalogItem) -> bool {
        row.rating is Some && row.added is Some && row.added->Some_0 > self.since
    }
}

impl Pick<CatalogItem> for Rated {
    fn test(&self, row: &CatalogItem) -> (r: bool) {
        let recent: bool = match row.added {
            Some(added) => added > self.since,
            None => false,
        };
        row.rating.is_some() && recent
    }
}

/// The items of a list, each as a candidate for an entry of one kind.
pub open spec fn tagged(list: Seq<CatalogItem>, kind: Kind) -> Seq<Top> {
    Seq::new(list.len(), |i: int| Top { kind, value: list[i] })
}

/// The candidates for the top list: the rated recent movies, then the
/// rated recent series.
pub open spec fn pool(movies: Seq<CatalogItem>, series: Seq<CatalogItem>, since: i64) -> Seq<Top> {
    tagged(kept(movies, &Rated { since }), Kind::TopMovie) + tagged(
        kept(series, &Rated { since }),
        Kind::TopSerie,
    )
}

/// The top list: the ten best candidates by rating, then by date.
pub open spec fn top_list(movies: Seq<CatalogItem>, series: Seq<CatalogItem>, since: i64) -> Seq<Top> {
    leading(ranked(pool(movies, series, since), &ByRating {}), TOP_LEN as int)
}

/// A list by date: the twenty items that entered the catalog last, latest first.
pub open spec fn recent_list(list: Seq<CatalogItem>) -> Seq<CatalogItem> {
    leading(ranked(list, &ByDate {}), RECENT_LEN as int)
}

/// The entries that the top list makes, with ids from `first_id` on.
pub open spec fn top_rows(session_id: i64, first_id: int, tops: Seq<Top>) -> Seq<Home> {
    Seq::new(
        tops.len(),
        |i: int|
            Home {
                id: (first_id + i) as i64,
                session_id,
                kind: tops[i].kind,
                value_id: tops[i].value.id,
                name: tops[i].value.name,
                icon: tops[i].value.icon,
            },
    )
}

/// The entries that a list by date makes, with ids from `first_id` on.
pub open spec fn value_rows(session_id: i64, first_id: int, kind: Kind, list: Seq<CatalogItem>) -> Seq<
    Home,
> {
    Seq::new(
        list.len(),
        |i: int|
            Home {
                id: (first_id + i) as i64,
                session_id,
                kind,
                value_id: list[i].id,
                name: list[i].name,
                icon: list[i].icon,
            },
    )
}

/// The entries that three lists make for a session, with ids from `first_id` on.
pub open spec fn feed_rows(
    session_id: i64,
    first_id: int,
    tops: Seq<Top>,
    movies: Seq<CatalogItem>,
    series: Seq<CatalogItem>,
) -> Seq<Home> {
    top_rows(session_id, first_id, tops) + value_rows(
        session_id,
        first_id + tops.len(),
        Kind::Movie,
        movies,
    ) + value_rows(session_id, first_id + tops.len() + movies.len(), Kind::Serie, series)
}

/// The whole feed that two catalog lists make for a session: the top
/// list, the latest movies, the latest series.
pub open spec fn feed(
    session_id: i64,
    first_id: int,
    movies: Seq<CatalogItem>,
    series: Seq<CatalogItem>,
    since: i64,
) -> Seq<Home> {
    feed_rows(
        session_id,
        first_id,
        top_list(movies, series, since),
        recent_list(movies),
        recent_list(series),
    )
}

/// The three lists of a feed, before they become entries of a session.
#[derive(Clone, Debug, PartialEq, Eq)]
pub struct Feed {
    pub tops: Vec<Top>,
    pub movies: Vec<CatalogItem>,
    pub series: Vec<CatalogItem>,
}

impl Tables {
    /// The tables after a session's feed was made anew from two catalog
    /// lists, and how that ended: the old entries of the session are gone
    /// and the new ones stand at the end. `DataBase`, and no change, where
    /// no session has the id or the ids for the entries run out.
    pub open spec fn with_feed(
        self,
        session_id: i64,
        movies: Seq<CatalogItem>,
        series: Seq<CatalogItem>,
        since: i64,
    ) -> (Tables, ApiResult<()>) {
        let rows = feed(session_id, self.next_id, movies, series, since);
        if !has_key(self.sessions, session_id) || self.next_id + rows.len() > i64::MAX {
            (self, Err(ApiError::DataBase))
        } else {
            (
                Tables {
                    homes: dropped(self.homes, &OfSession { session_id }) + rows,
                    next_id: self.next_id + rows.len(),
                    ..self
                },
                Ok(()),
            )
        }
    }

    /// The tables after one account's pull: its feed is made anew where
    /// both lists came, and nothing changes where one is missing.
    pub open spec fn with_pull(self, pull: Pull, since: i64) -> Tables {
        match (pull.movies, pull.series) {
            (Ok(movies), Ok(series)) => self.with_feed(pull.login.id, movies@, series@, since).0,
            _ => self,
        }
    }

    /// The tables after the pulls of many accounts, one after the other.
    pub open spec fn with_pulls(self, pulls: Seq<Pull>, since: i64) -> Tables
        decreases pulls.len(),
    {
        if pulls.len() == 0 {
            self
        } else {
            self.with_pulls(pulls.drop_last(), since).with_pull(pulls.last(), since)
        }
    }
}

/// The top list is in order of rating, then date; every item of it has a
/// rating and entered the catalog after `since`; and it has at most ten items.
pub proof fn lemma_top_list(movies: Seq<CatalogItem>, series: Seq<CatalogItem>, since: i64)
    ensures
        top_list(movies, series, since).len() <= TOP_LEN,
        forall|i: int, j: int|
            0 <= i < j < top_list(movies, series, since).len() ==> !higher(
                (ByRating {}).rank(&#[trigger] top_list(movies, series, since)[j]),
                (ByRating {}).rank(&#[trigger] top_list(movies, series, since)[i]),
            ),
        forall|i: int|
            0 <= i < top_list(movies, series, since).len() ==> (Rated { since }).picks(
                &(#[trigger] top_list(movies, series, since)[i]).value,
            ),
{
    let candidates = pool(movies, series, since);
    let all = ranked(candidates, &ByRating {});
    let tops = top_list(movies, series, since);
    lemma_ranked(candidates, &ByRating {});
    assert forall|i: int, j: int| 0 <= i < j < tops.len() implies !higher(
        (ByRating {}).rank(&#[trigger] tops[j]),
        (ByRating {}).rank(&#[trigger] tops[i]),
    ) by {
        assert(tops[i] == all[i] && tops[j] == all[j]);
    }
    crate::rows::lemma_kept_dropped(movies, &Rated { since });
    crate::rows::lemma_kept_dropped(series, &Rated { since });
    assert forall|i: int| 0 <= i < tops.len() implies (Rated { since }).picks(
        &(#[trigger] tops[i]).value,
    ) by {
        assert(tops[i] == all[i]);
        vstd::seq_lib::to_multiset_contains(all, all[i]);
        vstd::seq_lib::to_multiset_contains(candidates, all[i]);
        assert(all.contains(all[i]));
        assert(candidates.contains(all[i]));
        let k = choose|k: int| 0 <= k < candidates.len() && candidates[k] == all[i];
        let from_movies = kept(movies, &Rated { since });
        if k < from_movies.len() {
            assert(candidates[k].value == from_movies[k]);
        } else {
            assert(candidates[k].value == kept(series, &Rated { since })[k - from_movies.len()]);
        }
    }
}

/// A list by date is in order of date, latest first, has twenty items at
/// most, and holds nothing but items of the list that it is made from.
pub proof fn lemma_recent_list(list: Seq<CatalogItem>)
    ensures
        recent_list(list).len() <= RECENT_LEN,
        recent_list(list).len() <= list.len(),
        forall|i: int, j: int|
            0 <= i < j < recent_list(list).len() ==> level((#[trigger] recent_list(list)[i]).added)
                >= level((#[trigger] recent_list(list)[j]).added),
        forall|i: int| 0 <= i < recent_list(list).len() ==> list.contains(#[trigger] recent_list(list)[i]),
{
    let all = ranked(list, &ByDate {});
    let latest = recent_list(list);
    lemma_ranked(list, &ByDate {});
    assert forall|i: int, j: int| 0 <= i < j < latest.len() implies level(
        (#[trigger] latest[i]).added,
    ) >= level((#[trigger] latest[j]).added) by {
        assert(latest[i] == all[i] && latest[j] == all[j]);
        assert(!higher((ByDate {}).rank(&all[j]), (ByDate {}).rank(&all[i])));
    }
    assert forall|i: int| 0 <= i < latest.len() implies list.contains(#[trigger] latest[i]) by {
        assert(latest[i] == all[i]);
        vstd::seq_lib::to_multiset_contains(all, all[i]);
        vstd::seq_lib::to_multiset_contains(list, all[i]);
        assert(all.contains(all[i]));
    }
}

/// A feed has fifty entries at most.
pub proof fn lemma_feed_len(
    session_id: i64,
    first_id: int,
    movies: Seq<CatalogItem>,
    series: Seq<CatalogItem>,
    since: i64,
)
    ensures
        feed(session_id, first_id, movies, series, since).len() <= TOP_LEN + 2 * RECENT_LEN,
{
}

/// A feed is swapped as a whole: whenever a session's feed is made anew,
/// the session's entries are the new feed and nothing else, fifty at
/// most, and the entries of every other session are as they were.
pub proof fn lemma_feed_swapped(
    t: Tables,
    session_id: i64,
    movies: Seq<CatalogItem>,
    series: Seq<CatalogItem>,
    since: i64,
    other: i64,
)
    requires
        t.with_feed(session_id, movies, series, since).1 is Ok,
        other != session_id,
    ensures
        ({
            let after = t.with_feed(session_id, movies, series, since).0;
            &&& kept(after.homes, &OfSession { session_id }) == feed(
                session_id,
                t.next_id,
                movies,
                series,
                since,
            )
            &&& kept(after.homes, &OfSession { session_id }).len() <= TOP_LEN + 2 * RECENT_LEN
            &&& kept(after.homes, &OfSession { session_id: other }) == kept(
                t.homes,
                &OfSession { session_id: other },
            )
        }),
{
    let mine = OfSession { session_id };
    let theirs = OfSession { session_id: other };
    let rows = feed(session_id, t.next_id, movies, series, since);
    let rest = dropped(t.homes, &mine);
    lemma_kept_joined(rest, rows, &mine);
    lemma_kept_joined(rest, rows, &theirs);
    lemma_kept_of_dropped(t.homes, &mine, &theirs);
    lemma_dropped_has_none(t.homes, &mine);
    assert forall|j: int| 0 <= j < rows.len() implies mine.picks(&#[trigger] rows[j]) by {
        assert(rows[j].session_id == session_id);
    }
    lemma_kept_all(rows, &mine);
    assert forall|j: int| 0 <= j < rows.len() implies !theirs.picks(&#[trigger] rows[j]) by {
        assert(rows[j].session_id == session_id);
    }
    lemma_dropped_none(rows, &theirs);
    assert(Seq::<Home>::empty() + rows =~= rows);
    assert(kept(t.homes, &theirs) + Seq::<Home>::empty() =~= kept(t.homes, &theirs));
}

/// Making a feed anew leaves the tables valid.
pub proof fn lemma_with_feed(
    t: Tables,
    session_id: i64,
    movies: Seq<CatalogItem>,
    series: Seq<CatalogItem>,
    since: i64,
)
    requires
        t.wf(),
    ensures
        t.with_feed(session_id, movies, series, since).0.wf(),
{
    let n = t.with_feed(session_id, movies, series, since).0;
    if n != t {
        let rows = feed(session_id, t.next_id, movies, series, since);
        let rest = dropped(t.homes, &OfSession { session_id });
        assert forall|j: int| 0 <= j < n.homes.len() implies has_key(
            n.sessions,
            (#[trigger] n.homes[j]).session_id,
        ) by {
            if j < rest.len() {
                let i = lemma_stayed(t.homes, &OfSession { session_id }, j);
            } else {
                assert(n.homes[j] == rows[j - rest.len()]);
                assert(rows[j - rest.len()].session_id == session_id);
            }
        }
        assert forall|j: int| 0 <= j < n.sessions.len() implies (#[trigger] n.sessions[j]).id
            < n.next_id by {
            assert(t.sessions[j].id < t.next_id);
        }
        assert forall|j: int| 0 <= j < n.avatars.len() implies (#[trigger] n.avatars[j]).id
            < n.next_id by {
            assert(t.avatars[j].id < t.next_id);
        }
        lemma_dropped_distinct(t.homes, &OfSession { session_id });
        lemma_dropped_below(t.homes, &OfSession { session_id }, t.next_id);
        assert(distinct(rows)) by {
            assert forall|a: int, b: int| 0 <= a < b < rows.len() implies (#[trigger] rows[a]).number()
                != (#[trigger] rows[b]).number() by {
                lemma_feed_ids(session_id, t.next_id, movies, series, since, a);
                lemma_feed_ids(session_id, t.next_id, movies, series, since, b);
            }
        }
        assert forall|k: int| 0 <= k < rows.len() implies (#[trigger] rows[k]).number()
            >= t.next_id by {
            lemma_feed_ids(session_id, t.next_id, movies, series, since, k);
        }
        lemma_joined_distinct(rest, rows, t.next_id);
        assert forall|j: int| 0 <= j < n.homes.len() implies (#[trigger] n.homes[j]).id
            < n.next_id by {
            if j < rest.len() {
                let i = lemma_stayed(t.homes, &OfSession { session_id }, j);
                assert(t.homes[i].id < t.next_id);
            } else {
                assert(n.homes[j] == rows[j - rest.len()]);
                lemma_feed_ids(session_id, t.next_id, movies, series, since, j - rest.len());
            }
        }
    }
}

/// The entries of a feed take the ids from `first_id` on, one after the other.
pub proof fn lemma_feed_ids(
    session_id: i64,
    first_id: int,
    movies: Seq<CatalogItem>,
    series: Seq<CatalogItem>,
    since: i64,
    k: int,
)
    requires
        0 <= first_id,
        first_id + feed(session_id, first_id, movies, series, since).len() <= i64::MAX,
        0 <= k < feed(session_id, first_id, movies, series, since).len(),
    ensures
        feed(session_id, first_id, movies, series, since)[k].id == first_id + k,
{
    let tops = top_list(movies, series, since);
    let latest_movies = recent_list(movies);
    let first = top_rows(session_id, first_id, tops);
    let second = value_rows(session_id, first_id + tops.len(), Kind::Movie, latest_movies);
    if k < first.len() {
        assert(feed(session_id, first_id, movies, series, since)[k] == first[k]);
    } else if k < first.len() + second.len() {
        assert(feed(session_id, first_id, movies, series, since)[k] == second[k - first.len()]);
    }
}

/// The pulls of many accounts leave the tables valid.
pub proof fn lemma_with_pulls(t: Tables, pulls: Seq<Pull>, since: i64)
    requires
        t.wf(),
    ensures
        t.with_pulls(pulls, since).wf(),
    decreases pulls.len(),
{
    if pulls.len() > 0 {
        lemma_with_pulls(t, pulls.drop_last(), since);
        let before = t.with_pulls(pulls.drop_last(), since);
        let pull = pulls.last();
        match (pull.movies, pull.series) {
            (Ok(movies), Ok(series)) => {
                lemma_with_feed(before, pull.login.id, movies@, series@, since);
            },
            _ => {},
        }
    }
}

/// Adds to `out` the rated recent items of `list`, as candidates for entries of `kind`.
fn candidates(list: &Vec<CatalogItem>, kind: Kind, since: i64, out: &mut Vec<Top>)
    ensures
        final(out)@ == old(out)@ + tagged(kept(list@, &Rated { since }), kind),
{
    let picked = select(list, &Rated { since });
    let ghost before = out@;
    let mut i: usize = 0;
    while i < picked.len()
        invariant
            i <= picked.len(),
            out@ == before + tagged(picked@.take(i as int), kind),
        decreases picked.len() - i,
    {
        out.push(Top { kind, value: picked[i].duplicate() });
        assert(out@ =~= before + tagged(picked@.take(i + 1), kind));
        i += 1;
    }
    assert(picked@.take(picked.len() as int) =~= picked@);
}

/// Adds to `out` the entries that the top list makes, with ids from `first_id` on.
fn push_top_rows(session_id: i64, first_id: i64, tops: &Vec<Top>, out: &mut Vec<Home>)
    requires
        first_id + tops.len() <= i64::MAX,
        first_id >= 0,
    ensures
        final(out)@ == old(out)@ + top_rows(session_id, first_id as int, tops@),
{
    let ghost before = out@;
    let mut i: usize = 0;
    while i < tops.len()
        invariant
            i <= tops.len(),
            first_id + tops.len() <= i64::MAX,
            first_id >= 0,
            out@ == before + top_rows(session_id, first_id as int, tops@).take(i as int),
        decreases tops.len() - i,
    {
        let top: &Top = &tops[i];
        out.push(
            Home {
                id: first_id + i as i64,
                session_id,
                kind: top.kind,
                value_id: top.value.id,
                name: top.value.name.clone(),
                icon: top.value.icon.clone(),
            },
        );
        assert(out@ =~= before + top_rows(session_id, first_id as int, tops@).take(i + 1));
        i += 1;
    }
    assert(top_rows(session_id, first_id as int, tops@).take(tops.len() as int) =~= top_rows(
        session_id,
        first_id as int,
        tops@,
    ));
}

/// Adds to `out` the entries that a list by date makes, with ids from `first_id` on.
fn push_value_rows(session_id: i64, first_id: i64, kind: Kind, list: &Vec<CatalogItem>, out: &mut Vec<Home>)
    requires
        first_id + list.len() <= i64::MAX,
        first_id >= 0,
    ensures
        final(out)@ == old(out)@ + value_rows(session_id, first_id as int, kind, list@),
{
    let ghost before = out@;
    let mut i: usize = 0;
    while i < list.len()
        invariant
            i <= list.len(),
            first_id + list.len() <= i64::MAX,
            first_id >= 0,
            out@ == before + value_rows(session_id, first_id as int, kind, list@).take(i as int),
        decreases list.len() - i,
    {
        let value: &CatalogItem = &list[i];
        out.push(
            Home {
                id: first_id + i as i64,
                session_id,
                kind,
                value_id: value.id,
                name: value.name.clone(),
                icon: value.icon.clone(),
            },
        );
        assert(out@ =~= before + value_rows(session_id, first_id as int, kind, list@).take(i + 1));
        i += 1;
    }
    assert(value_rows(session_id, first_id as int, kind, list@).take(list.len() as int)
        =~= value_rows(session_id, first_id as int, kind, list@));
}

/// The home feed of the session that `auth_key` names, list by list.
pub fn home(db: &Database, auth_key: &str) -> (r: ApiResult<Homes>)
    ensures
        match db@.session_of(auth_key) {
            Err(e) => r == Err::<Homes, ApiError>(e),
            Ok(session) => {
                let all = kept(db@.homes, &OfSession { session_id: session.id });
                &&& r is Ok
                &&& r->Ok_0.top@ == kept(all, &TopEntry {})
                &&& r->Ok_0.movies@ == kept(all, &HomeOfKind { kind: Kind::Movie })
                &&& r->Ok_0.series@ == kept(all, &HomeOfKind { kind: Kind::Serie })
            },
        },
{
    match get_session(auth_key, db) {
        Err(e) => Err(e),
        Ok(session) => {
            let all = select(db.homes(), &OfSession { session_id: session.id });
            Ok(
                Homes {
                    top: select(&all, &TopEntry {}),
                    movies: select(&all, &HomeOfKind { kind: Kind::Movie }),
                    series: select(&all, &HomeOfKind { kind: Kind::Serie }),
                },
            )
        },
    }
}

/// The three lists of the feed that two catalog lists make; `month_ago`
/// is the instant after which an item counts as recent.
pub fn rank_feed(movies: &Vec<CatalogItem>, series: &Vec<CatalogItem>, month_ago: i64) -> (r: Feed)
    ensures
        r.tops@ == top_list(movies@, series@, month_ago),
        r.movies@ == recent_list(movies@),
        r.series@ == recent_list(series@),
        r.tops@.len() <= TOP_LEN,
        r.movies@.len() <= RECENT_LEN,
        r.series@.len() <= RECENT_LEN,
{
    let mut candidates_all: Vec<Top> = Vec::new();
    candidates(movies, Kind::TopMovie, month_ago, &mut candidates_all);
    candidates(series, Kind::TopSerie, month_ago, &mut candidates_all);
    assert(candidates_all@ =~= pool(movies@, series@, month_ago));
    Feed {
        tops: best(&candidates_all, &ByRating {}, TOP_LEN),
        movies: best(movies, &ByDate {}, RECENT_LEN),
        series: best(series, &ByDate {}, RECENT_LEN),
    }
}

/// Puts the entries of `feed` in the place of the session's old ones.
pub(crate) fn install(db: &mut Database, session_id: i64, feed: &Feed)
    requires
        old(db)@.next_id >= 0,
        old(db)@.next_id + feed.tops@.len() + feed.movies@.len() + feed.series@.len() <= i64::MAX,
        feed.tops@.len() <= TOP_LEN,
        feed.movies@.len() <= RECENT_LEN,
        feed.series@.len() <= RECENT_LEN,
    ensures
        final(db)@ == ({
            let rows = feed_rows(
                session_id,
                old(db)@.next_id,
                feed.tops@,
                feed.movies@,
                feed.series@,
            );
            Tables {
                homes: dropped(old(db)@.homes, &OfSession { session_id }) + rows,
                next_id: old(db)@.next_id + rows.len(),
                ..old(db)@
            }
        }),
{
    let total: i64 = (feed.tops.len() + feed.movies.len() + feed.series.len()) as i64;
    let first_id: i64 = db.take_ids(total);
    let mut rows: Vec<Home> = Vec::new();
    push_top_rows(session_id, first_id, &feed.tops, &mut rows);
    push_value_rows(session_id, first_id + feed.tops.len() as i64, Kind::Movie, &feed.movies, &mut rows);
    push_value_rows(
        session_id,
        first_id + feed.tops.len() as i64 + feed.movies.len() as i64,
        Kind::Serie,
        &feed.series,
        &mut rows,
    );
    assert(rows@ =~= feed_rows(session_id, first_id as int, feed.tops@, feed.movies@, feed.series@));
    db.replace_homes(session_id, rows);
}

/// Makes the feed of the session of `login` anew from the account's whole
/// lists of movies and series; `month_ago` is the instant after which an
/// item counts as recent.
pub fn make(
    db: &mut Database,
    login: &Login,
    month_ago: i64,
    movies: &Vec<CatalogItem>,
    series: &Vec<CatalogItem>,
) -> (r: ApiResult<()>)
    requires
        old(db)@.wf(),
    ensures
        final(db)@.wf(),
        (final(db)@, r) == old(db)@.with_feed(login.id, movies@, series@, month_ago),
{
    proof {
        lemma_with_feed(db@, login.id, movies@, series@, month_ago);
        lemma_count_key(db@.sessions, &WithId { id: login.id }, login.id);
    }
    let feed = rank_feed(movies, series, month_ago);
    let total: i64 = (feed.tops.len() + feed.movies.len() + feed.series.len()) as i64;
    if find(db.sessions(), &WithId { id: login.id }).is_none() || db.next_id() > i64::MAX - total {
        return Err(ApiError::DataBase);
    }
    install(db, login.id, &feed);
    Ok(())
}

/// Makes the feeds anew for the accounts whose catalog pulls are handed
/// in. An account whose pull or feed fails keeps its old feed, and the
/// others are not held up by it.
pub fn make_homes(db: &mut Database, month_ago: i64, pulls: &Vec<Pull>)
    requires
        old(db)@.wf(),
    ensures
        final(db)@.wf(),
        final(db)@ == old(db)@.with_pulls(pulls@, month_ago),
{
    let mut i: usize = 0;
    assert(pulls@.take(0) =~= Seq::<Pull>::empty());
    while i < pulls.len()
        invariant
            i <= pulls.len(),
            db@.wf(),
            db@ == old(db)@.with_pulls(pulls@.take(i as int), month_ago),
        decreases pulls.len() - i,
    {
        let pull: &Pull = &pulls[i];
        proof {
            let next = pulls@.take(i + 1);
            assert(next.drop_last() =~= pulls@.take(i as int));
            assert(next.last() == *pull);
        }
        match (&pull.movies, &pull.series) {
            (Ok(movies), Ok(series)) => {
                let _ = make(db, &pull.login, month_ago, movies, series);
            },
            _ => {},
        }
        i += 1;
    }
    assert(pulls@.take(pulls.len() as int) =~= pulls@);
}

} // verus!
