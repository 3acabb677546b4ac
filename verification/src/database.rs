//! The store: seven tables held in memory, and what must hold of them.

use crate::entities::favorite;
use crate::entities::prelude::{Avatar, Favorite, Home, Login, Session, UserInfo, Watching};
use crate::entities::watching;
use crate::rows::{
    all_below, apart, distinct, dropped, has_key, is_apart, is_below, is_distinct, is_owned,
    is_unique, lemma_dropped_apart, lemma_dropped_below, lemma_dropped_distinct,
    lemma_dropped_unique, lemma_same_cond, lemma_stayed, lemma_stays, remove_picked, unique, Cond,
    Keyed, Marked, Numbered, Owned, Pick,
};
use crate::select::{OfAvatar, OfSession, OfSessionAvatars, OwnedBy, OwnedIn, WithId};
use vstd::prelude::*;

verus! {

impl Keyed for Session {
    type Key = i64;

    open spec fn key(&self) -> i64 {
        self.id
    }

    fn same_key(&self, other: &Self) -> (r: bool) {
        self.id == other.id
    }
}

impl Keyed for Login {
    type Key = i64;

    open spec fn key(&self) -> i64 {
        self.id
    }

    fn same_key(&self, other: &Self) -> (r: bool) {
        self.id == other.id
    }
}

impl Keyed for UserInfo {
    type Key = i64;

    open spec fn key(&self) -> i64 {
        self.id
    }

    fn same_key(&self, other: &Self) -> (r: bool) {
        self.id == other.id
    }
}

impl Keyed for Avatar {
    type Key = i64;

    open spec fn key(&self) -> i64 {
        self.id
    }

    fn same_key(&self, other: &Self) -> (r: bool) {
        self.id == other.id
    }
}

impl Keyed for Favorite {
    type Key = (i64, favorite::Kind, i64);

    open spec fn key(&self) -> (i64, favorite::Kind, i64) {
        (self.avatar_id, self.kind, self.value_id)
    }

    fn same_key(&self, other: &Self) -> (r: bool) {
        self.avatar_id == other.avatar_id && self.kind == other.kind && self.value_id
            == other.value_id
    }
}

impl Keyed for Watching {
    type Key = (i64, watching::Kind, i64);

    open spec fn key(&self) -> (i64, watching::Kind, i64) {
        (self.avatar_id, self.kind, self.value_id)
    }

    fn same_key(&self, other: &Self) -> (r: bool) {
        self.avatar_id == other.avatar_id && self.kind == other.kind && self.value_id
            == other.value_id
    }
}

impl Marked for Session {
    type Mark = Seq<char>;

    open spec fn mark(&self) -> Seq<char> {
        self.auth_key@
    }

    fn same_mark(&self, other: &Self) -> (r: bool) {
        self.auth_key == other.auth_key
    }
}

impl Marked for Login {
    type Mark = (Seq<char>, Seq<char>, Seq<char>);

    open spec fn mark(&self) -> (Seq<char>, Seq<char>, Seq<char>) {
        (self.server@, self.username@, self.password@)
    }

    fn same_mark(&self, other: &Self) -> (r: bool) {
        self.server == other.server && self.username == other.username && self.password
            == other.password
    }
}

impl Numbered for Session {
    open spec fn number(&self) -> i64 {
        self.id
    }

    fn id_number(&self) -> (r: i64) {
        self.id
    }
}

impl Numbered for Avatar {
    open spec fn number(&self) -> i64 {
        self.id
    }

    fn id_number(&self) -> (r: i64) {
        self.id
    }
}

impl Numbered for Favorite {
    open spec fn number(&self) -> i64 {
        self.id
    }

    fn id_number(&self) -> (r: i64) {
        self.id
    }
}

impl Numbered for Watching {
    open spec fn number(&self) -> i64 {
        self.id
    }

    fn id_number(&self) -> (r: i64) {
        self.id
    }
}

impl Numbered for Home {
    open spec fn number(&self) -> i64 {
        self.id
    }

    fn id_number(&self) -> (r: i64) {
        self.id
    }
}

impl Owned<Session> for Login {
    open spec fn owner(&self) -> i64 {
        self.id
    }

    fn belongs_to(&self, parent: &Session) -> (r: bool) {
        parent.id == self.id
    }
}

impl Owned<Session> for UserInfo {
    open spec fn owner(&self) -> i64 {
        self.id
    }

    fn belongs_to(&self, parent: &Session) -> (r: bool) {
        parent.id == self.id
    }
}

impl Owned<Session> for Avatar {
    open spec fn owner(&self) -> i64 {
        self.session_id
    }

    fn belongs_to(&self, parent: &Session) -> (r: bool) {
        parent.id == self.session_id
    }
}

impl Owned<Session> for Home {
    open spec fn owner(&self) -> i64 {
        self.session_id
    }

    fn belongs_to(&self, parent: &Session) -> (r: bool) {
        parent.id == self.session_id
    }
}

impl Owned<Avatar> for Favorite {
    open spec fn owner(&self) -> i64 {
        self.avatar_id
    }

    fn belongs_to(&self, parent: &Avatar) -> (r: bool) {
        parent.id == self.avatar_id
    }
}

impl Owned<Avatar> for Watching {
    open spec fn owner(&self) -> i64 {
        self.avatar_id
    }

    fn belongs_to(&self, parent: &Avatar) -> (r: bool) {
        parent.id == self.avatar_id
    }
}

/// The tables as sequences of rows: what a `Database` stands for.
pub struct Tables {
    pub sessions: Seq<Session>,
    pub logins: Seq<Login>,
    pub user_infos: Seq<UserInfo>,
    pub avatars: Seq<Avatar>,
    pub favorites: Seq<Favorite>,
    pub watchings: Seq<Watching>,
    pub homes: Seq<Home>,
    /// The id that the next new row gets.
    pub next_id: int,
}

impl Tables {
    /// No two sessions share an id or a token, and every id in use lies
    /// below `next_id`.
    pub open spec fn sessions_wf(self) -> bool {
        &&& unique(self.sessions)
        &&& apart(self.sessions)
        &&& all_below(self.sessions, self.next_id)
    }

    /// Credentials and account snapshots belong to a session, at most one
    /// of each to a session, and no two sessions have the same credentials.
    pub open spec fn accounts_wf(self) -> bool {
        &&& unique(self.logins)
        &&& apart(self.logins)
        &&& unique(self.user_infos)
        &&& forall|i: int|
            0 <= i < self.logins.len() ==> has_key(self.sessions, (#[trigger] self.logins[i]).id)
        &&& forall|i: int|
            0 <= i < self.user_infos.len() ==> has_key(self.sessions, (#[trigger] self.user_infos[i]).id)
    }

    /// No two profiles share an id, every id in use lies below `next_id`, and
    /// every profile belongs to a session.
    pub open spec fn avatars_wf(self) -> bool {
        &&& unique(self.avatars)
        &&& all_below(self.avatars, self.next_id)
        &&& forall|i: int|
            0 <= i < self.avatars.len() ==> has_key(
                self.sessions,
                (#[trigger] self.avatars[i]).session_id,
            )
    }

    /// Every favorite belongs to a profile, a profile has at most one
    /// favorite for a kind and an item, no two favorites share an id, and
    /// every id in use lies below `next_id`.
    pub open spec fn favorites_wf(self) -> bool {
        &&& unique(self.favorites)
        &&& distinct(self.favorites)
        &&& all_below(self.favorites, self.next_id)
        &&& forall|i: int|
            0 <= i < self.favorites.len() ==> has_key(
                self.avatars,
                (#[trigger] self.favorites[i]).avatar_id,
            )
    }

    /// Every position belongs to a profile, a profile has at most one
    /// position for a kind and an item, no two positions share an id, and
    /// every id in use lies below `next_id`.
    pub open spec fn watchings_wf(self) -> bool {
        &&& unique(self.watchings)
        &&& distinct(self.watchings)
        &&& all_below(self.watchings, self.next_id)
        &&& forall|i: int|
            0 <= i < self.watchings.len() ==> has_key(
                self.avatars,
                (#[trigger] self.watchings[i]).avatar_id,
            )
    }

    /// Every entry of a home feed belongs to a session, no two entries
    /// share an id, and every id in use lies below `next_id`.
    pub open spec fn homes_wf(self) -> bool {
        &&& distinct(self.homes)
        &&& all_below(self.homes, self.next_id)
        &&& forall|i: int|
            0 <= i < self.homes.len() ==> has_key(self.sessions, (#[trigger] self.homes[i]).session_id)
    }

    /// What holds of the tables between any two operations.
    pub open spec fn wf(self) -> bool {
        &&& 0 <= self.next_id <= i64::MAX
        &&& self.sessions_wf()
        &&& self.accounts_wf()
        &&& self.avatars_wf()
        &&& self.favorites_wf()
        &&& self.watchings_wf()
        &&& self.homes_wf()
    }

    /// The tables with nothing in them.
    pub open spec fn empty() -> Tables {
        Tables {
            sessions: Seq::empty(),
            logins: Seq::empty(),
            user_infos: Seq::empty(),
            avatars: Seq::empty(),
            favorites: Seq::empty(),
            watchings: Seq::empty(),
            homes: Seq::empty(),
            next_id: 1,
        }
    }

    /// The tables after a session is deleted with all that it owns: its
    /// credentials, its account snapshot, its home feed, its profiles, and
    /// the favorites and positions of those profiles.
    pub open spec fn without_session(self, id: i64) -> Tables {
        Tables {
            sessions: dropped(self.sessions, &WithId { id }),
            logins: dropped(self.logins, &WithId { id }),
            user_infos: dropped(self.user_infos, &WithId { id }),
            avatars: dropped(self.avatars, &OfSession { session_id: id }),
            favorites: dropped(self.favorites, &OwnedIn { avatars: self.avatars, session_id: id }),
            watchings: dropped(self.watchings, &OwnedIn { avatars: self.avatars, session_id: id }),
            homes: dropped(self.homes, &OfSession { session_id: id }),
            next_id: self.next_id,
        }
    }

    /// The tables after a profile is deleted with its favorites and positions.
    pub open spec fn without_avatar(self, id: i64) -> Tables {
        Tables {
            avatars: dropped(self.avatars, &WithId { id }),
            favorites: dropped(self.favorites, &OfAvatar { avatar_id: id }),
            watchings: dropped(self.watchings, &OfAvatar { avatar_id: id }),
            ..self
        }
    }
}

/// Deleting a session with all that it owns leaves the tables valid.
pub proof fn lemma_without_session(t: Tables, id: i64)
    requires
        t.wf(),
    ensures
        t.without_session(id).wf(),
{
    let n = t.without_session(id);
    let by_id = WithId { id };
    let by_session = OfSession { session_id: id };
    let owned = OwnedIn { avatars: t.avatars, session_id: id };
    lemma_dropped_unique(t.sessions, &by_id);
    lemma_dropped_unique(t.logins, &by_id);
    lemma_dropped_unique(t.user_infos, &by_id);
    lemma_dropped_unique(t.avatars, &by_session);
    lemma_dropped_unique(t.favorites, &owned);
    lemma_dropped_unique(t.watchings, &owned);
    lemma_dropped_apart(t.sessions, &by_id);
    lemma_dropped_apart(t.logins, &by_id);
    lemma_dropped_below(t.sessions, &by_id, t.next_id);
    lemma_dropped_below(t.avatars, &by_session, t.next_id);
    lemma_dropped_below(t.favorites, &owned, t.next_id);
    lemma_dropped_below(t.watchings, &owned, t.next_id);
    lemma_dropped_below(t.homes, &by_session, t.next_id);
    lemma_dropped_distinct(t.favorites, &owned);
    lemma_dropped_distinct(t.watchings, &owned);
    lemma_dropped_distinct(t.homes, &by_session);
    assert forall|j: int| 0 <= j < n.sessions.len() implies (#[trigger] n.sessions[j]).id
        < n.next_id by {
        let i = lemma_stayed(t.sessions, &by_id, j);
    }
    assert forall|j: int| 0 <= j < n.logins.len() implies has_key(
        n.sessions,
        (#[trigger] n.logins[j]).id,
    ) by {
        let i = lemma_stayed(t.logins, &by_id, j);
        assert(has_key(t.sessions, t.logins[i].id));
        let a = choose|a: int| 0 <= a < t.sessions.len() && (#[trigger] t.sessions[a]).key() == t.logins[i].id;
        lemma_stays(t.sessions, &by_id, a);
    }
    assert forall|j: int| 0 <= j < n.user_infos.len() implies has_key(
        n.sessions,
        (#[trigger] n.user_infos[j]).id,
    ) by {
        let i = lemma_stayed(t.user_infos, &by_id, j);
        assert(has_key(t.sessions, t.user_infos[i].id));
        let a = choose|a: int| 0 <= a < t.sessions.len() && (#[trigger] t.sessions[a]).key() == t.user_infos[i].id;
        lemma_stays(t.sessions, &by_id, a);
    }
    assert forall|j: int| 0 <= j < n.homes.len() implies has_key(
        n.sessions,
        (#[trigger] n.homes[j]).session_id,
    ) by {
        let i = lemma_stayed(t.homes, &by_session, j);
        assert(has_key(t.sessions, t.homes[i].session_id));
        let a = choose|a: int| 0 <= a < t.sessions.len() && (#[trigger] t.sessions[a]).key() == t.homes[i].session_id;
        lemma_stays(t.sessions, &by_id, a);
    }
    assert forall|j: int| 0 <= j < n.avatars.len() implies (#[trigger] n.avatars[j]).id < n.next_id
        && has_key(n.sessions, n.avatars[j].session_id) by {
        let i = lemma_stayed(t.avatars, &by_session, j);
        assert(has_key(t.sessions, t.avatars[i].session_id));
        let a = choose|a: int| 0 <= a < t.sessions.len() && (#[trigger] t.sessions[a]).key() == t.avatars[i].session_id;
        lemma_stays(t.sessions, &by_id, a);
    }
    assert forall|j: int| 0 <= j < n.favorites.len() implies has_key(
        n.avatars,
        (#[trigger] n.favorites[j]).avatar_id,
    ) by {
        let i = lemma_stayed(t.favorites, &owned, j);
        assert(has_key(t.avatars, t.favorites[i].avatar_id));
        let a = choose|a: int| 0 <= a < t.avatars.len() && (#[trigger] t.avatars[a]).key() == t.favorites[i].avatar_id;
        assert(!(OwnedBy { id: t.favorites[i].avatar_id, session_id: id }).picks(&t.avatars[a]));
        lemma_stays(t.avatars, &by_session, a);
    }
    assert forall|j: int| 0 <= j < n.watchings.len() implies has_key(
        n.avatars,
        (#[trigger] n.watchings[j]).avatar_id,
    ) by {
        let i = lemma_stayed(t.watchings, &owned, j);
        assert(has_key(t.avatars, t.watchings[i].avatar_id));
        let a = choose|a: int| 0 <= a < t.avatars.len() && (#[trigger] t.avatars[a]).key() == t.watchings[i].avatar_id;
        assert(!(OwnedBy { id: t.watchings[i].avatar_id, session_id: id }).picks(&t.avatars[a]));
        lemma_stays(t.avatars, &by_session, a);
    }
}

/// Deleting a profile with its favorites and positions leaves the tables valid.
pub proof fn lemma_without_avatar(t: Tables, id: i64)
    requires
        t.wf(),
    ensures
        t.without_avatar(id).wf(),
{
    let n = t.without_avatar(id);
    let by_id = WithId { id };
    let of_avatar = OfAvatar { avatar_id: id };
    lemma_dropped_unique(t.avatars, &by_id);
    lemma_dropped_unique(t.favorites, &of_avatar);
    lemma_dropped_unique(t.watchings, &of_avatar);
    lemma_dropped_below(t.avatars, &by_id, t.next_id);
    lemma_dropped_below(t.favorites, &of_avatar, t.next_id);
    lemma_dropped_below(t.watchings, &of_avatar, t.next_id);
    lemma_dropped_distinct(t.favorites, &of_avatar);
    lemma_dropped_distinct(t.watchings, &of_avatar);
    assert forall|j: int| 0 <= j < n.avatars.len() implies (#[trigger] n.avatars[j]).id < n.next_id
        && has_key(n.sessions, n.avatars[j].session_id) by {
        let i = lemma_stayed(t.avatars, &by_id, j);
    }
    assert forall|j: int| 0 <= j < n.favorites.len() implies has_key(
        n.avatars,
        (#[trigger] n.favorites[j]).avatar_id,
    ) by {
        let i = lemma_stayed(t.favorites, &of_avatar, j);
        assert(has_key(t.avatars, t.favorites[i].avatar_id));
        let a = choose|a: int| 0 <= a < t.avatars.len() && (#[trigger] t.avatars[a]).key() == t.favorites[i].avatar_id;
        lemma_stays(t.avatars, &by_id, a);
    }
    assert forall|j: int| 0 <= j < n.watchings.len() implies has_key(
        n.avatars,
        (#[trigger] n.watchings[j]).avatar_id,
    ) by {
        let i = lemma_stayed(t.watchings, &of_avatar, j);
        assert(has_key(t.avatars, t.watchings[i].avatar_id));
        let a = choose|a: int| 0 <= a < t.avatars.len() && (#[trigger] t.avatars[a]).key() == t.watchings[i].avatar_id;
        lemma_stays(t.avatars, &by_id, a);
    }
}

/// Whether the rows of seven tables are valid together.
fn valid_together(
    sessions: &Vec<Session>,
    logins: &Vec<Login>,
    user_infos: &Vec<UserInfo>,
    avatars: &Vec<Avatar>,
    favorites: &Vec<Favorite>,
    watchings: &Vec<Watching>,
    homes: &Vec<Home>,
    next_id: i64,
) -> (r: bool)
    ensures
        r == (Tables {
            sessions: sessions@,
            logins: logins@,
            user_infos: user_infos@,
            avatars: avatars@,
            favorites: favorites@,
            watchings: watchings@,
            homes: homes@,
            next_id: next_id as int,
        }).wf(),
{
    next_id >= 0 && is_unique(sessions) && is_apart(sessions) && is_unique(logins) && is_apart(
        logins,
    ) && is_unique(user_infos) && is_unique(avatars) && is_unique(favorites) && is_unique(watchings)
        && is_owned(logins, sessions) && is_owned(user_infos, sessions) && is_owned(
        avatars,
        sessions,
    ) && is_owned(homes, sessions) && is_owned(favorites, avatars) && is_owned(watchings, avatars)
        && is_below(sessions, next_id) && is_below(avatars, next_id) && is_below(
        favorites,
        next_id,
    ) && is_below(watchings, next_id) && is_below(homes, next_id) && is_distinct(favorites)
        && is_distinct(watchings) && is_distinct(homes)
}

/// The store. Its tables change only through the operations of this crate,
/// each of which leaves them valid.
pub struct Database {
    sessions: Vec<Session>,
    logins: Vec<Login>,
    user_infos: Vec<UserInfo>,
    avatars: Vec<Avatar>,
    favorites: Vec<Favorite>,
    watchings: Vec<Watching>,
    homes: Vec<Home>,
    next_id: i64,
}

impl View for Database {
    type V = Tables;

    closed spec fn view(&self) -> Tables {
        Tables {
            sessions: self.sessions@,
            logins: self.logins@,
            user_infos: self.user_infos@,
            avatars: self.avatars@,
            favorites: self.favorites@,
            watchings: self.watchings@,
            homes: self.homes@,
            next_id: self.next_id as int,
        }
    }
}

impl Database {
    /// A store with nothing in it.
    pub fn new() -> (db: Database)
        ensures
            db@ == Tables::empty(),
            db@.wf(),
    {
        Database {
            sessions: Vec::new(),
            logins: Vec::new(),
            user_infos: Vec::new(),
            avatars: Vec::new(),
            favorites: Vec::new(),
            watchings: Vec::new(),
            homes: Vec::new(),
            next_id: 1,
        }
    }

    /// A store with the rows of seven tables, where they are valid
    /// together; `next_id` is the id that the next new row gets.
    pub fn restore(
        sessions: Vec<Session>,
        logins: Vec<Login>,
        user_infos: Vec<UserInfo>,
        avatars: Vec<Avatar>,
        favorites: Vec<Favorite>,
        watchings: Vec<Watching>,
        homes: Vec<Home>,
        next_id: i64,
    ) -> (r: Option<Database>)
        ensures
            ({
                let tables = Tables {
                    sessions: sessions@,
                    logins: logins@,
                    user_infos: user_infos@,
                    avatars: avatars@,
                    favorites: favorites@,
                    watchings: watchings@,
                    homes: homes@,
                    next_id: next_id as int,
                };
                match r {
                    Some(db) => db@ == tables && tables.wf(),
                    None => !tables.wf(),
                }
            }),
    {
        let valid: bool = valid_together(
            &sessions,
            &logins,
            &user_infos,
            &avatars,
            &favorites,
            &watchings,
            &homes,
            next_id,
        );
        if valid {
            Some(
                Database {
                    sessions,
                    logins,
                    user_infos,
                    avatars,
                    favorites,
                    watchings,
                    homes,
                    next_id,
                },
            )
        } else {
            None
        }
    }

    /// Whether the tables are valid together. Every store that this crate
    /// hands out is; the test is for a caller that wants to see it.
    pub fn is_valid(&self) -> (r: bool)
        ensures
            r == self@.wf(),
    {
        valid_together(
            &self.sessions,
            &self.logins,
            &self.user_infos,
            &self.avatars,
            &self.favorites,
            &self.watchings,
            &self.homes,
            self.next_id,
        )
    }

    pub fn sessions(&self) -> (r: &Vec<Session>)
        ensures
            r@ == self@.sessions,
    {
        &self.sessions
    }

    pub fn logins(&self) -> (r: &Vec<Login>)
        ensures
            r@ == self@.logins,
    {
        &self.logins
    }

    pub fn user_infos(&self) -> (r: &Vec<UserInfo>)
        ensures
            r@ == self@.user_infos,
    {
        &self.user_infos
    }

    pub fn avatars(&self) -> (r: &Vec<Avatar>)
        ensures
            r@ == self@.avatars,
    {
        &self.avatars
    }

    pub fn favorites(&self) -> (r: &Vec<Favorite>)
        ensures
            r@ == self@.favorites,
    {
        &self.favorites
    }

    pub fn watchings(&self) -> (r: &Vec<Watching>)
        ensures
            r@ == self@.watchings,
    {
        &self.watchings
    }

    pub fn homes(&self) -> (r: &Vec<Home>)
        ensures
            r@ == self@.homes,
    {
        &self.homes
    }

    /// The id that the next new row gets.
    pub fn next_id(&self) -> (r: i64)
        ensures
            r == self@.next_id,
    {
        self.next_id
    }

    /// Hands out `n` ids in a row and returns the first of them.
    pub(crate) fn take_ids(&mut self, n: i64) -> (id: i64)
        requires
            0 <= n,
            old(self)@.next_id + n <= i64::MAX,
        ensures
            id == old(self)@.next_id,
            final(self)@ == (Tables { next_id: old(self)@.next_id + n, ..old(self)@ }),
    {
        let id: i64 = self.next_id;
        self.next_id = id + n;
        id
    }

    pub(crate) fn push_session(&mut self, row: Session)
        ensures
            final(self)@ == (Tables { sessions: old(self)@.sessions.push(row), ..old(self)@ }),
    {
        self.sessions.push(row);
    }

    pub(crate) fn push_login(&mut self, row: Login)
        ensures
            final(self)@ == (Tables { logins: old(self)@.logins.push(row), ..old(self)@ }),
    {
        self.logins.push(row);
    }

    pub(crate) fn push_user_info(&mut self, row: UserInfo)
        ensures
            final(self)@ == (Tables { user_infos: old(self)@.user_infos.push(row), ..old(self)@ }),
    {
        self.user_infos.push(row);
    }

    pub(crate) fn push_avatar(&mut self, row: Avatar)
        ensures
            final(self)@ == (Tables { avatars: old(self)@.avatars.push(row), ..old(self)@ }),
    {
        self.avatars.push(row);
    }

    pub(crate) fn push_favorite(&mut self, row: Favorite)
        ensures
            final(self)@ == (Tables { favorites: old(self)@.favorites.push(row), ..old(self)@ }),
    {
        self.favorites.push(row);
    }

    pub(crate) fn push_watching(&mut self, row: Watching)
        ensures
            final(self)@ == (Tables { watchings: old(self)@.watchings.push(row), ..old(self)@ }),
    {
        self.watchings.push(row);
    }

    /// Puts a session's new feed in the place of its old one.
    pub(crate) fn replace_homes(&mut self, session_id: i64, rows: Vec<Home>)
        ensures
            final(self)@ == (Tables {
                homes: dropped(old(self)@.homes, &OfSession { session_id }) + rows@,
                ..old(self)@
            }),
    {
        let mut rows = rows;
        remove_picked(&mut self.homes, &OfSession { session_id });
        self.homes.append(&mut rows);
    }

    pub(crate) fn remove_favorites<P: Pick<Favorite>>(&mut self, p: &P)
        ensures
            final(self)@ == (Tables { favorites: dropped(old(self)@.favorites, p), ..old(self)@ }),
    {
        remove_picked(&mut self.favorites, p);
    }

    pub(crate) fn remove_watchings<P: Pick<Watching>>(&mut self, p: &P)
        ensures
            final(self)@ == (Tables { watchings: dropped(old(self)@.watchings, p), ..old(self)@ }),
    {
        remove_picked(&mut self.watchings, p);
    }

    /// Writes a new position and instant into the row at `at`.
    pub(crate) fn set_watching(&mut self, at: usize, time: i64, date: i64)
        requires
            at < old(self)@.watchings.len(),
        ensures
            final(self)@ == (Tables {
                watchings: old(self)@.watchings.update(
                    at as int,
                    Watching { time, date, ..old(self)@.watchings[at as int] },
                ),
                ..old(self)@
            }),
    {
        let mut row: Watching = self.watchings.remove(at);
        row.time = time;
        row.date = date;
        self.watchings.insert(at, row);
        assert(self.watchings@ =~= old(self).watchings@.update(
            at as int,
            Watching { time, date, ..old(self).watchings@[at as int] },
        ));
    }

    /// Puts `row` in the place of the account snapshot at `at`.
    pub(crate) fn set_user_info(&mut self, at: usize, row: UserInfo)
        requires
            at < old(self)@.user_infos.len(),
        ensures
            final(self)@ == (Tables {
                user_infos: old(self)@.user_infos.update(at as int, row),
                ..old(self)@
            }),
    {
        self.user_infos.remove(at);
        self.user_infos.insert(at, row);
        assert(self.user_infos@ =~= old(self).user_infos@.update(at as int, row));
    }

    /// Deletes a session with all that it owns.
    pub(crate) fn delete_session(&mut self, id: i64)
        ensures
            final(self)@ == old(self)@.without_session(id),
    {
        proof {
            let vec_cond = OfSessionAvatars { avatars: &self.avatars, session_id: id };
            let seq_cond = OwnedIn { avatars: self.avatars@, session_id: id };
            lemma_same_cond::<Favorite, _, _>(self.favorites@, &vec_cond, &seq_cond);
            lemma_same_cond::<Watching, _, _>(self.watchings@, &vec_cond, &seq_cond);
        }
        remove_picked(&mut self.favorites, &OfSessionAvatars { avatars: &self.avatars, session_id: id });
        remove_picked(&mut self.watchings, &OfSessionAvatars { avatars: &self.avatars, session_id: id });
        remove_picked(&mut self.avatars, &OfSession { session_id: id });
        remove_picked(&mut self.homes, &OfSession { session_id: id });
        remove_picked(&mut self.sessions, &WithId { id });
        remove_picked(&mut self.logins, &WithId { id });
        remove_picked(&mut self.user_infos, &WithId { id });
    }

    /// Deletes a profile with its favorites and positions.
    pub(crate) fn delete_avatar(&mut self, id: i64)
        ensures
            final(self)@ == old(self)@.without_avatar(id),
    {
        remove_picked(&mut self.favorites, &OfAvatar { avatar_id: id });
        remove_picked(&mut self.watchings, &OfAvatar { avatar_id: id });
        remove_picked(&mut self.avatars, &WithId { id });
    }
}

} // verus!
