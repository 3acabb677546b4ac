//! Favorites: the catalog items that a profile has marked, at most once each.

use crate::api_error::{ApiError, ApiResult};
use crate::avatar::{lemma_owner_exists, owner};
use crate::database::{Database, Tables};
use crate::entities::favorite::Kind;
use crate::entities::prelude::Favorite;
use crate::get::{MovieInfo, SerieInfo, CatalogItem};
use crate::login::get_login;
use crate::rows::{
    count, dropped, find, first_row, has_key, kept, lemma_count_key, lemma_dropped_below, lemma_dropped_distinct, lemma_dropped_unique,
    lemma_push_distinct,
    lemma_push_unique, lemma_stayed, select, Cond, Keyed, Pick, Row,
};
use crate::select::{FavoriteKey, FavoriteOfKind, OfAvatar};
use vstd::prelude::*;

verus! {

/// The favorites of a profile, kind by kind.
#[derive(Clone, Debug, PartialEq, Eq)]
pub struct Favorites {
    pub lives: Vec<Favorite>,
    pub movies: Vec<Favorite>,
    pub series: Vec<Favorite>,
}

/// What the upstream told about the item that is to become a favorite: for
/// a channel the whole list of channels, for a movie or a series its detail.
#[derive(Clone, Debug, PartialEq, Eq)]
pub enum Lookup {
    Lives(Vec<CatalogItem>),
    Movie(MovieInfo),
    Serie(SerieInfo),
}

/// The catalog item with an id.
pub struct ItemWithId {
    pub id: i64,
}

impl Cond<CatalogItem> for ItemWithId {
    open spec fn picks(&self, row: &CatalogItem) -> bool {
        row.id == self.id
    }
}

impl Pick<CatalogItem> for ItemWithId {
    fn test(&self, row: &CatalogItem) -> (r: bool) {
        row.id == self.id
    }
}

impl Row for CatalogItem {
    fn duplicate(&self) -> (r: Self) {
        CatalogItem {
            id: self.id,
            name: self.name.clone(),
            icon: self.icon.clone(),
            added: self.added,
            rating: self.rating,
            episode_id: self.episode_id,
            container_extension: match &self.container_extension {
                Some(text) => Some(text.clone()),
                None => None,
            },
        }
    }
}

impl Lookup {
    /// The kind of favorite that the lookup is for.
    pub open spec fn spec_kind(&self) -> Kind {
        match self {
            Lookup::Lives(_) => Kind::Live,
            Lookup::Movie(_) => Kind::Movie,
            Lookup::Serie(_) => Kind::Serie,
        }
    }

    /// The kind of favorite that the lookup is for.
    #[verifier::when_used_as_spec(spec_kind)]
    pub fn kind(&self) -> (r: Kind)
        ensures
            r == self.spec_kind(),
    {
        match self {
            Lookup::Lives(_) => Kind::Live,
            Lookup::Movie(_) => Kind::Movie,
            Lookup::Serie(_) => Kind::Serie,
        }
    }

    /// The catalog item that becomes the favorite: the first channel of the
    /// list that has the id, `WrongId` where none has; the movie as the
    /// upstream describes it; the series under the id it was asked for.
    pub open spec fn resolved(self, id: i64) -> ApiResult<CatalogItem> {
        match self {
            Lookup::Lives(lives) => match first_row(lives@, &ItemWithId { id }) {
                Some(value) => Ok(value),
                None => Err(ApiError::WrongId),
            },
            Lookup::Movie(info) => Ok(CatalogItem::of_movie(info)),
            Lookup::Serie(info) => Ok(CatalogItem::of_serie(info, id, None, None)),
        }
    }
}

/// The catalog item that becomes the favorite, from what the upstream told about `id`.
pub fn resolve(lookup: Lookup, id: i64) -> (r: ApiResult<CatalogItem>)
    ensures
        r == lookup.resolved(id),
{
    match lookup {
        Lookup::Lives(lives) => match find(&lives, &ItemWithId { id }) {
            Some(i) => Ok(lives[i].duplicate()),
            None => Err(ApiError::WrongId),
        },
        Lookup::Movie(info) => Ok(CatalogItem::from_movie_info(info)),
        Lookup::Serie(info) => Ok(CatalogItem::from_serie_info(info, id, None, None)),
    }
}

impl Tables {
    /// The tables after an item was marked for a profile, and whether a
    /// favorite was made: none is where the profile has one for the kind
    /// and the item; `DataBase` where no id is left for the row.
    pub open spec fn with_favorite(self, avatar: i64, kind: Kind, value: CatalogItem) -> (
        Tables,
        ApiResult<bool>,
    ) {
        if has_key(self.favorites, (avatar, kind, value.id)) {
            (self, Ok(false))
        } else if self.next_id >= i64::MAX {
            (self, Err(ApiError::DataBase))
        } else {
            (
                Tables {
                    favorites: self.favorites.push(
                        Favorite {
                            id: self.next_id as i64,
                            avatar_id: avatar,
                            kind,
                            value_id: value.id,
                            name: value.name,
                            icon: value.icon,
                        },
                    ),
                    next_id: self.next_id + 1,
                    ..self
                },
                Ok(true),
            )
        }
    }

    /// The tables after a request to mark an item, and its answer.
    ///
    /// The token must name a session (`WrongAuthKey`), the session must own
    /// the profile (`WrongAvatar`) and have credentials (`AccountNotFound`),
    /// and the item must resolve; until then nothing changes.
    pub open spec fn stored_favorite(self, auth_key: &str, avatar: i64, id: i64, lookup: Lookup) -> (
        Tables,
        ApiResult<bool>,
    ) {
        match self.owner_of(auth_key, avatar) {
            Err(e) => (self, Err(e)),
            Ok(session) => match self.login_of(&session) {
                Err(e) => (self, Err(e)),
                Ok(_) => match lookup.resolved(id) {
                    Err(e) => (self, Err(e)),
                    Ok(value) => self.with_favorite(avatar, lookup.spec_kind(), value),
                },
            },
        }
    }

    /// The tables after a request to unmark an item, and its answer:
    /// `WrongId` where the profile has no such favorite.
    pub open spec fn removed_favorite(self, auth_key: &str, avatar: i64, kind: Kind, id: i64) -> (
        Tables,
        ApiResult<bool>,
    ) {
        let key = FavoriteKey { avatar_id: avatar, kind, value_id: id };
        match self.owner_of(auth_key, avatar) {
            Err(e) => (self, Err(e)),
            Ok(_) => if has_key(self.favorites, (avatar, kind, id)) {
                (Tables { favorites: dropped(self.favorites, &key), ..self }, Ok(true))
            } else {
                (self, Err(ApiError::WrongId))
            },
        }
    }
}

/// Marking an item for a profile that exists leaves the tables valid.
pub proof fn lemma_with_favorite(t: Tables, avatar: i64, kind: Kind, value: CatalogItem)
    requires
        t.wf(),
        has_key(t.avatars, avatar),
    ensures
        t.with_favorite(avatar, kind, value).0.wf(),
{
    let n = t.with_favorite(avatar, kind, value).0;
    if n != t {
        let row = n.favorites.last();
        lemma_push_unique(t.favorites, row);
        lemma_push_distinct(t.favorites, row, t.next_id);
        assert forall|j: int| 0 <= j < n.favorites.len() implies has_key(
            n.avatars,
            (#[trigger] n.favorites[j]).avatar_id,
        ) by {
            if j < t.favorites.len() {
                assert(has_key(t.avatars, t.favorites[j].avatar_id));
            }
        }
        assert forall|j: int| 0 <= j < n.sessions.len() implies (#[trigger] n.sessions[j]).id
            < n.next_id by {
            assert(t.sessions[j].id < t.next_id);
        }
        assert forall|j: int| 0 <= j < n.avatars.len() implies (#[trigger] n.avatars[j]).id
            < n.next_id by {
            assert(t.avatars[j].id < t.next_id);
        }
    }
}

/// Unmarking favorites leaves the tables valid.
pub proof fn lemma_dropped_favorites<P: Cond<Favorite>>(t: Tables, p: &P)
    requires
        t.wf(),
    ensures
        (Tables { favorites: dropped(t.favorites, p), ..t }).wf(),
{
    let n = Tables { favorites: dropped(t.favorites, p), ..t };
    lemma_dropped_unique(t.favorites, p);
    lemma_dropped_below(t.favorites, p, t.next_id);
    lemma_dropped_distinct(t.favorites, p);
    assert forall|j: int| 0 <= j < n.favorites.len() implies has_key(
        n.avatars,
        (#[trigger] n.favorites[j]).avatar_id,
    ) by {
        let i = lemma_stayed(t.favorites, p, j);
    }
}

/// Marking twice marks once: whenever a request to mark an item succeeds,
/// the profile has exactly one favorite for the kind and the item, and the
/// same request made again changes nothing and answers that none was made.
pub proof fn lemma_store_twice(t: Tables, auth_key: &str, avatar: i64, id: i64, lookup: Lookup)
    requires
        t.wf(),
        t.stored_favorite(auth_key, avatar, id, lookup).1 is Ok,
    ensures
        ({
            let once = t.stored_favorite(auth_key, avatar, id, lookup).0;
            let value = lookup.resolved(id)->Ok_0;
            let key = FavoriteKey { avatar_id: avatar, kind: lookup.spec_kind(), value_id: value.id };
            &&& count(once.favorites, &key) == 1
            &&& once.stored_favorite(auth_key, avatar, id, lookup) == (once, Ok::<bool, ApiError>(false))
        }),
{
    let once = t.stored_favorite(auth_key, avatar, id, lookup).0;
    let value = lookup.resolved(id)->Ok_0;
    let kind = lookup.spec_kind();
    let key = FavoriteKey { avatar_id: avatar, kind, value_id: value.id };
    lemma_owner_exists(t, auth_key, avatar);
    lemma_with_favorite(t, avatar, kind, value);
    if once != t {
        assert(once.favorites[t.favorites.len() as int].key() == (avatar, kind, value.id));
    }
    assert(has_key(once.favorites, (avatar, kind, value.id)));
    lemma_count_key(once.favorites, &key, (avatar, kind, value.id));
}

/// The favorites of the profile `avatar`, kind by kind, provided that the
/// session that `auth_key` names owns the profile.
pub fn get(db: &Database, auth_key: &str, avatar: i64) -> (r: ApiResult<Favorites>)
    ensures
        match db@.owner_of(auth_key, avatar) {
            Err(e) => r == Err::<Favorites, ApiError>(e),
            Ok(_) => {
                let all = kept(db@.favorites, &OfAvatar { avatar_id: avatar });
                &&& r is Ok
                &&& r->Ok_0.lives@ == kept(all, &FavoriteOfKind { kind: Kind::Live })
                &&& r->Ok_0.movies@ == kept(all, &FavoriteOfKind { kind: Kind::Movie })
                &&& r->Ok_0.series@ == kept(all, &FavoriteOfKind { kind: Kind::Serie })
            },
        },
{
    match owner(db, auth_key, avatar) {
        Err(e) => Err(e),
        Ok(_) => {
            let all = select(db.favorites(), &OfAvatar { avatar_id: avatar });
            Ok(
                Favorites {
                    lives: select(&all, &FavoriteOfKind { kind: Kind::Live }),
                    movies: select(&all, &FavoriteOfKind { kind: Kind::Movie }),
                    series: select(&all, &FavoriteOfKind { kind: Kind::Serie }),
                },
            )
        },
    }
}

/// Marks the item `id` as a favorite of the profile `avatar`, unless it is
/// one already; says whether a favorite was made.
pub fn store(db: &mut Database, auth_key: &str, avatar: i64, id: i64, lookup: Lookup) -> (r:
    ApiResult<bool>)
    requires
        old(db)@.wf(),
    ensures
        final(db)@.wf(),
        (final(db)@, r) == old(db)@.stored_favorite(auth_key, avatar, id, lookup),
{
    let session = match owner(db, auth_key, avatar) {
        Err(e) => { return Err(e); },
        Ok(session) => session,
    };
    match get_login(&session, db) {
        Err(e) => { return Err(e); },
        Ok(_) => {},
    }
    let kind: Kind = lookup.kind();
    let value: CatalogItem = match resolve(lookup, id) {
        Err(e) => { return Err(e); },
        Ok(value) => value,
    };
    let key = FavoriteKey { avatar_id: avatar, kind, value_id: value.id };
    proof {
        lemma_owner_exists(db@, auth_key, avatar);
        lemma_with_favorite(db@, avatar, kind, value);
        lemma_count_key(db@.favorites, &key, (avatar, kind, value.id));
    }
    if find(db.favorites(), &key).is_some() {
        return Ok(false);
    }
    if db.next_id() == i64::MAX {
        return Err(ApiError::DataBase);
    }
    let row_id: i64 = db.take_ids(1);
    db.push_favorite(
        Favorite {
            id: row_id,
            avatar_id: avatar,
            kind,
            value_id: value.id,
            name: value.name,
            icon: value.icon,
        },
    );
    Ok(true)
}

/// Unmarks the item `id` as a favorite of the profile `avatar`.
pub fn remove(db: &mut Database, auth_key: &str, avatar: i64, kind: Kind, id: i64) -> (r: ApiResult<
    bool,
>)
    requires
        old(db)@.wf(),
    ensures
        final(db)@.wf(),
        (final(db)@, r) == old(db)@.removed_favorite(auth_key, avatar, kind, id),
{
    match owner(db, auth_key, avatar) {
        Err(e) => { return Err(e); },
        Ok(_) => {},
    }
    let key = FavoriteKey { avatar_id: avatar, kind, value_id: id };
    proof {
        lemma_count_key(db@.favorites, &key, (avatar, kind, id));
        lemma_dropped_favorites(db@, &key);
    }
    match find(db.favorites(), &key) {
        None => Err(ApiError::WrongId),
        Some(_) => {
            db.remove_favorites(&key);
            Ok(true)
        },
    }
}

} // verus!
