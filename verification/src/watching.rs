//! Playback positions: one for each movie or series that a profile has
//! started, and for a series in one episode at a time.

use crate::api_error::{ApiError, ApiResult};
use crate::avatar::{lemma_owner_exists, owner};
use crate::database::{Database, Tables};
use crate::entities::prelude::Watching;
use crate::entities::watching::Kind;
use crate::get::{episode_with, CatalogItem, Detail};
use crate::login::get_login;
use crate::rows::{
    count, dropped, find, first, has_key, kept, lemma_count_key, lemma_dropped_below, lemma_dropped_distinct, lemma_dropped_none,
    lemma_push_distinct, lemma_update_distinct,
    lemma_dropped_unique, lemma_first, lemma_push_unique, lemma_same_cond, lemma_stayed,
    lemma_update_unique, select, Cond, Keyed,
};
use crate::select::{EveryPosition, OfAvatar, OtherEpisode, Stale, WatchingKey};
use vstd::prelude::*;

verus! {

/// The positions last written before an instant, which may lie outside
/// the instants that a row can hold. A position written at the instant
/// itself is not among them.
pub struct Before {
    pub cutoff: int,
}

impl Cond<Watching> for Before {
    open spec fn picks(&self, row: &Watching) -> bool {
        row.date < self.cutoff
    }
}

impl Detail {
    /// The kind of position that the detail is for.
    pub open spec fn spec_kind(&self) -> Kind {
        match self {
            Detail::Movie(_) => Kind::Movie,
            Detail::Serie(_) => Kind::Serie,
        }
    }

    /// The kind of position that the detail is for.
    #[verifier::when_used_as_spec(spec_kind)]
    pub fn kind(&self) -> (r: Kind)
        ensures
            r == self.spec_kind(),
    {
        match self {
            Detail::Movie(_) => Kind::Movie,
            Detail::Serie(_) => Kind::Serie,
        }
    }

    /// The catalog item that a position is kept for. A movie is taken as the
    /// upstream describes it. A series needs the episode: `NotFound` where
    /// none is given, `WrongEpisodeId` where the series has no such episode;
    /// the item then carries the episode and the episode's file extension.
    pub open spec fn resolved(self, id: i64, episode_id: Option<i64>) -> ApiResult<CatalogItem> {
        match self {
            Detail::Movie(info) => Ok(CatalogItem::of_movie(info)),
            Detail::Serie(info) => match episode_id {
                None => Err(ApiError::NotFound),
                Some(e) => match episode_with(info.spec_episodes(), e) {
                    None => Err(ApiError::WrongEpisodeId),
                    Some(episode) => Ok(
                        CatalogItem::of_serie(info, id, Some(e), Some(episode.container_extension)),
                    ),
                },
            },
        }
    }
}

/// The catalog item that a position is kept for, from what the upstream
/// told about the movie or series `id`.
pub fn resolve(detail: Detail, id: i64, episode_id: Option<i64>) -> (r: ApiResult<CatalogItem>)
    ensures
        r == detail.resolved(id, episode_id),
{
    match detail {
        Detail::Movie(info) => Ok(CatalogItem::from_movie_info(info)),
        Detail::Serie(info) => {
            let e: i64 = match episode_id {
                None => { return Err(ApiError::NotFound); },
                Some(e) => e,
            };
            let extension: String = match info.find_episode(e) {
                None => { return Err(ApiError::WrongEpisodeId); },
                Some(episode) => episode.container_extension.clone(),
            };
            Ok(CatalogItem::from_serie_info(info, id, Some(e), Some(extension)))
        },
    }
}

impl Tables {
    /// The positions after those of the profile in other episodes of the
    /// series were retired. A movie has none to retire.
    pub open spec fn retired(self, avatar: i64, kind: Kind, id: i64, episode_id: Option<i64>) -> Seq<
        Watching,
    > {
        match (kind, episode_id) {
            (Kind::Serie, Some(e)) => dropped(
                self.watchings,
                &OtherEpisode { avatar_id: avatar, value_id: id, episode_id: e },
            ),
            _ => self.watchings,
        }
    }

    /// The tables after a position was recorded, and how the recording ended.
    ///
    /// First the positions of the profile in other episodes of the series
    /// `id` are retired. Then the position of the profile for the item is
    /// moved to `time` and `now` where there is one, and a new row is written
    /// where there is none; `DataBase` where no id is left for the row.
    pub open spec fn with_progress(
        self,
        avatar: i64,
        kind: Kind,
        id: i64,
        episode_id: Option<i64>,
        value: CatalogItem,
        time: i64,
        now: i64,
    ) -> (Tables, ApiResult<()>) {
        let cleaned = self.retired(avatar, kind, id, episode_id);
        match first(cleaned, &WatchingKey { avatar_id: avatar, kind, value_id: value.id }) {
            Some(i) => (
                Tables {
                    watchings: cleaned.update(i, Watching { time, date: now, ..cleaned[i] }),
                    ..self
                },
                Ok(()),
            ),
            None => if self.next_id >= i64::MAX {
                (Tables { watchings: cleaned, ..self }, Err(ApiError::DataBase))
            } else {
                (
                    Tables {
                        watchings: cleaned.push(
                            Watching {
                                id: self.next_id as i64,
                                avatar_id: avatar,
                                kind,
                                value_id: value.id,
                                name: value.name,
                                icon: value.icon,
                                time,
                                date: now,
                                episode_id: value.episode_id,
                                container_extension: value.container_extension,
                            },
                        ),
                        next_id: self.next_id + 1,
                        ..self
                    },
                    Ok(()),
                )
            },
        }
    }

    /// The tables after a request to record a position, and its answer.
    ///
    /// The token must name a session (`WrongAuthKey`), the session must own
    /// the profile (`WrongAvatar`) and have credentials (`AccountNotFound`),
    /// and the item must resolve; until then nothing changes.
    pub open spec fn stored_progress(
        self,
        auth_key: &str,
        avatar: i64,
        id: i64,
        episode_id: Option<i64>,
        time: i64,
        detail: Detail,
        now: i64,
    ) -> (Tables, ApiResult<()>) {
        match self.owner_of(auth_key, avatar) {
            Err(e) => (self, Err(e)),
            Ok(session) => match self.login_of(&session) {
                Err(e) => (self, Err(e)),
                Ok(_) => match detail.resolved(id, episode_id) {
                    Err(e) => (self, Err(e)),
                    Ok(value) => self.with_progress(
                        avatar,
                        detail.spec_kind(),
                        id,
                        episode_id,
                        value,
                        time,
                        now,
                    ),
                },
            },
        }
    }

    /// The tables after a request to forget a position, and its answer:
    /// `WrongId` where the profile has no position for the item.
    pub open spec fn removed_progress(self, auth_key: &str, avatar: i64, kind: Kind, id: i64) -> (
        Tables,
        ApiResult<()>,
    ) {
        let key = WatchingKey { avatar_id: avatar, kind, value_id: id };
        match self.owner_of(auth_key, avatar) {
            Err(e) => (self, Err(e)),
            Ok(_) => if has_key(self.watchings, (avatar, kind, id)) {
                (Tables { watchings: dropped(self.watchings, &key), ..self }, Ok(()))
            } else {
                (self, Err(ApiError::WrongId))
            },
        }
    }

    /// The tables without the positions that were last written earlier
    /// than `days` days before `now`. A position written exactly `days`
    /// days before `now` stays, and so does every later one.
    pub open spec fn without_stale(self, now: i64, days: i64) -> Tables {
        Tables {
            watchings: dropped(self.watchings, &Before { cutoff: now - days * 86400 }),
            ..self
        }
    }
}

/// Retiring positions leaves the tables valid.
pub proof fn lemma_dropped_watchings<P: Cond<Watching>>(t: Tables, p: &P)
    requires
        t.wf(),
    ensures
        (Tables { watchings: dropped(t.watchings, p), ..t }).wf(),
{
    let n = Tables { watchings: dropped(t.watchings, p), ..t };
    lemma_dropped_unique(t.watchings, p);
    lemma_dropped_below(t.watchings, p, t.next_id);
    lemma_dropped_distinct(t.watchings, p);
    assert forall|j: int| 0 <= j < n.watchings.len() implies has_key(
        n.avatars,
        (#[trigger] n.watchings[j]).avatar_id,
    ) by {
        let i = lemma_stayed(t.watchings, p, j);
    }
}

/// Recording a position for a profile that exists leaves the tables valid.
pub proof fn lemma_with_progress(
    t: Tables,
    avatar: i64,
    kind: Kind,
    id: i64,
    episode_id: Option<i64>,
    value: CatalogItem,
    time: i64,
    now: i64,
)
    requires
        t.wf(),
        has_key(t.avatars, avatar),
    ensures
        t.with_progress(avatar, kind, id, episode_id, value, time, now).0.wf(),
{
    let cleaned = t.retired(avatar, kind, id, episode_id);
    let c = Tables { watchings: cleaned, ..t };
    match (kind, episode_id) {
        (Kind::Serie, Some(e)) => {
            lemma_dropped_watchings(t, &OtherEpisode { avatar_id: avatar, value_id: id, episode_id: e });
        },
        _ => {},
    }
    assert(c.wf());
    let key = WatchingKey { avatar_id: avatar, kind, value_id: value.id };
    let n = t.with_progress(avatar, kind, id, episode_id, value, time, now).0;
    lemma_first(cleaned, &key);
    match first(cleaned, &key) {
        Some(i) => {
            let row = Watching { time, date: now, ..cleaned[i] };
            lemma_update_unique(cleaned, i, row);
            lemma_update_distinct(cleaned, i, row, t.next_id);
            assert forall|j: int| 0 <= j < n.watchings.len() implies has_key(
                n.avatars,
                (#[trigger] n.watchings[j]).avatar_id,
            ) by {
                assert(has_key(c.avatars, cleaned[j].avatar_id));
            }
        },
        None => {
            if t.next_id < i64::MAX {
                let row = n.watchings.last();
                assert(!has_key(cleaned, row.key())) by {
                    if has_key(cleaned, row.key()) {
                        let j = choose|j: int|
                            0 <= j < cleaned.len() && (#[trigger] cleaned[j]).key() == row.key();
                        assert(key.picks(&cleaned[j]));
                    }
                }
                lemma_push_unique(cleaned, row);
                lemma_push_distinct(cleaned, row, t.next_id);
                assert forall|j: int| 0 <= j < n.watchings.len() implies has_key(
                    n.avatars,
                    (#[trigger] n.watchings[j]).avatar_id,
                ) by {
                    if j < cleaned.len() {
                        assert(has_key(c.avatars, cleaned[j].avatar_id));
                    }
                }
                assert forall|j: int| 0 <= j < n.sessions.len() implies (#[trigger] n.sessions[j]).id
                    < n.next_id by {
                    assert(t.sessions[j].id < t.next_id);
                }
                assert forall|j: int| 0 <= j < n.avatars.len() implies (#[trigger] n.avatars[j]).id
                    < n.next_id by {
                    assert(t.avatars[j].id < t.next_id);
                }
            }
        },
    }
}

/// Switching episodes: whenever a position is recorded for a series at an
/// episode, the profile is left with exactly one position for that series,
/// and it is in that episode, at the new time.
pub proof fn lemma_episode_switch(
    t: Tables,
    auth_key: &str,
    avatar: i64,
    id: i64,
    episode: i64,
    time: i64,
    info: crate::get::SerieInfo,
    now: i64,
)
    requires
        t.wf(),
        t.stored_progress(auth_key, avatar, id, Some(episode), time, Detail::Serie(info), now).1 is Ok,
    ensures
        ({
            let after = t.stored_progress(
                auth_key,
                avatar,
                id,
                Some(episode),
                time,
                Detail::Serie(info),
                now,
            ).0;
            let key = WatchingKey { avatar_id: avatar, kind: Kind::Serie, value_id: id };
            &&& count(after.watchings, &key) == 1
            &&& forall|i: int|
                0 <= i < after.watchings.len() && key.picks(&#[trigger] after.watchings[i]) ==> {
                    &&& after.watchings[i].episode_id == Some(episode)
                    &&& after.watchings[i].time == time
                    &&& after.watchings[i].date == now
                }
        }),
{
    let detail = Detail::Serie(info);
    let after = t.stored_progress(auth_key, avatar, id, Some(episode), time, detail, now).0;
    let value = detail.resolved(id, Some(episode))->Ok_0;
    let key = WatchingKey { avatar_id: avatar, kind: Kind::Serie, value_id: id };
    let other = OtherEpisode { avatar_id: avatar, value_id: id, episode_id: episode };
    let cleaned = dropped(t.watchings, &other);
    lemma_owner_exists(t, auth_key, avatar);
    lemma_with_progress(t, avatar, Kind::Serie, id, Some(episode), value, time, now);
    lemma_first(cleaned, &key);
    assert forall|j: int| 0 <= j < cleaned.len() && key.picks(&#[trigger] cleaned[j]) implies cleaned[j].episode_id
        == Some(episode) by {
        let i = lemma_stayed(t.watchings, &other, j);
    }
    match first(cleaned, &key) {
        Some(i) => {
            assert(after.watchings[i].key() == (avatar, Kind::Serie, id));
        },
        None => {
            assert(after.watchings[cleaned.len() as int].key() == (avatar, Kind::Serie, id));
        },
    }
    lemma_count_key(after.watchings, &key, (avatar, Kind::Serie, id));
    assert forall|i: int|
        0 <= i < after.watchings.len() && key.picks(&#[trigger] after.watchings[i]) implies {
        &&& after.watchings[i].episode_id == Some(episode)
        &&& after.watchings[i].time == time
        &&& after.watchings[i].date == now
    } by {
        match first(cleaned, &key) {
            Some(k) => {
                if i != k {
                    assert(after.watchings[i] == cleaned[i]);
                    assert(after.watchings[k].key() == after.watchings[i].key());
                }
            },
            None => {
                if i < cleaned.len() {
                    assert(after.watchings[i] == cleaned[i]);
                }
            },
        }
    }
}

/// The positions of the profile `avatar`, provided that the session that
/// `auth_key` names owns it.
pub fn get(db: &Database, auth_key: &str, avatar: i64) -> (r: ApiResult<Vec<Watching>>)
    ensures
        match db@.owner_of(auth_key, avatar) {
            Err(e) => r == Err::<Vec<Watching>, ApiError>(e),
            Ok(_) => r is Ok && r->Ok_0@ == kept(db@.watchings, &OfAvatar { avatar_id: avatar }),
        },
{
    match owner(db, auth_key, avatar) {
        Err(e) => Err(e),
        Ok(_) => Ok(select(db.watchings(), &OfAvatar { avatar_id: avatar })),
    }
}

/// Records that the profile `avatar` has played the movie or series `id`
/// up to `time`, at the instant `now`.
pub fn store(
    db: &mut Database,
    auth_key: &str,
    avatar: i64,
    id: i64,
    episode_id: Option<i64>,
    time: i64,
    detail: Detail,
    now: i64,
) -> (r: ApiResult<()>)
    requires
        old(db)@.wf(),
    ensures
        final(db)@.wf(),
        (final(db)@, r) == old(db)@.stored_progress(
            auth_key,
            avatar,
            id,
            episode_id,
            time,
            detail,
            now,
        ),
{
    let session = match owner(db, auth_key, avatar) {
        Err(e) => { return Err(e); },
        Ok(session) => session,
    };
    match get_login(&session, db) {
        Err(e) => { return Err(e); },
        Ok(_) => {},
    }
    let kind: Kind = detail.kind();
    let value: CatalogItem = match resolve(detail, id, episode_id) {
        Err(e) => { return Err(e); },
        Ok(value) => value,
    };
    proof {
        lemma_owner_exists(db@, auth_key, avatar);
        lemma_with_progress(db@, avatar, kind, id, episode_id, value, time, now);
    }
    match (kind, episode_id) {
        (Kind::Serie, Some(e)) => {
            db.remove_watchings(&OtherEpisode { avatar_id: avatar, value_id: id, episode_id: e });
        },
        _ => {},
    }
    match find(db.watchings(), &WatchingKey { avatar_id: avatar, kind, value_id: value.id }) {
        Some(i) => {
            db.set_watching(i, time, now);
            Ok(())
        },
        None => {
            if db.next_id() == i64::MAX {
                return Err(ApiError::DataBase);
            }
            let row_id: i64 = db.take_ids(1);
            db.push_watching(
                Watching {
                    id: row_id,
                    avatar_id: avatar,
                    kind,
                    value_id: value.id,
                    name: value.name,
                    icon: value.icon,
                    time,
                    date: now,
                    episode_id: value.episode_id,
                    container_extension: value.container_extension,
                },
            );
            Ok(())
        },
    }
}

/// Forgets the position of the profile `avatar` for the item `id`.
pub fn remove(db: &mut Database, auth_key: &str, avatar: i64, kind: Kind, id: i64) -> (r: ApiResult<
    (),
>)
    requires
        old(db)@.wf(),
    ensures
        final(db)@.wf(),
        (final(db)@, r) == old(db)@.removed_progress(auth_key, avatar, kind, id),
{
    match owner(db, auth_key, avatar) {
        Err(e) => { return Err(e); },
        Ok(_) => {},
    }
    let key = WatchingKey { avatar_id: avatar, kind, value_id: id };
    proof {
        lemma_count_key(db@.watchings, &key, (avatar, kind, id));
        lemma_dropped_watchings(db@, &key);
    }
    match find(db.watchings(), &key) {
        None => Err(ApiError::WrongId),
        Some(_) => {
            db.remove_watchings(&key);
            Ok(())
        },
    }
}

/// What is left after stale positions were retired: exactly the positions
/// written at the cutoff or later, each as it was and in the order it had;
/// no position written before the cutoff is left.
pub proof fn lemma_without_stale(t: Tables, now: i64, days: i64)
    ensures
        ({
            let cutoff = now - days * 86400;
            let after = t.without_stale(now, days);
            &&& after == (Tables { watchings: after.watchings, ..t })
            &&& forall|j: int|
                0 <= j < after.watchings.len() ==> (#[trigger] after.watchings[j]).date >= cutoff
                    && t.watchings.contains(after.watchings[j])
            &&& forall|i: int|
                0 <= i < t.watchings.len() && (#[trigger] t.watchings[i]).date >= cutoff
                    ==> after.watchings.contains(t.watchings[i])
            &&& after.watchings.len() <= t.watchings.len()
        }),
{
    let cutoff: int = now - days * 86400;
    crate::rows::lemma_kept_dropped(t.watchings, &Before { cutoff });
}

/// Retires every position that was last written earlier than `days` days
/// before `now`.
pub fn clean(db: &mut Database, now: i64, days: i64)
    requires
        old(db)@.wf(),
    ensures
        final(db)@.wf(),
        final(db)@ == old(db)@.without_stale(now, days),
{
    let ghost cutoff: int = now - days * 86400;
    proof {
        lemma_dropped_watchings(db@, &Before { cutoff });
    }
    let span: i128 = (days as i128) * 86400;
    let at: i128 = (now as i128) - span;
    if at <= i64::MIN as i128 {
        proof {
            lemma_dropped_none(db@.watchings, &Before { cutoff });
        }
    } else if at > i64::MAX as i128 {
        proof {
            lemma_same_cond(db@.watchings, &EveryPosition {}, &Before { cutoff });
        }
        db.remove_watchings(&EveryPosition {});
    } else {
        proof {
            lemma_same_cond(db@.watchings, &Stale { cutoff: at as i64 }, &Before { cutoff });
        }
        db.remove_watchings(&Stale { cutoff: at as i64 });
    }
}

} // verus!
