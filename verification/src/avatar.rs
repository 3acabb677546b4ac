//! Profiles: the spaces inside a session that own favorites and playback positions.

use crate::api_error::{ApiError, ApiResult};
use crate::database::{lemma_without_avatar, Database, Tables};
use crate::entities::prelude::{Avatar, Login, Session};
use crate::login::{get_login, get_session};
use crate::rows::{
    any, find, first, first_row, has_key, kept, lemma_first, lemma_push_has_key, lemma_push_unique,
    select, Keyed, Row,
};
use crate::select::{Named, OfSession, OwnedBy, WithToken};
use vstd::prelude::*;

verus! {

impl Tables {
    /// The profile with this id, provided that the session owns it.
    pub open spec fn avatar_of(self, session: &Session, avatar: i64) -> ApiResult<Avatar> {
        match first_row(self.avatars, &OwnedBy { id: avatar, session_id: session.id }) {
            Some(row) => Ok(row),
            None => Err(ApiError::WrongAvatar),
        }
    }

    /// The session that a token names, provided that it owns the profile.
    pub open spec fn owner_of(self, auth_key: &str, avatar: i64) -> ApiResult<Session> {
        match self.session_of(auth_key) {
            Err(e) => Err(e),
            Ok(session) => match self.avatar_of(&session, avatar) {
                Err(e) => Err(e),
                Ok(_) => Ok(session),
            },
        }
    }

    /// The upstream credentials behind a token, provided that the session
    /// that it names owns the profile.
    pub open spec fn owner_account_of(self, auth_key: &str, avatar: i64) -> ApiResult<Login> {
        match self.owner_of(auth_key, avatar) {
            Err(e) => Err(e),
            Ok(session) => self.login_of(&session),
        }
    }

    /// The tables after a profile named `name` was made for the session, and
    /// whether it was: a session has no two profiles of one name.
    pub open spec fn with_avatar(self, session_id: i64, name: String) -> (Tables, ApiResult<bool>) {
        if any(self.avatars, &Named { session_id, name: &name }) {
            (self, Ok(false))
        } else if self.next_id >= i64::MAX {
            (self, Err(ApiError::DataBase))
        } else {
            (
                Tables {
                    avatars: self.avatars.push(
                        Avatar { id: self.next_id as i64, session_id, name },
                    ),
                    next_id: self.next_id + 1,
                    ..self
                },
                Ok(true),
            )
        }
    }
}

/// A new profile of a session that exists leaves the tables valid.
pub proof fn lemma_with_avatar(t: Tables, session_id: i64, name: String)
    requires
        t.wf(),
        has_key(t.sessions, session_id),
    ensures
        t.with_avatar(session_id, name).0.wf(),
{
    let n = t.with_avatar(session_id, name).0;
    if n != t {
        let row = Avatar { id: t.next_id as i64, session_id, name };
        assert(!has_key(t.avatars, row.key())) by {
            if has_key(t.avatars, row.key()) {
                let i = choose|i: int|
                    0 <= i < t.avatars.len() && (#[trigger] t.avatars[i]).key() == row.key();
                assert(t.avatars[i].id < t.next_id);
            }
        }
        lemma_push_unique(t.avatars, row);
        assert forall|i: int| 0 <= i < n.avatars.len() implies (#[trigger] n.avatars[i]).id
            < n.next_id && has_key(n.sessions, n.avatars[i].session_id) by {
            if i < t.avatars.len() {
                assert(n.avatars[i] == t.avatars[i]);
            }
        }
        assert forall|i: int| 0 <= i < n.favorites.len() implies has_key(
            n.avatars,
            (#[trigger] n.favorites[i]).avatar_id,
        ) by {
            lemma_push_has_key(t.avatars, row, t.favorites[i].avatar_id);
        }
        assert forall|i: int| 0 <= i < n.watchings.len() implies has_key(
            n.avatars,
            (#[trigger] n.watchings[i]).avatar_id,
        ) by {
            lemma_push_has_key(t.avatars, row, t.watchings[i].avatar_id);
        }
        assert forall|i: int| 0 <= i < n.sessions.len() implies (#[trigger] n.sessions[i]).id
            < n.next_id by {
            assert(t.sessions[i].id < t.next_id);
        }
    }
}

/// A profile that a session owns is a profile of the tables.
pub proof fn lemma_owner_exists(t: Tables, auth_key: &str, avatar: i64)
    requires
        t.owner_of(auth_key, avatar) is Ok,
    ensures
        has_key(t.avatars, avatar),
        has_key(t.sessions, t.owner_of(auth_key, avatar)->Ok_0.id),
{
    let session = t.session_of(auth_key)->Ok_0;
    lemma_first(t.sessions, &WithToken { token: auth_key });
    let by = OwnedBy { id: avatar, session_id: session.id };
    lemma_first(t.avatars, &by);
    let i = first(t.avatars, &by)->Some_0;
    assert(t.avatars[i].key() == avatar);
    let s = first(t.sessions, &WithToken { token: auth_key })->Some_0;
    assert(t.sessions[s].key() == session.id);
}

/// The profile `avatar`, provided that `session` owns it; `WrongAvatar`
/// where it does not, whether the profile is another session's or nobody's.
pub fn owned(db: &Database, session: &Session, avatar: i64) -> (r: ApiResult<Avatar>)
    ensures
        r == db@.avatar_of(session, avatar),
{
    let avatars = db.avatars();
    match find(avatars, &OwnedBy { id: avatar, session_id: session.id }) {
        Some(i) => Ok(avatars[i].duplicate()),
        None => Err(ApiError::WrongAvatar),
    }
}

/// The session that `auth_key` names, provided that it owns the profile `avatar`.
pub fn owner(db: &Database, auth_key: &str, avatar: i64) -> (r: ApiResult<Session>)
    ensures
        r == db@.owner_of(auth_key, avatar),
{
    match get_session(auth_key, db) {
        Err(e) => Err(e),
        Ok(session) => match owned(db, &session, avatar) {
            Err(e) => Err(e),
            Ok(_) => Ok(session),
        },
    }
}

/// The upstream credentials behind `auth_key`, provided that the session
/// that it names owns the profile `avatar`. Every request to the upstream
/// on behalf of a profile begins here.
pub fn owner_account(db: &Database, auth_key: &str, avatar: i64) -> (r: ApiResult<Login>)
    ensures
        r == db@.owner_account_of(auth_key, avatar),
{
    match owner(db, auth_key, avatar) {
        Err(e) => Err(e),
        Ok(session) => get_login(&session, db),
    }
}

/// A profile of another session is never handed out: whatever the tables
/// hold, asking for a profile under a session that is not its owner fails
/// with `WrongAvatar`.
pub proof fn lemma_ownership_boundary(t: Tables, session: Session, profile: int)
    requires
        t.wf(),
        0 <= profile < t.avatars.len(),
        t.avatars[profile].session_id != session.id,
    ensures
        t.avatar_of(&session, t.avatars[profile].id) == Err::<Avatar, ApiError>(ApiError::WrongAvatar),
{
    let id = t.avatars[profile].id;
    let p = OwnedBy { id, session_id: session.id };
    lemma_first(t.avatars, &p);
    if first_row(t.avatars, &p) is Some {
        let i = first(t.avatars, &p)->Some_0;
        assert(t.avatars[i].key() == t.avatars[profile].key());
        assert(i != profile);
    }
}

/// The profiles of the session that `auth_key` names.
pub fn get(db: &Database, auth_key: &str) -> (r: ApiResult<Vec<Avatar>>)
    ensures
        match db@.session_of(auth_key) {
            Err(e) => r == Err::<Vec<Avatar>, ApiError>(e),
            Ok(session) => r is Ok && r->Ok_0@ == kept(
                db@.avatars,
                &OfSession { session_id: session.id },
            ),
        },
{
    match get_session(auth_key, db) {
        Err(e) => Err(e),
        Ok(session) => Ok(select(db.avatars(), &OfSession { session_id: session.id })),
    }
}

/// Makes a profile named `name` for the session that `auth_key` names,
/// unless it has one of that name; says whether it made one.
pub fn store(db: &mut Database, auth_key: &str, name: String) -> (r: ApiResult<bool>)
    requires
        old(db)@.wf(),
    ensures
        final(db)@.wf(),
        match old(db)@.session_of(auth_key) {
            Err(e) => r == Err::<bool, ApiError>(e) && final(db)@ == old(db)@,
            Ok(session) => (final(db)@, r) == old(db)@.with_avatar(session.id, name),
        },
{
    let session = match get_session(auth_key, db) {
        Err(e) => { return Err(e); },
        Ok(session) => session,
    };
    if find(db.avatars(), &Named { session_id: session.id, name: &name }).is_some() {
        return Ok(false);
    }
    if db.next_id() == i64::MAX {
        return Err(ApiError::DataBase);
    }
    proof {
        lemma_first(db@.sessions, &WithToken { token: auth_key });
        lemma_with_avatar(db@, session.id, name);
    }
    let id: i64 = db.take_ids(1);
    db.push_avatar(Avatar { id, session_id: session.id, name });
    Ok(true)
}

/// Deletes the profile `id` of the session that `auth_key` names, with its
/// favorites and positions; `WrongId` where the session has no such profile.
pub fn remove(db: &mut Database, auth_key: &str, id: i64) -> (r: ApiResult<bool>)
    requires
        old(db)@.wf(),
    ensures
        final(db)@.wf(),
        match old(db)@.session_of(auth_key) {
            Err(e) => r == Err::<bool, ApiError>(e) && final(db)@ == old(db)@,
            Ok(session) => if old(db)@.avatar_of(&session, id) is Ok {
                r == Ok::<bool, ApiError>(true) && final(db)@ == old(db)@.without_avatar(id)
            } else {
                r == Err::<bool, ApiError>(ApiError::WrongId) && final(db)@ == old(db)@
            },
        },
{
    let session = match get_session(auth_key, db) {
        Err(e) => { return Err(e); },
        Ok(session) => session,
    };
    match owned(db, &session, id) {
        Err(_) => Err(ApiError::WrongId),
        Ok(_) => {
            proof {
                lemma_without_avatar(db@, id);
            }
            db.delete_avatar(id);
            Ok(true)
        },
    }
}

} // verus!
