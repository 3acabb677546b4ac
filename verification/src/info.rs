//! The account snapshot of a session, refreshed from the upstream on every read.

use crate::api_error::{ApiError, ApiResult};
use crate::database::{lemma_without_session, Database, Tables};
use crate::entities::prelude::{Session, UserInfo};
use crate::login::{get_login, get_login_info, get_session, LoginResponse};
use crate::rows::{find, first, has_key, lemma_first, lemma_update_unique, Keyed};
use crate::select::WithId;
use vstd::prelude::*;

verus! {

/// What a refresh learned: the snapshot that the upstream sent for an
/// account that it accepts, or why there is none.
pub open spec fn learned(answer: ApiResult<LoginResponse>) -> ApiResult<UserInfo> {
    match answer {
        Err(e) => Err(e),
        Ok(response) => if response.user_info.auth > 0 {
            Ok(response.user_info)
        } else {
            Err(ApiError::AccountNotFound)
        },
    }
}

impl Tables {
    /// The tables after a session's account snapshot was refreshed, and
    /// the snapshot that is answered.
    ///
    /// The session must have credentials and a snapshot
    /// (`AccountNotFound`). A snapshot that the upstream sent takes the
    /// place of the stored one, under the stored one's id. Where the
    /// upstream no longer accepts the account, the session is deleted with
    /// all that it owns; any other failure changes nothing.
    pub open spec fn refreshed(self, session: Session, answer: ApiResult<LoginResponse>) -> (
        Tables,
        ApiResult<UserInfo>,
    ) {
        match self.login_of(&session) {
            Err(e) => (self, Err(e)),
            Ok(_) => match first(self.user_infos, &WithId { id: session.id }) {
                None => (self, Err(ApiError::AccountNotFound)),
                Some(i) => match learned(answer) {
                    Ok(user_info) => {
                        let row = UserInfo { id: self.user_infos[i].id, ..user_info };
                        (Tables { user_infos: self.user_infos.update(i, row), ..self }, Ok(row))
                    },
                    Err(e) => if e == ApiError::AccountNotFound {
                        (self.without_session(session.id), Err(e))
                    } else {
                        (self, Err(e))
                    },
                },
            },
        }
    }

    /// The tables after a request for the account snapshot, and its answer.
    pub open spec fn informed(self, auth_key: &str, answer: ApiResult<LoginResponse>) -> (
        Tables,
        ApiResult<UserInfo>,
    ) {
        match self.session_of(auth_key) {
            Err(e) => (self, Err(e)),
            Ok(session) => self.refreshed(session, answer),
        }
    }
}

/// Refreshing a snapshot leaves the tables valid.
pub proof fn lemma_refreshed(t: Tables, session: Session, answer: ApiResult<LoginResponse>)
    requires
        t.wf(),
    ensures
        t.refreshed(session, answer).0.wf(),
{
    let n = t.refreshed(session, answer).0;
    lemma_without_session(t, session.id);
    let by_id = WithId { id: session.id };
    lemma_first(t.user_infos, &by_id);
    if t.login_of(&session) is Ok && first(t.user_infos, &by_id) is Some && learned(answer) is Ok {
        let i = first(t.user_infos, &by_id)->Some_0;
        let row = UserInfo { id: t.user_infos[i].id, ..learned(answer)->Ok_0 };
        lemma_update_unique(t.user_infos, i, row);
        assert forall|j: int| 0 <= j < n.user_infos.len() implies has_key(
            n.sessions,
            (#[trigger] n.user_infos[j]).id,
        ) by {
            assert(has_key(t.sessions, t.user_infos[j].id));
        }
    }
}

/// An account that the upstream no longer knows leaves no session behind:
/// whenever a request for the snapshot ends in `AccountNotFound` because
/// of the upstream's answer, the token names no session afterwards.
pub proof fn lemma_account_gone(t: Tables, auth_key: &str, answer: ApiResult<LoginResponse>)
    requires
        t.wf(),
        t.session_of(auth_key) is Ok,
        t.login_of(&t.session_of(auth_key)->Ok_0) is Ok,
        first(t.user_infos, &WithId { id: t.session_of(auth_key)->Ok_0.id }) is Some,
        learned(answer) == Err::<UserInfo, ApiError>(ApiError::AccountNotFound),
    ensures
        t.informed(auth_key, answer).1 == Err::<UserInfo, ApiError>(ApiError::AccountNotFound),
        t.informed(auth_key, answer).0.wf(),
        t.informed(auth_key, answer).0.session_of(auth_key) == Err::<Session, ApiError>(
            ApiError::WrongAuthKey,
        ),
{
    let session = t.session_of(auth_key)->Ok_0;
    lemma_refreshed(t, session, answer);
    crate::login::lemma_token_gone(t, auth_key);
}

/// Refreshes the account snapshot of `session` from what the upstream
/// answered, and hands out the refreshed snapshot.
pub fn get_update_user_info(
    db: &mut Database,
    session: Session,
    answer: ApiResult<LoginResponse>,
) -> (r: ApiResult<UserInfo>)
    requires
        old(db)@.wf(),
    ensures
        final(db)@.wf(),
        (final(db)@, r) == old(db)@.refreshed(session, answer),
{
    proof {
        lemma_refreshed(db@, session, answer);
    }
    match get_login(&session, db) {
        Err(e) => { return Err(e); },
        Ok(_) => {},
    }
    let at: usize = match find(db.user_infos(), &WithId { id: session.id }) {
        None => { return Err(ApiError::AccountNotFound); },
        Some(at) => at,
    };
    let outcome: ApiResult<UserInfo> = match answer {
        Err(e) => Err(e),
        Ok(response) => get_login_info(response),
    };
    match outcome {
        Ok(user_info) => {
            let id: i64 = db.user_infos()[at].id;
            let status: String = user_info.status;
            db.set_user_info(
                at,
                UserInfo {
                    id,
                    auth: user_info.auth,
                    status: status.clone(),
                    is_trial: user_info.is_trial,
                    exp_date: user_info.exp_date,
                    created_at: user_info.created_at,
                    active_cons: user_info.active_cons,
                    max_connections: user_info.max_connections,
                },
            );
            Ok(
                UserInfo {
                    id,
                    auth: user_info.auth,
                    status,
                    is_trial: user_info.is_trial,
                    exp_date: user_info.exp_date,
                    created_at: user_info.created_at,
                    active_cons: user_info.active_cons,
                    max_connections: user_info.max_connections,
                },
            )
        },
        Err(e) => {
            match e {
                ApiError::AccountNotFound => {
                    db.delete_session(session.id);
                },
                _ => {},
            }
            Err(e)
        },
    }
}

/// The account snapshot of the session that `auth_key` names, refreshed
/// from what the upstream answered.
pub fn info(db: &mut Database, auth_key: &str, answer: ApiResult<LoginResponse>) -> (r: ApiResult<
    UserInfo,
>)
    requires
        old(db)@.wf(),
    ensures
        final(db)@.wf(),
        (final(db)@, r) == old(db)@.informed(auth_key, answer),
{
    match get_session(auth_key, db) {
        Err(e) => Err(e),
        Ok(session) => get_update_user_info(db, session, answer),
    }
}

} // verus!
