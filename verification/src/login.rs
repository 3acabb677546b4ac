//! Sessions: who a token stands for, and which upstream account is behind it.

use crate::address::{normalize, normalized};
use crate::api_error::{ApiError, ApiResult};
use crate::database::{lemma_without_session, Database, Tables};
use crate::entities::prelude::{Avatar, Home, Login, Session, UserInfo};
use crate::get::CatalogItem;
use crate::home::{feed, install, lemma_with_feed, rank_feed};
use crate::rows::{
    count, dropped, find, first, first_row, has_key, has_mark, kept, lemma_count_key,
    lemma_count_mark, lemma_dropped_has_none, lemma_first, lemma_first_is, lemma_first_none,
    lemma_kept_dropped, lemma_push_apart, lemma_push_has_key, lemma_push_unique, lemma_stayed,
    Cond, Keyed, Marked, Row,
};
use crate::select::{OfSession, WithCredentials, WithId, WithToken};
use vstd::prelude::*;

verus! {

impl Tables {
    /// The session that a token names: the first that carries it.
    pub open spec fn session_of(self, auth_key: &str) -> ApiResult<Session> {
        match first_row(self.sessions, &WithToken { token: auth_key }) {
            Some(session) => Ok(session),
            None => Err(ApiError::WrongAuthKey),
        }
    }

    /// The upstream credentials of a session.
    pub open spec fn login_of(self, session: &Session) -> ApiResult<Login> {
        match first_row(self.logins, &WithId { id: session.id }) {
            Some(login) => Ok(login),
            None => Err(ApiError::AccountNotFound),
        }
    }

    /// The upstream credentials behind a token.
    pub open spec fn account_of(self, auth_key: &str) -> ApiResult<Login> {
        match self.session_of(auth_key) {
            Err(e) => Err(e),
            Ok(session) => self.login_of(&session),
        }
    }
}

/// The session that `auth_key` names; `WrongAuthKey` where no session carries it.
pub fn get_session(auth_key: &str, db: &Database) -> (r: ApiResult<Session>)
    ensures
        r == db@.session_of(auth_key),
{
    let sessions = db.sessions();
    match find(sessions, &WithToken { token: auth_key }) {
        Some(i) => Ok(sessions[i].duplicate()),
        None => Err(ApiError::WrongAuthKey),
    }
}

/// The upstream credentials of `session`; `AccountNotFound` where it has none.
pub fn get_login(session: &Session, db: &Database) -> (r: ApiResult<Login>)
    ensures
        r == db@.login_of(session),
{
    let logins = db.logins();
    match find(logins, &WithId { id: session.id }) {
        Some(i) => Ok(logins[i].duplicate()),
        None => Err(ApiError::AccountNotFound),
    }
}

/// The upstream credentials behind `auth_key`: those of the session that
/// it names. Every request to the upstream on behalf of a client begins here.
pub fn get_account(auth_key: &str, db: &Database) -> (r: ApiResult<Login>)
    ensures
        r == db@.account_of(auth_key),
{
    match get_session(auth_key, db) {
        Err(e) => Err(e),
        Ok(session) => get_login(&session, db),
    }
}

/// What the upstream answers when it is asked about an account.
#[derive(Clone, Debug, PartialEq, Eq)]
pub struct LoginResponse {
    pub user_info: UserInfo,
}

/// The account snapshot of an answer, provided that the upstream accepts
/// the credentials; `AccountNotFound` where it does not.
pub fn get_login_info(response: LoginResponse) -> (r: ApiResult<UserInfo>)
    ensures
        r == if response.user_info.auth > 0 {
            Ok::<UserInfo, ApiError>(response.user_info)
        } else {
            Err::<UserInfo, ApiError>(ApiError::AccountNotFound)
        },
{
    if response.user_info.auth > 0 {
        Ok(response.user_info)
    } else {
        Err(ApiError::AccountNotFound)
    }
}

impl Tables {
    /// The token of the session that already stands for these credentials.
    pub open spec fn token_of(self, login: &Login) -> Option<String> {
        match first_row(self.logins, &WithCredentials { login }) {
            None => None,
            Some(found) => match first_row(self.sessions, &WithId { id: found.id }) {
                None => None,
                Some(session) => Some(session.auth_key),
            },
        }
    }

    /// The tables after a session was opened for an account, with its
    /// credentials, its account snapshot and its home feed.
    pub open spec fn with_account(
        self,
        login: Login,
        user_info: UserInfo,
        auth_key: String,
        movies: Seq<CatalogItem>,
        series: Seq<CatalogItem>,
        month_ago: i64,
    ) -> Tables {
        let id = self.next_id as i64;
        let opened = Tables {
            sessions: self.sessions.push(Session { id, auth_key }),
            next_id: self.next_id + 1,
            ..self
        };
        let fed = opened.with_feed(id, movies, series, month_ago).0;
        Tables {
            logins: fed.logins.push(Login { id, ..login }),
            user_infos: fed.user_infos.push(UserInfo { id, ..user_info }),
            ..fed
        }
    }

    /// The tables after a login, and the token that it answers with.
    ///
    /// Credentials that a session already stands for give that session's
    /// token, and nothing changes. Otherwise the upstream must accept the
    /// credentials (`AccountNotFound`), no session may carry the fresh
    /// token already and the ids must suffice (`DataBase` for both); then
    /// a session is opened under the fresh token.
    pub open spec fn logged_in(
        self,
        login: Login,
        response: LoginResponse,
        auth_key: String,
        movies: Seq<CatalogItem>,
        series: Seq<CatalogItem>,
        month_ago: i64,
    ) -> (Tables, ApiResult<String>) {
        match self.token_of(&login) {
            Some(token) => (self, Ok(token)),
            None => if response.user_info.auth <= 0 {
                (self, Err(ApiError::AccountNotFound))
            } else if has_mark(self.sessions, auth_key@) || self.next_id + 1 + feed(
                self.next_id as i64,
                self.next_id + 1,
                movies,
                series,
                month_ago,
            ).len() > i64::MAX {
                (self, Err(ApiError::DataBase))
            } else {
                (
                    self.with_account(
                        login,
                        response.user_info,
                        auth_key,
                        movies,
                        series,
                        month_ago,
                    ),
                    Ok(auth_key),
                )
            },
        }
    }

    /// The tables after a logoff, and its answer.
    pub open spec fn logged_off(self, auth_key: &str) -> (Tables, ApiResult<()>) {
        match self.session_of(auth_key) {
            Err(e) => (self, Err(e)),
            Ok(session) => (self.without_session(session.id), Ok(())),
        }
    }
}

/// Where no session stands for credentials, no row holds them.
pub proof fn lemma_unknown_credentials(t: Tables, login: Login)
    requires
        t.wf(),
        t.token_of(&login) is None,
    ensures
        !has_mark(t.logins, login.mark()),
        forall|j: int|
            0 <= j < t.logins.len() ==> !(WithCredentials { login: &login }).picks(
                &#[trigger] t.logins[j],
            ),
{
    let cond = WithCredentials { login: &login };
    lemma_first(t.logins, &cond);
    assert forall|j: int| 0 <= j < t.logins.len() implies !cond.picks(&#[trigger] t.logins[j]) by {
        if cond.picks(&t.logins[j]) {
            let k = first(t.logins, &cond)->Some_0;
            let by_id = WithId { id: t.logins[k].id };
            assert(has_key(t.sessions, t.logins[k].id));
            lemma_count_key(t.sessions, &by_id, t.logins[k].id);
            lemma_first(t.sessions, &by_id);
        }
    }
    if has_mark(t.logins, login.mark()) {
        let i = choose|i: int| 0 <= i < t.logins.len() && (#[trigger] t.logins[i]).mark() == login.mark();
        assert(cond.picks(&t.logins[i]));
    }
}

/// Opening a session for an account leaves the tables valid.
pub proof fn lemma_with_account(
    t: Tables,
    login: Login,
    user_info: UserInfo,
    auth_key: String,
    movies: Seq<CatalogItem>,
    series: Seq<CatalogItem>,
    month_ago: i64,
)
    requires
        t.wf(),
        !has_mark(t.sessions, auth_key@),
        !has_mark(t.logins, login.mark()),
        t.next_id + 1 + feed(t.next_id as i64, t.next_id + 1, movies, series, month_ago).len()
            <= i64::MAX,
    ensures
        t.with_account(login, user_info, auth_key, movies, series, month_ago).wf(),
        t.with_account(login, user_info, auth_key, movies, series, month_ago).sessions
            == t.sessions.push(Session { id: t.next_id as i64, auth_key }),
        t.with_account(login, user_info, auth_key, movies, series, month_ago).logins
            == t.logins.push(Login { id: t.next_id as i64, ..login }),
{
    let id = t.next_id as i64;
    let session = Session { id, auth_key };
    let opened = Tables { sessions: t.sessions.push(session), next_id: t.next_id + 1, ..t };
    assert(!has_key(t.sessions, id)) by {
        if has_key(t.sessions, id) {
            let i = choose|i: int| 0 <= i < t.sessions.len() && (#[trigger] t.sessions[i]).key() == id;
            assert(t.sessions[i].id < t.next_id);
        }
    }
    lemma_push_unique(t.sessions, session);
    lemma_push_apart(t.sessions, session);
    assert(opened.wf()) by {
        assert forall|i: int| 0 <= i < opened.sessions.len() implies (#[trigger] opened.sessions[i]).id
            < opened.next_id by {
            if i < t.sessions.len() {
                assert(t.sessions[i].id < t.next_id);
            }
        }
        assert forall|i: int| 0 <= i < opened.logins.len() implies has_key(
            opened.sessions,
            (#[trigger] opened.logins[i]).id,
        ) by {
            lemma_push_has_key(t.sessions, session, t.logins[i].id);
        }
        assert forall|i: int| 0 <= i < opened.user_infos.len() implies has_key(
            opened.sessions,
            (#[trigger] opened.user_infos[i]).id,
        ) by {
            lemma_push_has_key(t.sessions, session, t.user_infos[i].id);
        }
        assert forall|i: int| 0 <= i < opened.avatars.len() implies (#[trigger] opened.avatars[i]).id
            < opened.next_id && has_key(opened.sessions, opened.avatars[i].session_id) by {
            assert(t.avatars[i].id < t.next_id);
            lemma_push_has_key(t.sessions, session, t.avatars[i].session_id);
        }
        assert forall|i: int| 0 <= i < opened.homes.len() implies has_key(
            opened.sessions,
            (#[trigger] opened.homes[i]).session_id,
        ) by {
            lemma_push_has_key(t.sessions, session, t.homes[i].session_id);
        }
    }
    assert(opened.sessions[t.sessions.len() as int].key() == id);
    lemma_with_feed(opened, id, movies, series, month_ago);
    let fed = opened.with_feed(id, movies, series, month_ago).0;
    let n = t.with_account(login, user_info, auth_key, movies, series, month_ago);
    let new_login = Login { id, ..login };
    let new_info = UserInfo { id, ..user_info };
    assert(!has_key(t.logins, id)) by {
        if has_key(t.logins, id) {
            let i = choose|i: int| 0 <= i < t.logins.len() && (#[trigger] t.logins[i]).key() == id;
            assert(has_key(t.sessions, t.logins[i].id));
        }
    }
    assert(!has_key(t.user_infos, id)) by {
        if has_key(t.user_infos, id) {
            let i = choose|i: int|
                0 <= i < t.user_infos.len() && (#[trigger] t.user_infos[i]).key() == id;
            assert(has_key(t.sessions, t.user_infos[i].id));
        }
    }
    lemma_push_unique(t.logins, new_login);
    lemma_push_apart(t.logins, new_login);
    lemma_push_unique(t.user_infos, new_info);
    assert forall|i: int| 0 <= i < n.logins.len() implies has_key(
        n.sessions,
        (#[trigger] n.logins[i]).id,
    ) by {
        if i < t.logins.len() {
            assert(has_key(fed.sessions, fed.logins[i].id));
        }
    }
    assert forall|i: int| 0 <= i < n.user_infos.len() implies has_key(
        n.sessions,
        (#[trigger] n.user_infos[i]).id,
    ) by {
        if i < t.user_infos.len() {
            assert(has_key(fed.sessions, fed.user_infos[i].id));
        }
    }
}

/// One account, one session: whenever a login succeeds, a second login
/// with the same credentials answers with the same token and leaves the
/// tables as the first left them, whatever else is handed to it.
pub proof fn lemma_login_twice(
    t: Tables,
    login: Login,
    first_response: LoginResponse,
    first_key: String,
    first_movies: Seq<CatalogItem>,
    first_series: Seq<CatalogItem>,
    first_month: i64,
    second_response: LoginResponse,
    second_key: String,
    second_movies: Seq<CatalogItem>,
    second_series: Seq<CatalogItem>,
    second_month: i64,
)
    requires
        t.wf(),
        t.logged_in(login, first_response, first_key, first_movies, first_series, first_month).1 is Ok,
    ensures
        ({
            let once = t.logged_in(
                login,
                first_response,
                first_key,
                first_movies,
                first_series,
                first_month,
            );
            once.0.logged_in(
                login,
                second_response,
                second_key,
                second_movies,
                second_series,
                second_month,
            ) == once
        }),
{
    let once = t.logged_in(login, first_response, first_key, first_movies, first_series, first_month);
    if t.token_of(&login) is None {
        let n = once.0;
        let id = t.next_id as i64;
        let cond = WithCredentials { login: &login };
        lemma_unknown_credentials(t, login);
        lemma_with_account(
            t,
            login,
            first_response.user_info,
            first_key,
            first_movies,
            first_series,
            first_month,
        );
        let at = t.logins.len() as int;
        assert(n.logins[at] == Login { id, ..login });
        assert(crate::rows::is_first(n.logins, &cond, at)) by {
            assert forall|j: int| 0 <= j < at implies !cond.picks(&#[trigger] n.logins[j]) by {
                assert(n.logins[j] == t.logins[j]);
            }
        }
        lemma_first_is(n.logins, &cond, at);
        let by_id = WithId { id };
        let s = t.sessions.len() as int;
        assert(n.sessions[s] == Session { id, auth_key: first_key });
        assert(crate::rows::is_first(n.sessions, &by_id, s)) by {
            assert forall|j: int| 0 <= j < s implies !by_id.picks(&#[trigger] n.sessions[j]) by {
                assert(n.sessions[j] == t.sessions[j]);
                assert(t.sessions[j].id < t.next_id);
            }
        }
        lemma_first_is(n.sessions, &by_id, s);
    }
}

/// The token of the session that already stands for these credentials,
/// if one does: a login with them needs no word from the upstream.
pub fn known_token(db: &Database, login: &Login) -> (r: Option<String>)
    ensures
        r == db@.token_of(login),
{
    match find(db.logins(), &WithCredentials { login }) {
        Some(i) => {
            let found_id: i64 = db.logins()[i].id;
            match find(db.sessions(), &WithId { id: found_id }) {
                Some(s) => Some(db.sessions()[s].auth_key.clone()),
                None => None,
            }
        },
        None => None,
    }
}

/// One account, one session: whenever a login succeeds, exactly one row
/// holds the credentials, exactly one session has that row's id, and that
/// session carries the token that the login answered with.
pub proof fn lemma_one_session(
    t: Tables,
    login: Login,
    response: LoginResponse,
    auth_key: String,
    movies: Seq<CatalogItem>,
    series: Seq<CatalogItem>,
    month_ago: i64,
)
    requires
        t.wf(),
        t.logged_in(login, response, auth_key, movies, series, month_ago).1 is Ok,
    ensures
        ({
            let once = t.logged_in(login, response, auth_key, movies, series, month_ago);
            let after = once.0;
            let held = first_row(after.logins, &WithCredentials { login: &login });
            &&& after.wf()
            &&& count(after.logins, &WithCredentials { login: &login }) == 1
            &&& held is Some
            &&& count(after.sessions, &WithId { id: held->Some_0.id }) == 1
            &&& first_row(after.sessions, &WithId { id: held->Some_0.id }) matches Some(session)
                && session.auth_key == once.1->Ok_0
            &&& after.token_of(&login) == Some(once.1->Ok_0)
        }),
{
    let once = t.logged_in(login, response, auth_key, movies, series, month_ago);
    let after = once.0;
    let cond = WithCredentials { login: &login };
    if t.token_of(&login) is None {
        lemma_unknown_credentials(t, login);
        lemma_with_account(t, login, response.user_info, auth_key, movies, series, month_ago);
    }
    assert(after.wf());
    lemma_login_twice(
        t,
        login,
        response,
        auth_key,
        movies,
        series,
        month_ago,
        response,
        auth_key,
        movies,
        series,
        month_ago,
    );
    let again = after.logged_in(login, response, auth_key, movies, series, month_ago);
    assert(again == once);
    if after.token_of(&login) is None {
        if again.1 is Ok {
            assert(again.0.sessions.len() == after.sessions.len() + 1) by {
                lemma_unknown_credentials(after, login);
                lemma_with_account(
                    after,
                    login,
                    response.user_info,
                    auth_key,
                    movies,
                    series,
                    month_ago,
                );
            }
        }
        assert(false);
    }
    lemma_first(after.logins, &cond);
    let at = first(after.logins, &cond)->Some_0;
    let found = after.logins[at];
    assert(found.mark() == login.mark());
    lemma_count_mark(after.logins, &cond, login.mark());
    let by_id = WithId { id: found.id };
    assert(has_key(after.sessions, found.id));
    lemma_count_key(after.sessions, &by_id, found.id);
}

/// Logs an account in under credentials whose server address is already
/// in its stored form. `auth_key` is the fresh token that a new session
/// gets; `movies` and `series` are the account's whole catalog lists, from
/// which the session's first home feed is made.
pub fn sign_in(
    db: &mut Database,
    login: Login,
    response: LoginResponse,
    auth_key: String,
    movies: &Vec<CatalogItem>,
    series: &Vec<CatalogItem>,
    month_ago: i64,
) -> (r: ApiResult<String>)
    requires
        old(db)@.wf(),
    ensures
        final(db)@.wf(),
        (final(db)@, r) == old(db)@.logged_in(
            login,
            response,
            auth_key,
            movies@,
            series@,
            month_ago,
        ),
{
    match known_token(db, &login) {
        Some(token) => { return Ok(token); },
        None => {},
    }
    let user_info: UserInfo = match get_login_info(response) {
        Err(e) => { return Err(e); },
        Ok(user_info) => user_info,
    };
    let ghost before = db@;
    let taken: bool = {
        let token: &str = auth_key.as_str();
        proof {
            lemma_count_mark(before.sessions, &WithToken { token }, auth_key@);
        }
        find(db.sessions(), &WithToken { token }).is_some()
    };
    if taken {
        return Err(ApiError::DataBase);
    }
    let id: i64 = db.next_id();
    let feed = rank_feed(movies, series, month_ago);
    let needed: i64 = (feed.tops.len() + feed.movies.len() + feed.series.len()) as i64;
    if id > i64::MAX - 1 - needed {
        return Err(ApiError::DataBase);
    }
    proof {
        lemma_unknown_credentials(before, login);
        lemma_with_account(before, login, user_info, auth_key, movies@, series@, month_ago);
    }
    db.take_ids(1);
    db.push_session(Session { id, auth_key: auth_key.clone() });
    proof {
        assert(db@.sessions[before.sessions.len() as int].key() == id);
    }
    install(db, id, &feed);
    db.push_login(
        Login { id, server: login.server, username: login.username, password: login.password },
    );
    db.push_user_info(
        UserInfo {
            id,
            auth: user_info.auth,
            status: user_info.status,
            is_trial: user_info.is_trial,
            exp_date: user_info.exp_date,
            created_at: user_info.created_at,
            active_cons: user_info.active_cons,
            max_connections: user_info.max_connections,
        },
    );
    Ok(auth_key)
}

/// A token names one session at most, so that it names none once that
/// session is deleted.
pub proof fn lemma_token_gone(t: Tables, auth_key: &str)
    requires
        t.wf(),
        t.session_of(auth_key) is Ok,
    ensures
        t.without_session(t.session_of(auth_key)->Ok_0.id).session_of(auth_key) == Err::<
            Session,
            ApiError,
        >(ApiError::WrongAuthKey),
{
    let by_token = WithToken { token: auth_key };
    lemma_first(t.sessions, &by_token);
    let s = first(t.sessions, &by_token)->Some_0;
    let id = t.sessions[s].id;
    let by_id = WithId { id };
    let left = dropped(t.sessions, &by_id);
    assert forall|j: int| 0 <= j < left.len() implies !by_token.picks(&#[trigger] left[j]) by {
        let i = lemma_stayed(t.sessions, &by_id, j);
        if by_token.picks(&left[j]) {
            assert(t.sessions[i].mark() == t.sessions[s].mark());
            assert(i == s);
        }
    }
    lemma_first_none(left, &by_token);
}

/// A session that is ended leaves nothing behind: after a logoff that
/// succeeds, the token names no session, and no credentials, account
/// snapshot, profile or home entry belongs to the session that it named.
pub proof fn lemma_logoff_cascades(t: Tables, auth_key: &str)
    requires
        t.wf(),
        t.logged_off(auth_key).1 is Ok,
    ensures
        ({
            let id = t.session_of(auth_key)->Ok_0.id;
            let after = t.logged_off(auth_key).0;
            &&& after.wf()
            &&& after.session_of(auth_key) == Err::<Session, ApiError>(ApiError::WrongAuthKey)
            &&& !has_key(after.sessions, id)
            &&& !has_key(after.logins, id)
            &&& !has_key(after.user_infos, id)
            &&& kept(after.avatars, &OfSession { session_id: id }) == Seq::<Avatar>::empty()
            &&& kept(after.homes, &OfSession { session_id: id }) == Seq::<Home>::empty()
        }),
{
    let id = t.session_of(auth_key)->Ok_0.id;
    let after = t.logged_off(auth_key).0;
    let by_id = WithId { id };
    let of_session = OfSession { session_id: id };
    lemma_without_session(t, id);
    lemma_token_gone(t, auth_key);
    lemma_dropped_has_none(t.avatars, &of_session);
    lemma_dropped_has_none(t.homes, &of_session);
    lemma_kept_dropped(t.sessions, &by_id);
    lemma_kept_dropped(t.logins, &by_id);
    lemma_kept_dropped(t.user_infos, &by_id);
    if has_key(after.sessions, id) {
        let i = choose|i: int| 0 <= i < after.sessions.len() && (#[trigger] after.sessions[i]).key() == id;
        assert(by_id.picks(&after.sessions[i]));
    }
    if has_key(after.logins, id) {
        let i = choose|i: int| 0 <= i < after.logins.len() && (#[trigger] after.logins[i]).key() == id;
        assert(by_id.picks(&after.logins[i]));
    }
    if has_key(after.user_infos, id) {
        let i = choose|i: int|
            0 <= i < after.user_infos.len() && (#[trigger] after.user_infos[i]).key() == id;
        assert(by_id.picks(&after.user_infos[i]));
    }
}

/// Logs an account in. The server address is first brought into its
/// stored form, so that two spellings of one address are one account;
/// `UrlParse`, and no change, where it has none. The rest is `sign_in`
/// under the stored form.
pub fn login(
    db: &mut Database,
    credentials: Login,
    response: LoginResponse,
    auth_key: String,
    movies: &Vec<CatalogItem>,
    series: &Vec<CatalogItem>,
    month_ago: i64,
) -> (r: ApiResult<String>)
    requires
        old(db)@.wf(),
    ensures
        final(db)@.wf(),
        match normalized(credentials.server@) {
            Err(e) => r == Err::<String, ApiError>(e) && final(db)@ == old(db)@,
            Ok(text) => exists|server: String|
                server@ == text && (final(db)@, r) == #[trigger] old(db)@.logged_in(
                    Login { server, ..credentials },
                    response,
                    auth_key,
                    movies@,
                    series@,
                    month_ago,
                ),
        },
{
    let server: String = match normalize(credentials.server.as_str()) {
        Err(e) => { return Err(e); },
        Ok(server) => server,
    };
    sign_in(
        db,
        Login {
            id: credentials.id,
            server,
            username: credentials.username,
            password: credentials.password,
        },
        response,
        auth_key,
        movies,
        series,
        month_ago,
    )
}

/// Ends the session that `auth_key` names, with all that it owns.
pub fn logoff(db: &mut Database, auth_key: &str) -> (r: ApiResult<()>)
    requires
        old(db)@.wf(),
    ensures
        final(db)@.wf(),
        (final(db)@, r) == old(db)@.logged_off(auth_key),
{
    let session = match get_session(auth_key, db) {
        Err(e) => { return Err(e); },
        Ok(session) => session,
    };
    proof {
        lemma_without_session(db@, session.id);
    }
    db.delete_session(session.id);
    Ok(())
}

} // verus!
