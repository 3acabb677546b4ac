use catalog_gateway::api_error::ApiError;
use catalog_gateway::avatar;
use catalog_gateway::database::Database;
use catalog_gateway::entities::favorite::Kind as FavoriteKind;
use catalog_gateway::entities::prelude::{Login, Session, UserInfo};
use catalog_gateway::entities::watching::Kind as WatchingKind;
use catalog_gateway::favorite::{self, Lookup};
use catalog_gateway::get::{
    CatalogItem, Detail, Episode, EpisodeInfo, Info, MovieData, MovieInfo, SeasonEpisodes,
    SerieInfo,
};
use catalog_gateway::info;
use catalog_gateway::login::{
    get_account, get_login, get_login_info, get_session, login, logoff, sign_in, LoginResponse,
};
use catalog_gateway::watching;

fn credentials(server: &str, username: &str, password: &str) -> Login {
    Login {
        id: 0,
        server: server.to_string(),
        username: username.to_string(),
        password: password.to_string(),
    }
}

fn account(auth: i64) -> LoginResponse {
    LoginResponse {
        user_info: UserInfo {
            id: 0,
            auth,
            status: "Active".to_string(),
            is_trial: 0,
            exp_date: 0,
            created_at: 0,
            active_cons: 0,
            max_connections: 1,
        },
    }
}

fn item(id: i64, name: &str) -> CatalogItem {
    CatalogItem {
        id,
        name: name.to_string(),
        icon: format!("{}.png", name),
        added: None,
        rating: None,
        episode_id: None,
        container_extension: None,
    }
}

fn info_of(name: &str) -> Info {
    Info {
        name: name.to_string(),
        plot: String::new(),
        cast: String::new(),
        genre: String::new(),
        duration: String::new(),
        director: String::new(),
        youtube_trailer: String::new(),
        icon: format!("{}.png", name),
        rating: Some(7000),
        last_modified: Some(50),
    }
}

fn movie(id: i64, name: &str) -> MovieInfo {
    MovieInfo {
        info: info_of(name),
        data: MovieData {
            id,
            added: Some(40),
            name: name.to_string(),
            container_extension: "mkv".to_string(),
        },
    }
}

fn episode(id: i64, extension: &str) -> Episode {
    Episode {
        id,
        title: format!("Episode {}", id),
        container_extension: extension.to_string(),
        info: EpisodeInfo { image: String::new() },
    }
}

fn serie(name: &str) -> SerieInfo {
    SerieInfo {
        info: info_of(name),
        seasons: vec![],
        episodes: vec![
            SeasonEpisodes { season: "1".to_string(), episodes: vec![episode(101, "mp4")] },
            SeasonEpisodes {
                season: "2".to_string(),
                episodes: vec![episode(201, "avi"), episode(202, "ts")],
            },
        ],
    }
}

/// A store with one session under the token "t1" and one profile, whose id is returned.
fn store_with_profile() -> (Database, i64) {
    let mut db = Database::new();
    let token = sign_in(
        &mut db,
        credentials("http://x/player_api.php", "u", "p"),
        account(1),
        "t1".to_string(),
        &vec![],
        &vec![],
        0,
    );
    assert_eq!(token, Ok("t1".to_string()));
    assert_eq!(avatar::store(&mut db, "t1", "kid".to_string()), Ok(true));
    let id = db.avatars()[0].id;
    (db, id)
}

/// The store of `store_with_profile` with a second session "t2" that has its own profile.
fn store_with_two_sessions() -> (Database, i64, i64) {
    let (mut db, first) = store_with_profile();
    let token = sign_in(
        &mut db,
        credentials("http://y/player_api.php", "v", "q"),
        account(1),
        "t2".to_string(),
        &vec![],
        &vec![],
        0,
    );
    assert_eq!(token, Ok("t2".to_string()));
    assert_eq!(avatar::store(&mut db, "t2", "guest".to_string()), Ok(true));
    let second = db.avatars()[1].id;
    (db, first, second)
}

#[test]
fn login_opens_a_session_with_credentials_and_snapshot() {
    let (db, _) = store_with_profile();
    assert_eq!(db.sessions().len(), 1);
    assert_eq!(db.logins().len(), 1);
    assert_eq!(db.user_infos().len(), 1);
    let session = get_session("t1", &db).unwrap();
    assert_eq!(session, Session { id: 1, auth_key: "t1".to_string() });
    let found = get_login(&session, &db).unwrap();
    assert_eq!(found.id, session.id);
    assert_eq!(found.server, "http://x/player_api.php");
    assert_eq!(found.username, "u");
    assert_eq!(found.password, "p");
    assert_eq!(db.user_infos()[0].id, session.id);
    assert_eq!(db.user_infos()[0].auth, 1);
}

#[test]
fn login_twice_gives_one_session_and_one_token() {
    let mut db = Database::new();
    let first = sign_in(
        &mut db,
        credentials("http://x/player_api.php", "u", "p"),
        account(1),
        "first".to_string(),
        &vec![],
        &vec![],
        0,
    );
    let second = sign_in(
        &mut db,
        credentials("http://x/player_api.php", "u", "p"),
        account(1),
        "second".to_string(),
        &vec![item(1, "m")],
        &vec![],
        5,
    );
    assert_eq!(first, Ok("first".to_string()));
    assert_eq!(second, Ok("first".to_string()));
    assert_eq!(db.sessions().len(), 1);
    assert_eq!(db.logins().len(), 1);
    assert_eq!(db.user_infos().len(), 1);
    assert!(db.homes().is_empty());
}

#[test]
fn login_under_a_token_that_is_in_use_is_refused() {
    let (mut db, _) = store_with_profile();
    let refused = sign_in(
        &mut db,
        credentials("http://y/player_api.php", "v", "q"),
        account(1),
        "t1".to_string(),
        &vec![],
        &vec![],
        0,
    );
    assert_eq!(refused, Err(ApiError::DataBase));
    assert_eq!(db.sessions().len(), 1);
    assert_eq!(db.logins().len(), 1);
    assert_eq!(get_session("t1", &db).unwrap().id, 1);
    let again = sign_in(
        &mut db,
        credentials("http://x/player_api.php", "u", "p"),
        account(1),
        "t1".to_string(),
        &vec![],
        &vec![],
        0,
    );
    assert_eq!(again, Ok("t1".to_string()));
    assert_eq!(db.sessions().len(), 1);
}

#[test]
fn login_with_other_credentials_opens_another_session() {
    let (db, _, _) = store_with_two_sessions();
    assert_eq!(db.sessions().len(), 2);
    assert_ne!(db.sessions()[0].id, db.sessions()[1].id);
    assert_eq!(get_session("t2", &db).unwrap().id, db.sessions()[1].id);
}

#[test]
fn login_normalizes_the_server_and_rejects_an_unknown_account() {
    let mut db = Database::new();
    let refused = login(
        &mut db,
        credentials("http://x/", "u", "p"),
        account(0),
        "t".to_string(),
        &vec![],
        &vec![],
        0,
    );
    assert_eq!(refused, Err(ApiError::AccountNotFound));
    assert!(db.sessions().is_empty());
    assert!(db.logins().is_empty());
    assert!(db.user_infos().is_empty());
    assert_eq!(db.next_id(), 1);
    let accepted = login(
        &mut db,
        credentials("http://x/", "u", "p"),
        account(1),
        "t".to_string(),
        &vec![],
        &vec![],
        0,
    );
    assert_eq!(accepted, Ok("t".to_string()));
    assert_eq!(db.logins()[0].server, "http://x/player_api.php");
    let again = login(
        &mut db,
        credentials("http://x", "u", "p"),
        account(1),
        "other".to_string(),
        &vec![],
        &vec![],
        0,
    );
    assert_eq!(again, Ok("t".to_string()));
    assert_eq!(db.sessions().len(), 1);
}

#[test]
fn login_with_a_negative_auth_is_rejected() {
    let mut db = Database::new();
    let refused = sign_in(&mut db, credentials("s", "u", "p"), account(-1), "t".to_string(), &vec![], &vec![], 0);
    assert_eq!(refused, Err(ApiError::AccountNotFound));
    assert!(db.sessions().is_empty());
}

#[test]
fn login_with_a_server_that_is_no_url_fails() {
    let mut db = Database::new();
    let refused = login(
        &mut db,
        credentials("not a url", "u", "p"),
        account(1),
        "t".to_string(),
        &vec![],
        &vec![],
        0,
    );
    assert_eq!(refused, Err(ApiError::UrlParse));
    assert!(db.sessions().is_empty());
}

#[test]
fn account_snapshot_is_checked() {
    assert_eq!(get_login_info(account(1)), Ok(account(1).user_info));
    assert_eq!(get_login_info(account(0)), Err(ApiError::AccountNotFound));
    assert_eq!(get_login_info(account(-5)), Err(ApiError::AccountNotFound));
}

#[test]
fn credentials_behind_a_token() {
    let (db, first, second) = store_with_two_sessions();
    assert_eq!(get_account("t1", &db).unwrap().username, "u");
    assert_eq!(get_account("t2", &db).unwrap().username, "v");
    assert_eq!(get_account("t3", &db), Err(ApiError::WrongAuthKey));
    assert_eq!(avatar::owner_account(&db, "t1", first).unwrap().username, "u");
    assert_eq!(avatar::owner_account(&db, "t1", second), Err(ApiError::WrongAvatar));
    assert_eq!(avatar::owner_account(&db, "t3", first), Err(ApiError::WrongAuthKey));
}

#[test]
fn unknown_token_is_refused() {
    let (db, _) = store_with_profile();
    assert_eq!(get_session("nope", &db), Err(ApiError::WrongAuthKey));
    assert_eq!(get_session("", &db), Err(ApiError::WrongAuthKey));
}

#[test]
fn session_without_credentials_has_no_account() {
    let db = Database::new();
    let stray = Session { id: 7, auth_key: "x".to_string() };
    assert_eq!(get_login(&stray, &db), Err(ApiError::AccountNotFound));
}

#[test]
fn logoff_deletes_the_session_and_all_it_owns() {
    let (mut db, first, second) = store_with_two_sessions();
    assert_eq!(favorite::store(&mut db, "t1", first, 1, Lookup::Movie(movie(1, "m"))), Ok(true));
    assert_eq!(favorite::store(&mut db, "t2", second, 1, Lookup::Movie(movie(1, "m"))), Ok(true));
    assert_eq!(
        watching::store(&mut db, "t1", first, 1, None, 30, Detail::Movie(movie(1, "m")), 100),
        Ok(())
    );
    assert_eq!(
        watching::store(&mut db, "t2", second, 1, None, 30, Detail::Movie(movie(1, "m")), 100),
        Ok(())
    );
    assert_eq!(logoff(&mut db, "t1"), Ok(()));
    assert_eq!(get_session("t1", &db), Err(ApiError::WrongAuthKey));
    assert_eq!(db.sessions().len(), 1);
    assert_eq!(db.logins().len(), 1);
    assert_eq!(db.user_infos().len(), 1);
    assert_eq!(db.avatars().len(), 1);
    assert_eq!(db.avatars()[0].id, second);
    assert_eq!(db.favorites().len(), 1);
    assert_eq!(db.favorites()[0].avatar_id, second);
    assert_eq!(db.watchings().len(), 1);
    assert_eq!(db.watchings()[0].avatar_id, second);
    assert_eq!(logoff(&mut db, "t1"), Err(ApiError::WrongAuthKey));
}

#[test]
fn profiles_are_made_once_per_name() {
    let (mut db, id) = store_with_profile();
    assert_eq!(avatar::store(&mut db, "t1", "kid".to_string()), Ok(false));
    assert_eq!(avatar::store(&mut db, "t1", "adult".to_string()), Ok(true));
    assert_eq!(avatar::store(&mut db, "nope", "x".to_string()), Err(ApiError::WrongAuthKey));
    let list = avatar::get(&db, "t1").unwrap();
    assert_eq!(list.len(), 2);
    assert_eq!(list[0].id, id);
    assert_eq!(list[0].name, "kid");
    assert_eq!(list[1].name, "adult");
    assert_eq!(avatar::get(&db, "nope"), Err(ApiError::WrongAuthKey));
}

#[test]
fn profile_of_another_session_is_never_handed_out() {
    let (db, first, second) = store_with_two_sessions();
    let one = get_session("t1", &db).unwrap();
    let two = get_session("t2", &db).unwrap();
    assert_eq!(avatar::owned(&db, &one, first).unwrap().id, first);
    assert_eq!(avatar::owned(&db, &two, second).unwrap().id, second);
    assert_eq!(avatar::owned(&db, &one, second), Err(ApiError::WrongAvatar));
    assert_eq!(avatar::owned(&db, &two, first), Err(ApiError::WrongAvatar));
    assert_eq!(avatar::owned(&db, &one, 999), Err(ApiError::WrongAvatar));
    assert_eq!(avatar::owner(&db, "t1", second), Err(ApiError::WrongAvatar));
    assert_eq!(avatar::owner(&db, "nope", first), Err(ApiError::WrongAuthKey));
    assert_eq!(avatar::owner(&db, "t1", first).unwrap().id, one.id);
}

#[test]
fn every_profile_operation_checks_the_owner() {
    let (mut db, first, second) = store_with_two_sessions();
    assert_eq!(
        favorite::store(&mut db, "t1", second, 1, Lookup::Movie(movie(1, "m"))),
        Err(ApiError::WrongAvatar)
    );
    assert_eq!(
        favorite::remove(&mut db, "t1", second, FavoriteKind::Movie, 1),
        Err(ApiError::WrongAvatar)
    );
    assert_eq!(favorite::get(&db, "t1", second), Err(ApiError::WrongAvatar));
    assert_eq!(
        watching::store(&mut db, "t1", second, 1, None, 5, Detail::Movie(movie(1, "m")), 0),
        Err(ApiError::WrongAvatar)
    );
    assert_eq!(
        watching::remove(&mut db, "t1", second, WatchingKind::Movie, 1),
        Err(ApiError::WrongAvatar)
    );
    assert_eq!(watching::get(&db, "t1", second), Err(ApiError::WrongAvatar));
    assert_eq!(avatar::remove(&mut db, "t1", second), Err(ApiError::WrongId));
    assert!(db.favorites().is_empty());
    assert!(db.watchings().is_empty());
    assert_eq!(db.avatars().len(), 2);
    assert_eq!(favorite::get(&db, "t1", first).unwrap().movies.len(), 0);
}

#[test]
fn removing_a_profile_removes_what_it_owns() {
    let (mut db, id) = store_with_profile();
    assert_eq!(favorite::store(&mut db, "t1", id, 1, Lookup::Movie(movie(1, "m"))), Ok(true));
    assert_eq!(
        watching::store(&mut db, "t1", id, 1, None, 30, Detail::Movie(movie(1, "m")), 100),
        Ok(())
    );
    assert_eq!(avatar::remove(&mut db, "t1", id), Ok(true));
    assert!(db.avatars().is_empty());
    assert!(db.favorites().is_empty());
    assert!(db.watchings().is_empty());
    assert_eq!(avatar::remove(&mut db, "t1", id), Err(ApiError::WrongId));
}

#[test]
fn favorite_added_twice_is_stored_once() {
    let (mut db, id) = store_with_profile();
    assert_eq!(favorite::store(&mut db, "t1", id, 9, Lookup::Movie(movie(9, "m"))), Ok(true));
    assert_eq!(favorite::store(&mut db, "t1", id, 9, Lookup::Movie(movie(9, "m"))), Ok(false));
    assert_eq!(db.favorites().len(), 1);
    let row = &db.favorites()[0];
    assert_eq!(row.avatar_id, id);
    assert_eq!(row.kind, FavoriteKind::Movie);
    assert_eq!(row.value_id, 9);
    assert_eq!(row.name, "m");
    assert_eq!(row.icon, "m.png");
}

#[test]
fn favorites_of_each_kind() {
    let (mut db, id) = store_with_profile();
    let lives = vec![item(1, "one"), item(2, "two"), item(2, "shadow")];
    assert_eq!(favorite::store(&mut db, "t1", id, 2, Lookup::Lives(lives.clone())), Ok(true));
    assert_eq!(favorite::store(&mut db, "t1", id, 2, Lookup::Movie(movie(2, "m"))), Ok(true));
    assert_eq!(favorite::store(&mut db, "t1", id, 2, Lookup::Serie(serie("s"))), Ok(true));
    assert_eq!(favorite::store(&mut db, "t1", id, 3, Lookup::Lives(lives)), Err(ApiError::WrongId));
    let all = favorite::get(&db, "t1", id).unwrap();
    assert_eq!(all.lives.len(), 1);
    assert_eq!(all.lives[0].name, "two");
    assert_eq!(all.movies.len(), 1);
    assert_eq!(all.movies[0].name, "m");
    assert_eq!(all.series.len(), 1);
    assert_eq!(all.series[0].name, "s");
    assert_eq!(all.series[0].value_id, 2);
}

#[test]
fn favorite_is_filed_under_the_id_that_the_upstream_gives_a_movie() {
    let (mut db, id) = store_with_profile();
    assert_eq!(favorite::store(&mut db, "t1", id, 5, Lookup::Movie(movie(6, "m"))), Ok(true));
    assert_eq!(db.favorites()[0].value_id, 6);
}

#[test]
fn favorite_removed() {
    let (mut db, id) = store_with_profile();
    assert_eq!(favorite::store(&mut db, "t1", id, 9, Lookup::Movie(movie(9, "m"))), Ok(true));
    assert_eq!(
        favorite::remove(&mut db, "t1", id, FavoriteKind::Serie, 9),
        Err(ApiError::WrongId)
    );
    assert_eq!(favorite::remove(&mut db, "t1", id, FavoriteKind::Movie, 9), Ok(true));
    assert!(db.favorites().is_empty());
    assert_eq!(
        favorite::remove(&mut db, "t1", id, FavoriteKind::Movie, 9),
        Err(ApiError::WrongId)
    );
}

#[test]
fn movie_progress_is_written_then_moved() {
    let (mut db, id) = store_with_profile();
    assert_eq!(
        watching::store(&mut db, "t1", id, 9, None, 30, Detail::Movie(movie(9, "m")), 100),
        Ok(())
    );
    assert_eq!(
        watching::store(&mut db, "t1", id, 9, None, 45, Detail::Movie(movie(9, "renamed")), 200),
        Ok(())
    );
    assert_eq!(db.watchings().len(), 1);
    let row = &db.watchings()[0];
    assert_eq!(row.avatar_id, id);
    assert_eq!(row.kind, WatchingKind::Movie);
    assert_eq!(row.value_id, 9);
    assert_eq!(row.name, "m");
    assert_eq!(row.time, 45);
    assert_eq!(row.date, 200);
    assert_eq!(row.episode_id, None);
    assert_eq!(row.container_extension, Some("mkv".to_string()));
}

#[test]
fn switching_episodes_leaves_one_row_for_the_series() {
    let (mut db, id) = store_with_profile();
    assert_eq!(
        watching::store(&mut db, "t1", id, 5, Some(101), 30, Detail::Serie(serie("s")), 100),
        Ok(())
    );
    assert_eq!(db.watchings()[0].episode_id, Some(101));
    assert_eq!(db.watchings()[0].container_extension, Some("mp4".to_string()));
    assert_eq!(
        watching::store(&mut db, "t1", id, 5, Some(202), 12, Detail::Serie(serie("s")), 200),
        Ok(())
    );
    assert_eq!(db.watchings().len(), 1);
    let row = &db.watchings()[0];
    assert_eq!(row.kind, WatchingKind::Serie);
    assert_eq!(row.value_id, 5);
    assert_eq!(row.episode_id, Some(202));
    assert_eq!(row.container_extension, Some("ts".to_string()));
    assert_eq!(row.time, 12);
    assert_eq!(row.date, 200);
}

#[test]
fn same_episode_again_moves_the_position_in_place() {
    let (mut db, id) = store_with_profile();
    assert_eq!(
        watching::store(&mut db, "t1", id, 5, Some(201), 30, Detail::Serie(serie("s")), 100),
        Ok(())
    );
    let row_id = db.watchings()[0].id;
    assert_eq!(
        watching::store(&mut db, "t1", id, 5, Some(201), 60, Detail::Serie(serie("s")), 300),
        Ok(())
    );
    assert_eq!(db.watchings().len(), 1);
    assert_eq!(db.watchings()[0].id, row_id);
    assert_eq!(db.watchings()[0].time, 60);
    assert_eq!(db.watchings()[0].date, 300);
}

#[test]
fn switching_episodes_leaves_other_series_and_movies_alone() {
    let (mut db, id) = store_with_profile();
    assert_eq!(
        watching::store(&mut db, "t1", id, 5, Some(101), 30, Detail::Serie(serie("a")), 100),
        Ok(())
    );
    assert_eq!(
        watching::store(&mut db, "t1", id, 6, Some(101), 31, Detail::Serie(serie("b")), 100),
        Ok(())
    );
    assert_eq!(
        watching::store(&mut db, "t1", id, 5, None, 32, Detail::Movie(movie(5, "m")), 100),
        Ok(())
    );
    assert_eq!(
        watching::store(&mut db, "t1", id, 5, Some(201), 33, Detail::Serie(serie("a")), 100),
        Ok(())
    );
    let rows = watching::get(&db, "t1", id).unwrap();
    assert_eq!(rows.len(), 3);
    assert_eq!((rows[0].value_id, rows[0].kind, rows[0].episode_id), (6, WatchingKind::Serie, Some(101)));
    assert_eq!((rows[1].value_id, rows[1].kind, rows[1].episode_id), (5, WatchingKind::Movie, None));
    assert_eq!((rows[2].value_id, rows[2].kind, rows[2].episode_id), (5, WatchingKind::Serie, Some(201)));
}

#[test]
fn series_progress_needs_a_known_episode() {
    let (mut db, id) = store_with_profile();
    assert_eq!(
        watching::store(&mut db, "t1", id, 5, Some(101), 30, Detail::Serie(serie("s")), 100),
        Ok(())
    );
    assert_eq!(
        watching::store(&mut db, "t1", id, 5, None, 30, Detail::Serie(serie("s")), 100),
        Err(ApiError::NotFound)
    );
    assert_eq!(
        watching::store(&mut db, "t1", id, 5, Some(999), 30, Detail::Serie(serie("s")), 100),
        Err(ApiError::WrongEpisodeId)
    );
    assert_eq!(db.watchings().len(), 1);
    assert_eq!(db.watchings()[0].episode_id, Some(101));
    assert_eq!(watching::resolve(Detail::Serie(serie("s")), 5, None), Err(ApiError::NotFound));
    assert_eq!(
        watching::resolve(Detail::Serie(serie("s")), 5, Some(7)),
        Err(ApiError::WrongEpisodeId)
    );
    let value = watching::resolve(Detail::Serie(serie("s")), 5, Some(201)).unwrap();
    assert_eq!(value.id, 5);
    assert_eq!(value.name, "s");
    assert_eq!(value.added, Some(50));
    assert_eq!(value.episode_id, Some(201));
    assert_eq!(value.container_extension, Some("avi".to_string()));
}

#[test]
fn progress_removed() {
    let (mut db, id) = store_with_profile();
    assert_eq!(
        watching::store(&mut db, "t1", id, 9, None, 30, Detail::Movie(movie(9, "m")), 100),
        Ok(())
    );
    assert_eq!(
        watching::remove(&mut db, "t1", id, WatchingKind::Serie, 9),
        Err(ApiError::WrongId)
    );
    assert_eq!(watching::remove(&mut db, "t1", id, WatchingKind::Movie, 9), Ok(()));
    assert!(db.watchings().is_empty());
    assert_eq!(
        watching::remove(&mut db, "t1", id, WatchingKind::Movie, 9),
        Err(ApiError::WrongId)
    );
}

#[test]
fn stale_progress_is_retired() {
    let (mut db, id) = store_with_profile();
    let day = 86400;
    for (movie_id, date) in [(1, 10 * day), (2, 3 * day), (3, 3 * day + 1), (4, 0)] {
        assert_eq!(
            watching::store(&mut db, "t1", id, movie_id, None, 1, Detail::Movie(movie(movie_id, "m")), date),
            Ok(())
        );
    }
    watching::clean(&mut db, 10 * day, 7);
    let left: Vec<i64> = db.watchings().iter().map(|row| row.value_id).collect();
    assert_eq!(left, vec![1, 2, 3]);
    watching::clean(&mut db, i64::MIN, 7);
    assert_eq!(db.watchings().len(), 3);
    watching::clean(&mut db, 10 * day + 1, 7);
    let left: Vec<i64> = db.watchings().iter().map(|row| row.value_id).collect();
    assert_eq!(left, vec![1, 3]);
    watching::clean(&mut db, i64::MAX, -7);
    assert!(db.watchings().is_empty());
}

#[test]
fn a_position_written_at_the_cutoff_stays() {
    let (mut db, id) = store_with_profile();
    let now = 1_700_000_000;
    let cutoff = now - 7 * 24 * 60 * 60;
    for (movie_id, date) in [(1, cutoff - 1), (2, cutoff), (3, cutoff + 1)] {
        assert_eq!(
            watching::store(&mut db, "t1", id, movie_id, None, 5, Detail::Movie(movie(movie_id, "m")), date),
            Ok(())
        );
    }
    let before = db.watchings().clone();
    watching::clean(&mut db, now, 7);
    assert_eq!(db.watchings().len(), 2);
    assert_eq!(db.watchings()[0], before[1]);
    assert_eq!(db.watchings()[1], before[2]);
    assert_eq!(db.avatars().len(), 1);
    assert_eq!(db.sessions().len(), 1);
}

#[test]
fn a_position_at_the_last_instant_is_retired_by_a_cutoff_beyond_it() {
    let (mut db, id) = store_with_profile();
    assert_eq!(
        watching::store(&mut db, "t1", id, 1, None, 5, Detail::Movie(movie(1, "m")), i64::MAX),
        Ok(())
    );
    watching::clean(&mut db, i64::MAX, 0);
    assert_eq!(db.watchings().len(), 1);
    watching::clean(&mut db, i64::MAX, -1);
    assert!(db.watchings().is_empty());
    assert_eq!(
        watching::store(&mut db, "t1", id, 1, None, 5, Detail::Movie(movie(1, "m")), i64::MIN),
        Ok(())
    );
    watching::clean(&mut db, i64::MIN, 0);
    assert_eq!(db.watchings().len(), 1);
}

#[test]
fn snapshot_is_refreshed_in_place() {
    let (mut db, _) = store_with_profile();
    let mut fresh = account(1);
    fresh.user_info.status = "Expired".to_string();
    fresh.user_info.max_connections = 3;
    let got = info::info(&mut db, "t1", Ok(fresh)).unwrap();
    assert_eq!(got.id, 1);
    assert_eq!(got.status, "Expired");
    assert_eq!(db.user_infos().len(), 1);
    assert_eq!(db.user_infos()[0], got);
    assert_eq!(info::info(&mut db, "nope", Ok(account(1))), Err(ApiError::WrongAuthKey));
}

#[test]
fn failed_refresh_keeps_the_session() {
    let (mut db, _) = store_with_profile();
    assert_eq!(info::info(&mut db, "t1", Err(ApiError::Reqwest)), Err(ApiError::Reqwest));
    assert_eq!(info::info(&mut db, "t1", Err(ApiError::Serde)), Err(ApiError::Serde));
    assert_eq!(db.sessions().len(), 1);
    assert_eq!(db.user_infos()[0].status, "Active");
}

#[test]
fn refresh_that_finds_the_account_gone_deletes_the_session() {
    let (mut db, first, second) = store_with_two_sessions();
    assert_eq!(favorite::store(&mut db, "t1", first, 1, Lookup::Movie(movie(1, "m"))), Ok(true));
    assert_eq!(info::info(&mut db, "t1", Ok(account(0))), Err(ApiError::AccountNotFound));
    assert_eq!(get_session("t1", &db), Err(ApiError::WrongAuthKey));
    assert_eq!(db.sessions().len(), 1);
    assert_eq!(db.avatars().len(), 1);
    assert_eq!(db.avatars()[0].id, second);
    assert!(db.favorites().is_empty());
    assert_eq!(info::info(&mut db, "t2", Err(ApiError::AccountNotFound)), Err(ApiError::AccountNotFound));
    assert!(db.sessions().is_empty());
}
