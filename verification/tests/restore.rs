use catalog_gateway::api_error::ApiError;
use catalog_gateway::avatar;
use catalog_gateway::database::Database;
use catalog_gateway::favorite::{self, Lookup};
use catalog_gateway::get::CatalogItem;
use catalog_gateway::home::make;
use catalog_gateway::login::{sign_in, LoginResponse};
use catalog_gateway::entities::favorite::Kind as FavoriteKind;
use catalog_gateway::entities::home::Kind as HomeKind;
use catalog_gateway::entities::prelude::{
    Avatar, Favorite, Home, Login, Session, UserInfo, Watching,
};
use catalog_gateway::entities::watching::Kind as WatchingKind;
use catalog_gateway::login::get_session;
use catalog_gateway::rows::{is_apart, is_below, is_distinct, is_owned, is_unique};

fn session(id: i64, token: &str) -> Session {
    Session { id, auth_key: token.to_string() }
}

fn login_row(id: i64) -> Login {
    Login { id, server: "s".to_string(), username: format!("u{}", id), password: "p".to_string() }
}

fn login_of(id: i64, username: &str) -> Login {
    Login { id, server: "s".to_string(), username: username.to_string(), password: "p".to_string() }
}

fn snapshot(id: i64) -> UserInfo {
    UserInfo {
        id,
        auth: 1,
        status: String::new(),
        is_trial: 0,
        exp_date: 0,
        created_at: 0,
        active_cons: 0,
        max_connections: 0,
    }
}

fn profile(id: i64, session_id: i64) -> Avatar {
    Avatar { id, session_id, name: format!("p{}", id) }
}

fn favorite_row(id: i64, avatar_id: i64, value_id: i64) -> Favorite {
    Favorite {
        id,
        avatar_id,
        kind: FavoriteKind::Movie,
        value_id,
        name: String::new(),
        icon: String::new(),
    }
}

fn watching_row(id: i64, avatar_id: i64, value_id: i64) -> Watching {
    Watching {
        id,
        avatar_id,
        kind: WatchingKind::Serie,
        value_id,
        name: String::new(),
        icon: String::new(),
        time: 1,
        date: 2,
        episode_id: Some(3),
        container_extension: None,
    }
}

fn home_row(id: i64, session_id: i64) -> Home {
    Home {
        id,
        session_id,
        kind: HomeKind::Movie,
        value_id: 1,
        name: String::new(),
        icon: String::new(),
    }
}

#[test]
fn valid_rows_are_restored() {
    let db = Database::restore(
        vec![session(1, "a"), session(4, "b")],
        vec![login_row(1), login_row(4)],
        vec![snapshot(4)],
        vec![profile(2, 1), profile(5, 4)],
        vec![favorite_row(3, 2, 9), favorite_row(6, 5, 9)],
        vec![watching_row(7, 2, 9)],
        vec![home_row(8, 4), home_row(9, 4)],
        10,
    )
    .unwrap();
    assert!(db.is_valid());
    assert_eq!(db.sessions().len(), 2);
    assert_eq!(db.next_id(), 10);
    assert_eq!(get_session("b", &db).unwrap().id, 4);
    let mut db = db;
    assert_eq!(avatar::store(&mut db, "a", "new".to_string()), Ok(true));
    assert!(db.is_valid());
    assert_eq!(db.avatars()[2].id, 10);
    assert_eq!(db.next_id(), 11);
}

#[test]
fn nothing_is_a_valid_store() {
    assert!(Database::restore(vec![], vec![], vec![], vec![], vec![], vec![], vec![], 0).is_some());
}

#[test]
fn rows_that_break_the_rules_are_refused() {
    let restore = |sessions, logins, user_infos, avatars, favorites, watchings, homes, next| {
        Database::restore(sessions, logins, user_infos, avatars, favorites, watchings, homes, next)
            .is_some()
    };
    assert!(!restore(vec![], vec![], vec![], vec![], vec![], vec![], vec![], -1));
    assert!(!restore(vec![session(1, "a"), session(1, "b")], vec![], vec![], vec![], vec![], vec![], vec![], 5));
    assert!(!restore(vec![session(5, "a")], vec![], vec![], vec![], vec![], vec![], vec![], 5));
    assert!(!restore(vec![session(1, "a")], vec![login_row(2)], vec![], vec![], vec![], vec![], vec![], 5));
    assert!(!restore(vec![session(1, "a")], vec![login_row(1), login_row(1)], vec![], vec![], vec![], vec![], vec![], 5));
    assert!(!restore(vec![session(1, "a")], vec![], vec![snapshot(2)], vec![], vec![], vec![], vec![], 5));
    assert!(!restore(vec![session(1, "a")], vec![], vec![], vec![profile(2, 3)], vec![], vec![], vec![], 5));
    assert!(!restore(vec![session(1, "a")], vec![], vec![], vec![profile(5, 1)], vec![], vec![], vec![], 5));
    assert!(!restore(vec![session(1, "a")], vec![], vec![], vec![profile(2, 1), profile(2, 1)], vec![], vec![], vec![], 5));
    assert!(!restore(vec![session(1, "a")], vec![], vec![], vec![profile(2, 1)], vec![favorite_row(3, 9, 1)], vec![], vec![], 5));
    assert!(!restore(vec![session(1, "a")], vec![], vec![], vec![profile(2, 1)], vec![favorite_row(3, 2, 1), favorite_row(4, 2, 1)], vec![], vec![], 5));
    assert!(!restore(vec![session(1, "a")], vec![], vec![], vec![profile(2, 1)], vec![], vec![watching_row(3, 2, 1), watching_row(4, 2, 1)], vec![], 5));
    assert!(!restore(vec![session(1, "a")], vec![], vec![], vec![profile(2, 1)], vec![], vec![watching_row(3, 7, 1)], vec![], 5));
    assert!(!restore(vec![session(1, "a")], vec![], vec![], vec![], vec![], vec![], vec![home_row(3, 2)], 5));
    assert!(!restore(vec![session(1, "a"), session(2, "a")], vec![], vec![], vec![], vec![], vec![], vec![], 5));
    assert!(restore(vec![session(1, "a"), session(2, "b")], vec![], vec![], vec![], vec![], vec![], vec![], 5));
    assert!(!restore(vec![session(1, "a"), session(2, "b")], vec![login_of(1, "u"), login_of(2, "u")], vec![], vec![], vec![], vec![], vec![], 5));
    assert!(restore(vec![session(1, "a"), session(2, "b")], vec![login_of(1, "u"), login_of(2, "v")], vec![], vec![], vec![], vec![], vec![], 5));
    assert!(!restore(vec![session(1, "a")], vec![], vec![], vec![profile(2, 1)], vec![favorite_row(5, 2, 1)], vec![], vec![], 5));
    assert!(restore(vec![session(1, "a")], vec![], vec![], vec![profile(2, 1)], vec![favorite_row(4, 2, 1)], vec![], vec![], 5));
    assert!(!restore(vec![session(1, "a")], vec![], vec![], vec![profile(2, 1)], vec![], vec![watching_row(5, 2, 1)], vec![], 5));
    assert!(!restore(vec![session(1, "a")], vec![], vec![], vec![], vec![], vec![], vec![home_row(9, 1)], 5));
    assert!(restore(vec![session(1, "a")], vec![], vec![], vec![], vec![], vec![], vec![home_row(4, 1)], 5));
    assert!(!restore(vec![session(1, "a")], vec![], vec![], vec![], vec![], vec![], vec![home_row(4, 1), home_row(4, 1)], 5));
    assert!(!restore(vec![session(1, "a")], vec![], vec![], vec![profile(2, 1)], vec![favorite_row(3, 2, 1), favorite_row(3, 2, 2)], vec![], vec![], 5));
    assert!(!restore(vec![session(1, "a")], vec![], vec![], vec![profile(2, 1)], vec![], vec![watching_row(3, 2, 1), watching_row(3, 2, 2)], vec![], 5));
    assert!(restore(vec![session(1, "a")], vec![], vec![], vec![profile(2, 1)], vec![favorite_row(3, 2, 1)], vec![watching_row(3, 2, 1)], vec![home_row(3, 1)], 5));
    assert!(restore(vec![session(1, "a")], vec![], vec![], vec![profile(2, 1)], vec![favorite_row(3, 2, 1), favorite_row(4, 2, 2)], vec![watching_row(3, 2, 1)], vec![home_row(3, 1)], 5));
}

#[test]
fn unique_and_owned_checks() {
    assert!(is_unique(&vec![session(1, "a"), session(2, "a")]));
    assert!(!is_unique(&vec![session(1, "a"), session(2, "b"), session(1, "c")]));
    assert!(is_unique(&Vec::<Session>::new()));
    assert!(is_owned(&vec![profile(1, 2), profile(3, 2)], &vec![session(2, "a")]));
    assert!(!is_owned(&vec![profile(1, 2), profile(3, 4)], &vec![session(2, "a")]));
    assert!(is_owned(&Vec::<Avatar>::new(), &Vec::<Session>::new()));
    assert!(is_apart(&vec![session(1, "a"), session(1, "b")]));
    assert!(!is_apart(&vec![session(1, "a"), session(2, "b"), session(3, "a")]));
    assert!(is_apart(&vec![login_of(1, "u"), login_of(1, "v")]));
    assert!(!is_apart(&vec![login_of(1, "u"), login_of(2, "u")]));
    assert!(is_below(&vec![profile(1, 1), profile(4, 1)], 5));
    assert!(!is_below(&vec![profile(1, 1), profile(5, 1)], 5));
    assert!(is_below(&Vec::<Session>::new(), i64::MIN));
    assert!(is_distinct(&vec![home_row(1, 1), home_row(2, 1)]));
    assert!(!is_distinct(&vec![home_row(1, 1), home_row(2, 1), home_row(1, 2)]));
}

#[test]
fn a_restored_row_never_shares_its_id_with_a_new_one() {
    let mut db = Database::restore(
        vec![session(1, "a")],
        vec![login_row(1)],
        vec![snapshot(1)],
        vec![profile(2, 1)],
        vec![favorite_row(7, 2, 9)],
        vec![watching_row(8, 2, 9)],
        vec![home_row(9, 1)],
        10,
    )
    .unwrap();
    let channel = CatalogItem {
        id: 4,
        name: "n".to_string(),
        icon: String::new(),
        added: None,
        rating: None,
        episode_id: None,
        container_extension: None,
    };
    assert_eq!(favorite::store(&mut db, "a", 2, 4, Lookup::Lives(vec![channel])), Ok(true));
    let ids: Vec<i64> = db.favorites().iter().map(|row| row.id).collect();
    assert_eq!(ids, vec![7, 10]);
    assert!(db.is_valid());
}

#[test]
fn a_store_without_ids_takes_no_new_rows() {
    let mut db = Database::restore(
        vec![session(1, "a")],
        vec![login_row(1)],
        vec![snapshot(1)],
        vec![profile(2, 1)],
        vec![favorite_row(3, 2, 9)],
        vec![],
        vec![],
        i64::MAX,
    )
    .unwrap();
    assert_eq!(avatar::store(&mut db, "a", "new".to_string()), Err(ApiError::DataBase));
    let channel = CatalogItem {
        id: 4,
        name: "n".to_string(),
        icon: String::new(),
        added: Some(1),
        rating: Some(1),
        episode_id: None,
        container_extension: None,
    };
    assert_eq!(
        favorite::store(&mut db, "a", 2, 4, Lookup::Lives(vec![channel.clone()])),
        Err(ApiError::DataBase)
    );
    let fresh = Login { id: 0, server: "other".to_string(), username: "u".to_string(), password: "p".to_string() };
    let accepted = LoginResponse { user_info: snapshot(0) };
    assert_eq!(
        sign_in(&mut db, fresh, accepted, "t".to_string(), &vec![], &vec![], 0),
        Err(ApiError::DataBase)
    );
    let stored = db.logins()[0].clone();
    assert_eq!(make(&mut db, &stored, 0, &vec![channel], &vec![]), Err(ApiError::DataBase));
    assert_eq!(make(&mut db, &stored, 0, &vec![], &vec![]), Ok(()));
    assert_eq!(db.avatars().len(), 1);
    assert_eq!(db.favorites().len(), 1);
    assert_eq!(db.sessions().len(), 1);
    assert!(db.homes().is_empty());
    assert_eq!(db.next_id(), i64::MAX);
}
