use catalog_gateway::address::{get_origin, is_root, normalize};
use catalog_gateway::api_error::{ApiError, ErrAs};
use catalog_gateway::database::Database;
use catalog_gateway::entities::favorite::Kind as FavoriteKind;
use catalog_gateway::entities::home::Kind as HomeKind;
use catalog_gateway::entities::prelude::{Login, UserInfo};
use catalog_gateway::entities::watching::Kind as WatchingKind;
use catalog_gateway::extra::{get_days_ago, CustomDeref, IdType, Pair, Params};
use catalog_gateway::get::{
    get_categories, get_live_epg, get_lives, get_movie_info, get_movies, get_serie_info,
    get_series, Kind,
};
use catalog_gateway::link::{link, stream_link, Kind as LinkKind};
use catalog_gateway::login::{sign_in, LoginResponse};
use catalog_gateway::token::{fresh_token, token_of};

fn credentials() -> Login {
    Login {
        id: 3,
        server: "http://host:8080/player_api.php".to_string(),
        username: "user".to_string(),
        password: "secret".to_string(),
    }
}

fn pair(name: &str, value: &str) -> Pair {
    Pair { name: name.to_string(), value: value.to_string() }
}

#[test]
fn server_without_a_path_gets_the_default_path() {
    assert_eq!(normalize("http://x/"), Ok("http://x/player_api.php".to_string()));
    assert_eq!(normalize("http://x"), Ok("http://x/player_api.php".to_string()));
    assert_eq!(normalize("http://x:8080"), Ok("http://x:8080/player_api.php".to_string()));
    assert_eq!(normalize("http://x/?a=b"), Ok("http://x/player_api.php?a=b".to_string()));
}

#[test]
fn server_with_a_path_keeps_it() {
    assert_eq!(normalize("http://x/api.php"), Ok("http://x/api.php".to_string()));
    assert_eq!(normalize("HTTP://X/a/b"), Ok("http://x/a/b".to_string()));
    assert_eq!(
        normalize("http://x/player_api.php"),
        Ok("http://x/player_api.php".to_string())
    );
}

#[test]
fn server_that_is_no_url_is_refused() {
    assert_eq!(normalize(""), Err(ApiError::UrlParse));
    assert_eq!(normalize("x"), Err(ApiError::UrlParse));
    assert_eq!(normalize("//x/"), Err(ApiError::UrlParse));
    assert_eq!(get_origin("x"), Err(ApiError::UrlParse));
}

#[test]
fn root_path() {
    assert!(is_root(&"/".to_string()));
    assert!(!is_root(&"".to_string()));
    assert!(!is_root(&"/a".to_string()));
    assert!(!is_root(&"//".to_string()));
}

#[test]
fn origin_is_scheme_host_and_port() {
    assert_eq!(get_origin("http://host:8080/player_api.php?x=1"), Ok("http://host:8080".to_string()));
    assert_eq!(get_origin("http://host:80/a"), Ok("http://host".to_string()));
    assert_eq!(get_origin("https://host/a"), Ok("https://host".to_string()));
    assert_eq!(get_origin("blob:http://host:81/id"), Ok("http://host:81".to_string()));
}

#[test]
fn origin_of_an_overlong_address_is_refused() {
    let fits = format!("http://host/{}", "a".repeat(4096 - 12));
    assert_eq!(fits.len(), 4096);
    assert_eq!(get_origin(&fits), Ok("http://host".to_string()));
    let overlong = format!("http://host/{}", "a".repeat(4096 - 11));
    assert_eq!(get_origin(&overlong), Err(ApiError::UrlParse));
    let nested = format!("{}http://host/", "blob:".repeat(5000));
    assert_eq!(get_origin(&nested), Err(ApiError::UrlParse));
}

#[test]
fn stream_address_is_put_together() {
    let login = credentials();
    assert_eq!(
        stream_link("http://host:8080".to_string(), LinkKind::Movie, &login, "17", "mkv"),
        "http://host:8080/movie/user/secret/17.mkv"
    );
    assert_eq!(
        stream_link("b".to_string(), LinkKind::Live, &login, "1", "ts"),
        "b/live/user/secret/1.ts"
    );
    assert_eq!(
        stream_link(String::new(), LinkKind::Serie, &login, "", ""),
        "/series/user/secret/."
    );
    assert_eq!(LinkKind::Live.segment(), "live");
    assert_eq!(LinkKind::Movie.segment(), "movie");
    assert_eq!(LinkKind::Serie.segment(), "series");
}

#[test]
fn link_for_a_session() {
    let mut db = Database::new();
    let response = LoginResponse {
        user_info: UserInfo {
            id: 0,
            auth: 1,
            status: String::new(),
            is_trial: 0,
            exp_date: 0,
            created_at: 0,
            active_cons: 0,
            max_connections: 0,
        },
    };
    sign_in(&mut db, credentials(), response, "t".to_string(), &vec![], &vec![], 0).unwrap();
    assert_eq!(
        link(&db, "t", LinkKind::Serie, "201", "avi"),
        Ok("http://host:8080/series/user/secret/201.avi".to_string())
    );
    assert_eq!(link(&db, "nope", LinkKind::Serie, "201", "avi"), Err(ApiError::WrongAuthKey));
}

#[test]
fn token_is_hexadecimal() {
    assert_eq!(token_of(&vec![]), "");
    assert_eq!(token_of(&vec![0x00, 0x0f, 0xa5, 0xff]), "000fa5ff");
    assert_eq!(token_of(&vec![0xbe, 0xef]), "beef");
}

#[test]
fn fresh_tokens_have_thirty_two_digits_and_differ() {
    let a = fresh_token().unwrap();
    let b = fresh_token().unwrap();
    assert_eq!(a.len(), 32);
    assert!(a.chars().all(|c| c.is_ascii_digit() || ('a'..='f').contains(&c)));
    assert_ne!(a, b);
}

#[test]
fn days_ago_is_counted_in_seconds() {
    assert_eq!(get_days_ago(1_000_000, 7), 1_000_000 - 604_800);
    assert_eq!(get_days_ago(1_000_000, 30), 1_000_000 - 2_592_000);
    assert_eq!(get_days_ago(5, 0), 5);
    assert_eq!(get_days_ago(5, -1), 86_405);
    assert_eq!(get_days_ago(i64::MIN, 1), i64::MIN);
    assert_eq!(get_days_ago(i64::MAX, -1), i64::MAX);
    assert_eq!(get_days_ago(0, i64::MAX), i64::MIN);
}

#[test]
fn query_of_an_account_request() {
    let login = credentials();
    let params = Params::new(&login);
    assert_eq!(params.server(), "http://host:8080/player_api.php");
    assert_eq!(params.query(), vec![pair("username", "user"), pair("password", "secret")]);
}

#[test]
fn query_of_each_catalog_request() {
    let login = credentials();
    let base = vec![pair("username", "user"), pair("password", "secret")];
    let with = |action: &str, id: Option<(&str, &str)>| {
        let mut query = base.clone();
        query.push(pair("action", action));
        if let Some((name, value)) = id {
            query.push(pair(name, value));
        }
        query
    };
    assert_eq!(get_lives(None, Params::new(&login)).query(), with("get_live_streams", None));
    assert_eq!(
        get_lives(Some(4), Params::new(&login)).query(),
        with("get_live_streams", Some(("category_id", "4")))
    );
    assert_eq!(
        get_movies(Some(-4), Params::new(&login)).query(),
        with("get_vod_streams", Some(("category_id", "-4")))
    );
    assert_eq!(get_series(None, Params::new(&login)).query(), with("get_series", None));
    assert_eq!(
        get_live_epg(12, Params::new(&login)).query(),
        with("get_short_epg", Some(("stream_id", "12")))
    );
    assert_eq!(
        get_movie_info(13, Params::new(&login)).query(),
        with("get_vod_info", Some(("vod_id", "13")))
    );
    assert_eq!(
        get_serie_info(14, Params::new(&login)).query(),
        with("get_series_info", Some(("series_id", "14")))
    );
    assert_eq!(
        get_categories(&Kind::Live, Params::new(&login)).query(),
        with("get_live_categories", None)
    );
    assert_eq!(
        get_categories(&Kind::Movie, Params::new(&login)).query(),
        with("get_vod_categories", None)
    );
    assert_eq!(
        get_categories(&Kind::Serie, Params::new(&login)).query(),
        with("get_series_categories", None)
    );
}

#[test]
fn identifier_names() {
    assert_eq!(IdType::Live(1).name(), "stream_id");
    assert_eq!(IdType::Movie(1).name(), "vod_id");
    assert_eq!(IdType::Serie(1).name(), "series_id");
    assert_eq!(IdType::Category(1).name(), "category_id");
    assert_eq!(IdType::Category(77).value(), 77);
}

#[test]
fn errors_have_a_code_a_hint_and_a_status() {
    assert_eq!(ApiError::RequestServerError.code(), 0);
    assert_eq!(ApiError::AccountNotFound.code(), 1);
    assert_eq!(ApiError::WrongId.code(), 6);
    assert_eq!(ApiError::Io.code(), 17);
    assert_eq!(ApiError::AccountNotFound.hint(), "AccountNotFound");
    assert_eq!(ApiError::WrongEpisodeId.hint(), "WrongEpisodeId");
    assert_eq!(ApiError::NotFound.status(), 404);
    assert_eq!(ApiError::WrongAuthKey.status(), 500);
    assert_eq!(ApiError::Serde.status(), 500);
    for error in [
        ApiError::RequestServerError,
        ApiError::AccountNotFound,
        ApiError::NotFound,
        ApiError::WrongEpisodeId,
        ApiError::WrongAuthKey,
        ApiError::WrongAvatar,
        ApiError::WrongId,
        ApiError::SystemTime,
        ApiError::DataBase,
        ApiError::ParseInt,
        ApiError::UrlParse,
        ApiError::FromUtf8,
        ApiError::Reqwest,
        ApiError::Channel,
        ApiError::Poison,
        ApiError::Serde,
        ApiError::OsRng,
        ApiError::Io,
    ] {
        assert_eq!(error.hint(), format!("{:?}", error));
    }
}

#[test]
fn err_as_replaces_the_error_only() {
    let ok: Result<i32, &str> = Ok(3);
    let bad: Result<i32, &str> = Err("boom");
    assert_eq!(ok.err_as(ApiError::RequestServerError), Ok(3));
    assert_eq!(bad.err_as(ApiError::RequestServerError), Err(ApiError::RequestServerError));
}

#[test]
fn deref_or_else_reads_through_an_option() {
    let some: Option<i32> = Some(3);
    let none: Option<i32> = None;
    assert_eq!(some.deref_or_else(ApiError::NotFound), Ok(&3));
    assert_eq!(none.deref_or_else(ApiError::NotFound), Err(ApiError::NotFound));
}

#[test]
fn home_kinds() {
    assert!(!HomeKind::TopMovie.is_normal());
    assert!(!HomeKind::TopSerie.is_normal());
    assert!(HomeKind::Movie.is_normal());
    assert!(HomeKind::Serie.is_normal());
    assert_eq!(HomeKind::default(), HomeKind::TopMovie);
}

#[test]
fn new_store_is_empty() {
    let db = Database::new();
    assert!(db.sessions().is_empty());
    assert!(db.logins().is_empty());
    assert!(db.user_infos().is_empty());
    assert!(db.avatars().is_empty());
    assert!(db.favorites().is_empty());
    assert!(db.watchings().is_empty());
    assert!(db.homes().is_empty());
    assert_eq!(db.next_id(), 1);
}

#[test]
fn kinds_have_the_names_that_requests_use() {
    assert_eq!(Kind::named("live"), Some(Kind::Live));
    assert_eq!(Kind::named("movie"), Some(Kind::Movie));
    assert_eq!(Kind::named("serie"), Some(Kind::Serie));
    assert_eq!(Kind::named("series"), None);
    assert_eq!(Kind::named("Live"), None);
    assert_eq!(Kind::named(""), None);
    for kind in [Kind::Live, Kind::Movie, Kind::Serie] {
        assert_eq!(Kind::named(kind.name()), Some(kind));
    }
    for kind in [LinkKind::Live, LinkKind::Movie, LinkKind::Serie] {
        assert_eq!(LinkKind::named(kind.name()), Some(kind));
    }
    assert_eq!(LinkKind::named("series"), None);
}

#[test]
fn kinds_have_the_names_that_the_store_uses() {
    for kind in [FavoriteKind::Live, FavoriteKind::Movie, FavoriteKind::Serie] {
        assert_eq!(FavoriteKind::stored_as(kind.stored_name()), Some(kind));
        assert_eq!(FavoriteKind::named(kind.name()), Some(kind));
    }
    for kind in [WatchingKind::Movie, WatchingKind::Serie] {
        assert_eq!(WatchingKind::stored_as(kind.stored_name()), Some(kind));
        assert_eq!(WatchingKind::named(kind.name()), Some(kind));
    }
    for kind in [HomeKind::TopMovie, HomeKind::TopSerie, HomeKind::Movie, HomeKind::Serie] {
        assert_eq!(HomeKind::stored_as(kind.stored_name()), Some(kind));
    }
    assert_eq!(FavoriteKind::Live.stored_name(), "Live");
    assert_eq!(FavoriteKind::Serie.name(), "serie");
    assert_eq!(WatchingKind::named("live"), None);
    assert_eq!(WatchingKind::stored_as("movie"), None);
    assert_eq!(HomeKind::TopSerie.stored_name(), "TopSerie");
    assert_eq!(HomeKind::stored_as("Top"), None);
    assert_eq!(FavoriteKind::default(), FavoriteKind::Live);
    assert_eq!(WatchingKind::default(), WatchingKind::Movie);
}

#[test]
fn requests_by_kind() {
    let login = credentials();
    for (kind, action) in
        [(Kind::Live, "get_live_streams"), (Kind::Movie, "get_vod_streams"), (Kind::Serie, "get_series")]
    {
        let query = catalog_gateway::get::get(kind, Some(8), Params::new(&login)).query();
        assert_eq!(query[2], pair("action", action));
        assert_eq!(query[3], pair("category_id", "8"));
        assert_eq!(catalog_gateway::get::get(kind, None, Params::new(&login)).query().len(), 3);
    }
    for (kind, action, name) in [
        (Kind::Live, "get_short_epg", "stream_id"),
        (Kind::Movie, "get_vod_info", "vod_id"),
        (Kind::Serie, "get_series_info", "series_id"),
    ] {
        let query = catalog_gateway::get::info(kind, 21, Params::new(&login)).query();
        assert_eq!(query[2], pair("action", action));
        assert_eq!(query[3], pair(name, "21"));
    }
}
