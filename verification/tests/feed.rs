use catalog_gateway::api_error::ApiError;
use catalog_gateway::database::Database;
use catalog_gateway::entities::home::Kind;
use catalog_gateway::entities::prelude::{Login, UserInfo};
use catalog_gateway::extra::get_days_ago;
use catalog_gateway::get::CatalogItem;
use catalog_gateway::home::{home, make, make_homes, rank_feed, ByDate, ByRating, Pull, Top};
use catalog_gateway::login::{sign_in, LoginResponse};
use catalog_gateway::rank::{best, Ranking};

const DAY: i64 = 86400;
const NOW: i64 = 1_700_000_000;

fn rated(id: i64, rating: Option<i64>, added: Option<i64>) -> CatalogItem {
    CatalogItem {
        id,
        name: format!("item {}", id),
        icon: format!("{}.png", id),
        added,
        rating,
        episode_id: None,
        container_extension: None,
    }
}

fn days_ago(days: i64) -> Option<i64> {
    Some(NOW - days * DAY)
}

fn ids(list: &Vec<CatalogItem>) -> Vec<i64> {
    list.iter().map(|item| item.id).collect()
}

fn credentials(name: &str) -> Login {
    Login {
        id: 0,
        server: "http://x/player_api.php".to_string(),
        username: name.to_string(),
        password: "p".to_string(),
    }
}

fn accepted() -> LoginResponse {
    LoginResponse {
        user_info: UserInfo {
            id: 0,
            auth: 1,
            status: String::new(),
            is_trial: 0,
            exp_date: 0,
            created_at: 0,
            active_cons: 0,
            max_connections: 0,
        },
    }
}

#[test]
fn top_list_puts_the_higher_rating_first_and_leaves_the_unrated_out() {
    let movies = vec![
        rated(2, Some(8000), days_ago(2)),
        rated(3, None, days_ago(1)),
        rated(1, Some(9000), days_ago(5)),
    ];
    let feed = rank_feed(&movies, &vec![], get_days_ago(NOW, 30));
    let tops: Vec<i64> = feed.tops.iter().map(|top| top.value.id).collect();
    assert_eq!(tops, vec![1, 2]);
    assert!(feed.tops.iter().all(|top| top.kind == Kind::TopMovie));
}

#[test]
fn top_list_leaves_out_what_is_older_than_the_window() {
    let since = get_days_ago(NOW, 30);
    let movies = vec![
        rated(1, Some(9000), days_ago(31)),
        rated(2, Some(1000), days_ago(29)),
        rated(3, Some(9500), Some(since)),
        rated(4, Some(9500), Some(since + 1)),
        rated(5, Some(9900), None),
    ];
    let feed = rank_feed(&movies, &vec![], since);
    let tops: Vec<i64> = feed.tops.iter().map(|top| top.value.id).collect();
    assert_eq!(tops, vec![4, 2]);
}

#[test]
fn top_list_breaks_rating_ties_by_date_and_mixes_movies_with_series() {
    let movies = vec![rated(1, Some(7000), days_ago(9)), rated(2, Some(7000), days_ago(3))];
    let series = vec![rated(3, Some(7000), days_ago(5)), rated(4, Some(8000), days_ago(20))];
    let feed = rank_feed(&movies, &series, get_days_ago(NOW, 30));
    let tops: Vec<(Kind, i64)> = feed.tops.iter().map(|top| (top.kind, top.value.id)).collect();
    assert_eq!(
        tops,
        vec![(Kind::TopSerie, 4), (Kind::TopMovie, 2), (Kind::TopSerie, 3), (Kind::TopMovie, 1)]
    );
}

#[test]
fn items_of_one_rank_keep_their_order() {
    let movies = vec![
        rated(1, Some(7000), days_ago(3)),
        rated(2, Some(7000), days_ago(3)),
        rated(3, Some(7000), days_ago(3)),
    ];
    let series = vec![rated(4, Some(7000), days_ago(3))];
    let feed = rank_feed(&movies, &series, get_days_ago(NOW, 30));
    let tops: Vec<i64> = feed.tops.iter().map(|top| top.value.id).collect();
    assert_eq!(tops, vec![1, 2, 3, 4]);
}

#[test]
fn top_list_holds_ten_and_lists_by_date_twenty() {
    let movies: Vec<CatalogItem> =
        (1..=30).map(|i| rated(i, Some(i * 100), Some(NOW - i))).collect();
    let series: Vec<CatalogItem> = (31..=55).map(|i| rated(i, None, Some(NOW - i))).collect();
    let feed = rank_feed(&movies, &series, get_days_ago(NOW, 30));
    let tops: Vec<i64> = feed.tops.iter().map(|top| top.value.id).collect();
    assert_eq!(tops, vec![30, 29, 28, 27, 26, 25, 24, 23, 22, 21]);
    assert_eq!(ids(&feed.movies), (1..=20).collect::<Vec<i64>>());
    assert_eq!(ids(&feed.series), (31..=50).collect::<Vec<i64>>());
}

#[test]
fn lists_by_date_put_the_latest_first_and_the_undated_last() {
    let movies = vec![
        rated(1, None, None),
        rated(2, None, Some(5)),
        rated(3, None, Some(50)),
        rated(4, None, None),
        rated(5, None, Some(-5)),
    ];
    let feed = rank_feed(&movies, &vec![], 0);
    assert_eq!(ids(&feed.movies), vec![3, 2, 5, 1, 4]);
    assert!(feed.tops.is_empty());
    assert!(feed.series.is_empty());
}

#[test]
fn best_of_a_list() {
    let list = vec![rated(1, None, Some(1)), rated(2, None, Some(3)), rated(3, None, Some(2))];
    assert_eq!(ids(&best(&list, &ByDate {}, 0)), Vec::<i64>::new());
    assert_eq!(ids(&best(&list, &ByDate {}, 1)), vec![2]);
    assert_eq!(ids(&best(&list, &ByDate {}, 2)), vec![2, 3]);
    assert_eq!(ids(&best(&list, &ByDate {}, 3)), vec![2, 3, 1]);
    assert_eq!(ids(&best(&list, &ByDate {}, 9)), vec![2, 3, 1]);
    assert_eq!(ids(&best(&Vec::new(), &ByDate {}, 9)), Vec::<i64>::new());
}

#[test]
fn rankings_compare_as_they_say() {
    let a = Top { kind: Kind::TopMovie, value: rated(1, Some(5), Some(1)) };
    let b = Top { kind: Kind::TopMovie, value: rated(2, Some(5), Some(2)) };
    let c = Top { kind: Kind::TopMovie, value: rated(3, Some(6), None) };
    let d = Top { kind: Kind::TopMovie, value: rated(4, None, Some(9)) };
    let by = ByRating {};
    assert!(by.outranks(&b, &a));
    assert!(!by.outranks(&a, &b));
    assert!(!by.outranks(&a, &a));
    assert!(by.outranks(&c, &b));
    assert!(by.outranks(&a, &d));
    assert!(!by.outranks(&d, &a));
    assert!(ByDate {}.outranks(&d.value, &a.value));
    assert!(!ByDate {}.outranks(&c.value, &a.value));
}

#[test]
fn feed_is_replaced_as_a_whole() {
    let mut db = Database::new();
    let movies = vec![rated(1, Some(9000), days_ago(5)), rated(2, None, days_ago(1))];
    let series = vec![rated(7, Some(8000), days_ago(2))];
    let token = sign_in(
        &mut db,
        credentials("u"),
        accepted(),
        "t".to_string(),
        &movies,
        &series,
        get_days_ago(NOW, 30),
    );
    assert_eq!(token, Ok("t".to_string()));
    let first = home(&db, "t").unwrap();
    let shown: Vec<(Kind, i64)> = first.top.iter().map(|row| (row.kind, row.value_id)).collect();
    assert_eq!(shown, vec![(Kind::TopMovie, 1), (Kind::TopSerie, 7)]);
    assert_eq!(first.movies.iter().map(|row| row.value_id).collect::<Vec<i64>>(), vec![2, 1]);
    assert_eq!(first.series.iter().map(|row| row.value_id).collect::<Vec<i64>>(), vec![7]);
    assert_eq!(first.top[0].name, "item 1");
    assert_eq!(first.top[0].icon, "1.png");
    assert_eq!(first.top[0].session_id, 1);
    assert_eq!(db.homes().len(), 5);

    let login = db.logins()[0].clone();
    let newer = vec![rated(3, Some(5000), days_ago(1))];
    assert_eq!(make(&mut db, &login, get_days_ago(NOW, 30), &newer, &vec![]), Ok(()));
    let second = home(&db, "t").unwrap();
    assert_eq!(second.top.iter().map(|row| row.value_id).collect::<Vec<i64>>(), vec![3]);
    assert_eq!(second.movies.iter().map(|row| row.value_id).collect::<Vec<i64>>(), vec![3]);
    assert!(second.series.is_empty());
    assert_eq!(db.homes().len(), 2);
    let mut row_ids: Vec<i64> = db.homes().iter().map(|row| row.id).collect();
    row_ids.dedup();
    assert_eq!(row_ids.len(), 2);
}

#[test]
fn feed_of_one_session_leaves_the_others_alone() {
    let mut db = Database::new();
    let since = get_days_ago(NOW, 30);
    let a = vec![rated(1, Some(9000), days_ago(5))];
    let b = vec![rated(2, Some(9000), days_ago(5))];
    sign_in(&mut db, credentials("u"), accepted(), "t1".to_string(), &a, &vec![], since).unwrap();
    sign_in(&mut db, credentials("v"), accepted(), "t2".to_string(), &b, &vec![], since).unwrap();
    let first = db.logins()[0].clone();
    assert_eq!(make(&mut db, &first, since, &vec![], &vec![]), Ok(()));
    assert!(home(&db, "t1").unwrap().top.is_empty());
    assert!(home(&db, "t1").unwrap().movies.is_empty());
    let other = home(&db, "t2").unwrap();
    assert_eq!(other.top.len(), 1);
    assert_eq!(other.top[0].value_id, 2);
    assert_eq!(other.movies.len(), 1);
}

#[test]
fn feed_needs_a_session() {
    let mut db = Database::new();
    let stray = credentials("u");
    let movies = vec![rated(1, Some(9000), days_ago(5))];
    assert_eq!(make(&mut db, &stray, 0, &movies, &vec![]), Err(ApiError::DataBase));
    assert!(db.homes().is_empty());
    assert_eq!(home(&db, "t"), Err(ApiError::WrongAuthKey));
}

#[test]
fn one_failed_pull_does_not_hold_up_the_others() {
    let mut db = Database::new();
    let since = get_days_ago(NOW, 30);
    let old = vec![rated(1, Some(9000), days_ago(5))];
    sign_in(&mut db, credentials("u"), accepted(), "t1".to_string(), &old, &vec![], since).unwrap();
    sign_in(&mut db, credentials("v"), accepted(), "t2".to_string(), &old, &vec![], since).unwrap();
    sign_in(&mut db, credentials("w"), accepted(), "t3".to_string(), &old, &vec![], since).unwrap();
    let fresh = vec![rated(9, Some(9000), days_ago(1))];
    let pulls = vec![
        Pull { login: db.logins()[0].clone(), movies: Err(ApiError::Reqwest), series: Ok(vec![]) },
        Pull { login: db.logins()[1].clone(), movies: Ok(fresh.clone()), series: Ok(vec![]) },
        Pull { login: db.logins()[2].clone(), movies: Ok(fresh), series: Err(ApiError::Serde) },
    ];
    make_homes(&mut db, since, &pulls);
    assert_eq!(home(&db, "t1").unwrap().top[0].value_id, 1);
    assert_eq!(home(&db, "t2").unwrap().top[0].value_id, 9);
    assert_eq!(home(&db, "t3").unwrap().top[0].value_id, 1);
}
