use catalog_gateway::api_error::ApiError;
use catalog_gateway::entities::prelude::UserInfo;
use catalog_gateway::extra::{
    default_on_null, get_json, num_from_str_or_num, opt_num_from_str_or_num,
    rating_from_str_or_num, Outcome,
};
use catalog_gateway::get::{
    decode_list, get_record, get_records, CatalogItem, Category, Decode, Epg, EpgListings,
    MovieInfo, SerieInfo,
};
use catalog_gateway::json::{parse, Json, Member};
use catalog_gateway::login::LoginResponse;
use catalog_gateway::number::{parse_int, parse_rating, write_int};

fn answer(body: &str) -> Outcome {
    Outcome::Answer { status: 200, body: body.to_string() }
}

#[test]
fn numeric_field_as_number() {
    let json = parse("42").unwrap();
    assert_eq!(num_from_str_or_num(Some(&json)), Ok(42));
}

#[test]
fn numeric_field_as_text() {
    let json = parse("\"42\"").unwrap();
    assert_eq!(num_from_str_or_num(Some(&json)), Ok(42));
}

#[test]
fn numeric_field_as_empty_text_is_default() {
    let json = parse("\"\"").unwrap();
    assert_eq!(num_from_str_or_num(Some(&json)), Ok(0));
    assert_eq!(opt_num_from_str_or_num(Some(&json)), Ok(None));
}

#[test]
fn numeric_field_as_null_is_default() {
    let json = parse("null").unwrap();
    assert_eq!(num_from_str_or_num(Some(&json)), Ok(0));
    assert_eq!(opt_num_from_str_or_num(Some(&json)), Ok(None));
}

#[test]
fn numeric_field_missing_is_default() {
    assert_eq!(num_from_str_or_num(None), Ok(0));
    assert_eq!(opt_num_from_str_or_num(None), Ok(None));
    assert_eq!(rating_from_str_or_num(None), Ok(None));
}

#[test]
fn numeric_field_of_another_shape_fails() {
    for text in ["true", "[]", "{}", "[42]", "{\"a\":42}"] {
        let json = parse(text).unwrap();
        assert_eq!(num_from_str_or_num(Some(&json)), Err(ApiError::Serde));
        assert_eq!(opt_num_from_str_or_num(Some(&json)), Err(ApiError::Serde));
        assert_eq!(rating_from_str_or_num(Some(&json)), Err(ApiError::Serde));
    }
}

#[test]
fn numeric_field_that_is_no_whole_number_fails() {
    for text in ["4.5", "1e3", "\"abc\"", "\" 42\"", "\"4 2\"", "99999999999999999999"] {
        let json = parse(text).unwrap();
        assert_eq!(num_from_str_or_num(Some(&json)), Err(ApiError::Serde));
    }
}

#[test]
fn optional_numeric_field_present() {
    let json = parse("\"-17\"").unwrap();
    assert_eq!(opt_num_from_str_or_num(Some(&json)), Ok(Some(-17)));
}

#[test]
fn parse_int_accepts_signs_and_leading_zeros() {
    assert_eq!(parse_int("0"), Some(0));
    assert_eq!(parse_int("+7"), Some(7));
    assert_eq!(parse_int("-7"), Some(-7));
    assert_eq!(parse_int("007"), Some(7));
    assert_eq!(parse_int("9223372036854775807"), Some(i64::MAX));
    assert_eq!(parse_int("-9223372036854775808"), Some(i64::MIN));
}

#[test]
fn parse_int_rejects_everything_else() {
    for text in ["", "+", "-", "--1", "1-", "12a", "a12", "1.0", " 1", "1 ", "9223372036854775808",
        "-9223372036854775809", "123456789012345678901234567890"]
    {
        assert_eq!(parse_int(text), None, "{:?}", text);
    }
}

#[test]
fn parse_int_agrees_with_std() {
    for text in ["0", "-0", "+0", "42", "-42", "00042", "4x", "", "٣"] {
        assert_eq!(parse_int(text), text.parse::<i64>().ok(), "{:?}", text);
    }
}

#[test]
fn parse_rating_in_thousandths() {
    assert_eq!(parse_rating("9"), Some(9000));
    assert_eq!(parse_rating("7.5"), Some(7500));
    assert_eq!(parse_rating("7.456"), Some(7456));
    assert_eq!(parse_rating("7.4569"), Some(7456));
    assert_eq!(parse_rating("-1.25"), Some(-1250));
    assert_eq!(parse_rating("+0.001"), Some(1));
    assert_eq!(parse_rating("5."), Some(5000));
    assert_eq!(parse_rating(".5"), Some(500));
    assert_eq!(parse_rating("0"), Some(0));
}

#[test]
fn parse_rating_rejects_everything_else() {
    for text in ["", ".", "-", "+.", "1.2.3", "1e3", "N/A", "7,5", " 7", "7.5 ", "7.x",
        "9223372036854775807"]
    {
        assert_eq!(parse_rating(text), None, "{:?}", text);
    }
}

#[test]
fn rating_with_an_exponent_is_refused() {
    assert_eq!(parse_rating("1e1"), None);
    assert_eq!(parse_rating("1e+1"), None);
    assert_eq!(parse_rating("7.5E0"), None);
    assert_eq!(rating_from_str_or_num(Some(&parse("1e1").unwrap())), Err(ApiError::Serde));
    assert_eq!(rating_from_str_or_num(Some(&parse("\"1e1\"").unwrap())), Err(ApiError::Serde));
}

#[test]
fn rating_field_shapes() {
    assert_eq!(rating_from_str_or_num(Some(&parse("8.1").unwrap())), Ok(Some(8100)));
    assert_eq!(rating_from_str_or_num(Some(&parse("\"8.1\"").unwrap())), Ok(Some(8100)));
    assert_eq!(rating_from_str_or_num(Some(&parse("\"\"").unwrap())), Ok(None));
    assert_eq!(rating_from_str_or_num(Some(&parse("null").unwrap())), Ok(None));
    assert_eq!(rating_from_str_or_num(Some(&parse("\"good\"").unwrap())), Err(ApiError::Serde));
}

#[test]
fn write_int_writes_decimal() {
    assert_eq!(write_int(0), "0");
    assert_eq!(write_int(7), "7");
    assert_eq!(write_int(-7), "-7");
    assert_eq!(write_int(1234567890), "1234567890");
    assert_eq!(write_int(i64::MAX), "9223372036854775807");
    assert_eq!(write_int(i64::MIN), "-9223372036854775808");
}

#[test]
fn write_then_parse_gives_the_number_back() {
    for n in [0, 1, -1, 10, 99, -100, 86400, i64::MAX, i64::MIN] {
        assert_eq!(parse_int(&write_int(n)), Some(n));
    }
}

#[test]
fn text_field_rules() {
    assert_eq!(default_on_null(None), Ok(String::new()));
    assert_eq!(default_on_null(Some(&Json::Null)), Ok(String::new()));
    assert_eq!(default_on_null(Some(&Json::Text("x".to_string()))), Ok("x".to_string()));
    assert_eq!(default_on_null(Some(&Json::Number("1".to_string()))), Err(ApiError::Serde));
    assert_eq!(default_on_null(Some(&Json::Bool(true))), Err(ApiError::Serde));
    assert_eq!(default_on_null(Some(&Json::Array(vec![]))), Err(ApiError::Serde));
}

#[test]
fn parse_keeps_the_text_of_numbers() {
    assert_eq!(parse("42"), Ok(Json::Number("42".to_string())));
    assert_eq!(parse("4.50"), Ok(Json::Number("4.50".to_string())));
    assert_eq!(parse("-1e+3"), Ok(Json::Number("-1e+3".to_string())));
    assert_eq!(parse("007").is_err(), true);
}

#[test]
fn parse_builds_the_document() {
    let json = parse("{\"b\": [1, \"x\", null, true], \"a\": {}}").unwrap();
    assert_eq!(
        json,
        Json::Object(vec![
            Member { name: "a".to_string(), value: Json::Object(vec![]) },
            Member {
                name: "b".to_string(),
                value: Json::Array(vec![
                    Json::Number("1".to_string()),
                    Json::Text("x".to_string()),
                    Json::Null,
                    Json::Bool(true),
                ]),
            },
        ])
    );
}

#[test]
fn parse_rejects_what_is_not_json() {
    assert_eq!(parse(""), Err(ApiError::Serde));
    assert_eq!(parse("{"), Err(ApiError::Serde));
    assert_eq!(parse("42 43"), Err(ApiError::Serde));
    assert_eq!(parse("<html>"), Err(ApiError::Serde));
}

#[test]
fn member_lookup_takes_the_first_name_that_is_there() {
    let json = parse("{\"cover\": \"c\", \"stream_icon\": \"s\"}").unwrap();
    assert_eq!(json.get("icon"), None);
    assert_eq!(json.get("cover"), Some(&Json::Text("c".to_string())));
    assert_eq!(json.get3("icon", "cover", "stream_icon"), Some(&Json::Text("c".to_string())));
    assert_eq!(json.get3("icon", "stream_icon", "cover"), Some(&Json::Text("s".to_string())));
    assert_eq!(json.get2("icon", "poster"), None);
    assert_eq!(Json::Null.get("cover"), None);
}

#[test]
fn current_name_wins_over_earlier_names() {
    let json = parse("{\"id\": 1, \"stream_id\": 2, \"series_id\": 3}").unwrap();
    assert_eq!(CatalogItem::decode(&json).unwrap().id, 1);
    let json = parse("{\"stream_id\": 2, \"series_id\": 3}").unwrap();
    assert_eq!(CatalogItem::decode(&json).unwrap().id, 3);
    let json = parse("{\"stream_id\": 2}").unwrap();
    assert_eq!(CatalogItem::decode(&json).unwrap().id, 2);
}

#[test]
fn catalog_item_from_a_live_entry() {
    let json = parse(
        "{\"num\": 1, \"name\": \"News\", \"stream_id\": \"17\", \"stream_icon\": null, \
         \"added\": \"1700000000\", \"rating\": \"\"}",
    )
    .unwrap();
    assert_eq!(
        CatalogItem::decode(&json),
        Ok(CatalogItem {
            id: 17,
            name: "News".to_string(),
            icon: String::new(),
            added: Some(1700000000),
            rating: None,
            episode_id: None,
            container_extension: None,
        })
    );
}

#[test]
fn catalog_item_from_a_series_entry() {
    let json = parse(
        "{\"series_id\": 5, \"name\": \"Show\", \"cover\": \"http://i/c.png\", \
         \"last_modified\": 1700000001, \"rating\": 8.25}",
    )
    .unwrap();
    assert_eq!(
        CatalogItem::decode(&json),
        Ok(CatalogItem {
            id: 5,
            name: "Show".to_string(),
            icon: "http://i/c.png".to_string(),
            added: Some(1700000001),
            rating: Some(8250),
            episode_id: None,
            container_extension: None,
        })
    );
}

#[test]
fn catalog_item_needs_an_id_and_an_object() {
    assert_eq!(CatalogItem::decode(&parse("{\"name\": \"x\"}").unwrap()), Err(ApiError::Serde));
    assert_eq!(CatalogItem::decode(&parse("[]").unwrap()), Err(ApiError::Serde));
    assert_eq!(CatalogItem::decode(&parse("null").unwrap()), Err(ApiError::Serde));
    assert_eq!(
        CatalogItem::decode(&parse("{\"id\": 1, \"name\": 5}").unwrap()),
        Err(ApiError::Serde)
    );
    assert_eq!(
        CatalogItem::decode(&parse("{\"id\": 1, \"added\": []}").unwrap()),
        Err(ApiError::Serde)
    );
}

#[test]
fn list_of_items() {
    let json = parse("[{\"id\": 1}, {\"id\": \"2\"}]").unwrap();
    let items: Vec<CatalogItem> = decode_list(&json).unwrap();
    assert_eq!(items.len(), 2);
    assert_eq!(items[0].id, 1);
    assert_eq!(items[1].id, 2);
    let empty: Vec<CatalogItem> = decode_list(&parse("[]").unwrap()).unwrap();
    assert!(empty.is_empty());
}

#[test]
fn list_with_a_bad_item_fails() {
    let json = parse("[{\"id\": 1}, {\"id\": true}]").unwrap();
    assert_eq!(decode_list::<CatalogItem>(&json), Err(ApiError::Serde));
    assert_eq!(decode_list::<CatalogItem>(&parse("{}").unwrap()), Err(ApiError::Serde));
}

#[test]
fn movie_detail() {
    let body = "{\"info\": {\"name\": \"M\", \"movie_image\": \"img\", \"rating\": \"7.5\", \
                \"plot\": null, \"duration\": \"01:30:00\"}, \
                \"movie_data\": {\"stream_id\": 9, \"added\": \"100\", \"name\": \"Movie\", \
                \"container_extension\": \"mkv\"}}";
    let movie: MovieInfo = get_record(&answer(body)).unwrap();
    assert_eq!(movie.info.name, "M");
    assert_eq!(movie.info.icon, "img");
    assert_eq!(movie.info.rating, Some(7500));
    assert_eq!(movie.info.plot, "");
    assert_eq!(movie.info.duration, "01:30:00");
    assert_eq!(movie.info.last_modified, None);
    assert_eq!(movie.data.id, 9);
    assert_eq!(movie.data.added, Some(100));
    assert_eq!(movie.data.name, "Movie");
    assert_eq!(movie.data.container_extension, "mkv");
    let item = CatalogItem::from_movie_info(movie);
    assert_eq!(
        item,
        CatalogItem {
            id: 9,
            name: "Movie".to_string(),
            icon: "img".to_string(),
            added: Some(100),
            rating: Some(7500),
            episode_id: None,
            container_extension: Some("mkv".to_string()),
        }
    );
}

#[test]
fn movie_detail_needs_both_parts() {
    assert_eq!(get_record::<MovieInfo>(&answer("{\"info\": {}}")), Err(ApiError::Serde));
    assert_eq!(
        get_record::<MovieInfo>(&answer("{\"movie_data\": {\"id\": 1}}")),
        Err(ApiError::Serde)
    );
    assert_eq!(
        get_record::<MovieInfo>(&answer("{\"info\": [], \"movie_data\": {\"id\": 1}}")),
        Err(ApiError::Serde)
    );
}

#[test]
fn series_detail() {
    let body = "{\"info\": {\"name\": \"S\", \"cover\": \"c\", \"last_modified\": \"55\"}, \
                \"seasons\": [{\"poster_path\": \"p\"}, {}], \
                \"episodes\": {\"1\": [{\"id\": \"11\", \"title\": \"Pilot\", \
                \"container_extension\": \"mp4\", \"info\": {\"movie_image\": \"e\"}}], \
                \"2\": [{\"id\": 21, \"info\": {}}, {\"id\": 22, \"container_extension\": \"avi\", \
                \"info\": {}}]}}";
    let serie: SerieInfo = get_record(&answer(body)).unwrap();
    assert_eq!(serie.info.name, "S");
    assert_eq!(serie.info.icon, "c");
    assert_eq!(serie.info.last_modified, Some(55));
    assert_eq!(serie.seasons.len(), 2);
    assert_eq!(serie.seasons[0].poster_path, "p");
    assert_eq!(serie.seasons[1].poster_path, "");
    assert_eq!(serie.episodes.len(), 2);
    assert_eq!(serie.episodes[0].season, "1");
    assert_eq!(serie.episodes[0].episodes[0].id, 11);
    assert_eq!(serie.episodes[0].episodes[0].title, "Pilot");
    assert_eq!(serie.episodes[0].episodes[0].info.image, "e");
    assert_eq!(serie.episodes[1].season, "2");
    assert_eq!(serie.episodes[1].episodes.len(), 2);
    assert_eq!(serie.find_episode(22).unwrap().container_extension, "avi");
    assert_eq!(serie.find_episode(11).unwrap().container_extension, "mp4");
    assert!(serie.find_episode(12).is_none());
}

#[test]
fn episode_needs_an_id() {
    let body = "{\"info\": {}, \"seasons\": [], \"episodes\": {\"1\": [{\"info\": {}}]}}";
    assert_eq!(get_record::<SerieInfo>(&answer(body)), Err(ApiError::Serde));
}

#[test]
fn programme_guide() {
    let body = "{\"epg_listings\": [{\"title\": \"T\", \"description\": null, \
                \"start_timestamp\": \"10\", \"stop_timestamp\": 20}]}";
    let guide: EpgListings = get_record(&answer(body)).unwrap();
    assert_eq!(
        guide.epg_listings,
        vec![Epg {
            title: "T".to_string(),
            description: String::new(),
            start_timestamp: 10,
            stop_timestamp: 20,
        }]
    );
    assert_eq!(get_record::<EpgListings>(&answer("{}")), Err(ApiError::Serde));
}

#[test]
fn categories() {
    let body = "[{\"category_id\": \"3\", \"category_name\": \"Sport\", \"parent_id\": 0}]";
    let list: Vec<Category> = get_records(&answer(body)).unwrap();
    assert_eq!(list, vec![Category { id: 3, name: "Sport".to_string() }]);
}

#[test]
fn account_answer() {
    let body = "{\"user_info\": {\"auth\": 1, \"status\": \"Active\", \"is_trial\": \"0\", \
                \"exp_date\": \"1800000000\", \"created_at\": null, \"active_cons\": \"\", \
                \"max_connections\": \"2\"}, \"server_info\": {}}";
    let response: LoginResponse = get_record(&answer(body)).unwrap();
    assert_eq!(
        response.user_info,
        UserInfo {
            id: 0,
            auth: 1,
            status: "Active".to_string(),
            is_trial: 0,
            exp_date: 1800000000,
            created_at: 0,
            active_cons: 0,
            max_connections: 2,
        }
    );
}

#[test]
fn account_answer_without_auth_reads_as_zero() {
    let response: LoginResponse = get_record(&answer("{\"user_info\": {}}")).unwrap();
    assert_eq!(response.user_info.auth, 0);
    assert_eq!(get_record::<LoginResponse>(&answer("{}")), Err(ApiError::Serde));
}

#[test]
fn the_three_upstream_failures_are_told_apart() {
    assert_eq!(get_json(&Outcome::Unreachable), Err(ApiError::Reqwest));
    for status in [100, 199, 300, 301, 404, 500, 503] {
        let outcome = Outcome::Answer { status, body: "[]".to_string() };
        assert_eq!(get_json(&outcome), Err(ApiError::RequestServerError));
    }
    assert_eq!(get_json(&answer("not json")), Err(ApiError::Serde));
    for status in [200, 204, 299] {
        let outcome = Outcome::Answer { status, body: "[]".to_string() };
        assert_eq!(get_json(&outcome), Ok(Json::Array(vec![])));
    }
    assert_eq!(get_records::<CatalogItem>(&Outcome::Unreachable), Err(ApiError::Reqwest));
}
