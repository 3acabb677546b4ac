//! The catalog as the gateway hands it on: items, details, programme guides
//! and categories.

use crate::api_error::{ApiError, ApiResult};
use crate::entities::prelude::UserInfo;
use crate::extra::{
    default_on_null, document_of, get_json, lifted, num_from_str_or_num, number_rule,
    opt_num_from_str_or_num, optional_rule, rating_from_str_or_num, rating_rule, text_rule, IdType,
    Outcome, Params,
};
use crate::json::{same_text, Json};
use crate::login::LoginResponse;
use vstd::prelude::*;

verus! {

/// A record that is read from a JSON value.
pub trait Decode: Sized {
    /// Whether `record` is what the value decodes to.
    spec fn decodes(json: Json, record: Self) -> bool;

    /// The record that the value decodes to; `Serde` where it decodes to none.
    fn decode(json: &Json) -> (r: ApiResult<Self>)
        ensures
            match r {
                Ok(record) => Self::decodes(*json, record),
                Err(e) => e == ApiError::Serde && forall|record: Self| !Self::decodes(*json, record),
            },
    ;
}

/// The number of a field that must be there: a missing field is an error,
/// and a field that is there is read as every number is.
pub open spec fn required_rule(field: Option<Json>) -> ApiResult<i64> {
    match field {
        None => Err(ApiError::Serde),
        Some(json) => number_rule(Some(json)),
    }
}

/// Reads the number of a field that must be there.
pub fn required_number(field: Option<&Json>) -> (r: ApiResult<i64>)
    ensures
        r == required_rule(lifted(field)),
{
    match field {
        None => Err(ApiError::Serde),
        Some(json) => num_from_str_or_num(Some(json)),
    }
}

/// Whether the records are what the items of an array decode to, one for one.
pub open spec fn list_decodes<T: Decode>(json: Json, records: Seq<T>) -> bool {
    match json {
        Json::Array(items) => {
            &&& items@.len() == records.len()
            &&& forall|i: int| 0 <= i < records.len() ==> T::decodes(items@[i], #[trigger] records[i])
        },
        _ => false,
    }
}

/// The records that the items of an array decode to; `Serde` where the
/// value is no array or an item decodes to none.
pub fn decode_list<T: Decode>(json: &Json) -> (r: ApiResult<Vec<T>>)
    ensures
        match r {
            Ok(records) => list_decodes(*json, records@),
            Err(e) => e == ApiError::Serde && forall|records: Seq<T>| !list_decodes(*json, records),
        },
{
    match json {
        Json::Array(items) => {
            let mut out: Vec<T> = Vec::new();
            let mut i: usize = 0;
            while i < items.len()
                invariant
                    i <= items.len(),
                    json == Json::Array(*items),
                    out@.len() == i,
                    forall|k: int| 0 <= k < i ==> T::decodes(items@[k], #[trigger] out@[k]),
                decreases items.len() - i,
            {
                match T::decode(&items[i]) {
                    Ok(record) => {
                        out.push(record);
                    },
                    Err(e) => {
                        assert forall|records: Seq<T>| !list_decodes(*json, records) by {
                            if list_decodes(*json, records) {
                                assert(T::decodes(items@[i as int], records[i as int]));
                            }
                        }
                        return Err(e);
                    },
                }
                i += 1;
            }
            Ok(out)
        },
        _ => Err(ApiError::Serde),
    }
}

/// The record that an upstream answer decodes to.
pub fn get_record<T: Decode>(outcome: &Outcome) -> (r: ApiResult<T>)
    ensures
        match document_of(*outcome) {
            Err(e) => r == Err::<T, ApiError>(e),
            Ok(json) => match r {
                Ok(record) => T::decodes(json, record),
                Err(e) => e == ApiError::Serde && forall|record: T| !T::decodes(json, record),
            },
        },
{
    match get_json(outcome) {
        Err(e) => Err(e),
        Ok(json) => T::decode(&json),
    }
}

/// The records that an upstream answer, an array, decodes to.
pub fn get_records<T: Decode>(outcome: &Outcome) -> (r: ApiResult<Vec<T>>)
    ensures
        match document_of(*outcome) {
            Err(e) => r == Err::<Vec<T>, ApiError>(e),
            Ok(json) => match r {
                Ok(records) => list_decodes(json, records@),
                Err(e) => e == ApiError::Serde && forall|records: Seq<T>|
                    !list_decodes(json, records),
            },
        },
{
    match get_json(outcome) {
        Err(e) => Err(e),
        Ok(json) => decode_list(&json),
    }
}

/// The three kinds of content that the catalog holds.
#[derive(Clone, Copy, Debug, PartialEq, Eq, Structural)]
pub enum Kind {
    Live,
    Movie,
    Serie,
}

impl Kind {
    /// The name by which a request speaks of the kind.
    pub open spec fn spec_name(&self) -> Seq<char> {
        match self {
            Kind::Live => "live"@,
            Kind::Movie => "movie"@,
            Kind::Serie => "serie"@,
        }
    }

    /// The name by which a request speaks of the kind.
    pub fn name(&self) -> (r: &'static str)
        ensures
            r@ == self.spec_name(),
    {
        match self {
            Kind::Live => "live",
            Kind::Movie => "movie",
            Kind::Serie => "serie",
        }
    }

    /// The kind that a request speaks of by a name.
    pub open spec fn spec_named(name: Seq<char>) -> Option<Kind> {
        if name == "live"@ {
            Some(Kind::Live)
        } else if name == "movie"@ {
            Some(Kind::Movie)
        } else if name == "serie"@ {
            Some(Kind::Serie)
        } else {
            None
        }
    }

    /// The kind that a request speaks of by a name.
    pub fn named(name: &str) -> (r: Option<Kind>)
        ensures
            r == Kind::spec_named(name@),
    {
        if same_text(name, "live") {
            Some(Kind::Live)
        } else if same_text(name, "movie") {
            Some(Kind::Movie)
        } else if same_text(name, "serie") {
            Some(Kind::Serie)
        } else {
            None
        }
    }
}

/// One programme of a channel's guide.
#[derive(Clone, Debug, PartialEq, Eq)]
pub struct Epg {
    pub title: String,
    pub description: String,
    pub start_timestamp: i64,
    pub stop_timestamp: i64,
}

/// What the catalog tells about a movie or a series.
#[derive(Clone, Debug, PartialEq, Eq)]
pub struct Info {
    pub name: String,
    pub plot: String,
    pub cast: String,
    pub genre: String,
    pub duration: String,
    pub director: String,
    pub youtube_trailer: String,
    pub icon: String,
    /// In thousandths of a point; absent where the upstream gave none.
    pub rating: Option<i64>,
    pub last_modified: Option<i64>,
}

/// The file of a movie.
#[derive(Clone, Debug, PartialEq, Eq)]
pub struct MovieData {
    pub id: i64,
    pub added: Option<i64>,
    pub name: String,
    pub container_extension: String,
}

/// The detail of one movie.
#[derive(Clone, Debug, PartialEq, Eq)]
pub struct MovieInfo {
    pub info: Info,
    pub data: MovieData,
}

#[derive(Clone, Debug, PartialEq, Eq)]
pub struct Season {
    pub poster_path: String,
}

#[derive(Clone, Debug, PartialEq, Eq)]
pub struct EpisodeInfo {
    pub image: String,
}

/// One episode of a series.
#[derive(Clone, Debug, PartialEq, Eq)]
pub struct Episode {
    pub id: i64,
    pub title: String,
    pub container_extension: String,
    pub info: EpisodeInfo,
}

/// The episodes of one season, under the season's name.
#[derive(Clone, Debug, PartialEq, Eq)]
pub struct SeasonEpisodes {
    pub season: String,
    pub episodes: Vec<Episode>,
}

/// The detail of one series.
#[derive(Clone, Debug, PartialEq, Eq)]
pub struct SerieInfo {
    pub info: Info,
    pub seasons: Vec<Season>,
    /// Season by season, in the order in which the upstream's answer holds them.
    pub episodes: Vec<SeasonEpisodes>,
}

/// A category of the catalog.
#[derive(Clone, Debug, PartialEq, Eq)]
pub struct Category {
    pub id: i64,
    pub name: String,
}

/// An item of the catalog, in the one shape that lists of channels, movies
/// and series share.
#[derive(Clone, Debug, PartialEq, Eq)]
pub struct CatalogItem {
    pub id: i64,
    pub name: String,
    pub icon: String,
    /// The instant, in seconds, at which the item entered the catalog.
    pub added: Option<i64>,
    /// In thousandths of a point; absent where the upstream gave none.
    pub rating: Option<i64>,
    pub episode_id: Option<i64>,
    pub container_extension: Option<String>,
}

/// The episodes of all seasons, one season after the other.
pub open spec fn all_episodes(seasons: Seq<SeasonEpisodes>) -> Seq<Episode>
    decreases seasons.len(),
{
    if seasons.len() == 0 {
        Seq::empty()
    } else {
        all_episodes(seasons.drop_last()) + seasons.last().episodes@
    }
}

/// Whether `i` is the place, among all episodes, of the first with this id.
pub open spec fn is_first_episode(episodes: Seq<Episode>, id: i64, i: int) -> bool {
    &&& 0 <= i < episodes.len()
    &&& episodes[i].id == id
    &&& forall|j: int| 0 <= j < i ==> (#[trigger] episodes[j]).id != id
}

/// Whether an episode has this id.
pub open spec fn has_episode(episodes: Seq<Episode>, id: i64) -> bool {
    exists|i: int| 0 <= i < episodes.len() && (#[trigger] episodes[i]).id == id
}

/// The first episode with this id, if there is one.
pub open spec fn episode_with(episodes: Seq<Episode>, id: i64) -> Option<Episode> {
    if has_episode(episodes, id) {
        Some(episodes[choose|i: int| is_first_episode(episodes, id, i)])
    } else {
        None
    }
}

proof fn lemma_least_episode(episodes: Seq<Episode>, id: i64, w: int)
    requires
        0 <= w < episodes.len(),
        episodes[w].id == id,
    ensures
        exists|i: int| is_first_episode(episodes, id, i),
    decreases w,
{
    if exists|j: int| 0 <= j < w && (#[trigger] episodes[j]).id == id {
        let j = choose|j: int| 0 <= j < w && (#[trigger] episodes[j]).id == id;
        lemma_least_episode(episodes, id, j);
    } else {
        assert(is_first_episode(episodes, id, w));
    }
}

/// The episode that `episode_with` names is the first with the id.
pub proof fn lemma_episode_with(episodes: Seq<Episode>, id: i64, i: int)
    requires
        is_first_episode(episodes, id, i),
    ensures
        episode_with(episodes, id) == Some(episodes[i]),
{
    let k = choose|k: int| is_first_episode(episodes, id, k);
    if k < i {
        assert(episodes[k].id != id);
    } else if i < k {
        assert(episodes[i].id != id);
    }
}

impl SerieInfo {
    /// The episodes of the series, season after season.
    pub open spec fn spec_episodes(&self) -> Seq<Episode> {
        all_episodes(self.episodes@)
    }

    /// The first episode of the series that has this id.
    pub fn find_episode(&self, id: i64) -> (r: Option<&Episode>)
        ensures
            r == match episode_with(self.spec_episodes(), id) {
                Some(episode) => Some(&episode),
                None => None,
            },
    {
        let mut s: usize = 0;
        assert(self.episodes@.take(0) =~= Seq::<SeasonEpisodes>::empty());
        while s < self.episodes.len()
            invariant
                s <= self.episodes.len(),
                !has_episode(all_episodes(self.episodes@.take(s as int)), id),
            decreases self.episodes.len() - s,
        {
            let season: &SeasonEpisodes = &self.episodes[s];
            let ghost before = all_episodes(self.episodes@.take(s as int));
            let mut e: usize = 0;
            while e < season.episodes.len()
                invariant
                    e <= season.episodes.len(),
                    s < self.episodes.len(),
                    season == self.episodes@[s as int],
                    before == all_episodes(self.episodes@.take(s as int)),
                    !has_episode(before, id),
                    forall|j: int| 0 <= j < e ==> (#[trigger] season.episodes@[j]).id != id,
                decreases season.episodes.len() - e,
            {
                if season.episodes[e].id == id {
                    proof {
                        let all = self.spec_episodes();
                        let at = before.len() + e;
                        lemma_prefix(self.episodes@, s as int + 1);
                        assert(self.episodes@.take(s as int + 1).drop_last() =~= self.episodes@.take(
                            s as int,
                        ));
                        let upto = all_episodes(self.episodes@.take(s as int + 1));
                        assert(upto == before + season.episodes@);
                        assert(upto[at] == season.episodes@[e as int]);
                        assert(all[at] == season.episodes@[e as int]);
                        assert forall|j: int| 0 <= j < at implies (#[trigger] all[j]).id != id by {
                            assert(all[j] == upto[j]);
                            if j < before.len() {
                                assert(before[j] == upto[j]);
                            } else {
                                assert(upto[j] == season.episodes@[j - before.len()]);
                            }
                        }
                        assert(is_first_episode(all, id, at));
                        lemma_episode_with(all, id, at);
                    }
                    return Some(&season.episodes[e]);
                }
                e += 1;
            }
            proof {
                assert(self.episodes@.take(s as int + 1).drop_last() =~= self.episodes@.take(s as int));
                let upto = all_episodes(self.episodes@.take(s as int + 1));
                assert(upto == before + season.episodes@);
                assert forall|j: int| 0 <= j < upto.len() implies (#[trigger] upto[j]).id != id by {
                    if j < before.len() {
                        assert(before[j] == upto[j]);
                    } else {
                        assert(upto[j] == season.episodes@[j - before.len()]);
                    }
                }
            }
            s += 1;
        }
        assert(self.episodes@.take(self.episodes.len() as int) =~= self.episodes@);
        None
    }
}

/// The episodes of the first seasons are the first episodes of all seasons.
proof fn lemma_prefix(seasons: Seq<SeasonEpisodes>, n: int)
    requires
        0 <= n <= seasons.len(),
    ensures
        all_episodes(seasons.take(n)).len() <= all_episodes(seasons).len(),
        forall|j: int|
            0 <= j < all_episodes(seasons.take(n)).len() ==> all_episodes(seasons)[j] == (
            #[trigger] all_episodes(seasons.take(n))[j]),
    decreases seasons.len(),
{
    if n == seasons.len() {
        assert(seasons.take(n) =~= seasons);
    } else {
        let front = seasons.drop_last();
        assert(front.take(n) =~= seasons.take(n));
        lemma_prefix(front, n);
    }
}

/// What the upstream told about the movie or the series that a request names.
#[derive(Clone, Debug, PartialEq, Eq)]
pub enum Detail {
    Movie(MovieInfo),
    Serie(SerieInfo),
}

impl CatalogItem {
    /// The catalog item that a movie's detail describes.
    pub open spec fn of_movie(movie_info: MovieInfo) -> CatalogItem {
        CatalogItem {
            id: movie_info.data.id,
            name: movie_info.data.name,
            icon: movie_info.info.icon,
            added: movie_info.data.added,
            rating: movie_info.info.rating,
            episode_id: None,
            container_extension: Some(movie_info.data.container_extension),
        }
    }

    /// The catalog item that a series' detail describes.
    pub open spec fn of_serie(
        serie_info: SerieInfo,
        value_id: i64,
        episode_id: Option<i64>,
        container_extension: Option<String>,
    ) -> CatalogItem {
        CatalogItem {
            id: value_id,
            name: serie_info.info.name,
            icon: serie_info.info.icon,
            added: serie_info.info.last_modified,
            rating: serie_info.info.rating,
            episode_id,
            container_extension,
        }
    }

    /// The catalog item that a movie's detail describes.
    pub fn from_movie_info(movie_info: MovieInfo) -> (r: CatalogItem)
        ensures
            r == CatalogItem::of_movie(movie_info),
    {
        CatalogItem {
            id: movie_info.data.id,
            name: movie_info.data.name,
            icon: movie_info.info.icon,
            added: movie_info.data.added,
            rating: movie_info.info.rating,
            episode_id: None,
            container_extension: Some(movie_info.data.container_extension),
        }
    }

    /// The catalog item that a series' detail describes, under the id by
    /// which the series was asked for, with the episode and the file
    /// extension that the caller found for it.
    pub fn from_serie_info(
        serie_info: SerieInfo,
        value_id: i64,
        episode_id: Option<i64>,
        container_extension: Option<String>,
    ) -> (r: CatalogItem)
        ensures
            r == CatalogItem::of_serie(serie_info, value_id, episode_id, container_extension),
    {
        CatalogItem {
            id: value_id,
            name: serie_info.info.name,
            icon: serie_info.info.icon,
            added: serie_info.info.last_modified,
            rating: serie_info.info.rating,
            episode_id,
            container_extension,
        }
    }
}

impl Decode for CatalogItem {
    open spec fn decodes(json: Json, record: CatalogItem) -> bool {
        &&& json is Object
        &&& required_rule(json.spec_get3("id"@, "series_id"@, "stream_id"@)) == Ok::<i64, ApiError>(
            record.id,
        )
        &&& text_rule(json.spec_get("name"@)) == Ok::<Seq<char>, ApiError>(record.name@)
        &&& text_rule(json.spec_get3("icon"@, "cover"@, "stream_icon"@)) == Ok::<Seq<char>, ApiError>(
            record.icon@,
        )
        &&& optional_rule(json.spec_get2("added"@, "last_modified"@)) == Ok::<Option<i64>, ApiError>(
            record.added,
        )
        &&& rating_rule(json.spec_get("rating"@)) == Ok::<Option<i64>, ApiError>(record.rating)
        &&& record.episode_id is None
        &&& record.container_extension is None
    }

    fn decode(json: &Json) -> (r: ApiResult<CatalogItem>) {
        if !json.is_object() {
            return Err(ApiError::Serde);
        }
        let id: i64 = required_number(json.get3("id", "series_id", "stream_id"))?;
        let name: String = default_on_null(json.get("name"))?;
        let icon: String = default_on_null(json.get3("icon", "cover", "stream_icon"))?;
        let added: Option<i64> = opt_num_from_str_or_num(json.get2("added", "last_modified"))?;
        let rating: Option<i64> = rating_from_str_or_num(json.get("rating"))?;
        Ok(CatalogItem { id, name, icon, added, rating, episode_id: None, container_extension: None })
    }
}

impl Decode for Epg {
    open spec fn decodes(json: Json, record: Epg) -> bool {
        &&& json is Object
        &&& text_rule(json.spec_get("title"@)) == Ok::<Seq<char>, ApiError>(record.title@)
        &&& text_rule(json.spec_get("description"@)) == Ok::<Seq<char>, ApiError>(
            record.description@,
        )
        &&& number_rule(json.spec_get("start_timestamp"@)) == Ok::<i64, ApiError>(
            record.start_timestamp,
        )
        &&& number_rule(json.spec_get("stop_timestamp"@)) == Ok::<i64, ApiError>(
            record.stop_timestamp,
        )
    }

    fn decode(json: &Json) -> (r: ApiResult<Epg>) {
        if !json.is_object() {
            return Err(ApiError::Serde);
        }
        let title: String = default_on_null(json.get("title"))?;
        let description: String = default_on_null(json.get("description"))?;
        let start_timestamp: i64 = num_from_str_or_num(json.get("start_timestamp"))?;
        let stop_timestamp: i64 = num_from_str_or_num(json.get("stop_timestamp"))?;
        Ok(Epg { title, description, start_timestamp, stop_timestamp })
    }
}

/// The programme guide that an answer holds under `epg_listings`.
#[derive(Clone, Debug, PartialEq, Eq)]
pub struct EpgListings {
    pub epg_listings: Vec<Epg>,
}

impl Decode for EpgListings {
    open spec fn decodes(json: Json, record: EpgListings) -> bool {
        match json.spec_get("epg_listings"@) {
            Some(list) => list_decodes(list, record.epg_listings@),
            None => false,
        }
    }

    fn decode(json: &Json) -> (r: ApiResult<EpgListings>) {
        match json.get("epg_listings") {
            Some(list) => {
                let epg_listings: Vec<Epg> = decode_list(list)?;
                Ok(EpgListings { epg_listings })
            },
            None => Err(ApiError::Serde),
        }
    }
}

impl Decode for Info {
    open spec fn decodes(json: Json, record: Info) -> bool {
        &&& json is Object
        &&& text_rule(json.spec_get("name"@)) == Ok::<Seq<char>, ApiError>(record.name@)
        &&& text_rule(json.spec_get("plot"@)) == Ok::<Seq<char>, ApiError>(record.plot@)
        &&& text_rule(json.spec_get("cast"@)) == Ok::<Seq<char>, ApiError>(record.cast@)
        &&& text_rule(json.spec_get("genre"@)) == Ok::<Seq<char>, ApiError>(record.genre@)
        &&& text_rule(json.spec_get("duration"@)) == Ok::<Seq<char>, ApiError>(record.duration@)
        &&& text_rule(json.spec_get("director"@)) == Ok::<Seq<char>, ApiError>(record.director@)
        &&& text_rule(json.spec_get("youtube_trailer"@)) == Ok::<Seq<char>, ApiError>(
            record.youtube_trailer@,
        )
        &&& text_rule(json.spec_get3("icon"@, "cover"@, "movie_image"@)) == Ok::<Seq<char>, ApiError>(
            record.icon@,
        )
        &&& rating_rule(json.spec_get("rating"@)) == Ok::<Option<i64>, ApiError>(record.rating)
        &&& optional_rule(json.spec_get("last_modified"@)) == Ok::<Option<i64>, ApiError>(
            record.last_modified,
        )
    }

    fn decode(json: &Json) -> (r: ApiResult<Info>) {
        if !json.is_object() {
            return Err(ApiError::Serde);
        }
        let name: String = default_on_null(json.get("name"))?;
        let plot: String = default_on_null(json.get("plot"))?;
        let cast: String = default_on_null(json.get("cast"))?;
        let genre: String = default_on_null(json.get("genre"))?;
        let duration: String = default_on_null(json.get("duration"))?;
        let director: String = default_on_null(json.get("director"))?;
        let youtube_trailer: String = default_on_null(json.get("youtube_trailer"))?;
        let icon: String = default_on_null(json.get3("icon", "cover", "movie_image"))?;
        let rating: Option<i64> = rating_from_str_or_num(json.get("rating"))?;
        let last_modified: Option<i64> = opt_num_from_str_or_num(json.get("last_modified"))?;
        Ok(
            Info {
                name,
                plot,
                cast,
                genre,
                duration,
                director,
                youtube_trailer,
                icon,
                rating,
                last_modified,
            },
        )
    }
}

impl Decode for MovieData {
    open spec fn decodes(json: Json, record: MovieData) -> bool {
        &&& json is Object
        &&& required_rule(json.spec_get2("id"@, "stream_id"@)) == Ok::<i64, ApiError>(record.id)
        &&& optional_rule(json.spec_get("added"@)) == Ok::<Option<i64>, ApiError>(record.added)
        &&& text_rule(json.spec_get("name"@)) == Ok::<Seq<char>, ApiError>(record.name@)
        &&& text_rule(json.spec_get("container_extension"@)) == Ok::<Seq<char>, ApiError>(
            record.container_extension@,
        )
    }

    fn decode(json: &Json) -> (r: ApiResult<MovieData>) {
        if !json.is_object() {
            return Err(ApiError::Serde);
        }
        let id: i64 = required_number(json.get2("id", "stream_id"))?;
        let added: Option<i64> = opt_num_from_str_or_num(json.get("added"))?;
        let name: String = default_on_null(json.get("name"))?;
        let container_extension: String = default_on_null(json.get("container_extension"))?;
        Ok(MovieData { id, added, name, container_extension })
    }
}

impl Decode for MovieInfo {
    open spec fn decodes(json: Json, record: MovieInfo) -> bool {
        &&& json.spec_get("info"@) is Some
        &&& Info::decodes(json.spec_get("info"@)->Some_0, record.info)
        &&& json.spec_get2("data"@, "movie_data"@) is Some
        &&& MovieData::decodes(json.spec_get2("data"@, "movie_data"@)->Some_0, record.data)
    }

    fn decode(json: &Json) -> (r: ApiResult<MovieInfo>) {
        let info: Info = match json.get("info") {
            Some(value) => Info::decode(value)?,
            None => { return Err(ApiError::Serde); },
        };
        let data: MovieData = match json.get2("data", "movie_data") {
            Some(value) => MovieData::decode(value)?,
            None => { return Err(ApiError::Serde); },
        };
        Ok(MovieInfo { info, data })
    }
}

impl Decode for Season {
    open spec fn decodes(json: Json, record: Season) -> bool {
        &&& json is Object
        &&& text_rule(json.spec_get("poster_path"@)) == Ok::<Seq<char>, ApiError>(
            record.poster_path@,
        )
    }

    fn decode(json: &Json) -> (r: ApiResult<Season>) {
        if !json.is_object() {
            return Err(ApiError::Serde);
        }
        let poster_path: String = default_on_null(json.get("poster_path"))?;
        Ok(Season { poster_path })
    }
}

impl Decode for EpisodeInfo {
    open spec fn decodes(json: Json, record: EpisodeInfo) -> bool {
        &&& json is Object
        &&& text_rule(json.spec_get2("image"@, "movie_image"@)) == Ok::<Seq<char>, ApiError>(
            record.image@,
        )
    }

    fn decode(json: &Json) -> (r: ApiResult<EpisodeInfo>) {
        if !json.is_object() {
            return Err(ApiError::Serde);
        }
        let image: String = default_on_null(json.get2("image", "movie_image"))?;
        Ok(EpisodeInfo { image })
    }
}

impl Decode for Episode {
    open spec fn decodes(json: Json, record: Episode) -> bool {
        &&& required_rule(json.spec_get("id"@)) == Ok::<i64, ApiError>(record.id)
        &&& text_rule(json.spec_get("title"@)) == Ok::<Seq<char>, ApiError>(record.title@)
        &&& text_rule(json.spec_get("container_extension"@)) == Ok::<Seq<char>, ApiError>(
            record.container_extension@,
        )
        &&& json.spec_get("info"@) is Some
        &&& EpisodeInfo::decodes(json.spec_get("info"@)->Some_0, record.info)
    }

    fn decode(json: &Json) -> (r: ApiResult<Episode>) {
        let id: i64 = required_number(json.get("id"))?;
        let title: String = default_on_null(json.get("title"))?;
        let container_extension: String = default_on_null(json.get("container_extension"))?;
        let info: EpisodeInfo = match json.get("info") {
            Some(value) => EpisodeInfo::decode(value)?,
            None => { return Err(ApiError::Serde); },
        };
        Ok(Episode { id, title, container_extension, info })
    }
}

/// Whether the seasons are what the members of an object decode to, one
/// for one: each member's name is a season, and its value the season's episodes.
pub open spec fn seasons_decode(json: Json, seasons: Seq<SeasonEpisodes>) -> bool {
    match json {
        Json::Object(members) => {
            &&& members@.len() == seasons.len()
            &&& forall|i: int|
                0 <= i < seasons.len() ==> {
                    &&& (#[trigger] seasons[i]).season@ == members@[i].name@
                    &&& list_decodes(members@[i].value, seasons[i].episodes@)
                }
        },
        _ => false,
    }
}

/// The seasons that the members of an object decode to.
pub fn decode_seasons(json: &Json) -> (r: ApiResult<Vec<SeasonEpisodes>>)
    ensures
        match r {
            Ok(seasons) => seasons_decode(*json, seasons@),
            Err(e) => e == ApiError::Serde && forall|seasons: Seq<SeasonEpisodes>|
                !seasons_decode(*json, seasons),
        },
{
    match json {
        Json::Object(members) => {
            let mut out: Vec<SeasonEpisodes> = Vec::new();
            let mut i: usize = 0;
            while i < members.len()
                invariant
                    i <= members.len(),
                    json == Json::Object(*members),
                    out@.len() == i,
                    forall|k: int|
                        0 <= k < i ==> {
                            &&& (#[trigger] out@[k]).season@ == members@[k].name@
                            &&& list_decodes(members@[k].value, out@[k].episodes@)
                        },
                decreases members.len() - i,
            {
                match decode_list::<Episode>(&members[i].value) {
                    Ok(episodes) => {
                        out.push(SeasonEpisodes { season: members[i].name.clone(), episodes });
                    },
                    Err(e) => {
                        assert forall|seasons: Seq<SeasonEpisodes>| !seasons_decode(
                            *json,
                            seasons,
                        ) by {
                            if seasons_decode(*json, seasons) {
                                assert(list_decodes(
                                    members@[i as int].value,
                                    seasons[i as int].episodes@,
                                ));
                            }
                        }
                        return Err(e);
                    },
                }
                i += 1;
            }
            Ok(out)
        },
        _ => Err(ApiError::Serde),
    }
}

impl Decode for SerieInfo {
    open spec fn decodes(json: Json, record: SerieInfo) -> bool {
        &&& json.spec_get("info"@) is Some
        &&& Info::decodes(json.spec_get("info"@)->Some_0, record.info)
        &&& json.spec_get("seasons"@) is Some
        &&& list_decodes(json.spec_get("seasons"@)->Some_0, record.seasons@)
        &&& json.spec_get("episodes"@) is Some
        &&& seasons_decode(json.spec_get("episodes"@)->Some_0, record.episodes@)
    }

    fn decode(json: &Json) -> (r: ApiResult<SerieInfo>) {
        let info: Info = match json.get("info") {
            Some(value) => Info::decode(value)?,
            None => { return Err(ApiError::Serde); },
        };
        let seasons: Vec<Season> = match json.get("seasons") {
            Some(value) => decode_list(value)?,
            None => { return Err(ApiError::Serde); },
        };
        let episodes: Vec<SeasonEpisodes> = match json.get("episodes") {
            Some(value) => decode_seasons(value)?,
            None => { return Err(ApiError::Serde); },
        };
        Ok(SerieInfo { info, seasons, episodes })
    }
}

impl Decode for Category {
    open spec fn decodes(json: Json, record: Category) -> bool {
        &&& json is Object
        &&& required_rule(json.spec_get2("id"@, "category_id"@)) == Ok::<i64, ApiError>(record.id)
        &&& text_rule(json.spec_get2("name"@, "category_name"@)) == Ok::<Seq<char>, ApiError>(
            record.name@,
        )
    }

    fn decode(json: &Json) -> (r: ApiResult<Category>) {
        if !json.is_object() {
            return Err(ApiError::Serde);
        }
        let id: i64 = required_number(json.get2("id", "category_id"))?;
        let name: String = default_on_null(json.get2("name", "category_name"))?;
        Ok(Category { id, name })
    }
}

impl Decode for UserInfo {
    open spec fn decodes(json: Json, record: UserInfo) -> bool {
        &&& json is Object
        &&& record.id == 0
        &&& number_rule(json.spec_get("auth"@)) == Ok::<i64, ApiError>(record.auth)
        &&& text_rule(json.spec_get("status"@)) == Ok::<Seq<char>, ApiError>(record.status@)
        &&& number_rule(json.spec_get("is_trial"@)) == Ok::<i64, ApiError>(record.is_trial)
        &&& number_rule(json.spec_get("exp_date"@)) == Ok::<i64, ApiError>(record.exp_date)
        &&& number_rule(json.spec_get("created_at"@)) == Ok::<i64, ApiError>(record.created_at)
        &&& number_rule(json.spec_get("active_cons"@)) == Ok::<i64, ApiError>(record.active_cons)
        &&& number_rule(json.spec_get("max_connections"@)) == Ok::<i64, ApiError>(
            record.max_connections,
        )
    }

    fn decode(json: &Json) -> (r: ApiResult<UserInfo>) {
        if !json.is_object() {
            return Err(ApiError::Serde);
        }
        let auth: i64 = num_from_str_or_num(json.get("auth"))?;
        let status: String = default_on_null(json.get("status"))?;
        let is_trial: i64 = num_from_str_or_num(json.get("is_trial"))?;
        let exp_date: i64 = num_from_str_or_num(json.get("exp_date"))?;
        let created_at: i64 = num_from_str_or_num(json.get("created_at"))?;
        let active_cons: i64 = num_from_str_or_num(json.get("active_cons"))?;
        let max_connections: i64 = num_from_str_or_num(json.get("max_connections"))?;
        Ok(
            UserInfo {
                id: 0,
                auth,
                status,
                is_trial,
                exp_date,
                created_at,
                active_cons,
                max_connections,
            },
        )
    }
}

impl Decode for LoginResponse {
    open spec fn decodes(json: Json, record: LoginResponse) -> bool {
        &&& json.spec_get("user_info"@) is Some
        &&& UserInfo::decodes(json.spec_get("user_info"@)->Some_0, record.user_info)
    }

    fn decode(json: &Json) -> (r: ApiResult<LoginResponse>) {
        match json.get("user_info") {
            Some(value) => {
                let user_info: UserInfo = UserInfo::decode(value)?;
                Ok(LoginResponse { user_info })
            },
            None => Err(ApiError::Serde),
        }
    }
}

/// The request for the list of channels, of one category or of all.
pub fn get_lives<'a>(category_id: Option<i64>, params: Params<'a>) -> (r: Params<'a>)
    ensures
        r.login == params.login,
        r.action matches Some(action) && action@ == "get_live_streams"@,
        r.id == category_of(category_id),
{
    Params { login: params.login, action: Some("get_live_streams"), id: as_category(category_id) }
}

/// The request for the short programme guide of a channel.
pub fn get_live_epg<'a>(id: i64, params: Params<'a>) -> (r: Params<'a>)
    ensures
        r.login == params.login,
        r.action matches Some(action) && action@ == "get_short_epg"@,
        r.id == Some(IdType::Live(id)),
{
    Params { login: params.login, action: Some("get_short_epg"), id: Some(IdType::Live(id)) }
}

/// The request for the list of movies, of one category or of all.
pub fn get_movies<'a>(category_id: Option<i64>, params: Params<'a>) -> (r: Params<'a>)
    ensures
        r.login == params.login,
        r.action matches Some(action) && action@ == "get_vod_streams"@,
        r.id == category_of(category_id),
{
    Params { login: params.login, action: Some("get_vod_streams"), id: as_category(category_id) }
}

/// The request for the detail of a movie.
pub fn get_movie_info<'a>(id: i64, params: Params<'a>) -> (r: Params<'a>)
    ensures
        r.login == params.login,
        r.action matches Some(action) && action@ == "get_vod_info"@,
        r.id == Some(IdType::Movie(id)),
{
    Params { login: params.login, action: Some("get_vod_info"), id: Some(IdType::Movie(id)) }
}

/// The request for the list of series, of one category or of all.
pub fn get_series<'a>(category_id: Option<i64>, params: Params<'a>) -> (r: Params<'a>)
    ensures
        r.login == params.login,
        r.action matches Some(action) && action@ == "get_series"@,
        r.id == category_of(category_id),
{
    Params { login: params.login, action: Some("get_series"), id: as_category(category_id) }
}

/// The request for the detail of a series.
pub fn get_serie_info<'a>(id: i64, params: Params<'a>) -> (r: Params<'a>)
    ensures
        r.login == params.login,
        r.action matches Some(action) && action@ == "get_series_info"@,
        r.id == Some(IdType::Serie(id)),
{
    Params { login: params.login, action: Some("get_series_info"), id: Some(IdType::Serie(id)) }
}

/// The request for the categories of one kind of content.
pub fn get_categories<'a>(kind: &Kind, params: Params<'a>) -> (r: Params<'a>)
    ensures
        r.login == params.login,
        r.action matches Some(action) && action@ == (match kind {
            Kind::Live => "get_live_categories"@,
            Kind::Movie => "get_vod_categories"@,
            Kind::Serie => "get_series_categories"@,
        }),
        r.id is None,
{
    let action: &'static str = match kind {
        Kind::Live => "get_live_categories",
        Kind::Movie => "get_vod_categories",
        Kind::Serie => "get_series_categories",
    };
    Params { login: params.login, action: Some(action), id: None }
}

/// The action that asks for the list of one kind of content.
pub open spec fn list_action(kind: Kind) -> Seq<char> {
    match kind {
        Kind::Live => "get_live_streams"@,
        Kind::Movie => "get_vod_streams"@,
        Kind::Serie => "get_series"@,
    }
}

/// The action that asks for the detail of one item of a kind: for a
/// channel its short programme guide.
pub open spec fn detail_action(kind: Kind) -> Seq<char> {
    match kind {
        Kind::Live => "get_short_epg"@,
        Kind::Movie => "get_vod_info"@,
        Kind::Serie => "get_series_info"@,
    }
}

/// The identifier of one item of a kind.
pub open spec fn detail_id(kind: Kind, id: i64) -> IdType {
    match kind {
        Kind::Live => IdType::Live(id),
        Kind::Movie => IdType::Movie(id),
        Kind::Serie => IdType::Serie(id),
    }
}

/// The request for the list of one kind of content, of one category or of all.
pub fn get<'a>(kind: Kind, category_id: Option<i64>, params: Params<'a>) -> (r: Params<'a>)
    ensures
        r.login == params.login,
        r.action matches Some(action) && action@ == list_action(kind),
        r.id == category_of(category_id),
{
    match kind {
        Kind::Live => get_lives(category_id, params),
        Kind::Movie => get_movies(category_id, params),
        Kind::Serie => get_series(category_id, params),
    }
}

/// The request for the detail of one item of a kind.
pub fn info<'a>(kind: Kind, id: i64, params: Params<'a>) -> (r: Params<'a>)
    ensures
        r.login == params.login,
        r.action matches Some(action) && action@ == detail_action(kind),
        r.id == Some(detail_id(kind, id)),
{
    match kind {
        Kind::Live => get_live_epg(id, params),
        Kind::Movie => get_movie_info(id, params),
        Kind::Serie => get_serie_info(id, params),
    }
}

/// The identifier that narrows a list to a category, where one is asked for.
pub open spec fn category_of(category_id: Option<i64>) -> Option<IdType> {
    match category_id {
        Some(id) => Some(IdType::Category(id)),
        None => None,
    }
}

fn as_category(category_id: Option<i64>) -> (r: Option<IdType>)
    ensures
        r == category_of(category_id),
{
    match category_id {
        Some(id) => Some(IdType::Category(id)),
        None => None,
    }
}

} // verus!
