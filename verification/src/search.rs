//! Searching catalog items by the words of their names, with the
//! `indicium` crate's index.

use crate::api_error::{ApiError, ApiResult};
use crate::get::CatalogItem;
use crate::rows::Row;
use vstd::prelude::*;

verus! {

/// `indicium::simple::SearchIndex`: an index from keywords to keys.
#[verifier::external_type_specification]
#[verifier::external_body]
#[verifier::reject_recursive_types(K)]
pub struct ExSearchIndex<K: Ord>(indicium::simple::SearchIndex<K>);

/// `kstring::KStringBase`: the keywords of an index, which it hands out
/// where it is read as the map that it is.
#[verifier::external_type_specification]
#[verifier::external_body]
#[verifier::reject_recursive_types(B)]
pub struct ExKStringBase<B>(kstring::KStringBase<B>);

/// `std::string::FromUtf8Error`: why bytes are no text.
#[verifier::external_type_specification]
#[verifier::external_body]
pub struct ExFromUtf8Error(std::string::FromUtf8Error);

/// The keys that an index holds: those under any of its keywords.
pub uninterp spec fn held_keys(index: indicium::simple::SearchIndex<usize>) -> Set<usize>;

/// The text that a percent-encoded text stands for, where it stands for one.
pub uninterp spec fn percent_decoded(text: Seq<char>) -> Option<Seq<char>>;

/// `SearchIndexBuilder::default`, `search_type`, `exclude_keywords` and
/// `build`: an index that holds no key. It is set to find the keys that
/// stand under every keyword of a search, and to leave no keyword out.
#[verifier::external_body]
fn new_index() -> (r: indicium::simple::SearchIndex<usize>)
    ensures
        held_keys(r) == Set::<usize>::empty(),
{
    indicium::simple::SearchIndexBuilder::default()
        .search_type(indicium::simple::SearchType::And)
        .exclude_keywords(None)
        .build()
}

/// `SearchIndex::insert`: the key is put under the keywords of the text.
/// No key leaves the index, and none but this one enters it; whether this
/// one enters depends on the keywords that the text has.
#[verifier::external_body]
fn insert(index: &mut indicium::simple::SearchIndex<usize>, key: usize, text: &String)
    ensures
        held_keys(*old(index)).subset_of(held_keys(*final(index))),
        held_keys(*final(index)).subset_of(held_keys(*old(index)).insert(key)),
{
    index.insert(&key, text)
}

/// `SearchIndex::search`, on an index that `new_index` made: the keys
/// found are keys that the index holds, each once, in rising order. Which
/// of the keys are found is not said.
#[verifier::external_body]
fn hits(index: &indicium::simple::SearchIndex<usize>, text: &str) -> (r: Vec<usize>)
    ensures
        forall|j: int| 0 <= j < r@.len() ==> held_keys(*index).contains(#[trigger] r@[j]),
        forall|i: int, j: int| 0 <= i < j < r@.len() ==> r@[i] < r@[j],
{
    index.search(text).into_iter().copied().collect()
}

/// `urlencoding::decode`: the text with every `%xx` replaced by the byte
/// that it names, where the bytes are then a text.
#[verifier::external_body]
fn percent_decode(text: &str) -> (r: Result<String, std::string::FromUtf8Error>)
    ensures
        match r {
            Ok(decoded) => percent_decoded(text@) == Some(decoded@),
            Err(_) => percent_decoded(text@) is None,
        },
{
    urlencoding::decode(text).map(|decoded| decoded.into_owned())
}

impl From<std::string::FromUtf8Error> for ApiError {
    fn from(error: std::string::FromUtf8Error) -> (r: ApiError) {
        ApiError::FromUtf8
    }
}

impl vstd::std_specs::convert::FromSpecImpl<std::string::FromUtf8Error> for ApiError {
    open spec fn obeys_from_spec() -> bool {
        true
    }

    open spec fn from_spec(error: std::string::FromUtf8Error) -> ApiError {
        ApiError::FromUtf8
    }
}

/// Whether the places rise, each a place of a list of this length.
pub open spec fn rising_below(places: Seq<usize>, len: nat) -> bool {
    &&& forall|j: int| 0 <= j < places.len() ==> (#[trigger] places[j]) < len
    &&& forall|i: int, j: int| 0 <= i < j < places.len() ==> places[i] < places[j]
}

/// The items at the places that are places of the list, in the order of the places.
pub open spec fn picked(list: Seq<CatalogItem>, places: Seq<usize>) -> Seq<CatalogItem>
    decreases places.len(),
{
    if places.len() == 0 {
        Seq::empty()
    } else if places.last() < list.len() {
        picked(list, places.drop_last()).push(list[places.last() as int])
    } else {
        picked(list, places.drop_last())
    }
}

/// Copies of the items at the places that are places of the list.
pub fn pick(list: &Vec<CatalogItem>, places: &Vec<usize>) -> (r: Vec<CatalogItem>)
    ensures
        r@ == picked(list@, places@),
{
    let mut out: Vec<CatalogItem> = Vec::new();
    let mut i: usize = 0;
    assert(places@.take(0) =~= Seq::<usize>::empty());
    while i < places.len()
        invariant
            i <= places.len(),
            out@ == picked(list@, places@.take(i as int)),
        decreases places.len() - i,
    {
        proof {
            let next = places@.take(i + 1);
            assert(next.drop_last() =~= places@.take(i as int));
            assert(next.last() == places@[i as int]);
        }
        let place: usize = places[i];
        if place < list.len() {
            out.push(list[place].duplicate());
        }
        i += 1;
    }
    assert(places@.take(places.len() as int) =~= places@);
    out
}

/// The text that is searched for, from the form in which a request carries
/// it; `FromUtf8` where the request carries no text.
pub open spec fn search_text(text: Seq<char>) -> ApiResult<Seq<char>> {
    match percent_decoded(text) {
        Some(decoded) => Ok(decoded),
        None => Err(ApiError::FromUtf8),
    }
}

/// Where every place is a place of the list, every place gives its item.
pub proof fn lemma_picked_all(list: Seq<CatalogItem>, places: Seq<usize>)
    requires
        forall|j: int| 0 <= j < places.len() ==> (#[trigger] places[j]) < list.len(),
    ensures
        picked(list, places).len() == places.len(),
        forall|j: int|
            0 <= j < places.len() ==> (#[trigger] picked(list, places)[j]) == list[places[j] as int],
    decreases places.len(),
{
    if places.len() > 0 {
        let front = places.drop_last();
        assert forall|j: int| 0 <= j < front.len() implies (#[trigger] front[j]) < list.len() by {
            assert(front[j] == places[j]);
        }
        lemma_picked_all(list, front);
        assert(places[places.len() - 1] < list.len());
        assert forall|j: int| 0 <= j < places.len() implies (#[trigger] picked(list, places)[j])
            == list[places[j] as int] by {
            if j < front.len() {
                assert(front[j] == places[j]);
                assert(picked(list, places)[j] == picked(list, front)[j]);
            }
        }
    }
}

/// Searches a list for a text, which comes in the form in which a request
/// carries it. What is found are items of the list, each once, in the
/// order of the list; which of them, the index decides.
pub fn search(list: &Vec<CatalogItem>, text: &str) -> (r: ApiResult<Vec<CatalogItem>>)
    ensures
        match search_text(text@) {
            Err(e) => r == Err::<Vec<CatalogItem>, ApiError>(e),
            Ok(_) => r is Ok && exists|places: Seq<usize>|
                rising_below(places, list@.len()) && r->Ok_0@ == #[trigger] picked(list@, places),
        },
{
    let decoded: String = match percent_decode(text) {
        Ok(decoded) => decoded,
        Err(error) => { return Err(ApiError::from(error)); },
    };
    let mut index = new_index();
    let mut i: usize = 0;
    while i < list.len()
        invariant
            i <= list.len(),
            forall|k: usize| held_keys(index).contains(k) ==> k < i,
        decreases list.len() - i,
    {
        insert(&mut index, i, &list[i].name);
        i += 1;
    }
    let places: Vec<usize> = hits(&index, decoded.as_str());
    assert(rising_below(places@, list@.len()));
    Ok(pick(list, &places))
}

} // verus!
