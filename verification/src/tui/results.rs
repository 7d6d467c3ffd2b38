//! The results of a search as the terminal UI holds them.

use vstd::prelude::*;
use vstd::string::*;
use crate::listing::stands_at;

verus! {

/// How many results a search in the terminal UI asks for.
pub const SEARCH_LIMIT: usize = 99;

/// The number of images on a page.
pub const PAGE_SIZE: usize = 9;

/// Search result from background task.
#[derive(Debug, Clone)]
pub struct SearchResult {
    /// Paths of the images that can be shown, best first.
    pub images: Vec<String>,
    /// Number of results found, shown or not.
    pub result_count: usize,
    /// The query that resulted in these search results.
    pub query: String,
}

/// A search result as plain data.
#[verifier::ext_equal]
pub struct ResultModel {
    pub images: Seq<Seq<char>>,
    pub result_count: int,
    pub query: Seq<char>,
}

impl View for SearchResult {
    type V = ResultModel;

    open spec fn view(&self) -> ResultModel {
        ResultModel {
            images: crate::text::texts(self.images@),
            result_count: self.result_count as int,
            query: self.query@,
        }
    }
}

/// What became of the thumbnail of one found image.
#[derive(Debug, Clone, Copy, PartialEq, Eq, Structural)]
pub enum ThumbnailOutcome {
    /// It has none stored.
    Absent,
    /// It was decoded.
    Decoded,
    /// It could not be decoded.
    Broken,
}

/// A found image and what became of its thumbnail.
#[derive(Debug, Clone)]
pub struct FoundImage {
    pub path: String,
    pub thumbnail: ThumbnailOutcome,
}

/// The paths of the found images that can be shown, in order.
pub open spec fn showable(found: Seq<FoundImage>) -> Seq<Seq<char>>
    decreases found.len(),
{
    if found.len() == 0 {
        Seq::empty()
    } else {
        let before = showable(found.drop_last());
        if found.last().thumbnail == ThumbnailOutcome::Decoded {
            before.push(found.last().path@)
        } else {
            before
        }
    }
}

/// Whether one of the thumbnails could not be decoded.
pub open spec fn any_broken(found: Seq<FoundImage>) -> bool {
    exists|i: int|
        0 <= i < found.len() && (#[trigger] found[i]).thumbnail == ThumbnailOutcome::Broken
}

/// The result of a search that gave up.
pub open spec fn empty_result(query: Seq<char>) -> ResultModel {
    ResultModel { images: Seq::empty(), result_count: 0, query }
}

/// The result of a background search. `found` is what the database gave, or
/// nothing where the search failed on the way (an error is shown as an empty
/// result, and so is an empty database). Images without a stored thumbnail
/// count, but are not shown; one that cannot be decoded fails the search.
pub fn handle_search(query: &str, found: Option<&Vec<FoundImage>>) -> (r: SearchResult)
    ensures
        match found {
            None => r@ == empty_result(query@),
            Some(list) => if any_broken(list@) {
                r@ == empty_result(query@)
            } else {
                r@ == (ResultModel {
                    images: showable(list@),
                    result_count: list@.len() as int,
                    query: query@,
                })
            },
        },
{
    let list: &Vec<FoundImage> = match found {
        Some(list) => list,
        None => {
            return empty_search(query);
        },
    };
    let mut images: Vec<String> = Vec::new();
    let mut i: usize = 0;
    assert(list@.take(0) == Seq::<FoundImage>::empty());
    assert(crate::text::texts(images@) == showable(list@.take(0)));
    while i < list.len()
        invariant
            i <= list@.len(),
            found == Some(list),
            forall|k: int|
                0 <= k < i ==> (#[trigger] list@[k]).thumbnail != ThumbnailOutcome::Broken,
            crate::text::texts(images@) == showable(list@.take(i as int)),
        decreases list@.len() - i,
    {
        proof {
            assert(list@.take(i + 1).drop_last() == list@.take(i as int));
            assert(list@.take(i + 1).last() == list@[i as int]);
        }
        match list[i].thumbnail {
            ThumbnailOutcome::Decoded => {
                let ghost before = images@;
                images.push(list[i].path.clone());
                assert(crate::text::texts(images@) == crate::text::texts(before).push(
                    list@[i as int].path@,
                ));
            },
            ThumbnailOutcome::Absent => {},
            ThumbnailOutcome::Broken => {
                assert(any_broken(list@));
                return empty_search(query);
            },
        }
        i = i + 1;
    }
    assert(list@.take(i as int) == list@);
    SearchResult { images, result_count: list.len(), query: query.to_owned() }
}

fn empty_search(query: &str) -> (r: SearchResult)
    ensures
        r@ == empty_result(query@),
{
    let images: Vec<String> = Vec::new();
    assert(crate::text::texts(images@) == Seq::<Seq<char>>::empty());
    SearchResult { images, result_count: 0, query: query.to_owned() }
}

/// A search never shows more images than it has found.
pub proof fn shown_are_found(found: Seq<FoundImage>)
    ensures
        showable(found).len() <= found.len(),
    decreases found.len(),
{
    if found.len() > 0 {
        shown_are_found(found.drop_last());
    }
}

proof fn showable_places(found: Seq<FoundImage>) -> (places: Seq<int>)
    ensures
        stands_at(showable(found), places, found_paths(found)),
        forall|k: int|
            0 <= k < found.len() ==> (places.contains(k) <==> (#[trigger] found[k]).thumbnail
                == ThumbnailOutcome::Decoded),
    decreases found.len(),
{
    if found.len() == 0 {
        Seq::empty()
    } else {
        let front = found.drop_last();
        let last = found.len() - 1;
        let before = showable_places(front);
        let keeps = found.last().thumbnail == ThumbnailOutcome::Decoded;
        let places = if keeps {
            before.push(last)
        } else {
            before
        };
        let paths = found_paths(found);
        assert forall|j: int| 0 <= j < places.len() implies 0 <= #[trigger] places[j] < paths.len()
            && showable(found)[j] == paths[places[j]] by {
            if j < before.len() {
                assert(places[j] == before[j]);
                assert(showable(found)[j] == showable(front)[j]);
                assert(found_paths(front)[before[j]] == paths[before[j]]);
            }
        }
        assert forall|k: int| 0 <= k < found.len() implies (places.contains(k) <==> (
        #[trigger] found[k]).thumbnail == ThumbnailOutcome::Decoded) by {
            if k < last {
                assert(front[k] == found[k]);
                if before.contains(k) {
                    let j = choose|j: int| 0 <= j < before.len() && before[j] == k;
                    assert(places[j] == k);
                }
                if places.contains(k) {
                    let j = choose|j: int| 0 <= j < places.len() && places[j] == k;
                    assert(before[j] == k);
                }
            } else {
                if keeps {
                    assert(places[before.len() as int] == k);
                }
                if places.contains(k) && !keeps {
                    let j = choose|j: int| 0 <= j < places.len() && places[j] == k;
                    assert(before[j] < front.len());
                }
            }
        }
        places
    }
}

/// The paths of found images.
pub open spec fn found_paths(found: Seq<FoundImage>) -> Seq<Seq<char>> {
    found.map_values(|f: FoundImage| f.path@)
}

/// Exactly the found images with a decoded thumbnail are shown, in the order
/// in which they were found: best first.
pub proof fn decoded_images_are_shown_in_order(found: Seq<FoundImage>)
    ensures
        exists|places: Seq<int>|
            {
                &&& #[trigger] stands_at(showable(found), places, found_paths(found))
                &&& forall|k: int|
                    0 <= k < found.len() ==> (places.contains(k) <==> (
                    #[trigger] found[k]).thumbnail == ThumbnailOutcome::Decoded)
            },
{
    let places = showable_places(found);
}

} // verus!
