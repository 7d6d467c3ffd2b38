//! Searching: the queries of the search engine, which results are shown where
//! a search is run, and how they are printed.

use vstd::prelude::*;
use vstd::string::*;
use base64::Engine;
use crate::database::{candidates, held, is_statement, Database, Statement};
use crate::filters::{filter_params, filter_sql, Filters};
use crate::path_model::{joined_path, within};
use crate::paths::{relative_to_abs_path, starts_with};
use crate::sql::SqlModel;
use crate::text::{decimal, push_char, push_decimal, texts};
use crate::units::MaxK;
use crate::vector_sql::{knn_sql, knn_sql_with};

verus! {

/// Searches over one database. The query embeddings are handed in normalized
/// and as little-endian bytes.
pub struct SearchEngine<'a> {
    db: &'a Database,
}

impl<'a> SearchEngine<'a> {
    /// The database that is searched.
    pub closed spec fn database(&self) -> Database {
        *self.db
    }

    pub fn new(db: &'a Database) -> (r: Self)
        ensures
            r.database() == *db,
    {
        SearchEngine { db }
    }

    /// The stored paths of the most similar images, with their distances.
    pub fn search(
        &self,
        vt: &str,
        embedding: Vec<u8>,
        limit: usize,
        threshold: &str,
        max_k: MaxK,
    ) -> (r: Statement)
        requires
            max_k.0 >= 1,
        ensures
            is_statement(
                r,
                knn_sql(
                    vt@,
                    "path, distance"@,
                    ""@,
                    ""@,
                    held(limit, max_k) as nat,
                    0,
                    threshold@,
                ),
                seq![SqlModel::Blob(embedding@)],
            ),
    {
        Database::search_similar_images(vt, embedding, limit, threshold, max_k)
    }

    /// One page of the most similar images that pass the filters.
    pub fn search_meta(
        &self,
        vt: &str,
        embedding: Vec<u8>,
        limit: usize,
        offset: usize,
        threshold: &str,
        max_k: MaxK,
        filters: &Filters,
    ) -> (r: Statement)
        requires
            offset + limit <= usize::MAX,
        ensures
            is_statement(
                r,
                knn_sql(
                    vt@,
                    "id, path, distance, file_size"@,
                    ""@,
                    filter_sql(filters@),
                    if limit < candidates(limit, offset, max_k) {
                        limit as nat
                    } else {
                        candidates(limit, offset, max_k) as nat
                    },
                    offset as nat,
                    threshold@,
                ),
                seq![SqlModel::Blob(embedding@)] + filter_params(filters@),
            ),
    {
        Database::search_similar_images_meta(vt, embedding, limit, offset, threshold, max_k, filters)
    }

    /// One page of the most similar images with their 300 px thumbnails.
    pub fn search_with_thumbnails_raw(
        &self,
        vt: &str,
        embedding: Vec<u8>,
        limit: usize,
        offset: usize,
        threshold: &str,
        max_k: MaxK,
    ) -> (r: Statement)
        requires
            max_k.0 >= 1,
        ensures
            is_statement(
                r,
                knn_sql_with(
                    vt@,
                    "path, distance, thumbnail_data"@,
                    ", t.thumbnail_data AS thumbnail_data"@,
                    "LEFT OUTER JOIN thumbnails t ON i.hash = t.image_hash AND t.size = 300"@,
                    ""@,
                    held(limit, max_k) as nat,
                    offset as nat,
                    threshold@,
                ),
                seq![SqlModel::Blob(embedding@)],
            ),
    {
        Database::search_similar_images_with_raw_blob(
            vt,
            embedding,
            limit,
            offset,
            threshold,
            max_k,
        )
    }
}

/// The character that stands for six bits in the standard base64 alphabet.
pub open spec fn base64_char(n: int) -> char {
    if n < 26 {
        ((65 + n) as u8) as char
    } else if n < 52 {
        ((71 + n) as u8) as char
    } else if n < 62 {
        ((n - 4) as u8) as char
    } else if n == 62 {
        '+'
    } else {
        '/'
    }
}

/// Bytes in standard base64 with padding: every three bytes, or what is left
/// of them, are four characters of six bits each.
pub open spec fn base64_text(bytes: Seq<u8>) -> Seq<char>
    decreases bytes.len(),
{
    if bytes.len() == 0 {
        Seq::empty()
    } else {
        let a = bytes[0] as int;
        let b = if bytes.len() > 1 {
            bytes[1] as int
        } else {
            0
        };
        let c = if bytes.len() > 2 {
            bytes[2] as int
        } else {
            0
        };
        seq![
            base64_char(a / 4),
            base64_char(a % 4 * 16 + b / 16),
            if bytes.len() > 1 {
                base64_char(b % 16 * 4 + c / 64)
            } else {
                '='
            },
            if bytes.len() > 2 {
                base64_char(c % 64)
            } else {
                '='
            },
        ] + if bytes.len() > 3 {
            base64_text(bytes.skip(3))
        } else {
            Seq::empty()
        }
    }
}

/// Trusted: `general_purpose::STANDARD.encode` of the `base64` crate. It gives
/// the bytes in standard base64 with padding; the text has to fit into memory.
#[verifier::external_body]
fn base64_encode(bytes: &Vec<u8>) -> (r: String)
    requires
        (bytes@.len() + 2) / 3 * 4 <= isize::MAX,
    ensures
        r@ == base64_text(bytes@),
{
    base64::engine::general_purpose::STANDARD.encode(bytes)
}

/// A found image with its thumbnail, if it has one, as stored.
#[derive(Debug)]
pub struct RawHit {
    pub path: String,
    /// The bits of the single-precision cosine distance.
    pub distance_bits: u32,
    pub thumbnail: Option<Vec<u8>>,
}

/// A found image with its thumbnail as text.
#[derive(Debug)]
pub struct EncodedHit {
    pub path: String,
    pub distance_bits: u32,
    pub thumbnail_base64: Option<String>,
}

/// Whether `e` is `h` with its thumbnail as text.
pub open spec fn encodes(e: EncodedHit, h: RawHit) -> bool {
    &&& e.path@ == h.path@
    &&& e.distance_bits == h.distance_bits
    &&& match h.thumbnail {
        Some(b) => e.thumbnail_base64 matches Some(t) && t@ == base64_text(b@),
        None => e.thumbnail_base64 is None,
    }
}

/// Search results with their thumbnails as base64 text, in the same order.
pub fn search_with_thumbnails(hits: &Vec<RawHit>) -> (r: Vec<EncodedHit>)
    requires
        forall|i: int|
            0 <= i < hits@.len() ==> ((#[trigger] hits@[i]).thumbnail matches Some(b) ==> (b@.len()
                + 2) / 3 * 4 <= isize::MAX),
    ensures
        r@.len() == hits@.len(),
        forall|i: int| 0 <= i < r@.len() ==> encodes(#[trigger] r@[i], hits@[i]),
{
    let mut out: Vec<EncodedHit> = Vec::new();
    let mut i: usize = 0;
    while i < hits.len()
        invariant
            i <= hits@.len(),
            forall|k: int|
                0 <= k < hits@.len() ==> ((#[trigger] hits@[k]).thumbnail matches Some(b) ==> (
                b@.len() + 2) / 3 * 4 <= isize::MAX),
            out@.len() == i,
            forall|k: int| 0 <= k < i ==> encodes(#[trigger] out@[k], hits@[k]),
        decreases hits@.len() - i,
    {
        let hit: &RawHit = &hits[i];
        out.push(
            EncodedHit {
                path: hit.path.clone(),
                distance_bits: hit.distance_bits,
                thumbnail_base64: match &hit.thumbnail {
                    Some(b) => Some(base64_encode(b)),
                    None => None,
                },
            },
        );
        i = i + 1;
    }
    out
}

/// A search result: its stored path, and the bits of its cosine distance.
#[derive(Debug, Clone)]
pub struct Hit {
    pub path: String,
    pub distance_bits: u32,
}

/// A result as plain data.
pub struct HitModel {
    pub path: Seq<char>,
    pub distance_bits: u32,
}

impl View for Hit {
    type V = HitModel;

    open spec fn view(&self) -> HitModel {
        HitModel { path: self.path@, distance_bits: self.distance_bits }
    }
}

/// Results as plain data.
pub open spec fn hit_models(hits: Seq<Hit>) -> Seq<HitModel> {
    hits.map_values(|h: Hit| h@)
}

/// Absolute forms of stored paths, each resolved against the directory of the
/// database (and not against the current one).
pub fn absolute_paths(hits: &Vec<Hit>, parent_dir: &str) -> (r: Vec<String>)
    ensures
        r@.len() == hits@.len(),
        forall|i: int|
            0 <= i < r@.len() ==> (#[trigger] r@[i])@ == joined_path(parent_dir@, hits@[i].path@),
{
    let mut out: Vec<String> = Vec::new();
    let mut i: usize = 0;
    while i < hits.len()
        invariant
            i <= hits@.len(),
            out@.len() == i,
            forall|k: int|
                0 <= k < i ==> (#[trigger] out@[k])@ == joined_path(parent_dir@, hits@[k].path@),
        decreases hits@.len() - i,
    {
        out.push(relative_to_abs_path(hits[i].path.as_str(), parent_dir));
        i = i + 1;
    }
    out
}

/// The results that pass the location filter, in order.
pub open spec fn located(
    hits: Seq<HitModel>,
    real_paths: Seq<Seq<char>>,
    current_dir: Seq<char>,
    all: bool,
) -> Seq<HitModel>
    decreases hits.len(),
{
    if hits.len() == 0 || real_paths.len() == 0 {
        Seq::empty()
    } else {
        let before = located(hits.drop_last(), real_paths.drop_last(), current_dir, all);
        if all || within(real_paths.last(), current_dir) {
            before.push(hits.last())
        } else {
            before
        }
    }
}

/// The first `limit` elements of a list.
pub open spec fn first_of<T>(list: Seq<T>, limit: usize) -> Seq<T> {
    if list.len() <= limit {
        list
    } else {
        list.take(limit as int)
    }
}

/// Filter results to those under `current_dir`, truncated to `limit`; `all`
/// lets every result through. `real_paths` are the results' absolute paths
/// and `current_dir` the current directory, both with links resolved where
/// that was possible.
pub fn filter_results(
    hits: &Vec<Hit>,
    real_paths: &Vec<String>,
    current_dir: &str,
    all: bool,
    limit: usize,
) -> (r: Vec<Hit>)
    requires
        hits@.len() == real_paths@.len(),
    ensures
        hit_models(r@) == first_of(
            located(hit_models(hits@), texts(real_paths@), current_dir@, all),
            limit,
        ),
        all ==> hit_models(r@) == hit_models(hits@).take(
            if limit <= hits@.len() {
                limit as int
            } else {
                hits@.len() as int
            },
        ),
        !all ==> exists|places: Seq<int>| #[trigger]
            best_within(
                hit_models(r@),
                places,
                hit_models(hits@),
                texts(real_paths@),
                current_dir@,
            ),
        !all ==> r@.len() == if limit <= count_within(texts(real_paths@), current_dir@) {
            limit as nat
        } else {
            count_within(texts(real_paths@), current_dir@)
        },
{
    let mut out: Vec<Hit> = Vec::new();
    let ghost hs = hit_models(hits@);
    let ghost ps = texts(real_paths@);
    let ghost mut passed: Seq<HitModel> = Seq::empty();
    let mut i: usize = 0;
    proof {
        assert(hs.take(0) == Seq::<HitModel>::empty());
        assert(hit_models(out@) == first_of(passed, limit));
    }
    while i < hits.len()
        invariant
            i <= hits@.len(),
            hits@.len() == real_paths@.len(),
            hs == hit_models(hits@),
            ps == texts(real_paths@),
            passed == located(hs.take(i as int), ps.take(i as int), current_dir@, all),
            hit_models(out@) == first_of(passed, limit),
        decreases hits@.len() - i,
    {
        proof {
            assert(hs.take(i + 1).drop_last() == hs.take(i as int));
            assert(ps.take(i + 1).drop_last() == ps.take(i as int));
            assert(hs.take(i + 1).last() == hits@[i as int]@);
            assert(ps.take(i + 1).last() == real_paths@[i as int]@);
        }
        if all || starts_with(real_paths[i].as_str(), current_dir) {
            let ghost before = out@;
            let ghost more = passed.push(hits@[i as int]@);
            assert(hit_models(out@).len() == out@.len());
            if out.len() < limit {
                out.push(Hit { path: hits[i].path.clone(), distance_bits: hits[i].distance_bits });
                assert(hit_models(out@) == hit_models(before).push(hits@[i as int]@));
                assert(first_of(more, limit) == more);
            } else {
                assert(first_of(more, limit) == first_of(passed, limit));
            }
            proof {
                passed = more;
            }
        }
        i = i + 1;
    }
    proof {
        assert(hs.take(i as int) == hs);
        assert(ps.take(i as int) == ps);
        assert(hit_models(out@).len() == out@.len());
        if all {
            all_bypasses_the_location(hs, ps, current_dir@);
        } else {
            the_best_matches_are_shown_first(hs, ps, current_dir@, limit);
        }
    }
    out
}

/// Without `all`, only results under the current directory are shown, and all
/// of them are: each shown result is one of those found, at a place whose path
/// lies within the directory, and each found one there is among the shown.
pub proof fn shown_results_lie_within(
    hits: Seq<HitModel>,
    real_paths: Seq<Seq<char>>,
    current_dir: Seq<char>,
)
    requires
        hits.len() == real_paths.len(),
    ensures
        forall|j: int|
            0 <= j < located(hits, real_paths, current_dir, false).len() ==> exists|k: int|
                0 <= k < hits.len() && within(real_paths[k], current_dir) && #[trigger] hits[k]
                    == #[trigger] located(hits, real_paths, current_dir, false)[j],
        forall|k: int|
            0 <= k < hits.len() && within(real_paths[k], current_dir) ==> located(
                hits,
                real_paths,
                current_dir,
                false,
            ).contains(#[trigger] hits[k]),
    decreases hits.len(),
{
    if hits.len() > 0 {
        let front = hits.drop_last();
        let paths = real_paths.drop_last();
        shown_results_lie_within(front, paths, current_dir);
        let before = located(front, paths, current_dir, false);
        let now = located(hits, real_paths, current_dir, false);
        assert forall|j: int| 0 <= j < now.len() implies exists|k: int|
            0 <= k < hits.len() && within(real_paths[k], current_dir) && #[trigger] hits[k]
                == #[trigger] now[j] by {
            if j < before.len() {
                assert(now[j] == before[j]);
                let k = choose|k: int|
                    0 <= k < front.len() && within(paths[k], current_dir) && #[trigger] front[k]
                        == before[j];
                assert(hits[k] == front[k] && real_paths[k] == paths[k]);
            } else {
                let k = hits.len() - 1;
                assert(hits[k] == now[j]);
            }
        }
        assert forall|k: int|
            0 <= k < hits.len() && within(real_paths[k], current_dir) implies now.contains(
            #[trigger] hits[k],
        ) by {
            if k < front.len() {
                assert(front[k] == hits[k] && paths[k] == real_paths[k]);
                assert(before.contains(front[k]));
                let j = choose|j: int| 0 <= j < before.len() && before[j] == front[k];
                assert(now[j] == hits[k]);
            } else {
                assert(now[now.len() - 1] == hits[k]);
            }
        }
    }
}

/// Whether `shown` are the best of the found results under a directory, best
/// first: the j-th of them stands at `places[j]` among those found, its path
/// there lies within the directory, the places rise, and no place under the
/// directory is passed over on the way to a shown one.
pub open spec fn best_within(
    shown: Seq<HitModel>,
    places: Seq<int>,
    hits: Seq<HitModel>,
    real_paths: Seq<Seq<char>>,
    current_dir: Seq<char>,
) -> bool {
    &&& places.len() == shown.len()
    &&& forall|i: int, j: int| 0 <= i < j < places.len() ==> places[i] < places[j]
    &&& forall|j: int|
        0 <= j < places.len() ==> {
            &&& 0 <= #[trigger] places[j] < hits.len()
            &&& shown[j] == hits[places[j]]
            &&& within(real_paths[places[j]], current_dir)
        }
    &&& forall|k: int, j: int|
        0 <= k < hits.len() && within(#[trigger] real_paths[k], current_dir) && 0 <= j
            < places.len() && k < #[trigger] places[j] ==> places.contains(k)
}

/// How many of the paths lie within a directory.
pub open spec fn count_within(real_paths: Seq<Seq<char>>, current_dir: Seq<char>) -> nat {
    real_paths.filter(|p: Seq<char>| within(p, current_dir)).len()
}

proof fn located_places(
    hits: Seq<HitModel>,
    real_paths: Seq<Seq<char>>,
    current_dir: Seq<char>,
) -> (places: Seq<int>)
    requires
        hits.len() == real_paths.len(),
    ensures
        best_within(
            located(hits, real_paths, current_dir, false),
            places,
            hits,
            real_paths,
            current_dir,
        ),
        forall|k: int|
            0 <= k < hits.len() && within(#[trigger] real_paths[k], current_dir)
                ==> places.contains(k),
        places.len() == count_within(real_paths, current_dir),
    decreases hits.len(),
{
    reveal(Seq::filter);
    if hits.len() == 0 {
        Seq::empty()
    } else {
        let front = hits.drop_last();
        let paths = real_paths.drop_last();
        let last = hits.len() - 1;
        let before = located_places(front, paths, current_dir);
        let keeps = within(real_paths.last(), current_dir);
        let places = if keeps {
            before.push(last)
        } else {
            before
        };
        let shown = located(hits, real_paths, current_dir, false);
        assert(shown == if keeps {
            located(front, paths, current_dir, false).push(hits.last())
        } else {
            located(front, paths, current_dir, false)
        });
        assert forall|j: int| 0 <= j < places.len() implies 0 <= #[trigger] places[j] < hits.len()
            && shown[j] == hits[places[j]] && within(real_paths[places[j]], current_dir) by {
            if j < before.len() {
                assert(places[j] == before[j]);
                assert(front[before[j]] == hits[before[j]]);
                assert(paths[before[j]] == real_paths[before[j]]);
            }
        }
        assert forall|k: int|
            0 <= k < hits.len() && within(#[trigger] real_paths[k], current_dir) implies places.contains(
        k) by {
            if k < last {
                assert(paths[k] == real_paths[k]);
                assert(before.contains(k));
                let j = choose|j: int| 0 <= j < before.len() && before[j] == k;
                assert(places[j] == k);
            } else {
                assert(places[before.len() as int] == k);
            }
        }
        places
    }
}

proof fn shown_places(
    hits: Seq<HitModel>,
    real_paths: Seq<Seq<char>>,
    current_dir: Seq<char>,
    limit: usize,
) -> (places: Seq<int>)
    requires
        hits.len() == real_paths.len(),
    ensures
        best_within(
            first_of(located(hits, real_paths, current_dir, false), limit),
            places,
            hits,
            real_paths,
            current_dir,
        ),
        places.len() <= limit,
        places.len() <= count_within(real_paths, current_dir),
        places.len() == limit || places.len() == count_within(real_paths, current_dir),
{
    let every = located_places(hits, real_paths, current_dir);
    let places = first_of(every, limit);
    assert forall|k: int, j: int|
        0 <= k < hits.len() && within(#[trigger] real_paths[k], current_dir) && 0 <= j
            < places.len() && k < #[trigger] places[j] implies places.contains(k) by {
        assert(every.contains(k));
        let i = choose|i: int| 0 <= i < every.len() && every[i] == k;
        if i >= j {
            assert(every[j] <= every[i]);
        }
        assert(places[i] == k);
    }
    places
}

/// The shown results are the best matches under the current directory, best
/// first: they keep the order in which they were found, none under the
/// directory is passed over in favour of a worse one, and their number is the
/// smaller of `limit` and the number of found ones under the directory.
pub proof fn the_best_matches_are_shown_first(
    hits: Seq<HitModel>,
    real_paths: Seq<Seq<char>>,
    current_dir: Seq<char>,
    limit: usize,
)
    requires
        hits.len() == real_paths.len(),
    ensures
        exists|places: Seq<int>| #[trigger]
            best_within(
                first_of(located(hits, real_paths, current_dir, false), limit),
                places,
                hits,
                real_paths,
                current_dir,
            ),
        first_of(located(hits, real_paths, current_dir, false), limit).len() == if limit
            <= count_within(real_paths, current_dir) {
            limit as nat
        } else {
            count_within(real_paths, current_dir)
        },
{
    let places = shown_places(hits, real_paths, current_dir, limit);
}

/// A larger limit only adds results at the end.
pub proof fn a_larger_limit_adds_at_the_end(
    hits: Seq<HitModel>,
    real_paths: Seq<Seq<char>>,
    current_dir: Seq<char>,
    all: bool,
    limit: usize,
    more: usize,
)
    requires
        limit <= more,
    ensures
        first_of(located(hits, real_paths, current_dir, all), limit).is_prefix_of(
            first_of(located(hits, real_paths, current_dir, all), more),
        ),
{
}

/// With `all`, the location of a result makes no difference: the first
/// `limit` results are shown.
pub proof fn all_bypasses_the_location(
    hits: Seq<HitModel>,
    real_paths: Seq<Seq<char>>,
    current_dir: Seq<char>,
)
    requires
        hits.len() == real_paths.len(),
    ensures
        located(hits, real_paths, current_dir, true) == hits,
    decreases hits.len(),
{
    if hits.len() > 0 {
        all_bypasses_the_location(hits.drop_last(), real_paths.drop_last(), current_dir);
        assert(hits.drop_last().push(hits.last()) == hits);
    } else {
        assert(located(hits, real_paths, current_dir, true) == hits);
    }
}

/// With `all`, what is shown are the first of the found results, as many as
/// `limit` allows, wherever they lie.
pub proof fn all_shows_the_first_found(
    hits: Seq<HitModel>,
    real_paths: Seq<Seq<char>>,
    current_dir: Seq<char>,
    limit: usize,
)
    requires
        hits.len() == real_paths.len(),
    ensures
        ({
            let shown = first_of(located(hits, real_paths, current_dir, true), limit);
            &&& shown.len() <= limit
            &&& shown.len() == limit || shown.len() == hits.len()
            &&& forall|j: int| 0 <= j < shown.len() ==> #[trigger] shown[j] == hits[j]
        }),
{
    all_bypasses_the_location(hits, real_paths, current_dir);
}

/// A result that is printed: its stored path and its similarity, as a number
/// with four decimals.
#[derive(Debug, Clone)]
pub struct ShownHit {
    pub path: String,
    pub similarity: String,
}

/// A result that is printed, as plain data.
pub struct ShownModel {
    pub path: Seq<char>,
    pub similarity: Seq<char>,
}

impl View for ShownHit {
    type V = ShownModel;

    open spec fn view(&self) -> ShownModel {
        ShownModel { path: self.path@, similarity: self.similarity@ }
    }
}

/// Something to print.
#[derive(Debug, PartialEq)]
pub enum Output {
    /// A line of text.
    Line(String),
    /// The picture in this file.
    Picture(String),
}

/// Something to print, as plain data.
pub enum OutputModel {
    Line(Seq<char>),
    Picture(Seq<char>),
}

impl View for Output {
    type V = OutputModel;

    open spec fn view(&self) -> OutputModel {
        match *self {
            Output::Line(s) => OutputModel::Line(s@),
            Output::Picture(s) => OutputModel::Picture(s@),
        }
    }
}

/// Outputs as plain data.
pub open spec fn outputs(list: Seq<Output>) -> Seq<OutputModel> {
    list.map_values(|o: Output| o@)
}

/// `n` blanks.
pub open spec fn blanks(n: int) -> Seq<char> {
    Seq::new(
        if n > 0 {
            n as nat
        } else {
            0
        },
        |i: int| ' ',
    )
}

/// The line of one result: its rank, three wide; its path, sixty wide; and
/// its similarity.
pub open spec fn hit_line(rank: nat, hit: ShownModel) -> Seq<char> {
    blanks(3 - decimal(rank).len()) + decimal(rank) + ". "@ + hit.path + blanks(
        60 - hit.path.len(),
    ) + " (similarity: "@ + hit.similarity + ")"@
}

/// What is printed for one result.
pub open spec fn hit_outputs(
    rank: nat,
    hit: ShownModel,
    short: bool,
    display: bool,
    parent_dir: Seq<char>,
) -> Seq<OutputModel> {
    seq![
        OutputModel::Line(
            if short {
                hit.path
            } else {
                hit_line(rank, hit)
            },
        ),
    ] + if display {
        seq![OutputModel::Picture(joined_path(parent_dir, hit.path))]
    } else {
        Seq::empty()
    }
}

/// What is printed for the first `n` results.
pub open spec fn hits_outputs(
    hits: Seq<ShownModel>,
    n: nat,
    short: bool,
    display: bool,
    parent_dir: Seq<char>,
) -> Seq<OutputModel>
    decreases n,
{
    if n == 0 {
        Seq::empty()
    } else {
        hits_outputs(hits, (n - 1) as nat, short, display, parent_dir) + hit_outputs(
            n,
            hits[n - 1],
            short,
            display,
            parent_dir,
        )
    }
}

/// The head line of a list of results.
pub open spec fn head_line(count: nat, prompt: Seq<char>, all: bool) -> Seq<char> {
    "\nFound "@ + decimal(count) + " result"@ + (if count == 1 {
        ""@
    } else {
        "s"@
    }) + " for \""@ + prompt + "\" in "@ + (if all {
        "the database"@
    } else {
        "the current directory and subdirectories"@
    }) + ":\n"@
}

/// What is printed where nothing was found.
pub open spec fn nothing_found(prompt: Seq<char>, short: bool, all: bool) -> Seq<OutputModel> {
    if short {
        Seq::empty()
    } else {
        seq![
            OutputModel::Line(
                "No images found matching the query \""@ + prompt + if all {
                    "\"."@
                } else {
                    "\" in the current directory or subdirectories."@
                },
            ),
            OutputModel::Line("Try running 'imgfind index' to index the current directory."@),
        ]
    }
}

/// Everything that a search prints.
pub open spec fn report(
    hits: Seq<ShownModel>,
    prompt: Seq<char>,
    short: bool,
    all: bool,
    display: bool,
    parent_dir: Seq<char>,
) -> Seq<OutputModel> {
    if hits.len() == 0 {
        nothing_found(prompt, short, all)
    } else if short {
        hits_outputs(hits, hits.len(), true, display, parent_dir)
    } else {
        seq![OutputModel::Line(head_line(hits.len(), prompt, all))] + hits_outputs(
            hits,
            hits.len(),
            false,
            display,
            parent_dir,
        ) + seq![OutputModel::Line(""@)]
    }
}

proof fn hits_outputs_at(
    hits: Seq<ShownModel>,
    n: nat,
    short: bool,
    display: bool,
    parent_dir: Seq<char>,
)
    requires
        n <= hits.len(),
    ensures
        ({
            let all = hits_outputs(hits, n, short, display, parent_dir);
            let step: int = if display {
                2
            } else {
                1
            };
            &&& all.len() == n * step
            &&& forall|i: int|
                0 <= i < n ==> all[i * step] == OutputModel::Line(
                    if short {
                        (#[trigger] hits[i]).path
                    } else {
                        hit_line((i + 1) as nat, hits[i])
                    },
                )
            &&& display ==> forall|i: int|
                0 <= i < n ==> all[i * 2 + 1] == OutputModel::Picture(
                    joined_path(parent_dir, (#[trigger] hits[i]).path),
                )
        }),
    decreases n,
{
    if n > 0 {
        hits_outputs_at(hits, (n - 1) as nat, short, display, parent_dir);
    }
}

/// Every result is printed once, best first: the i-th result has the i-th
/// line, behind the head line where there is one; with `display` each line
/// is followed by the picture of that very result. In the short form the
/// line is the bare path.
pub proof fn every_result_has_its_line(
    hits: Seq<ShownModel>,
    prompt: Seq<char>,
    short: bool,
    all: bool,
    display: bool,
    parent_dir: Seq<char>,
    i: int,
)
    requires
        0 <= i < hits.len(),
    ensures
        ({
            let printed = report(hits, prompt, short, all, display, parent_dir);
            let head: int = if short {
                0
            } else {
                1
            };
            let step: int = if display {
                2
            } else {
                1
            };
            &&& printed.len() == hits.len() * step + 2 * head
            &&& short ==> printed[i * step] == OutputModel::Line(hits[i].path)
            &&& !short ==> printed[1 + i * step] == OutputModel::Line(
                hit_line((i + 1) as nat, hits[i]),
            )
            &&& display ==> printed[head + i * 2 + 1] == OutputModel::Picture(
                joined_path(parent_dir, hits[i].path),
            )
            &&& !short ==> printed.last() == OutputModel::Line(""@)
        }),
{
    hits_outputs_at(hits, hits.len(), short, display, parent_dir);
    let step: int = if display {
        2
    } else {
        1
    };
    assert(0 <= i * step && i * step + step <= hits.len() * step) by (nonlinear_arith)
        requires
            0 <= i < hits.len(),
            step == 1 || step == 2,
    ;
}

/// The lines of the results stand in columns: where the rank has at most
/// three digits and the path at most sixty characters, every path begins in
/// the same column and so does every similarity; and the rank stands before
/// the dot.
pub proof fn result_lines_are_aligned(rank: nat, hit: ShownModel)
    requires
        decimal(rank).len() <= 3,
        hit.path.len() <= 60,
    ensures
        ({
            let line = hit_line(rank, hit);
            &&& line.subrange(3 - decimal(rank).len(), 3) == decimal(rank)
            &&& line[3] == '.'
            &&& line.subrange(5, 5 + hit.path.len() as int) == hit.path
            &&& line.subrange(65, 79) == " (similarity: "@
            &&& line.subrange(79, 79 + hit.similarity.len() as int) == hit.similarity
            &&& line.last() == ')'
            &&& line.len() == 80 + hit.similarity.len()
        }),
{
    reveal_strlit(". ");
    reveal_strlit(" (similarity: ");
    reveal_strlit(")");
    let line = hit_line(rank, hit);
    assert(line.subrange(3 - decimal(rank).len(), 3) == decimal(rank));
    assert(line.subrange(5, 5 + hit.path.len() as int) == hit.path);
    assert(line.subrange(65, 79) == " (similarity: "@);
    assert(line.subrange(79, 79 + hit.similarity.len() as int) == hit.similarity);
}

fn push_blanks(out: &mut String, n: usize)
    ensures
        final(out)@ == old(out)@ + blanks(n as int),
{
    let ghost start = out@;
    let mut i: usize = 0;
    assert(start + blanks(0) == start);
    while i < n
        invariant
            i <= n,
            out@ == start + blanks(i as int),
        decreases n - i,
    {
        push_char(out, ' ');
        i = i + 1;
        assert(out@ == start + blanks(i as int));
    }
}

fn hit_line_text(rank: usize, hit: &ShownHit) -> (r: String)
    ensures
        r@ == hit_line(rank as nat, hit@),
{
    let mut number: String = String::new();
    push_decimal(&mut number, rank as u64);
    assert(number@ == decimal(rank as nat));
    let width: usize = number.as_str().unicode_len();
    let mut out: String = String::new();
    if width < 3 {
        push_blanks(&mut out, 3 - width);
    }
    assert(out@ == blanks(3 - decimal(rank as nat).len()));
    out.append(number.as_str());
    out.append(". ");
    out.append(hit.path.as_str());
    let ghost head = out@;
    let len: usize = hit.path.as_str().unicode_len();
    if len < 60 {
        push_blanks(&mut out, 60 - len);
    }
    assert(out@ == head + blanks(60 - hit.path@.len()));
    out.append(" (similarity: ");
    out.append(hit.similarity.as_str());
    out.append(")");
    out
}

fn push_output(out: &mut Vec<Output>, o: Output)
    ensures
        outputs(final(out)@) == outputs(old(out)@) + seq![o@],
{
    let ghost before = out@;
    out.push(o);
    assert(outputs(out@) == outputs(before) + seq![o@]);
}

fn push_hits(
    out: &mut Vec<Output>,
    hits: &Vec<ShownHit>,
    short: bool,
    display: bool,
    parent_dir: &str,
)
    ensures
        outputs(final(out)@) == outputs(old(out)@) + hits_outputs(
            hits@.map_values(|h: ShownHit| h@),
            hits@.len(),
            short,
            display,
            parent_dir@,
        ),
{
    let ghost start = outputs(out@);
    let ghost hs = hits@.map_values(|h: ShownHit| h@);
    let mut i: usize = 0;
    assert(start + hits_outputs(hs, 0, short, display, parent_dir@) == start);
    while i < hits.len()
        invariant
            i <= hits@.len(),
            hs == hits@.map_values(|h: ShownHit| h@),
            outputs(out@) == start + hits_outputs(hs, i as nat, short, display, parent_dir@),
        decreases hits@.len() - i,
    {
        let hit: &ShownHit = &hits[i];
        let ghost before = outputs(out@);
        let line: String = if short { hit.path.clone() } else { hit_line_text(i + 1, hit) };
        push_output(out, Output::Line(line));
        if display {
            push_output(out, Output::Picture(relative_to_abs_path(hit.path.as_str(), parent_dir)));
        }
        proof {
            let more = hit_outputs((i + 1) as nat, hs[i as int], short, display, parent_dir@);
            assert(outputs(out@) == before + more);
            assert(outputs(out@) == start + (hits_outputs(
                hs,
                i as nat,
                short,
                display,
                parent_dir@,
            ) + more));
        }
        i = i + 1;
    }
}

/// Everything that a search prints, in order: the results, best first, with
/// their pictures where `display` asks for them; or, where there are none,
/// what could be done about it. `short` prints bare paths only.
pub fn search_report(
    hits: &Vec<ShownHit>,
    prompt: &str,
    short: bool,
    all: bool,
    display: bool,
    parent_dir: &str,
) -> (r: Vec<Output>)
    ensures
        outputs(r@) == report(
            hits@.map_values(|h: ShownHit| h@),
            prompt@,
            short,
            all,
            display,
            parent_dir@,
        ),
{
    let mut out: Vec<Output> = Vec::new();
    assert(outputs(out@) == Seq::<OutputModel>::empty());
    if hits.len() == 0 {
        if !short {
            let mut line: String = "No images found matching the query \"".to_owned();
            line.append(prompt);
            line.append(
                if all {
                    "\"."
                } else {
                    "\" in the current directory or subdirectories."
                },
            );
            push_output(&mut out, Output::Line(line));
            push_output(
                &mut out,
                Output::Line(
                    "Try running 'imgfind index' to index the current directory.".to_owned(),
                ),
            );
        }
        assert(outputs(out@) == nothing_found(prompt@, short, all));
    } else if short {
        push_hits(&mut out, hits, true, display, parent_dir);
    } else {
        let mut line: String = "\nFound ".to_owned();
        push_decimal(&mut line, hits.len() as u64);
        line.append(" result");
        line.append(
            if hits.len() == 1 {
                ""
            } else {
                "s"
            },
        );
        line.append(" for \"");
        line.append(prompt);
        line.append("\" in ");
        line.append(
            if all {
                "the database"
            } else {
                "the current directory and subdirectories"
            },
        );
        line.append(":\n");
        assert(line@ == head_line(hits@.len(), prompt@, all));
        push_output(&mut out, Output::Line(line));
        push_hits(&mut out, hits, false, display, parent_dir);
        push_output(&mut out, Output::Line("".to_owned()));
    }
    out
}

/// What a search in an empty database prints.
pub fn empty_database_message(short: bool) -> (r: Vec<String>)
    ensures
        texts(r@) == if short {
            Seq::empty()
        } else {
            seq![
                "No images found in database. Please index some images first using:"@,
                "  imgfind index --dir /path/to/images"@,
            ]
        },
{
    let mut lines: Vec<String> = Vec::new();
    if !short {
        lines.push(
            "No images found in database. Please index some images first using:".to_owned(),
        );
        lines.push("  imgfind index --dir /path/to/images".to_owned());
    }
    proof {
        let want = if short {
            Seq::empty()
        } else {
            seq![
                "No images found in database. Please index some images first using:"@,
                "  imgfind index --dir /path/to/images"@,
            ]
        };
        assert(texts(lines@) == want);
    }
    lines
}

/// What `clean` prints.
pub fn clean_message(removed: usize) -> (r: String)
    ensures
        r@ == if removed == 0 {
            "Database is clean - no missing files found."@
        } else {
            "Removed "@ + decimal(removed as nat) + " entries for missing files."@
        },
{
    if removed == 0 {
        "Database is clean - no missing files found.".to_owned()
    } else {
        let mut out: String = "Removed ".to_owned();
        push_decimal(&mut out, removed as u64);
        out.append(" entries for missing files.");
        out
    }
}

/// The head line gives the number of results, in the singular for one and in
/// the plural for any other, what was searched for, and where.
pub proof fn the_head_line_counts_the_results(count: nat, prompt: Seq<char>)
    ensures
        head_line(count, prompt, true) == "\nFound "@ + decimal(count) + (if count == 1 {
            " result for \""@
        } else {
            " results for \""@
        }) + prompt + "\" in the database:\n"@,
        head_line(count, prompt, false) == "\nFound "@ + decimal(count) + (if count == 1 {
            " result for \""@
        } else {
            " results for \""@
        }) + prompt + "\" in the current directory and subdirectories:\n"@,
{
    reveal_strlit(" result");
    reveal_strlit("");
    reveal_strlit("s");
    reveal_strlit(" for \"");
    reveal_strlit(" result for \"");
    reveal_strlit(" results for \"");
    reveal_strlit("\" in ");
    reveal_strlit("the database");
    reveal_strlit("the current directory and subdirectories");
    reveal_strlit(":\n");
    reveal_strlit("\" in the database:\n");
    reveal_strlit("\" in the current directory and subdirectories:\n");
    assert(head_line(count, prompt, true) == "\nFound "@ + decimal(count) + (if count == 1 {
        " result for \""@
    } else {
        " results for \""@
    }) + prompt + "\" in the database:\n"@);
    assert(head_line(count, prompt, false) == "\nFound "@ + decimal(count) + (if count == 1 {
        " result for \""@
    } else {
        " results for \""@
    }) + prompt + "\" in the current directory and subdirectories:\n"@);
}

/// Where nothing was found, the short form prints nothing, and the long form
/// says what was searched for.
pub proof fn nothing_found_is_said(prompt: Seq<char>, all: bool, display: bool, dir: Seq<char>)
    ensures
        report(Seq::empty(), prompt, true, all, display, dir).len() == 0,
        report(Seq::empty(), prompt, false, all, display, dir).len() == 2,
        report(Seq::empty(), prompt, false, true, display, dir)[0] == OutputModel::Line(
            "No images found matching the query \""@ + prompt + "\"."@,
        ),
        report(Seq::empty(), prompt, false, false, display, dir)[0] == OutputModel::Line(
            "No images found matching the query \""@ + prompt
                + "\" in the current directory or subdirectories."@,
        ),
{
}

/// Turning a thumbnail into text leaves the result what it is: its path and
/// its distance stay, and it has a thumbnail exactly where it had one.
pub proof fn encoding_keeps_the_result(e: EncodedHit, h: RawHit)
    requires
        encodes(e, h),
    ensures
        e.path@ == h.path@,
        e.distance_bits == h.distance_bits,
        e.thumbnail_base64 is Some <==> h.thumbnail is Some,
        h.thumbnail matches Some(b) ==> e.thumbnail_base64->0@ == base64_text(b@),
{
}

} // verus!
