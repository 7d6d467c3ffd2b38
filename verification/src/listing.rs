//! Rows as they come back from the database, put into the order and form that
//! callers want them in.

use vstd::prelude::*;
use vstd::string::*;
use crate::database::{after_last_dot, behind_last_dot, Database, RowModel};
use crate::hash_tables::{id_entries, IdTable};
use crate::ids::ImageId;
use crate::locate::{answered, can_probe};
use crate::path_model::joined_path;
use crate::paths::{join, last_dot_is, no_dot_at_all, RelativePath};
use crate::sort::RowMeta;
use crate::text::{chars_of, texts};

verus! {

/// Listed rows as plain data.
pub open spec fn rows_model(rows: Seq<RowMeta>) -> Seq<RowModel> {
    rows.map_values(|r: RowMeta| r@)
}

/// The last of the rows with a given id, where there is one.
pub open spec fn row_with_id(rows: Seq<RowModel>, id: ImageId) -> Option<RowModel>
    decreases rows.len(),
{
    if rows.len() == 0 {
        None
    } else if rows.last().id == id {
        Some(rows.last())
    } else {
        row_with_id(rows.drop_last(), id)
    }
}

/// One row for each id that has one, in the order of the ids.
pub open spec fn in_order(ids: Seq<ImageId>, rows: Seq<RowModel>) -> Seq<RowModel>
    decreases ids.len(),
{
    if ids.len() == 0 {
        Seq::empty()
    } else {
        let before = in_order(ids.drop_last(), rows);
        match row_with_id(rows, ids.last()) {
            Some(r) => before.push(r),
            None => before,
        }
    }
}

fn copy_row(row: &RowMeta) -> (r: RowMeta)
    ensures
        r@ == row@,
{
    RowMeta { id: row.id, path: row.path.clone(), size: row.size, ext: row.ext.clone() }
}

/// `table` leads from each id to the last of the first `n` rows with it.
spec fn indexes(table: IdTable, rows: Seq<RowModel>, n: int) -> bool {
    &&& forall|id: i64| #[trigger]
        id_entries(table).dom().contains(id) ==> 0 <= id_entries(table)[id] < n && row_with_id(
            rows.take(n),
            ImageId(id),
        ) == Some(rows[id_entries(table)[id] as int])
    &&& forall|id: i64|
        !(#[trigger] id_entries(table).dom().contains(id)) ==> row_with_id(rows.take(n), ImageId(id))
            is None
}

fn index_rows(rows: &Vec<RowMeta>) -> (table: IdTable)
    ensures
        indexes(table, rows_model(rows@), rows@.len() as int),
{
    let mut table: IdTable = IdTable::new();
    let mut i: usize = 0;
    let ghost model = rows_model(rows@);
    assert(model.take(0) == Seq::<RowModel>::empty());
    while i < rows.len()
        invariant
            i <= rows@.len(),
            model == rows_model(rows@),
            indexes(table, model, i as int),
        decreases rows@.len() - i,
    {
        let ghost before = table;
        table.insert(rows[i].id.get(), i);
        proof {
            assert(model.take(i + 1).drop_last() == model.take(i as int));
            assert(model.take(i + 1).last() == model[i as int]);
            assert(model[i as int].id == rows@[i as int].id);
            let key = rows@[i as int].id.0;
            assert forall|id: i64| #[trigger]
                id_entries(table).dom().contains(id) implies 0 <= id_entries(table)[id] < i + 1
                && row_with_id(model.take(i + 1), ImageId(id)) == Some(
                model[id_entries(table)[id] as int],
            ) by {
                if id != key {
                    assert(id_entries(before).dom().contains(id));
                }
            }
            assert forall|id: i64| !(#[trigger] id_entries(table).dom().contains(id)) implies (
            row_with_id(model.take(i + 1), ImageId(id)) is None) by {
                assert(!id_entries(before).dom().contains(id));
            }
        }
        i = i + 1;
    }
    table
}

impl Database {
    /// [`RowMeta`] for an explicit ordered id list, from the rows that the
    /// database gave for it.
    ///
    /// Returns one `RowMeta` per id that has a row, in the **same order as
    /// `ids`**. Ids without a row are silently dropped.
    pub fn rehydrate_rows(ids: &Vec<ImageId>, rows: &Vec<RowMeta>) -> (r: Vec<RowMeta>)
        ensures
            rows_model(r@) == in_order(ids@, rows_model(rows@)),
    {
        let table: IdTable = index_rows(rows);
        let ghost model = rows_model(rows@);
        assert(model.take(model.len() as int) == model);
        let mut out: Vec<RowMeta> = Vec::new();
        let mut i: usize = 0;
        assert(ids@.take(0) == Seq::<ImageId>::empty());
        assert(rows_model(out@) == in_order(ids@.take(0), model));
        while i < ids.len()
            invariant
                i <= ids@.len(),
                model == rows_model(rows@),
                model.take(model.len() as int) == model,
                indexes(table, model, rows@.len() as int),
                rows_model(out@) == in_order(ids@.take(i as int), model),
            decreases ids@.len() - i,
        {
            proof {
                assert(ids@.take(i + 1).drop_last() == ids@.take(i as int));
                assert(ids@.take(i + 1).last() == ids@[i as int]);
                assert(ImageId(ids@[i as int].0) == ids@[i as int]);
            }
            if let Some(place) = table.get(ids[i].get()) {
                let ghost before = out@;
                out.push(copy_row(&rows[place]));
                assert(rows_model(out@) == rows_model(before).push(model[place as int]));
            }
            i = i + 1;
        }
        assert(ids@.take(ids@.len() as int) == ids@);
        out
    }

    /// Distinct file extensions present across all indexed image paths, given
    /// lowercased, in alphabetical order: what stands behind the last dot,
    /// where that is not empty and not part of a directory's name.
    pub fn distinct_extensions(lowered_paths: &Vec<String>) -> (r: Vec<String>)
        ensures
            ascending(texts(r@)),
            forall|e: Seq<char>| #[trigger]
                texts(r@).contains(e) <==> is_extension_of_one(e, texts(lowered_paths@)),
    {
        let mut out: Vec<String> = Vec::new();
        let mut i: usize = 0;
        let ghost paths = texts(lowered_paths@);
        assert(texts(out@) == Seq::<Seq<char>>::empty());
        while i < lowered_paths.len()
            invariant
                i <= lowered_paths@.len(),
                paths == texts(lowered_paths@),
                ascending(texts(out@)),
                forall|e: Seq<char>| #[trigger]
                    texts(out@).contains(e) <==> is_extension_of_one(e, paths.take(i as int)),
            decreases lowered_paths@.len() - i,
        {
            let ghost seen = paths.take(i as int);
            let ghost more = paths.take(i + 1);
            assert(more == seen.push(paths[i as int]));
            let ghost before = texts(out@);
            let found: Option<String> = listed_extension(lowered_paths[i].as_str());
            if let Some(e) = found {
                insert_sorted(&mut out, e);
            }
            proof {
                let own = listed_ext(paths[i as int]);
                assert(found is Some <==> own is Some);
                assert(own matches Some(e) ==> found->0@ == e);
                assert forall|e: Seq<char>| #[trigger]
                    texts(out@).contains(e) <==> is_extension_of_one(e, more) by {
                    if is_extension_of_one(e, seen) {
                        let k = choose|k: int|
                            0 <= k < seen.len() && listed_ext(#[trigger] seen[k]) == Some(e);
                        assert(more[k] == seen[k]);
                    }
                    if is_extension_of_one(e, more) {
                        let k = choose|k: int|
                            0 <= k < more.len() && listed_ext(#[trigger] more[k]) == Some(e);
                        if k < i {
                            assert(seen[k] == more[k]);
                            assert(is_extension_of_one(e, seen));
                        } else {
                            assert(own == Some(e));
                        }
                    }
                    if own == Some(e) {
                        assert(more[i as int] == paths[i as int]);
                    }
                    assert(before.contains(e) <==> is_extension_of_one(e, seen));
                }
            }
            i = i + 1;
        }
        assert(paths.take(i as int) == paths);
        out
    }

    /// The ids of the stored images whose file is gone. `rows` are ids and
    /// stored paths, and `is_there` says whether a file exists.
    pub fn missing_images<F: Fn(&str) -> bool>(
        &self,
        rows: &Vec<(ImageId, RelativePath)>,
        is_there: F,
    ) -> (r: Vec<ImageId>)
        requires
            can_probe(is_there),
        ensures
            exists|gone: Seq<bool>|
                {
                    &&& gone.len() == rows@.len()
                    &&& forall|k: int|
                        0 <= k < gone.len() ==> answered(
                            is_there,
                            joined_path(self.parent_dir@, rows@[k].1.0@),
                            !(#[trigger] gone[k]),
                        )
                    &&& r@ == picked(rows@, gone)
                },
    {
        let mut out: Vec<ImageId> = Vec::new();
        let ghost mut gone: Seq<bool> = Seq::empty();
        let mut i: usize = 0;
        assert(rows@.take(0) == Seq::<(ImageId, RelativePath)>::empty());
        while i < rows.len()
            invariant
                i <= rows@.len(),
                can_probe(is_there),
                gone.len() == i,
                forall|k: int|
                    0 <= k < gone.len() ==> answered(
                        is_there,
                        joined_path(self.parent_dir@, rows@[k].1.0@),
                        !(#[trigger] gone[k]),
                    ),
                out@ == picked(rows@.take(i as int), gone),
            decreases rows@.len() - i,
        {
            let abs: String = join(self.parent_dir.as_str(), rows[i].1.as_str());
            let there: bool = is_there(abs.as_str());
            proof {
                assert(answered(
                    is_there,
                    joined_path(self.parent_dir@, rows@[i as int].1.0@),
                    there,
                ));
                let more = gone.push(!there);
                assert(more.drop_last() == gone);
                assert(rows@.take(i + 1).drop_last() == rows@.take(i as int));
                gone = more;
            }
            if !there {
                out.push(rows[i].0);
            }
            i = i + 1;
        }
        assert(rows@.take(i as int) == rows@);
        out
    }
}

/// The ids of the rows that are marked, in order.
pub open spec fn picked(rows: Seq<(ImageId, RelativePath)>, marked: Seq<bool>) -> Seq<ImageId>
    decreases rows.len(),
{
    if rows.len() == 0 || marked.len() == 0 {
        Seq::empty()
    } else {
        let before = picked(rows.drop_last(), marked.drop_last());
        if marked.last() {
            before.push(rows.last().0)
        } else {
            before
        }
    }
}

/// The extension that a lowercased path counts with: what stands behind its
/// last dot, unless that is empty or reaches into a directory.
pub open spec fn listed_ext(path: Seq<char>) -> Option<Seq<char>> {
    match after_last_dot(path) {
        Some(e) => if e.len() > 0 && !e.contains('/') {
            Some(e)
        } else {
            None
        },
        None => None,
    }
}

/// Whether `e` is the extension of one of the paths.
pub open spec fn is_extension_of_one(e: Seq<char>, paths: Seq<Seq<char>>) -> bool {
    exists|k: int| 0 <= k < paths.len() && listed_ext(#[trigger] paths[k]) == Some(e)
}

fn listed_extension(path: &str) -> (r: Option<String>)
    ensures
        r is Some <==> listed_ext(path@) is Some,
        r matches Some(e) ==> listed_ext(path@) == Some(e@),
{
    match behind_last_dot(path) {
        Some(e) => {
            let a: Vec<char> = chars_of(e.as_str());
            if a.len() == 0 {
                return None;
            }
            let mut i: usize = 0;
            while i < a.len()
                invariant
                    i <= a@.len(),
                    a@ == e@,
                    after_last_dot(path@) == Some(e@),
                    forall|k: int| 0 <= k < i ==> a@[k] != '/',
                decreases a@.len() - i,
            {
                if a[i] == '/' {
                    assert(e@[i as int] == '/');
                    return None;
                }
                i = i + 1;
            }
            Some(e)
        },
        None => None,
    }
}

/// Alphabetical order, character by character; a text comes before every
/// longer one that it begins.
pub open spec fn text_before(a: Seq<char>, b: Seq<char>) -> bool
    decreases a.len(),
{
    if b.len() == 0 {
        false
    } else if a.len() == 0 {
        true
    } else if a[0] != b[0] {
        a[0] < b[0]
    } else {
        text_before(a.skip(1), b.skip(1))
    }
}

/// Texts in alphabetical order, each once.
pub open spec fn ascending(list: Seq<Seq<char>>) -> bool {
    forall|i: int, j: int| 0 <= i < j < list.len() ==> text_before(list[i], list[j])
}

pub proof fn text_before_is_an_order(a: Seq<char>, b: Seq<char>, c: Seq<char>)
    ensures
        !text_before(a, a),
        text_before(a, b) && text_before(b, c) ==> text_before(a, c),
        a == b || text_before(a, b) || text_before(b, a),
        !(text_before(a, b) && text_before(b, a)),
    decreases a.len() + b.len() + c.len(),
{
    if a.len() > 0 && b.len() > 0 && c.len() > 0 {
        text_before_is_an_order(a.skip(1), b.skip(1), c.skip(1));
        if a[0] == b[0] && a.skip(1) == b.skip(1) {
            assert(a == seq![a[0]] + a.skip(1));
            assert(b == seq![b[0]] + b.skip(1));
        }
    } else if a.len() > 0 && b.len() > 0 {
        text_before_is_an_order(a.skip(1), b.skip(1), c);
        if a[0] == b[0] && a.skip(1) == b.skip(1) {
            assert(a == seq![a[0]] + a.skip(1));
            assert(b == seq![b[0]] + b.skip(1));
        }
    } else if a.len() > 0 {
        text_before_is_an_order(a.skip(1), b, c);
    } else if b.len() == 0 {
        assert(a == b);
    }
}

/// Which of two texts comes first.
#[derive(Debug, Clone, Copy, PartialEq, Eq, Structural)]
pub enum Rank {
    Before,
    Same,
    Behind,
}

/// How `a` stands to `b` in alphabetical order.
pub fn rank(a: &str, b: &str) -> (r: Rank)
    ensures
        r == Rank::Before <==> text_before(a@, b@),
        r == Rank::Same <==> a@ == b@,
        r == Rank::Behind <==> text_before(b@, a@),
{
    let x: Vec<char> = chars_of(a);
    let y: Vec<char> = chars_of(b);
    let mut i: usize = 0;
    proof {
        text_before_is_an_order(a@, b@, a@);
        assert(x@.skip(0) == x@);
        assert(y@.skip(0) == y@);
    }
    while i < x.len() && i < y.len()
        invariant
            i <= x@.len(),
            i <= y@.len(),
            x@ == a@,
            y@ == b@,
            text_before(a@, b@) == text_before(x@.skip(i as int), y@.skip(i as int)),
            text_before(b@, a@) == text_before(y@.skip(i as int), x@.skip(i as int)),
            (a@ == b@) == (x@.skip(i as int) == y@.skip(i as int)),
            !(text_before(a@, b@) && text_before(b@, a@)),
            a@ == b@ || text_before(a@, b@) || text_before(b@, a@),
            a@ == b@ ==> !text_before(a@, b@) && !text_before(b@, a@),
        decreases x@.len() - i,
    {
        let ghost p = x@.skip(i as int);
        let ghost q = y@.skip(i as int);
        assert(p[0] == x@[i as int]);
        assert(q[0] == y@[i as int]);
        if x[i] < y[i] {
            return Rank::Before;
        }
        if x[i] > y[i] {
            return Rank::Behind;
        }
        proof {
            assert(p.skip(1) == x@.skip(i + 1));
            assert(q.skip(1) == y@.skip(i + 1));
            if p.skip(1) == q.skip(1) {
                assert(p == seq![p[0]] + p.skip(1));
                assert(q == seq![q[0]] + q.skip(1));
            }
        }
        i = i + 1;
    }
    proof {
        let p = x@.skip(i as int);
        let q = y@.skip(i as int);
        if p.len() == 0 && q.len() == 0 {
            assert(p == q);
        }
    }
    if i < y.len() {
        Rank::Before
    } else if i < x.len() {
        Rank::Behind
    } else {
        Rank::Same
    }
}

/// Puts `s` at its place in an ascending list, unless it is there already.
fn insert_sorted(list: &mut Vec<String>, s: String)
    requires
        ascending(texts(old(list)@)),
    ensures
        ascending(texts(final(list)@)),
        forall|e: Seq<char>| #[trigger]
            texts(final(list)@).contains(e) <==> texts(old(list)@).contains(e) || e == s@,
{
    let ghost was = texts(list@);
    let mut i: usize = 0;
    while i < list.len()
        invariant
            i <= list@.len(),
            was == texts(list@),
            ascending(was),
            forall|k: int| 0 <= k < i ==> text_before(#[trigger] was[k], s@),
        ensures
            i <= list@.len(),
            i < list@.len() ==> text_before(s@, was[i as int]),
        decreases list@.len() - i,
    {
        match rank(list[i].as_str(), s.as_str()) {
            Rank::Before => {
                assert(text_before(was[i as int], s@));
                i = i + 1;
            },
            Rank::Same => {
                assert(was[i as int] == s@);
                assert(was.contains(s@));
                return ;
            },
            Rank::Behind => {
                break;
            },
        }
    }
    let ghost text = s@;
    list.insert(i, s);
    proof {
        let now = texts(list@);
        assert(now == was.insert(i as int, text));
        assert forall|a: int, b: int| 0 <= a < b < now.len() implies text_before(now[a], now[b]) by {
            if a < i && b == i {
                assert(text_before(was[a], text));
            } else if a == i {
                let w = was[i as int];
                assert(text_before(text, w));
                if b - 1 > i {
                    assert(text_before(w, was[b - 1]));
                    text_before_is_an_order(text, w, was[b - 1]);
                }
            } else if a < i && b > i {
                assert(text_before(was[a], was[b - 1]));
            } else if a > i {
                assert(text_before(was[a - 1], was[b - 1]));
            } else {
                assert(text_before(was[a], was[b]));
            }
        }
        assert forall|e: Seq<char>| #[trigger] now.contains(e) <==> was.contains(e) || e == text by {
            if was.contains(e) {
                let k = choose|k: int| 0 <= k < was.len() && was[k] == e;
                if k < i {
                    assert(now[k] == e);
                } else {
                    assert(now[k + 1] == e);
                }
            }
            if e == text {
                assert(now[i as int] == e);
            }
            if now.contains(e) {
                let k = choose|k: int| 0 <= k < now.len() && now[k] == e;
                if k < i {
                    assert(was[k] == e);
                } else if k > i {
                    assert(was[k - 1] == e);
                }
            }
        }
    }
}

/// A rehydrated listing never invents or reorders: it is as long as the
/// number of ids that have a row, and where every id has one, the rows stand
/// exactly where their ids do.
pub proof fn rehydrating_keeps_the_order(ids: Seq<ImageId>, rows: Seq<RowModel>)
    ensures
        in_order(ids, rows).len() <= ids.len(),
        (forall|k: int| 0 <= k < ids.len() ==> row_with_id(rows, #[trigger] ids[k]) is Some)
            ==> in_order(ids, rows).len() == ids.len() && forall|k: int|
            0 <= k < ids.len() ==> Some(#[trigger] in_order(ids, rows)[k]) == row_with_id(
                rows,
                ids[k],
            ),
        forall|k: int|
            0 <= k < in_order(ids, rows).len() ==> rows.contains(#[trigger] in_order(ids, rows)[k])
                && ids.contains(in_order(ids, rows)[k].id),
    decreases ids.len(),
{
    if ids.len() > 0 {
        rehydrating_keeps_the_order(ids.drop_last(), rows);
        found_row_is_listed(rows, ids.last());
        let before = in_order(ids.drop_last(), rows);
        assert forall|k: int| 0 <= k < in_order(ids, rows).len() implies rows.contains(
            #[trigger] in_order(ids, rows)[k],
        ) && ids.contains(in_order(ids, rows)[k].id) by {
            if k < before.len() {
                assert(in_order(ids, rows)[k] == before[k]);
                let m = choose|m: int| 0 <= m < ids.len() - 1 && ids.drop_last()[m] == before[k].id;
                assert(ids[m] == before[k].id);
            } else {
                assert(ids[ids.len() - 1] == in_order(ids, rows)[k].id);
            }
        }
        if forall|k: int| 0 <= k < ids.len() ==> row_with_id(rows, #[trigger] ids[k]) is Some {
            assert forall|k: int| 0 <= k < ids.len() - 1 implies row_with_id(
                rows,
                #[trigger] ids.drop_last()[k],
            ) is Some by {
                assert(ids.drop_last()[k] == ids[k]);
            }
            assert forall|k: int| 0 <= k < ids.len() implies Some(
                #[trigger] in_order(ids, rows)[k],
            ) == row_with_id(rows, ids[k]) by {
                if k < before.len() {
                    assert(in_order(ids, rows)[k] == before[k]);
                    assert(ids.drop_last()[k] == ids[k]);
                }
            }
        }
    }
}

proof fn found_row_is_listed(rows: Seq<RowModel>, id: ImageId)
    ensures
        row_with_id(rows, id) matches Some(r) ==> rows.contains(r) && r.id == id,
    decreases rows.len(),
{
    if rows.len() > 0 {
        if rows.last().id == id {
            assert(rows[rows.len() - 1] == rows.last());
        } else {
            found_row_is_listed(rows.drop_last(), id);
            if let Some(r) = row_with_id(rows, id) {
                let k = choose|k: int| 0 <= k < rows.len() - 1 && rows.drop_last()[k] == r;
                assert(rows[k] == r);
            }
        }
    }
}

/// The ids of listed rows.
pub open spec fn ids_of(rows: Seq<RowModel>) -> Seq<ImageId> {
    rows.map_values(|r: RowModel| r.id)
}

/// The ids of stored paths.
pub open spec fn stored_ids(rows: Seq<(ImageId, RelativePath)>) -> Seq<ImageId> {
    rows.map_values(|r: (ImageId, RelativePath)| r.0)
}

/// Whether `list` is what stands at `places`, in the order of the places.
pub open spec fn stands_at<T>(list: Seq<T>, places: Seq<int>, from: Seq<T>) -> bool {
    &&& places.len() == list.len()
    &&& forall|i: int, j: int| 0 <= i < j < places.len() ==> places[i] < places[j]
    &&& forall|j: int|
        0 <= j < places.len() ==> 0 <= #[trigger] places[j] < from.len() && list[j]
            == from[places[j]]
}

proof fn no_row_found(rows: Seq<RowModel>, id: ImageId)
    ensures
        row_with_id(rows, id) is None <==> forall|i: int|
            0 <= i < rows.len() ==> (#[trigger] rows[i]).id != id,
    decreases rows.len(),
{
    if rows.len() > 0 {
        no_row_found(rows.drop_last(), id);
        if rows.last().id == id {
            assert(rows[rows.len() - 1].id == id);
        } else {
            let front = rows.drop_last();
            if row_with_id(front, id) is None {
                assert forall|i: int| 0 <= i < rows.len() implies (#[trigger] rows[i]).id != id by {
                    if i < front.len() {
                        assert(front[i] == rows[i]);
                    }
                }
            } else {
                let i = choose|i: int| 0 <= i < front.len() && (#[trigger] front[i]).id == id;
                assert(rows[i] == front[i]);
            }
        }
    }
}

proof fn in_order_places(ids: Seq<ImageId>, rows: Seq<RowModel>) -> (places: Seq<int>)
    ensures
        stands_at(ids_of(in_order(ids, rows)), places, ids),
        forall|k: int|
            0 <= k < ids.len() ==> (places.contains(k) <==> row_with_id(rows, #[trigger] ids[k])
                is Some),
        forall|j: int|
            0 <= j < in_order(ids, rows).len() ==> rows.contains(#[trigger] in_order(ids, rows)[j]),
    decreases ids.len(),
{
    rehydrating_keeps_the_order(ids, rows);
    if ids.len() == 0 {
        Seq::empty()
    } else {
        let front = ids.drop_last();
        let last = ids.len() - 1;
        let before = in_order_places(front, rows);
        found_row_is_listed(rows, ids.last());
        let keeps = row_with_id(rows, ids.last()) is Some;
        let places = if keeps {
            before.push(last)
        } else {
            before
        };
        let got = ids_of(in_order(ids, rows));
        let was = ids_of(in_order(front, rows));
        assert forall|j: int| 0 <= j < places.len() implies 0 <= #[trigger] places[j] < ids.len()
            && got[j] == ids[places[j]] by {
            if j < before.len() {
                assert(places[j] == before[j]);
                assert(got[j] == was[j]);
                assert(front[before[j]] == ids[before[j]]);
            }
        }
        assert forall|k: int| 0 <= k < ids.len() implies (places.contains(k) <==> row_with_id(
            rows,
            #[trigger] ids[k],
        ) is Some) by {
            if k < last {
                assert(front[k] == ids[k]);
                if before.contains(k) {
                    let j = choose|j: int| 0 <= j < before.len() && before[j] == k;
                    assert(places[j] == k);
                }
                if places.contains(k) {
                    let j = choose|j: int| 0 <= j < places.len() && places[j] == k;
                    assert(before[j] == k);
                }
            } else {
                if keeps {
                    assert(places[before.len() as int] == k);
                }
                if places.contains(k) && !keeps {
                    let j = choose|j: int| 0 <= j < places.len() && places[j] == k;
                    assert(before[j] < front.len());
                }
            }
        }
        places
    }
}

/// A rehydrated listing follows the ids: it holds one row for each id that
/// some row has, in the order of the ids, and every row in it is one of those
/// that were found. An id that no row has is left out.
pub proof fn every_id_with_a_row_is_listed(ids: Seq<ImageId>, rows: Seq<RowModel>)
    ensures
        exists|places: Seq<int>|
            {
                &&& #[trigger] stands_at(
                    ids_of(in_order(ids, rows)),
                    places,
                    ids,
                )
                &&& forall|k: int|
                    0 <= k < ids.len() ==> (places.contains(k) <==> exists|i: int|
                        0 <= i < rows.len() && (#[trigger] rows[i]).id == #[trigger] ids[k])
            },
        forall|j: int|
            0 <= j < in_order(ids, rows).len() ==> rows.contains(#[trigger] in_order(ids, rows)[j]),
{
    let places = in_order_places(ids, rows);
    assert forall|k: int| 0 <= k < ids.len() implies (places.contains(k) <==> exists|i: int|
        0 <= i < rows.len() && (#[trigger] rows[i]).id == #[trigger] ids[k]) by {
        no_row_found(rows, ids[k]);
    }
}

proof fn picked_places(rows: Seq<(ImageId, RelativePath)>, marked: Seq<bool>) -> (places: Seq<int>)
    requires
        rows.len() == marked.len(),
    ensures
        stands_at(
            picked(rows, marked),
            places,
            stored_ids(rows),
        ),
        forall|k: int| 0 <= k < rows.len() ==> (places.contains(k) <==> #[trigger] marked[k]),
    decreases rows.len(),
{
    if rows.len() == 0 {
        Seq::empty()
    } else {
        let front = rows.drop_last();
        let marks = marked.drop_last();
        let last = rows.len() - 1;
        let before = picked_places(front, marks);
        let places = if marked.last() {
            before.push(last)
        } else {
            before
        };
        let ids = stored_ids(rows);
        let was = stored_ids(front);
        assert forall|j: int| 0 <= j < places.len() implies 0 <= #[trigger] places[j] < ids.len()
            && picked(rows, marked)[j] == ids[places[j]] by {
            if j < before.len() {
                assert(places[j] == before[j]);
                assert(was[before[j]] == ids[before[j]]);
                assert(picked(rows, marked)[j] == picked(front, marks)[j]);
            }
        }
        assert forall|k: int| 0 <= k < rows.len() implies (places.contains(k)
            <==> #[trigger] marked[k]) by {
            if k < last {
                assert(marks[k] == marked[k]);
                if before.contains(k) {
                    let j = choose|j: int| 0 <= j < before.len() && before[j] == k;
                    assert(places[j] == k);
                }
                if places.contains(k) {
                    let j = choose|j: int| 0 <= j < places.len() && places[j] == k;
                    assert(before[j] == k);
                }
            } else {
                if marked.last() {
                    assert(places[before.len() as int] == k);
                }
                if places.contains(k) && !marked.last() {
                    let j = choose|j: int| 0 <= j < places.len() && places[j] == k;
                    assert(before[j] < front.len());
                }
            }
        }
        places
    }
}

/// Exactly the marked rows are picked, each once and in their order: no file
/// that is gone is overlooked, and no file that is there is given up.
pub proof fn exactly_the_marked_rows_are_picked(
    rows: Seq<(ImageId, RelativePath)>,
    marked: Seq<bool>,
)
    requires
        rows.len() == marked.len(),
    ensures
        exists|places: Seq<int>|
            {
                &&& #[trigger] stands_at(
                    picked(rows, marked),
                    places,
                    stored_ids(rows),
                )
                &&& forall|k: int|
                    0 <= k < rows.len() ==> (places.contains(k) <==> #[trigger] marked[k])
            },
{
    let places = picked_places(rows, marked);
}

/// Alphabetical order goes by the first character in which two texts differ;
/// where one of them ends before that, it comes first.
pub proof fn the_first_difference_decides(p: Seq<char>, a: Seq<char>, b: Seq<char>)
    ensures
        text_before(p + a, p + b) <==> text_before(a, b),
        a.len() > 0 && b.len() > 0 && a[0] < b[0] ==> text_before(p + a, p + b),
        a.len() > 0 && b.len() > 0 && b[0] < a[0] ==> !text_before(p + a, p + b),
        b.len() > 0 ==> text_before(p, p + b),
        !text_before(p + b, p),
    decreases p.len(),
{
    if p.len() == 0 {
        assert(p + a == a);
        assert(p + b == b);
        text_before_is_an_order(b, b, b);
    } else {
        the_first_difference_decides(p.skip(1), a, b);
        assert((p + a).skip(1) == p.skip(1) + a);
        assert((p + b).skip(1) == p.skip(1) + b);
    }
}

/// The extensions that are offered as a filter are those of files: what
/// stands behind the last dot of a path, unless that is empty or the dot
/// belongs to a directory's name.
pub proof fn file_extensions_are_offered(stem: Seq<char>, ext: Seq<char>)
    requires
        forall|i: int| 0 <= i < ext.len() ==> ext[i] != '.',
    ensures
        ext.len() > 0 && !ext.contains('/') ==> listed_ext(stem.push('.') + ext) == Some(ext),
        ext.len() == 0 || ext.contains('/') ==> listed_ext(stem.push('.') + ext) is None,
        listed_ext(ext) is None,
{
    last_dot_is(stem, ext);
    let path = stem.push('.') + ext;
    assert(path.skip(stem.len() as int + 1) == ext);
    no_dot_at_all(ext);
}

} // verus!
