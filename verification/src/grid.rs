//! Thinning out what a map shows: images are sorted into the cells of a grid,
//! and a crowded cell shows only its newest few.

use vstd::prelude::*;
use vstd::string::*;
use crate::hash_tables::{cell_list, grid_entries, GridTable};
use crate::listing::{rank, text_before, text_before_is_an_order, Rank};

verus! {

/// An image as the grid sees it: the cell that its position falls into, if
/// it has a position, and when it was taken, if that is known.
#[derive(Debug, Clone)]
pub struct GridItem {
    pub cell: Option<(i64, i64)>,
    pub taken: Option<String>,
}

/// Whether an image taken at `a` is newer than one taken at `b`: known times
/// are later than unknown ones, and compare as texts.
pub open spec fn newer(a: Option<String>, b: Option<String>) -> bool {
    match (a, b) {
        (Some(x), Some(y)) => text_before(y@, x@),
        (Some(_), None) => true,
        _ => false,
    }
}

/// Whether image `a` is shown before image `b`: it is newer, or neither is
/// newer and it came first.
pub open spec fn shown_before(items: Seq<GridItem>, a: usize, b: usize) -> bool {
    ||| newer(items[a as int].taken, items[b as int].taken)
    ||| !newer(items[b as int].taken, items[a as int].taken) && a < b
}

/// `list` holds exactly the images in a cell, in the order they are shown in.
pub open spec fn is_cell_listing(
    list: Seq<usize>,
    items: Seq<GridItem>,
    cell: (i64, i64),
) -> bool {
    &&& forall|k: int| 0 <= k < list.len() ==> (#[trigger] list[k]) < items.len()
    &&& forall|p: usize|
        p < items.len() ==> (#[trigger] list.contains(p) <==> items[p as int].cell == Some(cell))
    &&& forall|i: int, j: int|
        0 <= i < j < list.len() ==> shown_before(items, #[trigger] list[i], #[trigger] list[j])
}

/// What is kept of a cell's listing: all of it, or its beginning where it is
/// longer than `max`.
pub open spec fn thinned(list: Seq<usize>, max: usize, sample: usize) -> Seq<usize> {
    if list.len() <= max {
        list
    } else if sample < list.len() {
        list.take(sample as int)
    } else {
        list
    }
}

/// The kept parts of some listings, one after the other.
pub open spec fn all_thinned(lists: Seq<Seq<usize>>, max: usize, sample: usize) -> Seq<usize>
    decreases lists.len(),
{
    if lists.len() == 0 {
        Seq::empty()
    } else {
        all_thinned(lists.drop_last(), max, sample) + thinned(lists.last(), max, sample)
    }
}

/// `lists` are the listings of `cells`, which are all the cells that hold an
/// image, each once.
pub open spec fn covers_all_cells(
    lists: Seq<Seq<usize>>,
    cells: Seq<(i64, i64)>,
    items: Seq<GridItem>,
) -> bool {
    &&& lists.len() == cells.len()
    &&& forall|k: int| 0 <= k < cells.len() ==> is_cell_listing(lists[k], items, #[trigger] cells[k])
    &&& forall|i: int, j: int| 0 <= i < j < cells.len() ==> cells[i] != cells[j]
    &&& forall|p: int|
        0 <= p < items.len() ==> ((#[trigger] items[p]).cell matches Some(c) ==> cells.contains(c))
}

proof fn newer_is_an_order(a: Option<String>, b: Option<String>, c: Option<String>)
    ensures
        !newer(a, a),
        newer(a, b) && newer(b, c) ==> newer(a, c),
        !(newer(a, b) && newer(b, a)),
        !newer(a, b) && !newer(b, c) ==> !newer(a, c),
{
    let x = match a {
        Some(s) => s@,
        None => Seq::empty(),
    };
    let y = match b {
        Some(s) => s@,
        None => Seq::empty(),
    };
    let z = match c {
        Some(s) => s@,
        None => Seq::empty(),
    };
    text_before_is_an_order(x, x, x);
    text_before_is_an_order(z, y, x);
    text_before_is_an_order(x, y, x);
    text_before_is_an_order(y, x, z);
    text_before_is_an_order(y, z, x);
    text_before_is_an_order(z, x, y);
    text_before_is_an_order(x, z, y);
}

proof fn shown_before_is_an_order(items: Seq<GridItem>, a: usize, b: usize, c: usize)
    ensures
        !shown_before(items, a, a),
        shown_before(items, a, b) && shown_before(items, b, c) ==> shown_before(items, a, c),
        a == b || shown_before(items, a, b) || shown_before(items, b, a),
{
    let x = items[a as int].taken;
    let y = items[b as int].taken;
    let z = items[c as int].taken;
    newer_is_an_order(x, y, z);
    newer_is_an_order(z, y, x);
    newer_is_an_order(y, x, z);
    newer_is_an_order(x, z, y);
    newer_is_an_order(y, z, x);
    newer_is_an_order(z, x, y);
}

fn is_newer(a: &Option<String>, b: &Option<String>) -> (r: bool)
    ensures
        r == newer(*a, *b),
{
    match (a, b) {
        (Some(x), Some(y)) => rank(y.as_str(), x.as_str()) == Rank::Before,
        (Some(_), None) => true,
        _ => false,
    }
}

/// Sorts a cell's places, given in ascending order, into the order in which
/// they are shown.
fn sort_newest_first(places: &Vec<usize>, items: &Vec<GridItem>) -> (r: Vec<usize>)
    requires
        forall|k: int| 0 <= k < places@.len() ==> (#[trigger] places@[k]) < items@.len(),
        forall|i: int, j: int| 0 <= i < j < places@.len() ==> places@[i] < places@[j],
    ensures
        forall|k: int| 0 <= k < r@.len() ==> (#[trigger] r@[k]) < items@.len(),
        forall|p: usize| #[trigger] r@.contains(p) <==> places@.contains(p),
        forall|i: int, j: int|
            0 <= i < j < r@.len() ==> shown_before(items@, #[trigger] r@[i], #[trigger] r@[j]),
{
    let mut out: Vec<usize> = Vec::new();
    let mut n: usize = 0;
    while n < places.len()
        invariant
            n <= places@.len(),
            forall|k: int| 0 <= k < places@.len() ==> (#[trigger] places@[k]) < items@.len(),
            forall|i: int, j: int| 0 <= i < j < places@.len() ==> places@[i] < places@[j],
            forall|k: int| 0 <= k < out@.len() ==> (#[trigger] out@[k]) < items@.len(),
            forall|p: usize| #[trigger] out@.contains(p) <==> places@.take(n as int).contains(p),
            forall|i: int, j: int|
                0 <= i < j < out@.len() ==> shown_before(
                    items@,
                    #[trigger] out@[i],
                    #[trigger] out@[j],
                ),
        decreases places@.len() - n,
    {
        let x: usize = places[n];
        let ghost was = out@;
        let mut i: usize = 0;
        // Behind everything that is not older: what came before stays before.
        while i < out.len() && !is_newer(&items[x].taken, &items[out[i]].taken)
            invariant
                i <= out@.len(),
                was == out@,
                x < items@.len(),
                forall|k: int| 0 <= k < out@.len() ==> (#[trigger] out@[k]) < items@.len(),
                forall|k: int|
                    0 <= k < i ==> !newer(
                        items@[x as int].taken,
                        items@[#[trigger] out@[k] as int].taken,
                    ),
            decreases out@.len() - i,
        {
            i = i + 1;
        }
        out.insert(i, x);
        proof {
            let now = out@;
            assert(now == was.insert(i as int, x));
            assert forall|k: int| 0 <= k < was.len() implies #[trigger] was[k] < x by {
                assert(was.contains(was[k]));
                let m = choose|m: int|
                    0 <= m < n && places@.take(n as int)[m] == was[k];
                assert(places@[m] < places@[n as int]);
            }
            assert forall|a: int, b: int| 0 <= a < b < now.len() implies shown_before(
                items@,
                #[trigger] now[a],
                #[trigger] now[b],
            ) by {
                if a < i && b == i {
                    assert(was[a] < x);
                    assert(now[a] == was[a]);
                } else if a == i {
                    let w = was[i as int];
                    assert(shown_before(items@, x, w));
                    assert(now[b] == was[b - 1]);
                    if b - 1 > i {
                        assert(shown_before(items@, w, was[b - 1]));
                        shown_before_is_an_order(items@, x, w, was[b - 1]);
                    }
                } else if a < i && b > i {
                    assert(now[a] == was[a] && now[b] == was[b - 1]);
                } else if a > i {
                    assert(now[a] == was[a - 1] && now[b] == was[b - 1]);
                } else {
                    assert(now[a] == was[a] && now[b] == was[b]);
                }
            }
            assert(places@.take(n + 1) == places@.take(n as int).push(x));
            assert forall|p: usize| #[trigger] now.contains(p) <==> places@.take(n + 1).contains(
                p,
            ) by {
                insert_contains(was, i as int, x, p);
                push_contains(places@.take(n as int), x, p);
                assert(was.contains(p) <==> places@.take(n as int).contains(p));
            }
            assert forall|k: int| 0 <= k < now.len() implies (#[trigger] now[k]) < items@.len() by {
                if k < i {
                    assert(now[k] == was[k]);
                } else if k > i {
                    assert(now[k] == was[k - 1]);
                }
            }
        }
        n = n + 1;
    }
    assert(places@.take(n as int) == places@);
    out
}

proof fn insert_contains(s: Seq<usize>, i: int, x: usize, p: usize)
    requires
        0 <= i <= s.len(),
    ensures
        s.insert(i, x).contains(p) <==> s.contains(p) || p == x,
{
    let now = s.insert(i, x);
    if s.contains(p) {
        let k = choose|k: int| 0 <= k < s.len() && s[k] == p;
        if k < i {
            assert(now[k] == p);
        } else {
            assert(now[k + 1] == p);
        }
    }
    if p == x {
        assert(now[i] == p);
    }
    if now.contains(p) {
        let k = choose|k: int| 0 <= k < now.len() && now[k] == p;
        if k < i {
            assert(s[k] == p);
        } else if k > i {
            assert(s[k - 1] == p);
        }
    }
}

proof fn push_contains(s: Seq<usize>, x: usize, p: usize)
    ensures
        s.push(x).contains(p) <==> s.contains(p) || p == x,
{
    insert_contains(s, s.len() as int, x, p);
    assert(s.push(x) == s.insert(s.len() as int, x));
}

/// `table` holds, for each cell, the places of the first `n` images in it, in
/// ascending order.
spec fn sorted_in(table: GridTable, items: Seq<GridItem>, n: int) -> bool {
    &&& forall|c: (i64, i64), p: usize|
        #![trigger cell_list(grid_entries(table), c).contains(p)]
        cell_list(grid_entries(table), c).contains(p) <==> p < n && items[p as int].cell == Some(c)
    &&& forall|c: (i64, i64), i: int, j: int|
        0 <= i < j < cell_list(grid_entries(table), c).len() ==> #[trigger] cell_list(
            grid_entries(table),
            c,
        )[i] < #[trigger] cell_list(grid_entries(table), c)[j]
    &&& forall|c: (i64, i64)| #[trigger]
        grid_entries(table).dom().contains(c) ==> grid_entries(table)[c].len() > 0
}

fn sort_into_cells(items: &Vec<GridItem>) -> (table: GridTable)
    ensures
        sorted_in(table, items@, items@.len() as int),
{
    let mut table: GridTable = GridTable::new();
    let mut n: usize = 0;
    while n < items.len()
        invariant
            n <= items@.len(),
            sorted_in(table, items@, n as int),
        decreases items@.len() - n,
    {
        let ghost before = grid_entries(table);
        if let Some(cell) = items[n].cell {
            table.push(cell, n);
            proof {
                let now = grid_entries(table);
                assert forall|c: (i64, i64)| #[trigger] cell_list(now, c) == if c == cell {
                    cell_list(before, c).push(n)
                } else {
                    cell_list(before, c)
                } by {}
                assert forall|c: (i64, i64), p: usize|
                    #![trigger cell_list(now, c).contains(p)]
                    cell_list(now, c).contains(p) <==> p < n + 1 && items@[p as int].cell == Some(
                        c,
                    ) by {
                    assert(cell_list(before, c).contains(p) <==> p < n && items@[p as int].cell
                        == Some(c));
                    push_contains(cell_list(before, c), n, p);
                }
                assert forall|c: (i64, i64), i: int, j: int|
                    0 <= i < j < cell_list(now, c).len() implies #[trigger] cell_list(now, c)[i]
                    < #[trigger] cell_list(now, c)[j] by {
                    let old_list = cell_list(before, c);
                    if c == cell && j == old_list.len() {
                        assert(old_list.contains(old_list[i]));
                    }
                }
            }
        } else {
            proof {
                assert forall|c: (i64, i64), p: usize|
                    #![trigger cell_list(before, c).contains(p)]
                    cell_list(before, c).contains(p) <==> p < n + 1 && items@[p as int].cell
                        == Some(c) by {
                    assert(cell_list(before, c).contains(p) <==> p < n && items@[p as int].cell
                        == Some(c));
                }
            }
        }
        n = n + 1;
    }
    table
}

/// Which of the images to show: those with a position, sorted into the cells
/// of a grid; all of a cell's where they are at most `max_per_cluster`, else
/// its newest `sample_per_cluster`. Within a cell the newest come first. The
/// result is places in `items`; in which order the cells come is left open.
pub fn downsample_by_grid(
    items: &Vec<GridItem>,
    max_per_cluster: usize,
    sample_per_cluster: usize,
) -> (r: Vec<usize>)
    ensures
        exists|lists: Seq<Seq<usize>>, cells: Seq<(i64, i64)>|
            {
                &&& #[trigger] covers_all_cells(lists, cells, items@)
                &&& r@ == all_thinned(lists, max_per_cluster, sample_per_cluster)
            },
{
    let table: GridTable = sort_into_cells(items);
    let ghost entries = grid_entries(table);
    let ghost sorted = table;
    let buckets: Vec<((i64, i64), Vec<usize>)> = table.into_entries();
    let mut out: Vec<usize> = Vec::new();
    let ghost mut lists: Seq<Seq<usize>> = Seq::empty();
    let ghost cells: Seq<(i64, i64)> = buckets@.map_values(|b: ((i64, i64), Vec<usize>)| b.0);
    let mut n: usize = 0;
    while n < buckets.len()
        invariant
            n <= buckets@.len(),
            entries == grid_entries(sorted),
            sorted_in(sorted, items@, items@.len() as int),
            forall|i: int|
                0 <= i < buckets@.len() ==> entries.dom().contains((#[trigger] buckets@[i]).0)
                    && entries[buckets@[i].0] == buckets@[i].1@,
            cells == buckets@.map_values(|b: ((i64, i64), Vec<usize>)| b.0),
            lists.len() == n,
            forall|k: int| 0 <= k < n ==> is_cell_listing(lists[k], items@, #[trigger] cells[k]),
            out@ == all_thinned(lists, max_per_cluster, sample_per_cluster),
        decreases buckets@.len() - n,
    {
        let bucket: &Vec<usize> = &buckets[n].1;
        let ghost cell = buckets@[n as int].0;
        proof {
            assert(entries.dom().contains(cell));
            assert(cell_list(entries, cell) == bucket@);
            assert forall|k: int| 0 <= k < bucket@.len() implies (#[trigger] bucket@[k])
                < items@.len() by {
                assert(cell_list(entries, cell).contains(bucket@[k]));
            }
            assert forall|i: int, j: int| 0 <= i < j < bucket@.len() implies bucket@[i]
                < bucket@[j] by {
                assert(cell_list(entries, cell)[i] < cell_list(entries, cell)[j]);
            }
        }
        let list: Vec<usize> = sort_newest_first(bucket, items);
        proof {
            assert forall|p: usize| p < items@.len() implies (#[trigger] list@.contains(p)
                <==> items@[p as int].cell == Some(cell)) by {
                assert(list@.contains(p) <==> bucket@.contains(p));
                assert(cell_list(entries, cell).contains(p) <==> p < items@.len()
                    && items@[p as int].cell == Some(cell));
            }
            assert(is_cell_listing(list@, items@, cell));
            let more = lists.push(list@);
            assert(more.drop_last() == lists);
            assert forall|k: int| 0 <= k < n + 1 implies is_cell_listing(
                more[k],
                items@,
                #[trigger] cells[k],
            ) by {
                if k < n {
                    assert(more[k] == lists[k]);
                } else {
                    assert(cells[k] == cell);
                }
            }
            lists = more;
        }
        let keep: usize = if list.len() <= max_per_cluster || sample_per_cluster >= list.len() {
            list.len()
        } else {
            sample_per_cluster
        };
        let ghost had = out@;
        let mut m: usize = 0;
        assert(had + list@.take(0) == had);
        while m < keep
            invariant
                m <= keep <= list@.len(),
                out@ == had + list@.take(m as int),
            decreases keep - m,
        {
            out.push(list[m]);
            assert(list@.take(m + 1) == list@.take(m as int).push(list@[m as int]));
            m = m + 1;
        }
        assert(list@.take(keep as int) == thinned(list@, max_per_cluster, sample_per_cluster));
        n = n + 1;
    }
    proof {
        assert(items@.len() == items.len());
        assert forall|p: int| 0 <= p < items@.len() implies (
        (#[trigger] items@[p]).cell matches Some(c) ==> cells.contains(c)) by {
            if let Some(c) = items@[p].cell {
                assert(cell_list(entries, c).contains(p as usize));
                assert(entries.dom().contains(c));
                let i = choose|i: int| 0 <= i < buckets@.len() && (#[trigger] buckets@[i]).0 == c;
                assert(cells[i] == c);
            }
        }
        assert forall|i: int, j: int| 0 <= i < j < cells.len() implies cells[i] != cells[j] by {
            assert(buckets@[i].0 != buckets@[j].0);
        }
        assert(covers_all_cells(lists, cells, items@));
    }
    out
}

/// Where fewer images than this are in view, each is shown, slightly moved so
/// that images taken at one spot can be told apart.
pub const FEW_IMAGES: usize = 100;

/// Whether what is in view has to be thinned out: there are many images, and
/// the view is not already a small one.
pub fn needs_downsampling(count: usize, small_view: bool) -> (r: bool)
    ensures
        r == (count >= FEW_IMAGES && !small_view),
{
    !(count < FEW_IMAGES || small_view)
}

/// Whether the images that are shown are few enough to be moved apart.
pub fn needs_jitter(shown: usize) -> (r: bool)
    ensures
        r == (shown < FEW_IMAGES),
{
    shown < FEW_IMAGES
}

/// What a map shows of the images in view.
#[derive(Debug)]
pub struct InView {
    /// The images shown, as places in the list of those in view.
    pub shown: Vec<usize>,
    /// How many there are in view.
    pub original_count: usize,
    /// Whether those shown are to be moved apart.
    pub jitter: bool,
}

/// Which images of a view to show: all of them in their order where they are
/// few or the view is a small one, else those that are left after thinning
/// out cells of more than ten images to their newest two.
pub fn select_in_view(items: &Vec<GridItem>, small_view: bool) -> (r: InView)
    ensures
        r.original_count == items@.len(),
        r.jitter == (r.shown@.len() < FEW_IMAGES),
        items@.len() < FEW_IMAGES || small_view ==> r.shown@ == Seq::new(
            items@.len(),
            |i: int| i as usize,
        ),
        items@.len() >= FEW_IMAGES && !small_view ==> exists|
            lists: Seq<Seq<usize>>,
            cells: Seq<(i64, i64)>,
        |
            {
                &&& #[trigger] covers_all_cells(lists, cells, items@)
                &&& r.shown@ == all_thinned(lists, 10, 2)
            },
{
    let shown: Vec<usize> = if needs_downsampling(items.len(), small_view) {
        downsample_by_grid(items, 10, 2)
    } else {
        let mut all: Vec<usize> = Vec::new();
        let mut i: usize = 0;
        while i < items.len()
            invariant
                i <= items@.len(),
                all@ == Seq::new(i as nat, |k: int| k as usize),
            decreases items@.len() - i,
        {
            all.push(i);
            i = i + 1;
            assert(all@ == Seq::new(i as nat, |k: int| k as usize));
        }
        all
    };
    let jitter: bool = needs_jitter(shown.len());
    InView { shown, original_count: items.len(), jitter }
}

/// The two halves of a 64-bit hash from which an image's displacement is
/// made: the lower half for its latitude, the upper for its longitude.
pub fn jitter_bits(hash: u64) -> (r: (u32, u32))
    ensures
        r.0 == hash % 0x1_0000_0000,
        r.1 == hash / 0x1_0000_0000,
{
    ((hash % 0x1_0000_0000) as u32, (hash / 0x1_0000_0000) as u32)
}

/// A cell that is not crowded is shown whole; of a crowded one the first few
/// of its listing are shown, as many as the sample allows.
pub proof fn crowded_cells_show_their_first_few(list: Seq<usize>, max: usize, sample: usize)
    ensures
        thinned(list, max, sample).is_prefix_of(list),
        list.len() <= max ==> thinned(list, max, sample) == list,
        list.len() > max && sample <= list.len() ==> thinned(list, max, sample).len() == sample,
        list.len() > max && sample > list.len() ==> thinned(list, max, sample) == list,
{
}

proof fn all_thinned_holds(lists: Seq<Seq<usize>>, max: usize, sample: usize, p: usize)
    ensures
        all_thinned(lists, max, sample).contains(p) <==> exists|k: int|
            0 <= k < lists.len() && (#[trigger] thinned(lists[k], max, sample)).contains(p),
    decreases lists.len(),
{
    if lists.len() > 0 {
        let front = lists.drop_last();
        all_thinned_holds(front, max, sample, p);
        let a = all_thinned(front, max, sample);
        let b = thinned(lists.last(), max, sample);
        let all = a + b;
        if a.contains(p) {
            let i = choose|i: int| 0 <= i < a.len() && a[i] == p;
            assert(all[i] == p);
            let k = choose|k: int|
                0 <= k < front.len() && (#[trigger] thinned(front[k], max, sample)).contains(p);
            assert(front[k] == lists[k]);
        }
        if b.contains(p) {
            let i = choose|i: int| 0 <= i < b.len() && b[i] == p;
            assert(all[a.len() + i] == p);
            assert(thinned(lists[lists.len() - 1], max, sample).contains(p));
        }
        if all.contains(p) {
            let i = choose|i: int| 0 <= i < all.len() && all[i] == p;
            if i < a.len() {
                assert(a[i] == p);
            } else {
                assert(b[i - a.len()] == p);
            }
        }
        if exists|k: int|
            0 <= k < lists.len() && (#[trigger] thinned(lists[k], max, sample)).contains(p) {
            let k = choose|k: int|
                0 <= k < lists.len() && (#[trigger] thinned(lists[k], max, sample)).contains(p);
            if k < front.len() {
                assert(front[k] == lists[k]);
                assert(thinned(front[k], max, sample).contains(p));
            }
        }
    }
}

/// Thinning out is fair: only images with a position are shown; every image
/// in a cell that is not crowded is; and in a crowded cell no image is left
/// out in favour of an older one, nor of one of the same time that came
/// later.
pub proof fn the_newest_of_each_cell_are_shown(
    lists: Seq<Seq<usize>>,
    cells: Seq<(i64, i64)>,
    items: Seq<GridItem>,
    max: usize,
    sample: usize,
)
    requires
        covers_all_cells(lists, cells, items),
    ensures
        forall|p: usize| #[trigger]
            all_thinned(lists, max, sample).contains(p) ==> p < items.len() && items[p as int].cell
                is Some,
        forall|k: int, p: usize|
            0 <= k < cells.len() && lists[k].len() <= max && p < items.len()
                && items[p as int].cell == Some(#[trigger] cells[k]) ==> #[trigger] all_thinned(
                lists,
                max,
                sample,
            ).contains(p),
        forall|p: usize, q: usize|
            #![trigger all_thinned(lists, max, sample).contains(p), all_thinned(lists, max, sample).contains(q)]
            all_thinned(lists, max, sample).contains(p) && q < items.len() && !all_thinned(
                lists,
                max,
                sample,
            ).contains(q) && items[p as int].cell == items[q as int].cell ==> shown_before(
                items,
                p,
                q,
            ),
{
    let all = all_thinned(lists, max, sample);
    assert forall|p: usize| #[trigger] all.contains(p) implies p < items.len()
        && items[p as int].cell is Some by {
        all_thinned_holds(lists, max, sample, p);
        let k = choose|k: int|
            0 <= k < lists.len() && (#[trigger] thinned(lists[k], max, sample)).contains(p);
        let i = choose|i: int|
            0 <= i < thinned(lists[k], max, sample).len() && thinned(lists[k], max, sample)[i] == p;
        assert(is_cell_listing(lists[k], items, cells[k]));
        assert(lists[k][i] == p);
        assert(lists[k].contains(p));
    }
    assert forall|k: int, p: usize|
        0 <= k < cells.len() && lists[k].len() <= max && p < items.len() && items[p as int].cell
            == Some(#[trigger] cells[k]) implies #[trigger] all.contains(p) by {
        all_thinned_holds(lists, max, sample, p);
        assert(is_cell_listing(lists[k], items, cells[k]));
        assert(lists[k].contains(p));
        assert(thinned(lists[k], max, sample).contains(p));
    }
    assert forall|p: usize, q: usize|
        #![trigger all.contains(p), all.contains(q)]
        all.contains(p) && q < items.len() && !all.contains(q) && items[p as int].cell
            == items[q as int].cell implies shown_before(items, p, q) by {
        all_thinned_holds(lists, max, sample, p);
        all_thinned_holds(lists, max, sample, q);
        let k = choose|k: int|
            0 <= k < lists.len() && (#[trigger] thinned(lists[k], max, sample)).contains(p);
        let kept = thinned(lists[k], max, sample);
        let i = choose|i: int| 0 <= i < kept.len() && kept[i] == p;
        assert(is_cell_listing(lists[k], items, cells[k]));
        assert(lists[k][i] == p);
        assert(lists[k].contains(p));
        assert(lists[k].contains(q));
        let j = choose|j: int| 0 <= j < lists[k].len() && lists[k][j] == q;
        if j < kept.len() {
            assert(kept[j] == q);
            assert(kept.contains(q));
        }
        assert(shown_before(items, lists[k][i], lists[k][j]));
    }
}

/// A known time is newer than an unknown one, and of two known ones the one
/// that comes later in the alphabet.
pub proof fn later_texts_are_newer(a: String, b: String)
    ensures
        newer(Some(a), None),
        !newer(None, Some(b)),
        !newer(None, None),
        newer(Some(a), Some(b)) <==> text_before(b@, a@),
{
}

} // verus!
