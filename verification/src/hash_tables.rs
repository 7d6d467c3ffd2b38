//! The two hash tables of the `hashbrown` crate that the library fills, and
//! what it relies on of them.

use vstd::prelude::*;

verus! {

/// A `hashbrown::HashMap` from row ids to places in a list.
#[verifier::external_body]
pub struct IdTable {
    map: hashbrown::HashMap<i64, usize>,
}

/// What a table of ids holds.
pub uninterp spec fn id_entries(t: IdTable) -> Map<i64, usize>;

impl IdTable {
    /// Trusted: `HashMap::new`. The table is empty.
    #[verifier::external_body]
    pub(crate) fn new() -> (r: Self)
        ensures
            id_entries(r).dom() == Set::<i64>::empty(),
    {
        IdTable { map: hashbrown::HashMap::new() }
    }

    /// Trusted: `HashMap::insert`. The key stands for the new value from now
    /// on; nothing else changes.
    #[verifier::external_body]
    pub(crate) fn insert(&mut self, id: i64, place: usize)
        ensures
            id_entries(*final(self)) == id_entries(*old(self)).insert(id, place),
    {
        self.map.insert(id, place);
    }

    /// Trusted: `HashMap::get`, with the value copied out.
    #[verifier::external_body]
    pub(crate) fn get(&self, id: i64) -> (r: Option<usize>)
        ensures
            r is Some <==> id_entries(*self).dom().contains(id),
            r matches Some(place) ==> id_entries(*self)[id] == place,
    {
        self.map.get(&id).copied()
    }
}

/// A `hashbrown::HashMap` from the cells of a grid to the places, in a list,
/// of what lies in them.
#[verifier::external_body]
pub struct GridTable {
    map: hashbrown::HashMap<(i64, i64), Vec<usize>>,
}

/// What a table of cells holds.
pub uninterp spec fn grid_entries(t: GridTable) -> Map<(i64, i64), Seq<usize>>;

/// The list of a cell; a cell without an entry has an empty one.
pub open spec fn cell_list(entries: Map<(i64, i64), Seq<usize>>, cell: (i64, i64)) -> Seq<usize> {
    if entries.dom().contains(cell) {
        entries[cell]
    } else {
        Seq::empty()
    }
}

impl GridTable {
    /// Trusted: `HashMap::new`. The table is empty.
    #[verifier::external_body]
    pub(crate) fn new() -> (r: Self)
        ensures
            grid_entries(r).dom() == Set::<(i64, i64)>::empty(),
    {
        GridTable { map: hashbrown::HashMap::new() }
    }

    /// Trusted: `HashMap::entry`, `Entry::or_default` and a push onto the list
    /// found there. The cell's list has one more element at its end; nothing
    /// else changes.
    #[verifier::external_body]
    pub(crate) fn push(&mut self, cell: (i64, i64), place: usize)
        ensures
            grid_entries(*final(self)) == grid_entries(*old(self)).insert(
                cell,
                cell_list(grid_entries(*old(self)), cell).push(place),
            ),
    {
        self.map.entry(cell).or_default().push(place);
    }

    /// Trusted: `HashMap::into_iter`, collected. Each entry comes out once. In
    /// which order they come is left open: it depends on the hasher's seed.
    #[verifier::external_body]
    pub(crate) fn into_entries(self) -> (r: Vec<((i64, i64), Vec<usize>)>)
        ensures
            forall|i: int|
                0 <= i < r@.len() ==> grid_entries(self).dom().contains((#[trigger] r@[i]).0)
                    && grid_entries(self)[r@[i].0] == r@[i].1@,
            forall|i: int, j: int|
                0 <= i < j < r@.len() ==> (#[trigger] r@[i]).0 != (#[trigger] r@[j]).0,
            forall|cell: (i64, i64)| #[trigger]
                grid_entries(self).dom().contains(cell) ==> exists|i: int|
                    0 <= i < r@.len() && (#[trigger] r@[i]).0 == cell,
    {
        self.map.into_iter().collect()
    }
}

} // verus!
