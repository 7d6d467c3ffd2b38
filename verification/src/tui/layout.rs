//! Where things are on the screen.

use vstd::prelude::*;

verus! {

/// A rectangle of terminal cells.
#[derive(Debug, Clone, Copy, PartialEq, Eq, Structural)]
pub struct Area {
    pub x: u16,
    pub y: u16,
    pub width: u16,
    pub height: u16,
}

/// A rectangle as plain numbers: column, row, width and height.
pub type AreaModel = (u16, u16, u16, u16);

impl View for Area {
    type V = AreaModel;

    open spec fn view(&self) -> AreaModel {
        (self.x, self.y, self.width, self.height)
    }
}

/// Rectangles as plain numbers.
pub open spec fn areas(list: Seq<Area>) -> Seq<AreaModel> {
    list.map_values(|a: Area| a@)
}

/// What `Layout::split` of the `ratatui` crate makes of an area: one area for
/// each percentage, one under the other or side by side.
pub uninterp spec fn split_area(
    area: (u16, u16, u16, u16),
    vertical: bool,
    percentages: Seq<u16>,
) -> Seq<(u16, u16, u16, u16)>;

/// Trusted: `Layout::split` of the `ratatui` crate with percentage
/// constraints, for the shares of the grid. They make up the whole, so that
/// each can be met and the parts follow from the area; there are as many parts
/// as shares.
#[verifier::external_body]
fn split(area: Area, vertical: bool, percentages: &Vec<u16>) -> (r: Vec<Area>)
    requires
        percentages@ == thirds(),
    ensures
        areas(r@) == split_area(area@, vertical, percentages@),
        r@.len() == percentages@.len(),
{
    let whole = ratatui::layout::Rect { x: area.x, y: area.y, width: area.width, height: area.height };
    let direction = if vertical {
        ratatui::layout::Direction::Vertical
    } else {
        ratatui::layout::Direction::Horizontal
    };
    let shares = ratatui::layout::Constraint::from_percentages(percentages.iter().copied());
    let parts = ratatui::layout::Layout::new(direction, shares).split(whole);
    parts.iter().map(|p| Area { x: p.x, y: p.y, width: p.width, height: p.height }).collect()
}

/// The shares of the three rows and the three columns of the grid.
pub open spec fn thirds() -> Seq<u16> {
    seq![33u16, 34u16, 33u16]
}

/// The cells of the first `n` rows of the grid.
pub open spec fn grid_cells(rows: Seq<AreaModel>, n: nat) -> Seq<AreaModel>
    decreases n,
{
    if n == 0 {
        Seq::empty()
    } else {
        grid_cells(rows, (n - 1) as nat) + split_area(rows[n - 1], false, thirds())
    }
}

/// The nine cells of the grid, row by row.
pub fn nine_block(area: Area) -> (r: Vec<Area>)
    ensures
        areas(r@) == grid_cells(split_area(area@, true, thirds()), 3),
        r@.len() == 9,
{
    let shares: Vec<u16> = vec![33, 34, 33];
    assert(shares@ == thirds());
    let rows: Vec<Area> = split(area, true, &shares);
    let ghost whole = areas(rows@);
    let mut out: Vec<Area> = Vec::new();
    let mut i: usize = 0;
    assert(areas(out@) == grid_cells(whole, 0));
    while i < rows.len()
        invariant
            i <= rows@.len(),
            rows@.len() == 3,
            shares@ == thirds(),
            whole == areas(rows@),
            out@.len() == 3 * i,
            areas(out@) == grid_cells(whole, i as nat),
        decreases rows@.len() - i,
    {
        let mut cells: Vec<Area> = split(rows[i], false, &shares);
        let ghost had = out@;
        let ghost more = cells@;
        assert(whole[i as int] == rows@[i as int]@);
        out.append(&mut cells);
        assert(areas(out@) == areas(had) + areas(more));
        i = i + 1;
    }
    out
}

/// Whether a cell lies within an area.
pub open spec fn area_contains(a: AreaModel, column: u16, row: u16) -> bool {
    &&& a.0 <= column
    &&& column < sat(a.0, a.2)
    &&& a.1 <= row
    &&& row < sat(a.1, a.3)
}

/// The sum of two numbers, held at the largest one.
pub open spec fn sat(a: u16, b: u16) -> int {
    if a + b > 0xffff {
        0xffff
    } else {
        a + b
    }
}

/// The first of the areas that a click falls into.
pub fn clicked_area(list: &Vec<Area>, column: u16, row: u16) -> (r: Option<usize>)
    ensures
        r matches Some(i) ==> {
            &&& i < list@.len()
            &&& area_contains(list@[i as int]@, column, row)
            &&& forall|k: int| 0 <= k < i ==> !area_contains((#[trigger] list@[k])@, column, row)
        },
        r is None ==> forall|k: int|
            0 <= k < list@.len() ==> !area_contains((#[trigger] list@[k])@, column, row),
{
    let mut i: usize = 0;
    while i < list.len()
        invariant
            i <= list@.len(),
            forall|k: int| 0 <= k < i ==> !area_contains((#[trigger] list@[k])@, column, row),
        decreases list@.len() - i,
    {
        let a: Area = list[i];
        if a.x <= column && column < a.x.saturating_add(a.width) && a.y <= row && row
            < a.y.saturating_add(a.height) {
            return Some(i);
        }
        i = i + 1;
    }
    None
}

/// The cells come row by row, from left to right: the cell in row `i` and
/// column `j` is the `j`-th part of the `i`-th row.
pub proof fn cells_come_row_by_row(rows: Seq<AreaModel>, n: nat, i: int, j: int)
    requires
        0 <= i < n <= rows.len(),
        0 <= j < 3,
        forall|k: int|
            0 <= k < rows.len() ==> split_area(#[trigger] rows[k], false, thirds()).len() == 3,
    ensures
        grid_cells(rows, n).len() == 3 * n,
        grid_cells(rows, n)[3 * i + j] == split_area(rows[i], false, thirds())[j],
    decreases n,
{
    assert(split_area(rows[n - 1], false, thirds()).len() == 3);
    if n > 1 {
        cells_come_row_by_row(
            rows,
            (n - 1) as nat,
            if i < n - 1 {
                i
            } else {
                0
            },
            j,
        );
    } else {
        assert(grid_cells(rows, 0) == Seq::<AreaModel>::empty());
    }
}

/// The shares of the rows and of the columns make up the whole.
pub proof fn the_shares_make_up_the_whole()
    ensures
        thirds().len() == 3,
        thirds()[0] + thirds()[1] + thirds()[2] == 100,
        thirds()[0] == thirds()[2],
{
}

/// An area holds its first cell, unless it is empty, and no cell to the left
/// of it or above it, nor one that is its width to the right or its height
/// below.
pub proof fn areas_end_before_their_width_and_height(a: AreaModel)
    requires
        a.0 + a.2 <= 0xffff,
        a.1 + a.3 <= 0xffff,
    ensures
        forall|column: u16, row: u16| #[trigger]
            area_contains(a, column, row) <==> a.0 <= column < a.0 + a.2 && a.1 <= row < a.1 + a.3,
{
}

} // verus!
