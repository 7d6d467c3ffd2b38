//! Focus movement in the image grid, which is three images wide.

use vstd::prelude::*;

verus! {

#[derive(Debug, Clone, Copy, PartialEq, Eq, Structural)]
pub enum FocusDirection {
    Left,
    Right,
    Up,
    Down,
}

/// The image that gets the focus. Left and right go round the whole list; up
/// and down stay in the column and go round from the first row to the last,
/// where a column that ends early leads to the last image.
pub open spec fn moved_focus(len: int, at: int, direction: FocusDirection) -> int {
    match direction {
        FocusDirection::Left => if at == 0 {
            len - 1
        } else {
            at - 1
        },
        FocusDirection::Right => (at + 1) % len,
        FocusDirection::Up => if at < 3 {
            let below = (len - 1) / 3 * 3 + at;
            if below >= len - 1 {
                len - 1
            } else {
                below
            }
        } else {
            at - 3
        },
        FocusDirection::Down => if at + 3 >= len {
            at % 3
        } else {
            at + 3
        },
    }
}

/// Whether a movement is possible: there is an image to move to, and the
/// numbers stay small.
pub open spec fn can_move(len: u8, at: u8, direction: FocusDirection) -> bool {
    match direction {
        FocusDirection::Left => len > 0 || at > 0,
        FocusDirection::Right => len > 0 && at < 255,
        FocusDirection::Up => len > 0 || at >= 3,
        FocusDirection::Down => at <= 252,
    }
}

/// The image that gets the focus when it moves from `current_index`.
pub fn calculate_new_focus_index(
    images_len: u8,
    current_index: u8,
    direction: FocusDirection,
) -> (r: u8)
    requires
        can_move(images_len, current_index, direction),
    ensures
        r == moved_focus(images_len as int, current_index as int, direction),
{
    match direction {
        FocusDirection::Left => {
            if current_index == 0 {
                images_len - 1
            } else {
                current_index - 1
            }
        },
        FocusDirection::Right => (current_index + 1) % images_len,
        FocusDirection::Up => {
            if current_index < 3 {
                let rows: u8 = (images_len - 1) / 3;
                let below: u8 = rows * 3 + current_index;
                if below >= images_len - 1 {
                    images_len - 1
                } else {
                    below
                }
            } else {
                current_index - 3
            }
        },
        FocusDirection::Down => {
            if current_index + 3 >= images_len {
                current_index % 3
            } else {
                current_index + 3
            }
        },
    }
}

/// The focus never leaves the grid: from an image of the page it moves to an
/// image of the page.
pub proof fn focus_stays_on_the_page(len: int, at: int, direction: FocusDirection)
    requires
        0 <= at < len,
    ensures
        0 <= moved_focus(len, at, direction) < len,
{
    if direction == FocusDirection::Right && at + 1 < len {
        assert((at + 1) % len == at + 1) by (nonlinear_arith)
            requires
                0 <= at + 1 < len,
        ;
    } else if direction == FocusDirection::Right {
        assert(len % len == 0) by (nonlinear_arith)
            requires
                len > 0,
        ;
    }
}

/// Left undoes right and right undoes left.
pub proof fn left_and_right_undo_each_other(len: int, at: int)
    requires
        0 <= at < len,
    ensures
        moved_focus(
            len,
            moved_focus(len, at, FocusDirection::Right),
            FocusDirection::Left,
        ) == at,
        moved_focus(
            len,
            moved_focus(len, at, FocusDirection::Left),
            FocusDirection::Right,
        ) == at,
{
    if at + 1 < len {
        assert((at + 1) % len == at + 1) by (nonlinear_arith)
            requires
                0 <= at + 1 < len,
        ;
    } else {
        assert(len % len == 0) by (nonlinear_arith)
            requires
                len > 0,
        ;
    }
    if at > 0 {
        assert(at % len == at) by (nonlinear_arith)
            requires
                0 <= at < len,
        ;
    } else {
        assert(len % len == 0) by (nonlinear_arith)
            requires
                len > 0,
        ;
    }
}

/// On a page of whole rows, up and down undo each other.
pub proof fn up_and_down_undo_each_other(len: int, at: int)
    requires
        0 <= at < len,
        len % 3 == 0,
    ensures
        moved_focus(len, moved_focus(len, at, FocusDirection::Up), FocusDirection::Down) == at,
        moved_focus(len, moved_focus(len, at, FocusDirection::Down), FocusDirection::Up) == at,
{
}

/// Left and right go by one image, round the ends of the page; up and down go
/// by one row and stay in their column, except that going up from the first
/// row into a column that ends early leads to the last image.
pub proof fn up_and_down_stay_in_their_column(len: int, at: int)
    requires
        0 <= at < len,
    ensures
        at + 1 < len ==> moved_focus(len, at, FocusDirection::Right) == at + 1,
        at + 1 == len ==> moved_focus(len, at, FocusDirection::Right) == 0,
        at > 0 ==> moved_focus(len, at, FocusDirection::Left) == at - 1,
        at == 0 ==> moved_focus(len, at, FocusDirection::Left) == len - 1,
        at + 3 < len ==> moved_focus(len, at, FocusDirection::Down) == at + 3,
        moved_focus(len, at, FocusDirection::Down) % 3 == at % 3,
        at >= 3 ==> moved_focus(len, at, FocusDirection::Up) == at - 3,
        at < 3 ==> moved_focus(len, at, FocusDirection::Up) + 3 >= len,
        moved_focus(len, at, FocusDirection::Up) % 3 == at % 3 || moved_focus(
            len,
            at,
            FocusDirection::Up,
        ) == len - 1,
{
    if at + 1 < len {
        assert((at + 1) % len == at + 1) by (nonlinear_arith)
            requires
                0 <= at + 1 < len,
        ;
    } else {
        assert(len % len == 0) by (nonlinear_arith)
            requires
                len > 0,
        ;
    }
}

} // verus!
