//! Fixed palette of tag "brush" colors. Colors are an input convenience in the
//! GUI (quick-apply sets of tags); they are never persisted on images or tags.
//! Index order is stable and shared with the persisted `UiState.brushes` array.

use vstd::prelude::*;
use crate::text::same;

verus! {

#[derive(Clone, Copy, Debug, PartialEq, Eq, Structural)]
pub enum BrushColor {
    Red,
    Green,
    Yellow,
    Purple,
    Blue,
}

impl BrushColor {
    pub const ALL: [BrushColor; 5] = [
        BrushColor::Red,
        BrushColor::Green,
        BrushColor::Yellow,
        BrushColor::Purple,
        BrushColor::Blue,
    ];

    /// The place of a color in the palette.
    pub open spec fn position(self) -> usize {
        match self {
            BrushColor::Red => 0,
            BrushColor::Green => 1,
            BrushColor::Yellow => 2,
            BrushColor::Purple => 3,
            BrushColor::Blue => 4,
        }
    }

    /// The letter of a color.
    pub open spec fn initial(self) -> Seq<char> {
        match self {
            BrushColor::Red => "r"@,
            BrushColor::Green => "g"@,
            BrushColor::Yellow => "y"@,
            BrushColor::Purple => "p"@,
            BrushColor::Blue => "b"@,
        }
    }

    pub fn index(self) -> (r: usize)
        ensures
            r == self.position(),
    {
        match self {
            BrushColor::Red => 0,
            BrushColor::Green => 1,
            BrushColor::Yellow => 2,
            BrushColor::Purple => 3,
            BrushColor::Blue => 4,
        }
    }

    pub fn from_index(i: usize) -> (r: Option<BrushColor>)
        ensures
            r is Some <==> i < 5,
            r matches Some(c) ==> c.position() == i,
    {
        match i {
            0 => Some(BrushColor::Red),
            1 => Some(BrushColor::Green),
            2 => Some(BrushColor::Yellow),
            3 => Some(BrushColor::Purple),
            4 => Some(BrushColor::Blue),
            _ => None,
        }
    }

    pub fn letter(self) -> (r: &'static str)
        ensures
            r@ == self.initial(),
    {
        match self {
            BrushColor::Red => "r",
            BrushColor::Green => "g",
            BrushColor::Yellow => "y",
            BrushColor::Purple => "p",
            BrushColor::Blue => "b",
        }
    }

    pub fn from_letter(s: &str) -> (r: Option<BrushColor>)
        ensures
            r matches Some(c) ==> s@ == c.initial(),
            r is None ==> forall|c: BrushColor| s@ != c.initial(),
    {
        if same(s, "r") {
            Some(BrushColor::Red)
        } else if same(s, "g") {
            Some(BrushColor::Green)
        } else if same(s, "y") {
            Some(BrushColor::Yellow)
        } else if same(s, "p") {
            Some(BrushColor::Purple)
        } else if same(s, "b") {
            Some(BrushColor::Blue)
        } else {
            None
        }
    }
}

/// Different colors have different letters and different places, so both
/// lead back to the color: whatever `from_letter` finds for a color's letter,
/// or `from_index` for its place, is that color.
pub proof fn letters_and_places_identify_colors(a: BrushColor, b: BrushColor)
    ensures
        a.initial() == b.initial() ==> a == b,
        a.position() == b.position() ==> a == b,
        a.position() < 5,
{
    reveal_strlit("r");
    reveal_strlit("g");
    reveal_strlit("y");
    reveal_strlit("p");
    reveal_strlit("b");
    assert(a.initial()[0] == b.initial()[0] ==> a == b);
}

/// Every color stands in the palette at its own place, and its letter is the
/// first of its name.
pub proof fn colors_stand_at_their_places(c: BrushColor)
    ensures
        BrushColor::ALL@.len() == 5,
        BrushColor::ALL@[c.position() as int] == c,
        c == BrushColor::Red <==> c.initial() == "r"@,
        c == BrushColor::Green <==> c.initial() == "g"@,
        c == BrushColor::Yellow <==> c.initial() == "y"@,
        c == BrushColor::Purple <==> c.initial() == "p"@,
        c == BrushColor::Blue <==> c.initial() == "b"@,
        c == BrushColor::Red <==> c.position() == 0,
        c == BrushColor::Green <==> c.position() == 1,
        c == BrushColor::Yellow <==> c.position() == 2,
        c == BrushColor::Purple <==> c.position() == 3,
        c == BrushColor::Blue <==> c.position() == 4,
{
    letters_and_places_identify_colors(c, BrushColor::Red);
    letters_and_places_identify_colors(c, BrushColor::Green);
    letters_and_places_identify_colors(c, BrushColor::Yellow);
    letters_and_places_identify_colors(c, BrushColor::Purple);
    letters_and_places_identify_colors(c, BrushColor::Blue);
}

} // verus!
