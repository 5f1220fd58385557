//! What a player believes of a digit at a position, and the table of these
//! beliefs, one row for each digit and one column for each position.

use vstd::prelude::*;

verus! {

/// The belief about one digit at one position.
#[derive(Clone, Copy, Debug, PartialEq, Eq, Structural)]
pub enum Hint {
    /// Nothing is known yet.
    Unknown,
    /// The digit may stand here.
    Maybe,
    /// The digit stands here.
    Here,
    /// The digit does not stand here.
    NotHere,
}

/// The table as a mathematical value: row `d`, column `p` is the belief about
/// digit `d` at position `p`.
pub type Grid = Seq<Seq<Hint>>;

/// Ten rows of four columns.
pub open spec fn is_grid(g: Grid) -> bool {
    g.len() == 10 && forall|d: int| 0 <= d < 10 ==> (#[trigger] g[d]).len() == 4
}

/// The grid that a table holds.
pub open spec fn grid_of(table: [[Hint; 4]; 10]) -> Grid {
    Seq::new(10, |d: int| table[d]@)
}

/// The grid in which nothing is known.
pub open spec fn blank_grid() -> Grid {
    Seq::new(10, |d: int| Seq::new(4, |p: int| Hint::Unknown))
}

/// A table in which nothing is known.
pub fn blank_table() -> (table: [[Hint; 4]; 10])
    ensures
        grid_of(table) == blank_grid(),
{
    let table: [[Hint; 4]; 10] = [[Hint::Unknown; 4]; 10];
    assert forall|d: int| 0 <= d < 10 implies table[d]@ =~= blank_grid()[d] by {}
    assert(grid_of(table) =~= blank_grid());
    table
}

/// The sign that stands for a belief when the table is shown: a blank for
/// `Unknown`, `?` for `Maybe`, `+` for `Here`, `-` for `NotHere`.
pub open spec fn symbol_of(h: Hint) -> char {
    match h {
        Hint::Unknown => ' ',
        Hint::Maybe => '?',
        Hint::Here => '+',
        Hint::NotHere => '-',
    }
}

impl Hint {
    /// The sign that stands for this belief when the table is shown.
    pub fn symbol(self) -> (c: char)
        ensures
            c == symbol_of(self),
    {
        match self {
            Hint::Unknown => ' ',
            Hint::Maybe => '?',
            Hint::Here => '+',
            Hint::NotHere => '-',
        }
    }
}

} // verus!
