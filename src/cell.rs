use vstd::prelude::*;

verus! {

/// The state of one cell: empty, or filled with a block.
///
/// The number in a block is an identifier (a piece type or a colour). It is
/// cosmetic: no rule of the board looks at it.
#[derive(PartialEq, Eq, Structural, Copy, Clone, Debug)]
pub enum CellType {
    Empty,
    Block(usize),
}

/// Whether `c` is solid.
pub open spec fn is_block(c: CellType) -> bool {
    c is Block
}

/// Every cell of the row is a block.
pub open spec fn row_full(row: Seq<CellType>) -> bool {
    forall|c: int| 0 <= c < row.len() ==> is_block(#[trigger] row[c])
}

/// Every cell of the row is empty.
pub open spec fn row_empty(row: Seq<CellType>) -> bool {
    forall|c: int| 0 <= c < row.len() ==> #[trigger] row[c] == CellType::Empty
}

/// A row of `width` empty cells.
pub open spec fn empty_row(width: nat) -> Seq<CellType> {
    Seq::new(width, |_c: int| CellType::Empty)
}

/// `height` rows of `width` empty cells.
pub open spec fn empty_grid(width: nat, height: nat) -> Seq<Seq<CellType>> {
    Seq::new(height, |_r: int| empty_row(width))
}

impl CellType {
    /// Whether this cell holds a block.
    pub fn is_block(&self) -> (r: bool)
        ensures
            r == is_block(*self),
    {
        match self {
            CellType::Empty => false,
            CellType::Block(_) => true,
        }
    }
}

} // verus!
