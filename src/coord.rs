use vstd::prelude::*;

verus! {

/// Rows of each half's key matrix.
pub const ROWS: u8 = 4;

/// Columns of each half's key matrix.
pub const LOCAL_COLUMNS: u8 = 6;

/// Columns of the whole keyboard once both halves are merged.
pub const TOTAL_COLUMNS: u8 = 12;

/// One physical key, addressed by matrix row and column.
#[derive(Clone, Copy, Debug, PartialEq, Eq, Structural)]
pub struct Coordinate {
    pub row: u8,
    pub col: u8,
}

/// Which physical half this controller sits in, sampled once at start-up.
#[derive(Clone, Copy, Debug, PartialEq, Eq, Structural)]
pub enum Side {
    /// Local coordinates are already canonical.
    Primary,
    /// Local columns are mirrored into the upper half of the canonical range.
    Secondary,
}

/// A coordinate that the local matrix of either half can produce.
pub open spec fn is_local(c: Coordinate) -> bool {
    c.row < ROWS && c.col < LOCAL_COLUMNS
}

/// A coordinate that the secondary half can mirror.
pub open spec fn in_canonical_range(c: Coordinate) -> bool {
    c.col < TOTAL_COLUMNS
}

/// Canonical coordinate of a half-local one.
pub open spec fn transform_spec(side: Side, c: Coordinate) -> Coordinate {
    match side {
        Side::Primary => c,
        Side::Secondary => Coordinate { row: c.row, col: (TOTAL_COLUMNS - 1 - c.col) as u8 },
    }
}

impl Coordinate {
    /// Whether the local matrix of a half can produce this coordinate.
    pub fn is_local(&self) -> (r: bool)
        ensures
            r == is_local(*self),
    {
        self.row < ROWS && self.col < LOCAL_COLUMNS
    }
}

/// Maps a half-local coordinate to the whole-keyboard coordinate: the
/// identity on the primary half, a column mirror on the secondary half.
pub fn transform(side: Side, c: Coordinate) -> (r: Coordinate)
    requires
        side == Side::Primary || in_canonical_range(c),
    ensures
        r == transform_spec(side, c),
        side == Side::Primary ==> r == c,
        side == Side::Secondary ==> r.row == c.row && r.col == TOTAL_COLUMNS - 1 - c.col,
{
    match side {
        Side::Primary => c,
        Side::Secondary => Coordinate { row: c.row, col: TOTAL_COLUMNS - 1 - c.col },
    }
}

/// The two halves cover disjoint column ranges of the canonical space: the
/// primary half lands in the lower columns and the secondary half in the
/// upper ones, rows unchanged.
pub proof fn lemma_halves_disjoint(c: Coordinate)
    requires
        is_local(c),
    ensures
        in_canonical_range(c),
        transform_spec(Side::Primary, c).col < LOCAL_COLUMNS,
        LOCAL_COLUMNS <= transform_spec(Side::Secondary, c).col < TOTAL_COLUMNS,
        transform_spec(Side::Primary, c).row == c.row,
        transform_spec(Side::Secondary, c).row == c.row,
{
}

} // verus!
