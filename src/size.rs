use vstd::prelude::*;

verus! {

/// Rows used when a session is opened without an explicit geometry.
pub const DEFAULT_ROWS: u16 = 24;

/// Columns used when a session is opened without an explicit geometry.
pub const DEFAULT_COLS: u16 = 80;

/// Geometry of a pseudo-terminal: character cells and pixel extent.
#[derive(Clone, Copy, Debug, PartialEq, Eq, Structural)]
pub struct PtySizeDef {
    pub rows: u16,
    pub cols: u16,
    pub pixel_width: u16,
    pub pixel_height: u16,
}

impl PtySizeDef {
    /// A geometry of `rows` by `cols` cells with the pixel fields unused.
    pub open spec fn new_spec(rows: u16, cols: u16) -> PtySizeDef {
        PtySizeDef { rows, cols, pixel_width: 0, pixel_height: 0 }
    }

    pub fn new(rows: u16, cols: u16) -> (r: Self)
        ensures
            r == Self::new_spec(rows, cols),
    {
        PtySizeDef { rows, cols, pixel_width: 0, pixel_height: 0 }
    }

    /// The geometry a session gets when none is given.
    pub open spec fn spec_default() -> PtySizeDef {
        Self::new_spec(DEFAULT_ROWS, DEFAULT_COLS)
    }

    pub fn default_size() -> (r: Self)
        ensures
            r == Self::spec_default(),
    {
        Self::new(DEFAULT_ROWS, DEFAULT_COLS)
    }
}

} // verus!
