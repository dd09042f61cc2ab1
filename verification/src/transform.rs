//! Position transform: one layer table serves both halves, so the half that
//! was sensed as the host side at start counts its columns from the far end.

use vstd::prelude::*;
use crate::event::KeyEvent;
use crate::outside::event_transform;

verus! {

/// The column opposite to `col` in a matrix of `cols` columns.
pub open spec fn mirror_col(col: u8, cols: u8) -> u8
    recommends
        col < cols,
{
    (cols - 1 - col) as u8
}

/// `e` with its column mirrored in a matrix of `cols` columns.
pub open spec fn mirrored(e: KeyEvent, cols: u8) -> KeyEvent
    recommends
        e.col() < cols,
{
    match e {
        KeyEvent::Press(r, c) => KeyEvent::Press(r, mirror_col(c, cols)),
        KeyEvent::Release(r, c) => KeyEvent::Release(r, mirror_col(c, cols)),
    }
}

/// The position opposite to `(row, col)`: same row, mirrored column.
pub fn mirror_coord(row: u8, col: u8, cols: u8) -> (rc: (u8, u8))
    requires
        col < cols,
    ensures
        rc.0 == row,
        rc.1 == mirror_col(col, cols),
        rc.1 < cols,
{
    (row, cols - 1 - col)
}

/// How a half maps its own positions to positions of the layer table.
/// It is chosen once, at start, and never changes.
#[derive(Clone, Copy, Debug, PartialEq, Eq, Structural)]
pub enum Transform {
    /// Positions stay as they are.
    Identity,
    /// Columns are mirrored in a matrix of `cols` columns.
    Mirror { cols: u8 },
}

impl Transform {
    /// Whether `e` lies in the matrix that the transform is for.
    pub open spec fn admits(self, e: KeyEvent) -> bool {
        match self {
            Transform::Identity => true,
            Transform::Mirror { cols } => e.col() < cols,
        }
    }

    /// `e` after the transform.
    pub open spec fn applied(self, e: KeyEvent) -> KeyEvent
        recommends
            self.admits(e),
    {
        match self {
            Transform::Identity => e,
            Transform::Mirror { cols } => mirrored(e, cols),
        }
    }

    /// The transform of a half: the host side mirrors, the other does not.
    pub open spec fn select_spec(is_host: bool, cols: u8) -> Transform {
        if is_host {
            Transform::Mirror { cols }
        } else {
            Transform::Identity
        }
    }

    /// The transform of a half: the host side mirrors, the other does not.
    pub fn select(is_host: bool, cols: u8) -> (t: Transform)
        ensures
            t == Transform::select_spec(is_host, cols),
    {
        if is_host {
            Transform::Mirror { cols }
        } else {
            Transform::Identity
        }
    }

    /// Whether `e` lies in the matrix that the transform is for.
    pub fn accepts(&self, e: KeyEvent) -> (ok: bool)
        ensures
            ok == self.admits(e),
    {
        match self {
            Transform::Identity => true,
            Transform::Mirror { cols } => e.coord().1 < *cols,
        }
    }

    /// Transforms one event. The result lies in the same matrix.
    pub fn apply(&self, e: KeyEvent) -> (out: KeyEvent)
        requires
            self.admits(e),
        ensures
            out == self.applied(e),
            self.admits(out),
    {
        match self {
            Transform::Identity => e,
            Transform::Mirror { cols } => event_transform(e, *cols),
        }
    }
}

/// Mirroring keeps the kind and the row of an event and keeps its column
/// inside the matrix.
pub proof fn lemma_mirror_stays(e: KeyEvent, cols: u8)
    requires
        e.col() < cols,
    ensures
        mirrored(e, cols).row() == e.row(),
        mirrored(e, cols).col() < cols,
        mirrored(e, cols).col() + e.col() == cols - 1,
        (e is Press) == (mirrored(e, cols) is Press),
{
}

/// Mirroring twice gives the event back.
pub proof fn lemma_mirror_twice(e: KeyEvent, cols: u8)
    requires
        e.col() < cols,
    ensures
        mirrored(mirrored(e, cols), cols) == e,
{
}

/// The first column goes to the last.
pub proof fn lemma_mirror_first_column(row: u8, cols: u8)
    requires
        cols > 0,
    ensures
        mirrored(KeyEvent::Press(row, 0), cols) == KeyEvent::Press(row, (cols - 1) as u8),
        mirrored(KeyEvent::Release(row, 0), cols) == KeyEvent::Release(row, (cols - 1) as u8),
{
}

} // verus!
