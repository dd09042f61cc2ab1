//! One half of the keyboard: its debouncer and its position transform.
//!
//! The scan of the switches is the firmware's business. It hands each
//! snapshot to the half, which hands back the events of that scan, at the
//! positions of the layer table.

use vstd::prelude::*;
use crate::debounce::{
    is_grid,
    lemma_changes_are_cells,
    step_events,
    stepped,
    MatrixDebouncer,
};
use crate::event::KeyEvent;
use crate::transform::Transform;

verus! {

/// USB vendor id of a generic keyboard.
pub const VID: u16 = 0x16c0;

/// USB product id of a generic keyboard.
pub const PID: u16 = 0x27db;

/// Scans in a row at which a changed snapshot is reported.
pub const DEBOUNCE_WINDOW: u16 = 5;

/// The snapshot `keys` as rows of cells.
pub open spec fn grid_of<const COLS: usize, const ROWS: usize>(keys: [[bool; COLS]; ROWS]) -> Seq<
    Seq<bool>,
> {
    Seq::new(ROWS as nat, |r: int| Seq::new(COLS as nat, |c: int| keys@[r]@[c]))
}

/// `events`, each after the transform `t`.
pub open spec fn transformed(t: Transform, events: Seq<KeyEvent>) -> Seq<KeyEvent> {
    Seq::new(events.len(), |i: int| t.applied(events[i]))
}

/// Whether `t` takes every position of a matrix of `cols` columns.
pub open spec fn covers(t: Transform, cols: int) -> bool {
    match t {
        Transform::Identity => true,
        Transform::Mirror { cols: width } => cols <= width,
    }
}

/// One half of the keyboard, with a matrix of `ROWS` rows and `COLS`
/// columns.
pub struct HillsideKeyboard<const COLS: usize, const ROWS: usize> {
    /// The debouncer of the half's matrix.
    pub debouncer: MatrixDebouncer,
    /// The transform that was chosen at start.
    pub transform: Transform,
}

impl<const COLS: usize, const ROWS: usize> HillsideKeyboard<COLS, ROWS> {
    /// The debouncer is one for this matrix, and the transform takes every
    /// position of it.
    pub open spec fn wf(&self) -> bool {
        &&& self.debouncer.wf()
        &&& self.debouncer.spec_rows() == ROWS
        &&& self.debouncer.spec_cols() == COLS
        &&& covers(self.transform, COLS as int)
    }

    /// A half with the given debouncer and transform.
    pub fn new(debouncer: MatrixDebouncer, transform: Transform) -> (kb: Self)
        requires
            debouncer.wf(),
            debouncer.spec_rows() == ROWS,
            debouncer.spec_cols() == COLS,
            covers(transform, COLS as int),
        ensures
            kb.wf(),
            kb.debouncer == debouncer,
            kb.transform == transform,
    {
        Self { debouncer, transform }
    }

    /// Takes the snapshot of one scan, and hands back the events of that
    /// scan as the debouncer reports them, each after the transform.
    pub fn events(&mut self, keys: &[[bool; COLS]; ROWS]) -> (out: Vec<KeyEvent>)
        requires
            old(self).wf(),
        ensures
            final(self).wf(),
            final(self).transform == old(self).transform,
            final(self).debouncer.state() == stepped(old(self).debouncer.state(), grid_of(*keys)),
            out@ == transformed(
                old(self).transform,
                step_events(old(self).debouncer.state(), grid_of(*keys)),
            ),
    {
        let snap = snapshot(keys);
        let raw = self.debouncer.events(snap);
        let ghost before = old(self).debouncer.state();
        let ghost grid = grid_of(*keys);
        let mut out: Vec<KeyEvent> = Vec::new();
        let mut i: usize = 0;
        while i < raw.len()
            invariant
                i <= raw.len(),
                covers(self.transform, COLS as int),
                self.transform == old(self).transform,
                raw@ == step_events(before, grid),
                is_grid(before.stable, ROWS as int, COLS as int),
                is_grid(grid, ROWS as int, COLS as int),
                ROWS <= 256,
                COLS <= 256,
                out@.len() == i,
                forall|j: int| 0 <= j < i ==> out@[j] == self.transform.applied(raw@[j]),
            decreases raw.len() - i,
        {
            proof {
                lemma_changes_are_cells(before.stable, grid, ROWS as int, COLS as int, i as int);
            }
            let e = self.transform.apply(raw[i]);
            out.push(e);
            i = i + 1;
        }
        assert(out@ =~= transformed(self.transform, raw@));
        out
    }
}

/// The snapshot `keys` as rows of cells.
pub fn snapshot<const COLS: usize, const ROWS: usize>(keys: &[[bool; COLS]; ROWS]) -> (snap: Vec<
    Vec<bool>,
>)
    ensures
        snap.deep_view() == grid_of(*keys),
        is_grid(snap.deep_view(), ROWS as int, COLS as int),
{
    let mut snap: Vec<Vec<bool>> = Vec::new();
    let mut r: usize = 0;
    while r < ROWS
        invariant
            r <= ROWS,
            snap.len() == r,
            forall|i: int|
                0 <= i < r ==> (#[trigger] snap[i]).deep_view() == Seq::new(
                    COLS as nat,
                    |c: int| keys@[i]@[c],
                ),
        decreases ROWS - r,
    {
        let mut row: Vec<bool> = Vec::new();
        let mut c: usize = 0;
        while c < COLS
            invariant
                c <= COLS,
                r < ROWS,
                row.len() == c,
                forall|j: int| 0 <= j < c ==> (#[trigger] row[j]) == keys@[r as int]@[j],
            decreases COLS - c,
        {
            row.push(keys[r][c]);
            c = c + 1;
        }
        assert(row.deep_view() =~= Seq::new(COLS as nat, |c: int| keys@[r as int]@[c]));
        snap.push(row);
        r = r + 1;
    }
    assert(snap.deep_view() =~= grid_of(*keys));
    snap
}

/// Every event that a half hands out lies in the layer table: its row is a
/// row of the matrix, and its column is a column of the matrix or, after
/// mirroring, the column opposite to one.
pub proof fn lemma_events_in_bounds(
    t: Transform,
    s: crate::debounce::DebounceState,
    snap: Seq<Seq<bool>>,
    rows: int,
    cols: int,
    i: int,
)
    requires
        rows <= 256,
        cols <= 256,
        is_grid(s.stable, rows, cols),
        is_grid(snap, rows, cols),
        covers(t, cols),
        0 <= i < transformed(t, step_events(s, snap)).len(),
    ensures
        ({
            let raw = step_events(s, snap)[i];
            let e = transformed(t, step_events(s, snap))[i];
            &&& raw.row() < rows
            &&& raw.col() < cols
            &&& e.row() == raw.row()
            &&& (e is Press) == (raw is Press)
            &&& match t {
                Transform::Identity => e.col() == raw.col(),
                Transform::Mirror { cols: width } => e.col() + raw.col() == width - 1,
            }
        }),
{
    lemma_changes_are_cells(s.stable, snap, rows, cols, i);
}

} // verus!
