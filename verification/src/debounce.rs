//! Debouncing: a switch chatters when it closes or opens, so a new snapshot
//! of the matrix counts only once it has been seen often enough in a row.
//!
//! The work is done by keyberon's debouncer. This file says what it does,
//! as a step on plain values, and proves what follows from that.

use vstd::prelude::*;
use crate::event::KeyEvent;
use crate::outside::{debouncer_events, debouncer_new, debouncer_state};

verus! {

/// What a debouncer holds.
pub struct DebounceState {
    /// The snapshot last reported.
    pub stable: Seq<Seq<bool>>,
    /// The snapshot that is being counted.
    pub pending: Seq<Seq<bool>>,
    /// How often in a row `pending` has been seen.
    pub since: nat,
    /// The number of sights in a row at which a snapshot is reported.
    pub window: nat,
}

/// Whether `g` has `rows` rows of `cols` cells each.
pub open spec fn is_grid(g: Seq<Seq<bool>>, rows: int, cols: int) -> bool {
    &&& g.len() == rows
    &&& forall|r: int| 0 <= r < rows ==> (#[trigger] g[r]).len() == cols
}

/// The grid of `rows` by `cols` open switches.
pub open spec fn all_open(rows: int, cols: int) -> Seq<Seq<bool>> {
    Seq::new(rows as nat, |r: int| Seq::new(cols as nat, |c: int| false))
}

/// The event of one cell that went from `before` to `after`, if it changed.
pub open spec fn cell_change(before: bool, after: bool, r: int, c: int) -> Option<KeyEvent> {
    if !before && after {
        Some(KeyEvent::Press(r as u8, c as u8))
    } else if before && !after {
        Some(KeyEvent::Release(r as u8, c as u8))
    } else {
        None
    }
}

/// The events of the first `n` cells of row `r`, by column.
pub open spec fn row_changes(before: Seq<bool>, after: Seq<bool>, r: int, n: int) -> Seq<KeyEvent>
    decreases n,
{
    if n <= 0 {
        Seq::<KeyEvent>::empty()
    } else {
        let front = row_changes(before, after, r, n - 1);
        match cell_change(before[n - 1], after[n - 1], r, n - 1) {
            Some(e) => front.push(e),
            None => front,
        }
    }
}

/// The events of the first `n` rows, row by row.
pub open spec fn grid_changes(before: Seq<Seq<bool>>, after: Seq<Seq<bool>>, n: int) -> Seq<
    KeyEvent,
>
    decreases n,
{
    if n <= 0 {
        Seq::<KeyEvent>::empty()
    } else {
        grid_changes(before, after, n - 1) + row_changes(
            before[n - 1],
            after[n - 1],
            n - 1,
            before[n - 1].len() as int,
        )
    }
}

/// The events that lead from `before` to `after`: one for each cell that
/// differs, by row and then by column.
pub open spec fn changes(before: Seq<Seq<bool>>, after: Seq<Seq<bool>>) -> Seq<KeyEvent> {
    grid_changes(before, after, before.len() as int)
}

/// How often `snap` has been seen in a row once it is seen now.
pub open spec fn seen(s: DebounceState, snap: Seq<Seq<bool>>) -> nat {
    if s.pending == snap {
        s.since + 1
    } else {
        1
    }
}

/// Whether `snap` becomes the stable snapshot when it is seen now.
pub open spec fn settles(s: DebounceState, snap: Seq<Seq<bool>>) -> bool {
    s.stable != snap && seen(s, snap) >= s.window
}

/// The debouncer after it has seen `snap`.
pub open spec fn stepped(s: DebounceState, snap: Seq<Seq<bool>>) -> DebounceState {
    if s.stable == snap {
        DebounceState { since: 0, ..s }
    } else if settles(s, snap) {
        DebounceState { stable: snap, pending: s.stable, since: 0, window: s.window }
    } else {
        DebounceState { stable: s.stable, pending: snap, since: seen(s, snap), window: s.window }
    }
}

/// The events that the debouncer reports when it sees `snap`.
pub open spec fn step_events(s: DebounceState, snap: Seq<Seq<bool>>) -> Seq<KeyEvent> {
    if settles(s, snap) {
        changes(s.stable, snap)
    } else {
        Seq::<KeyEvent>::empty()
    }
}

/// The debouncer after it has seen `snap` `n` times in a row.
pub open spec fn held(s: DebounceState, snap: Seq<Seq<bool>>, n: nat) -> DebounceState
    decreases n,
{
    if n == 0 {
        s
    } else {
        stepped(held(s, snap, (n - 1) as nat), snap)
    }
}

/// A debouncer for a matrix of fixed size.
pub struct MatrixDebouncer {
    inner: keyberon::debounce::Debouncer<Vec<Vec<bool>>>,
    rows: usize,
    cols: usize,
}

impl MatrixDebouncer {
    /// What the debouncer holds.
    pub closed spec fn state(&self) -> DebounceState {
        debouncer_state(self.inner)
    }

    /// Rows of the matrix.
    pub closed spec fn spec_rows(&self) -> int {
        self.rows as int
    }

    /// Columns of the matrix.
    pub closed spec fn spec_cols(&self) -> int {
        self.cols as int
    }

    /// Both snapshots have the size of the matrix, every row and column
    /// index fits in a byte, and the count stays below the window.
    pub open spec fn wf(&self) -> bool {
        &&& 0 <= self.spec_rows() <= 256
        &&& 0 <= self.spec_cols() <= 256
        &&& is_grid(self.state().stable, self.spec_rows(), self.spec_cols())
        &&& is_grid(self.state().pending, self.spec_rows(), self.spec_cols())
        &&& self.state().since < self.state().window
        &&& self.state().window <= u16::MAX
    }

    /// A debouncer for `rows` by `cols` switches, all open, that reports a
    /// snapshot at the `window`th sight of it in a row.
    pub fn new(rows: usize, cols: usize, window: u16) -> (d: MatrixDebouncer)
        requires
            rows <= 256,
            cols <= 256,
            window >= 1,
        ensures
            d.wf(),
            d.spec_rows() == rows,
            d.spec_cols() == cols,
            d.state().stable == all_open(rows as int, cols as int),
            d.state().pending == all_open(rows as int, cols as int),
            d.state().since == 0,
            d.state().window == window,
    {
        let cur = open_grid(rows, cols);
        let new = open_grid(rows, cols);
        MatrixDebouncer { inner: debouncer_new(cur, new, window - 1), rows, cols }
    }

    /// Rows of the matrix.
    pub fn rows(&self) -> (n: usize)
        ensures
            n == self.spec_rows(),
    {
        self.rows
    }

    /// Columns of the matrix.
    pub fn cols(&self) -> (n: usize)
        ensures
            n == self.spec_cols(),
    {
        self.cols
    }

    /// Whether `snap` has the size of the matrix.
    pub fn fits(&self, snap: &Vec<Vec<bool>>) -> (ok: bool)
        ensures
            ok == is_grid(snap.deep_view(), self.spec_rows(), self.spec_cols()),
    {
        if snap.len() != self.rows {
            assert(snap.deep_view().len() == snap.len());
            return false;
        }
        let mut r: usize = 0;
        while r < snap.len()
            invariant
                r <= snap.len(),
                snap.len() == self.rows,
                forall|i: int| 0 <= i < r ==> (#[trigger] snap.deep_view()[i]).len() == self.cols,
            decreases snap.len() - r,
        {
            assert(snap.deep_view()[r as int] == snap[r as int].deep_view());
            assert(snap[r as int].deep_view().len() == snap[r as int].len());
            if snap[r].len() != self.cols {
                return false;
            }
            r = r + 1;
        }
        true
    }

    /// Takes the snapshot of one scan. The events of that scan come back,
    /// by row and then by column: none, unless `snap` differs from the
    /// stable snapshot and has now been seen as often as the window asks; then one for each cell in which the two differ, and `snap` is
    /// the stable snapshot from now on.
    pub fn events(&mut self, snap: Vec<Vec<bool>>) -> (out: Vec<KeyEvent>)
        requires
            old(self).wf(),
            is_grid(snap.deep_view(), old(self).spec_rows(), old(self).spec_cols()),
        ensures
            final(self).wf(),
            final(self).spec_rows() == old(self).spec_rows(),
            final(self).spec_cols() == old(self).spec_cols(),
            final(self).state() == stepped(old(self).state(), snap.deep_view()),
            out@ == step_events(old(self).state(), snap.deep_view()),
    {
        debouncer_events(&mut self.inner, snap)
    }
}

/// A grid of `rows` by `cols` open switches.
pub fn open_grid(rows: usize, cols: usize) -> (g: Vec<Vec<bool>>)
    ensures
        g.deep_view() == all_open(rows as int, cols as int),
{
    let mut g: Vec<Vec<bool>> = Vec::new();
    let mut r: usize = 0;
    while r < rows
        invariant
            r <= rows,
            g.len() == r,
            forall|i: int| 0 <= i < r ==> (#[trigger] g[i]).deep_view() == Seq::new(cols as nat, |c: int| false),
        decreases rows - r,
    {
        let mut row: Vec<bool> = Vec::new();
        let mut c: usize = 0;
        while c < cols
            invariant
                c <= cols,
                row.len() == c,
                forall|j: int| 0 <= j < c ==> !(#[trigger] row[j]),
            decreases cols - c,
        {
            row.push(false);
            c = c + 1;
        }
        assert(row.deep_view() =~= Seq::new(cols as nat, |c: int| false));
        g.push(row);
        r = r + 1;
    }
    assert(g.deep_view() =~= all_open(rows as int, cols as int));
    g
}

/// Seeing the stable snapshot again reports nothing and leaves it stable.
pub proof fn lemma_steady(s: DebounceState, n: nat)
    ensures
        held(s, s.stable, n).stable == s.stable,
        held(s, s.stable, n).window == s.window,
        n > 0 ==> held(s, s.stable, n).since == 0,
        step_events(held(s, s.stable, n), s.stable) == Seq::<KeyEvent>::empty(),
    decreases n,
{
    if n > 0 {
        lemma_steady(s, (n - 1) as nat);
    }
}

/// A snapshot that differs from the stable one is counted, beginning after
/// a sight of the stable one: the sights before the `window`th report
/// nothing and leave the stable snapshot, and the `window`th reports the
/// change.
pub proof fn lemma_counted(s: DebounceState, snap: Seq<Seq<bool>>, n: nat)
    requires
        s.stable != snap,
        s.since == 0,
        n < s.window,
    ensures
        held(s, snap, n).stable == s.stable,
        held(s, snap, n).window == s.window,
        held(s, snap, n).since == n,
        n > 0 ==> held(s, snap, n).pending == snap,
        n + 1 < s.window ==> step_events(held(s, snap, n), snap) == Seq::<KeyEvent>::empty(),
        n + 1 == s.window ==> step_events(held(s, snap, n), snap) == changes(s.stable, snap),
    decreases n,
{
    if n > 0 {
        lemma_counted(s, snap, (n - 1) as nat);
    }
}

/// The `window`th sight in a row settles the snapshot: it is the stable
/// one from then on, and further sights report nothing.
pub proof fn lemma_settled(s: DebounceState, snap: Seq<Seq<bool>>, more: nat)
    requires
        s.stable != snap,
        s.since == 0,
        s.window >= 1,
    ensures
        held(s, snap, s.window + more).stable == snap,
        held(s, snap, s.window + more).since == 0,
        held(s, snap, s.window + more).window == s.window,
        step_events(held(s, snap, s.window + more), snap) == Seq::<KeyEvent>::empty(),
    decreases more,
{
    if more == 0 {
        lemma_counted(s, snap, (s.window - 1) as nat);
    } else {
        lemma_settled(s, snap, (more - 1) as nat);
    }
}

/// Rows that agree in their first `n` cells give no event there.
pub proof fn lemma_row_unchanged(before: Seq<bool>, after: Seq<bool>, r: int, n: int)
    requires
        n <= before.len(),
        n <= after.len(),
        forall|j: int| 0 <= j < n ==> before[j] == after[j],
    ensures
        row_changes(before, after, r, n) == Seq::<KeyEvent>::empty(),
    decreases n,
{
    if n > 0 {
        lemma_row_unchanged(before, after, r, n - 1);
    }
}

/// Rows that differ in cell `c` alone give the event of that cell, once the
/// walk has passed it.
pub proof fn lemma_row_one_change(before: Seq<bool>, after: Seq<bool>, r: int, c: int, n: int)
    requires
        0 <= c < n <= before.len(),
        n <= after.len(),
        before[c] != after[c],
        forall|j: int| 0 <= j < n && j != c ==> before[j] == after[j],
    ensures
        cell_change(before[c], after[c], r, c) is Some,
        row_changes(before, after, r, n) == seq![cell_change(before[c], after[c], r, c).unwrap()],
    decreases n,
{
    if n - 1 == c {
        lemma_row_unchanged(before, after, r, c);
        assert(row_changes(before, after, r, n) =~= seq![
            cell_change(before[c], after[c], r, c).unwrap(),
        ]);
    } else {
        lemma_row_one_change(before, after, r, c, n - 1);
    }
}

/// Grids that agree in their first `n` rows give no event there.
pub proof fn lemma_grid_unchanged(before: Seq<Seq<bool>>, after: Seq<Seq<bool>>, n: int)
    requires
        n <= before.len(),
        n <= after.len(),
        forall|i: int| 0 <= i < n ==> before[i] == after[i],
    ensures
        grid_changes(before, after, n) == Seq::<KeyEvent>::empty(),
    decreases n,
{
    if n > 0 {
        lemma_grid_unchanged(before, after, n - 1);
        lemma_row_unchanged(before[n - 1], after[n - 1], n - 1, before[n - 1].len() as int);
        assert(grid_changes(before, after, n) =~= Seq::<KeyEvent>::empty());
    }
}

/// The event of the cell `(r, c)` when it turns to `closed`.
pub open spec fn turn(closed: bool, r: int, c: int) -> KeyEvent {
    if closed {
        KeyEvent::Press(r as u8, c as u8)
    } else {
        KeyEvent::Release(r as u8, c as u8)
    }
}

/// Whether `before` and `after`, of `rows` by `cols` cells, differ in the
/// cell `(r, c)` and in no other.
pub open spec fn differ_in_one(
    before: Seq<Seq<bool>>,
    after: Seq<Seq<bool>>,
    rows: int,
    cols: int,
    r: int,
    c: int,
) -> bool {
    &&& is_grid(before, rows, cols)
    &&& is_grid(after, rows, cols)
    &&& 0 <= r < rows
    &&& 0 <= c < cols
    &&& before[r][c] != after[r][c]
    &&& forall|i: int, j: int|
        0 <= i < rows && 0 <= j < cols && (i != r || j != c) ==> before[i][j] == after[i][j]
}

/// Two snapshots that differ in one cell are led from one to the other by
/// one event, that of the cell.
pub proof fn lemma_one_cell_changes(
    before: Seq<Seq<bool>>,
    after: Seq<Seq<bool>>,
    rows: int,
    cols: int,
    r: int,
    c: int,
)
    requires
        differ_in_one(before, after, rows, cols, r, c),
    ensures
        before != after,
        changes(before, after) == seq![turn(after[r][c], r, c)],
{
    lemma_one_cell_upto(before, after, rows, cols, r, c, rows);
}

/// The walk over the first `n` rows of two snapshots that differ in the
/// cell `(r, c)` alone, once it has passed row `r`.
proof fn lemma_one_cell_upto(
    before: Seq<Seq<bool>>,
    after: Seq<Seq<bool>>,
    rows: int,
    cols: int,
    r: int,
    c: int,
    n: int,
)
    requires
        differ_in_one(before, after, rows, cols, r, c),
        r < n <= rows,
    ensures
        grid_changes(before, after, n) == seq![turn(after[r][c], r, c)],
    decreases n,
{
    let row = n - 1;
    if row == r {
        assert forall|i: int| 0 <= i < r implies before[i] == after[i] by {
            assert(before[i].len() == cols && after[i].len() == cols);
            assert(before[i] =~= after[i]);
        }
        lemma_grid_unchanged(before, after, r);
        assert(before[r].len() == cols && after[r].len() == cols);
        lemma_row_one_change(before[r], after[r], r, c, cols);
        assert(grid_changes(before, after, n) =~= seq![turn(after[r][c], r, c)]);
    } else {
        lemma_one_cell_upto(before, after, rows, cols, r, c, n - 1);
        assert(before[row].len() == cols && after[row].len() == cols);
        lemma_row_unchanged(before[row], after[row], row, cols);
        assert(grid_changes(before, after, n) =~= seq![turn(after[r][c], r, c)]);
    }
}

/// One cell changes and stays changed. The debouncer has just seen its
/// stable snapshot; from now on it sees one that differs from it in the
/// cell `(r, c)` alone. The sights before the `window`th report nothing,
/// the `window`th reports the one event of that cell, and every sight after
/// that reports nothing again: held for `window` scans or more, the change
/// gives exactly one event.
pub proof fn lemma_one_cell_one_event(
    s: DebounceState,
    snap: Seq<Seq<bool>>,
    rows: int,
    cols: int,
    r: int,
    c: int,
    n: nat,
)
    requires
        s.since == 0,
        s.window >= 1,
        differ_in_one(s.stable, snap, rows, cols, r, c),
    ensures
        n + 1 < s.window ==> step_events(held(s, snap, n), snap) == Seq::<KeyEvent>::empty(),
        n + 1 == s.window ==> step_events(held(s, snap, n), snap) == seq![
            turn(snap[r][c], r, c),
        ],
        n + 1 > s.window ==> step_events(held(s, snap, n), snap) == Seq::<KeyEvent>::empty(),
{
    lemma_one_cell_changes(s.stable, snap, rows, cols, r, c);
    if n < s.window {
        lemma_counted(s, snap, n);
    } else {
        lemma_settled(s, snap, (n - s.window) as nat);
    }
}

/// Every event that leads from one snapshot to another is the event of its
/// own cell, and that cell differs: no cell is reported unchanged, and none
/// as both pressed and released.
pub proof fn lemma_changes_are_cells(
    before: Seq<Seq<bool>>,
    after: Seq<Seq<bool>>,
    rows: int,
    cols: int,
    k: int,
)
    requires
        is_grid(before, rows, cols),
        is_grid(after, rows, cols),
        rows <= 256,
        cols <= 256,
        0 <= k < changes(before, after).len(),
    ensures
        ({
            let e = changes(before, after)[k];
            &&& e.row() < rows
            &&& e.col() < cols
            &&& before[e.row() as int][e.col() as int] != after[e.row() as int][e.col() as int]
            &&& e == turn(after[e.row() as int][e.col() as int], e.row() as int, e.col() as int)
        }),
{
    lemma_grid_changes_are_cells(before, after, rows, cols, rows, k);
}

proof fn lemma_row_changes_are_cells(
    before: Seq<bool>,
    after: Seq<bool>,
    r: int,
    n: int,
    k: int,
)
    requires
        0 <= r < 256,
        n <= before.len(),
        n <= after.len(),
        n <= 256,
        0 <= k < row_changes(before, after, r, n).len(),
    ensures
        ({
            let e = row_changes(before, after, r, n)[k];
            &&& e.row() == r
            &&& e.col() < n
            &&& before[e.col() as int] != after[e.col() as int]
            &&& e == turn(after[e.col() as int], r, e.col() as int)
        }),
    decreases n,
{
    if n > 0 {
        let front = row_changes(before, after, r, n - 1);
        if k < front.len() {
            lemma_row_changes_are_cells(before, after, r, n - 1, k);
        }
    }
}

proof fn lemma_grid_changes_are_cells(
    before: Seq<Seq<bool>>,
    after: Seq<Seq<bool>>,
    rows: int,
    cols: int,
    n: int,
    k: int,
)
    requires
        is_grid(before, rows, cols),
        is_grid(after, rows, cols),
        rows <= 256,
        cols <= 256,
        n <= rows,
        0 <= k < grid_changes(before, after, n).len(),
    ensures
        ({
            let e = grid_changes(before, after, n)[k];
            &&& e.row() < n
            &&& e.col() < cols
            &&& before[e.row() as int][e.col() as int] != after[e.row() as int][e.col() as int]
            &&& e == turn(after[e.row() as int][e.col() as int], e.row() as int, e.col() as int)
        }),
    decreases n,
{
    if n > 0 {
        let front = grid_changes(before, after, n - 1);
        assert(before[n - 1].len() == cols && after[n - 1].len() == cols);
        if k < front.len() {
            lemma_grid_changes_are_cells(before, after, rows, cols, n - 1, k);
        } else {
            lemma_row_changes_are_cells(before[n - 1], after[n - 1], n - 1, cols, k - front.len());
        }
    }
}

} // verus!
