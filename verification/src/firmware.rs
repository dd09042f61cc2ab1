//! The firmware's tasks, as steps on the state that each of them owns.
//!
//! The firmware scans the matrix, reads the serial link, asks the USB
//! device whether it is configured, and writes reports. Between these it
//! calls the steps of this file, one for each task, and does what they hand
//! back.

use vstd::prelude::*;
use crate::action::LayerTable;
use crate::common::{grid_of, transformed, HillsideKeyboard, DEBOUNCE_WINDOW};
use crate::debounce::{all_open, step_events, stepped, MatrixDebouncer};
use crate::engine::{Engine, Held, TickOutcome};
use crate::event::KeyEvent;
use crate::layouts::CustomAction;
use crate::outside::layout_key_codes;
use crate::receiver::{encode_all, frames, Receiver};
use crate::report::{bytes_of, empty_report, report_of, Reporter};
use crate::transform::Transform;
use keyberon::key_code::KeyCode;

verus! {

/// Columns of one half's matrix.
pub const COLS: usize = 6;

/// Rows of one half's matrix.
pub const ROWS: usize = 4;

/// Columns of the layer table, which spans both halves.
pub const TABLE_COLS: u8 = 12;

/// One half of this keyboard.
pub type Keyboard = HillsideKeyboard<6, 4>;

/// Where the events of a half's own scan go: on the half that the host is
/// connected to, to its own layout; on the other half, over the serial
/// link.
#[derive(Clone, Copy, Debug, PartialEq, Eq, Structural)]
pub enum Route {
    /// To the half's own layout.
    Layout,
    /// Over the serial link, as frames.
    Link,
}

impl Route {
    /// The route of a half.
    pub open spec fn select_spec(is_host: bool) -> Route {
        if is_host {
            Route::Layout
        } else {
            Route::Link
        }
    }

    /// The route of a half.
    pub fn select(is_host: bool) -> (route: Route)
        ensures
            route == Route::select_spec(is_host),
    {
        if is_host {
            Route::Layout
        } else {
            Route::Link
        }
    }

    /// What goes to the half's own layout of the events `events`.
    pub open spec fn to_layout(self, events: Seq<KeyEvent>) -> Seq<KeyEvent> {
        match self {
            Route::Layout => events,
            Route::Link => Seq::<KeyEvent>::empty(),
        }
    }

    /// What goes over the serial link of the events `events`.
    pub open spec fn to_link(self, events: Seq<KeyEvent>) -> Seq<u8> {
        match self {
            Route::Layout => Seq::<u8>::empty(),
            Route::Link => frames(events),
        }
    }
}

/// What the tasks own between them, as it is at start.
pub struct Parts {
    /// The half's debouncer and transform, owned by the scan task.
    pub keyboard: HillsideKeyboard<6, 4>,
    /// Where the events of the half's own scan go, owned by the scan task.
    pub route: Route,
    /// The layout engine, owned by the tasks that take events and ticks.
    pub layout: Engine,
    /// The receiver of the serial link, owned by the task that reads it.
    pub receiver: Receiver,
    /// The sender's memory, owned by the task that writes reports.
    pub reporter: Reporter,
}

/// What is to be done after a tick.
#[derive(Clone, Copy, Debug)]
pub struct TickPlan {
    /// The custom action to carry out, if one was asked for.
    pub custom: Option<CustomAction>,
    /// The report to write, if one is due.
    pub send: Option<[u8; 8]>,
}

/// The custom action to carry out after a tick that brought `outcome`:
/// the one asked for, whatever the USB device says of itself.
pub open spec fn custom_due(outcome: TickOutcome) -> Option<CustomAction> {
    match outcome {
        TickOutcome::Custom(c) => Some(c),
        TickOutcome::NoEvent => None,
    }
}

/// Sets the tasks' state up. `is_host` is what was sensed of the half at
/// start: the host side mirrors its columns in the table and feeds its own
/// layout, the other side keeps its columns and sends frames.
pub fn init(is_host: bool, table: &LayerTable) -> (parts: Parts)
    requires
        table.sound(),
    ensures
        parts.keyboard.wf(),
        parts.keyboard.transform == Transform::select_spec(is_host, TABLE_COLS),
        parts.keyboard.debouncer.state().stable == all_open(ROWS as int, COLS as int),
        parts.keyboard.debouncer.state().pending == all_open(ROWS as int, COLS as int),
        parts.keyboard.debouncer.state().since == 0,
        parts.keyboard.debouncer.state().window == DEBOUNCE_WINDOW,
        parts.route == Route::select_spec(is_host),
        parts.layout.wf(),
        parts.layout.cells() == table.cells(),
        layout_key_codes(parts.layout@.layout) == Seq::<KeyCode>::empty(),
        parts.layout@.fresh == Seq::<KeyCode>::empty(),
        parts.layout@.resolved == Seq::<KeyCode>::empty(),
        parts.layout@.held == (Held { reset: false, bootloader: false }),
        parts.receiver@ == seq![0u8, 0u8, 0u8, 0u8],
        parts.reporter@ == empty_report(),
{
    let transform = Transform::select(is_host, TABLE_COLS);
    let debouncer = MatrixDebouncer::new(ROWS, COLS, DEBOUNCE_WINDOW);
    Parts {
        keyboard: HillsideKeyboard::new(debouncer, transform),
        route: Route::select(is_host),
        layout: Engine::new(table),
        receiver: Receiver::new(),
        reporter: Reporter::new(),
    }
}

/// What a scan has brought.
pub struct Scan {
    /// The events for the half's own layout.
    pub events: Vec<KeyEvent>,
    /// The bytes for the serial link.
    pub bytes: Vec<u8>,
}

/// The scan task, after a scan that was read: takes the snapshot, and
/// hands the events of it to the route: on the host side they go to the
/// layout one by one, on the other side their frames go over the serial
/// link.
pub fn tick<const C: usize, const R: usize>(
    keyboard: &mut HillsideKeyboard<C, R>,
    route: Route,
    keys: &[[bool; C]; R],
) -> (scan: Scan)
    requires
        old(keyboard).wf(),
    ensures
        final(keyboard).wf(),
        final(keyboard).transform == old(keyboard).transform,
        final(keyboard).debouncer.state() == stepped(
            old(keyboard).debouncer.state(),
            grid_of(*keys),
        ),
        ({
            let events = transformed(
                old(keyboard).transform,
                step_events(old(keyboard).debouncer.state(), grid_of(*keys)),
            );
            &&& scan.events@ == route.to_layout(events)
            &&& scan.bytes@ == route.to_link(events)
        }),
{
    let events = keyboard.events(keys);
    match route {
        Route::Layout => Scan { events, bytes: Vec::new() },
        Route::Link => {
            let bytes = encode_all(&events);
            Scan { events: Vec::new(), bytes }
        },
    }
}

/// The scan task, after a scan that may have failed. A failed scan is
/// skipped: the half stays as it was, and nothing is handed out. A scan
/// that was read is taken as `tick` takes it.
pub fn tick_or_skip<const C: usize, const R: usize>(
    keyboard: &mut HillsideKeyboard<C, R>,
    route: Route,
    keys: Option<&[[bool; C]; R]>,
) -> (scan: Scan)
    requires
        old(keyboard).wf(),
    ensures
        final(keyboard).wf(),
        final(keyboard).transform == old(keyboard).transform,
        match keys {
            Some(read) => {
                let events = transformed(
                    old(keyboard).transform,
                    step_events(old(keyboard).debouncer.state(), grid_of(*read)),
                );
                &&& final(keyboard).debouncer.state() == stepped(
                    old(keyboard).debouncer.state(),
                    grid_of(*read),
                )
                &&& scan.events@ == route.to_layout(events)
                &&& scan.bytes@ == route.to_link(events)
            },
            None => {
                &&& final(keyboard).debouncer.state() == old(keyboard).debouncer.state()
                &&& scan.events@ == Seq::<KeyEvent>::empty()
                &&& scan.bytes@ == Seq::<u8>::empty()
            },
        },
{
    match keys {
        Some(read) => tick(keyboard, route, read),
        None => Scan { events: Vec::new(), bytes: Vec::new() },
    }
}

/// The report task: ticks the layout and says what is to be done: the
/// custom action, if one was asked for at this tick, and the report of
/// this tick, if the device is configured and the report differs from the
/// last one that the transport took. `configured` is what the USB device
/// says of itself at this tick.
pub fn tick_keeb(layout: &mut Engine, reporter: &Reporter, configured: bool) -> (plan: TickPlan)
    requires
        old(layout).wf(),
    ensures
        final(layout).wf(),
        final(layout).cells() == old(layout).cells(),
        final(layout)@ == old(layout)@.after_tick(),
        plan.custom == custom_due(old(layout)@.tick_outcome()),
        plan.send is Some <==> reporter.owes(
            configured,
            report_of(bytes_of(final(layout)@.resolved)),
        ),
        plan.send matches Some(r) ==> r@ == report_of(bytes_of(final(layout)@.resolved)),
{
    let outcome = layout.tick();
    let report = layout.report();
    let custom = match outcome {
        TickOutcome::Custom(c) => Some(c),
        TickOutcome::NoEvent => None,
    };
    let send = if reporter.due(configured, &report) {
        Some(report)
    } else {
        None
    };
    TickPlan { custom, send }
}

} // verus!
