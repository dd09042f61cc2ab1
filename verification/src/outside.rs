//! What the library takes from keyberon: the declarations of its types, and
//! one small function for each of its functions that the library calls.
//! Verus takes the contracts in this file on trust: each says what
//! keyberon's source shows of the function it calls.

use vstd::prelude::*;
use crate::action::{sound_cells, HoldTapAction, Simple};
use crate::debounce::{is_grid, step_events, stepped, DebounceState};
use crate::event::KeyEvent;
use crate::report::{bytes_of, report_of};
use crate::transform::{mirror_coord, mirrored};

verus! {

/// Calls `keyberon::layout::Event::transform` with the mirroring of
/// columns. That function hands the two coordinates to the closure and puts
/// what the closure returns into an event of the same kind.
#[verifier::external_body]
pub(crate) fn event_transform(e: KeyEvent, cols: u8) -> (out: KeyEvent)
    requires
        e.col() < cols,
    ensures
        out == mirrored(e, cols),
{
    let moved = match e {
        KeyEvent::Press(i, j) => keyberon::layout::Event::Press(i, j),
        KeyEvent::Release(i, j) => keyberon::layout::Event::Release(i, j),
    }.transform(|i, j| mirror_coord(i, j, cols));
    match moved {
        keyberon::layout::Event::Press(i, j) => KeyEvent::Press(i, j),
        keyberon::layout::Event::Release(i, j) => KeyEvent::Release(i, j),
    }
}

/// keyberon's debouncer.
#[verifier::external_type_specification]
#[verifier::external_body]
#[verifier::reject_recursive_types(T)]
pub struct ExDebouncer<T>(keyberon::debounce::Debouncer<T>);

/// What a debouncer holds: its fields `cur`, `new` and `since`, and as the
/// window one more than its field `nb_bounce`: a snapshot is reported once
/// the count exceeds `nb_bounce`, which is at the sight of that number.
pub uninterp spec fn debouncer_state(d: keyberon::debounce::Debouncer<Vec<Vec<bool>>>) -> DebounceState;

/// Calls `keyberon::debounce::Debouncer::new`, which stores the two
/// snapshots and `bounces` as `nb_bounce`, and starts the count at zero.
#[verifier::external_body]
pub(crate) fn debouncer_new(cur: Vec<Vec<bool>>, new: Vec<Vec<bool>>, bounces: u16) -> (d:
    keyberon::debounce::Debouncer<Vec<Vec<bool>>>)
    ensures
        debouncer_state(d) == (DebounceState {
            stable: cur.deep_view(),
            pending: new.deep_view(),
            since: 0,
            window: bounces as nat + 1,
        }),
{
    keyberon::debounce::Debouncer::new(cur, new, bounces)
}

/// Calls `keyberon::debounce::Debouncer::events` and collects what it
/// yields. That function first updates the debouncer: a snapshot equal to
/// the stable one resets the count; another one is counted, from one if it
/// differs from the pending one; once the count exceeds `nb_bounce` the
/// snapshot becomes the stable one, the old stable one the pending one, and
/// the count zero. Only then it yields events: it walks the old and the new
/// stable snapshot side by side, row by row and cell by cell, with a press
/// where a cell went from open to closed and a release where it went from
/// closed to open. It adds one to a 16-bit count and turns each index into
/// a byte, so the count must be below its maximum and the snapshot no
/// larger than 256 by 256.
#[verifier::external_body]
pub(crate) fn debouncer_events(
    d: &mut keyberon::debounce::Debouncer<Vec<Vec<bool>>>,
    snap: Vec<Vec<bool>>,
) -> (out: Vec<KeyEvent>)
    requires
        debouncer_state(*old(d)).since < u16::MAX,
        exists|rows: int, cols: int|
            0 <= rows <= 256 && 0 <= cols <= 256 && is_grid(snap.deep_view(), rows, cols)
                && is_grid(debouncer_state(*old(d)).stable, rows, cols),
    ensures
        debouncer_state(*final(d)) == stepped(debouncer_state(*old(d)), snap.deep_view()),
        out@ == step_events(debouncer_state(*old(d)), snap.deep_view()),
{
    d.events(snap).map(|e| match e {
        keyberon::layout::Event::Press(i, j) => KeyEvent::Press(i, j),
        keyberon::layout::Event::Release(i, j) => KeyEvent::Release(i, j),
    }).collect()
}

/// keyberon's key code, one of the usages of the HID keyboard page.
#[verifier::external_type_specification]
#[verifier::external_body]
pub struct ExKeyCode(keyberon::key_code::KeyCode);

/// The byte of a key code: the number that keyberon's enum gives it, which
/// is its HID usage.
pub uninterp spec fn key_code_byte(k: keyberon::key_code::KeyCode) -> u8;

/// Casts a `keyberon::key_code::KeyCode` to its byte.
#[verifier::external_body]
pub(crate) fn key_code_value(k: keyberon::key_code::KeyCode) -> (b: u8)
    ensures
        b == key_code_byte(k),
{
    k as u8
}

/// `Clone` of `keyberon::key_code::KeyCode`, which that crate derives for
/// its enum without fields: the copy is the value itself.
pub assume_specification[ <keyberon::key_code::KeyCode as Clone>::clone ](
    k: &keyberon::key_code::KeyCode,
) -> (out: keyberon::key_code::KeyCode)
    ensures
        out == *k,
;

/// keyberon's key code for a failed self-test, which names no key.
#[verifier::external_body]
pub(crate) fn post_fail_code() -> (k: keyberon::key_code::KeyCode)
    ensures
        key_code_byte(k) == 2,
{
    keyberon::key_code::KeyCode::PostFail
}

/// keyberon's key code for an undefined error, which names no key.
#[verifier::external_body]
pub(crate) fn error_undefined_code() -> (k: keyberon::key_code::KeyCode)
    ensures
        key_code_byte(k) == 3,
{
    keyberon::key_code::KeyCode::ErrorUndefined
}

/// keyberon's action, as its layout reads it from a table.
#[verifier::external_type_specification]
#[verifier::external_body]
pub struct ExOutsideAction(keyberon::action::Action);

/// keyberon's layout: the state machine that takes events and ticks.
#[verifier::external_type_specification]
#[verifier::external_body]
pub struct ExLayout(keyberon::layout::Layout);

/// The action of the library that a `keyberon::action::Action` stands for:
/// the action of the same name with the same key codes, layer or timeout.
pub uninterp spec fn action_model(a: keyberon::action::Action) -> crate::action::KeyAction;

/// The actions of the table that a layout was made with: by layer, by row,
/// by column.
pub uninterp spec fn layout_cells(l: keyberon::layout::Layout) -> Seq<
    Seq<Seq<crate::action::KeyAction>>,
>;

/// The key codes that a layout holds, in the order in which
/// `keyberon::layout::Layout::keycodes` yields them.
pub uninterp spec fn layout_key_codes(l: keyberon::layout::Layout) -> Seq<
    keyberon::key_code::KeyCode,
>;

/// The layout that `keyberon::layout::Layout::event` leaves.
pub uninterp spec fn layout_after_event(
    l: keyberon::layout::Layout,
    e: KeyEvent,
) -> keyberon::layout::Layout;

/// The layout that `keyberon::layout::Layout::tick` leaves.
pub uninterp spec fn layout_after_tick(l: keyberon::layout::Layout) -> keyberon::layout::Layout;

/// Writes an action that is done at once as the `keyberon::action::Action`
/// of the same name. The key codes of a chord go to memory that is never
/// freed, since keyberon asks for a slice that lives for ever.
#[verifier::external_body]
pub(crate) fn outside_plain(a: &Simple) -> (out: keyberon::action::Action)
    ensures
        action_model(out) == crate::action::KeyAction::Plain(*a),
{
    match a {
        Simple::NoOp => keyberon::action::Action::NoOp,
        Simple::Trans => keyberon::action::Action::Trans,
        Simple::Key(k) => keyberon::action::Action::KeyCode(*k),
        Simple::Chord(ks) => keyberon::action::Action::MultipleKeyCodes(
            Box::leak(ks.clone().into_boxed_slice()),
        ),
        Simple::Layer(n) => keyberon::action::Action::Layer(*n),
    }
}

/// Makes the `HoldTap` of `keyberon::action::Action` with this timeout and
/// these two actions, which go to memory that is never freed.
#[verifier::external_body]
pub(crate) fn outside_hold_tap(
    timeout: u16,
    hold: keyberon::action::Action,
    tap: keyberon::action::Action,
) -> (out: keyberon::action::Action)
    requires
        action_model(hold) is Plain,
        action_model(tap) is Plain,
    ensures
        action_model(out) == crate::action::KeyAction::HoldTap(
            HoldTapAction {
                timeout,
                hold: action_model(hold)->Plain_0,
                tap: action_model(tap)->Plain_0,
            },
        ),
{
    keyberon::action::Action::HoldTap {
        timeout,
        hold: Box::leak(Box::new(hold)),
        tap: Box::leak(Box::new(tap)),
    }
}

/// Calls `keyberon::layout::Layout::new` on the actions, laid out as
/// slices in memory that is never freed. The new layout holds no key code
/// and waits for nothing.
#[verifier::external_body]
pub(crate) fn layout_new(cells: Vec<Vec<Vec<keyberon::action::Action>>>) -> (l:
    keyberon::layout::Layout)
    ensures
        layout_cells(l) == crate::action::modeled(cells),
        layout_key_codes(l) == Seq::<keyberon::key_code::KeyCode>::empty(),
{
    let layers: Vec<&'static [&'static [keyberon::action::Action]]> = cells.into_iter().map(
        |layer| {
            let rows: Vec<&'static [keyberon::action::Action]> = layer.into_iter().map(
                |row| &*Box::leak(row.into_boxed_slice()),
            ).collect();
            &*Box::leak(rows.into_boxed_slice())
        },
    ).collect();
    keyberon::layout::Layout::new(Box::leak(layers.into_boxed_slice()))
}

/// Calls `keyberon::layout::Layout::event` and collects the key codes that
/// it yields, which are those that the layout then holds. The table stays.
/// On a table in which a hold-tap holds only actions done at once, and
/// which has so few layers that 64 of their numbers add up within a
/// `usize`, the call cannot fail: its one assertion and its one subtraction
/// are met, and the sum of the numbers of the active layers, of which the
/// layout keeps at most 64, does not overflow.
#[verifier::external_body]
pub(crate) fn layout_event(l: &mut keyberon::layout::Layout, e: KeyEvent) -> (out: Vec<
    keyberon::key_code::KeyCode,
>)
    requires
        sound_cells(layout_cells(*old(l))),
    ensures
        *final(l) == layout_after_event(*old(l), e),
        layout_cells(*final(l)) == layout_cells(*old(l)),
        out@ == layout_key_codes(*final(l)),
{
    l.event(match e {
        KeyEvent::Press(i, j) => keyberon::layout::Event::Press(i, j),
        KeyEvent::Release(i, j) => keyberon::layout::Event::Release(i, j),
    }).collect()
}

/// Calls `keyberon::layout::Layout::tick` and collects the key codes that
/// it yields, which are those that the layout then holds. The table stays.
/// On a sound table the call cannot fail, as for `layout_event`.
#[verifier::external_body]
pub(crate) fn layout_tick(l: &mut keyberon::layout::Layout) -> (out: Vec<
    keyberon::key_code::KeyCode,
>)
    requires
        sound_cells(layout_cells(*old(l))),
    ensures
        *final(l) == layout_after_tick(*old(l)),
        layout_cells(*final(l)) == layout_cells(*old(l)),
        out@ == layout_key_codes(*final(l)),
{
    l.tick().collect()
}

/// Collects key codes into a `keyberon::key_code::KbHidReport` and copies
/// its bytes. That type starts from eight zero bytes and adds the codes in
/// order, each as `pressed` says: zero adds nothing, a code up to three
/// fills the six key slots, a modifier sets its bit in the first byte, any
/// other code takes the first key slot that holds zero, and where none
/// does the key slots are filled with the roll-over code.
#[verifier::external_body]
pub(crate) fn hid_report(codes: &Vec<keyberon::key_code::KeyCode>) -> (bytes: [u8; 8])
    ensures
        bytes@ == report_of(bytes_of(codes@)),
{
    let report: keyberon::key_code::KbHidReport = codes.iter().cloned().collect();
    let mut bytes = [0u8; 8];
    bytes.copy_from_slice(report.as_bytes());
    bytes
}

} // verus!
