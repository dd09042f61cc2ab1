//! The layout engine: it takes key events and ticks, and says after each
//! tick which key codes are down and whether a custom action is asked for.
//!
//! keyberon's layout does the work: it walks the layers, waits on hold-tap
//! keys and keeps the key codes that are down. It resolves a tap at the
//! release, and lets go of the tapped key at the next tick, so the engine
//! keeps what an event has brought until the tick that follows: a tapped
//! key is down for one tick. Of a key code that stands for a custom action
//! the engine tells the tick at which it appears, and keeps it out of the
//! key codes that it reports.

use vstd::prelude::*;
use keyberon::key_code::KeyCode;
use keyberon::layout::Layout;
use crate::action::{code_byte, modeled, sound_cells, KeyAction, LayerTable};
use crate::event::KeyEvent;
use crate::layouts::{custom_for, custom_of, CustomAction};
use crate::outside::{
    action_model,
    key_code_byte,
    layout_after_event,
    layout_after_tick,
    layout_cells,
    layout_event,
    layout_key_codes,
    layout_new,
    layout_tick,
    outside_hold_tap,
    outside_plain,
};
use crate::report::{assemble, bytes_of, report_of};

verus! {

/// What a tick brings besides the key codes.
#[derive(Clone, Copy, Debug, PartialEq, Eq, Structural)]
pub enum TickOutcome {
    /// Nothing.
    NoEvent,
    /// A custom action was asked for at this tick.
    Custom(CustomAction),
}

/// Which custom actions were being asked for at the last tick.
#[derive(Clone, Copy, Debug, PartialEq, Eq, Structural)]
pub struct Held {
    pub reset: bool,
    pub bootloader: bool,
}

impl Held {
    /// Whether `c` was being asked for.
    pub open spec fn has(self, c: CustomAction) -> bool {
        match c {
            CustomAction::Reset => self.reset,
            CustomAction::Bootloader => self.bootloader,
        }
    }

    /// Whether `c` was being asked for.
    pub fn holds(&self, c: CustomAction) -> (yes: bool)
        ensures
            yes == self.has(c),
    {
        match c {
            CustomAction::Reset => self.reset,
            CustomAction::Bootloader => self.bootloader,
        }
    }
}

/// Whether a key code of byte `b` is among `codes`.
pub open spec fn has_code(codes: Seq<KeyCode>, b: u8) -> bool {
    exists|i: int| 0 <= i < codes.len() && key_code_byte(#[trigger] codes[i]) == b
}

/// `base`, and behind it each code of `more` that is neither among `known`
/// nor there already, in the order of `more`.
pub open spec fn latch(base: Seq<KeyCode>, known: Seq<KeyCode>, more: Seq<KeyCode>) -> Seq<
    KeyCode,
>
    decreases more.len(),
{
    if more.len() == 0 {
        base
    } else {
        let front = latch(base, known, more.drop_last());
        let b = key_code_byte(more.last());
        if has_code(known, b) || has_code(front, b) {
            front
        } else {
            front.push(more.last())
        }
    }
}

/// The custom action of the first code that stands for one not asked for
/// before.
pub open spec fn first_custom(codes: Seq<KeyCode>, held: Held) -> Option<CustomAction>
    decreases codes.len(),
{
    if codes.len() == 0 {
        None
    } else {
        match custom_of(key_code_byte(codes[0])) {
            Some(c) => if held.has(c) {
                first_custom(codes.drop_first(), held)
            } else {
                Some(c)
            },
            None => first_custom(codes.drop_first(), held),
        }
    }
}

/// What a tick with the codes `codes` brings, when `held` was asked for
/// at the tick before.
pub open spec fn outcome_of(codes: Seq<KeyCode>, held: Held) -> TickOutcome {
    match first_custom(codes, held) {
        Some(c) => TickOutcome::Custom(c),
        None => TickOutcome::NoEvent,
    }
}

/// Which custom actions `codes` ask for.
pub open spec fn asked(codes: Seq<KeyCode>) -> Held {
    Held {
        reset: exists|i: int|
            0 <= i < codes.len() && custom_of(key_code_byte(#[trigger] codes[i])) == Some(
                CustomAction::Reset,
            ),
        bootloader: exists|i: int|
            0 <= i < codes.len() && custom_of(key_code_byte(#[trigger] codes[i])) == Some(
                CustomAction::Bootloader,
            ),
    }
}

/// The codes among `codes` that stand for a key, in order.
pub open spec fn reportable(codes: Seq<KeyCode>) -> Seq<KeyCode>
    decreases codes.len(),
{
    if codes.len() == 0 {
        Seq::<KeyCode>::empty()
    } else if custom_of(key_code_byte(codes.last())) is Some {
        reportable(codes.drop_last())
    } else {
        reportable(codes.drop_last()).push(codes.last())
    }
}

/// Whether a key code of byte `b` is among `codes`.
pub fn contains_code(codes: &Vec<KeyCode>, b: u8) -> (yes: bool)
    ensures
        yes == has_code(codes@, b),
{
    let mut i: usize = 0;
    while i < codes.len()
        invariant
            i <= codes.len(),
            forall|j: int| 0 <= j < i ==> key_code_byte(#[trigger] codes@[j]) != b,
        decreases codes.len() - i,
    {
        if code_byte(codes[i]) == b {
            return true;
        }
        i = i + 1;
    }
    false
}

/// Puts behind `base` each code of `more` that is neither among `known`
/// nor there already.
pub fn latch_codes(base: &mut Vec<KeyCode>, known: &Vec<KeyCode>, more: &Vec<KeyCode>)
    ensures
        final(base)@ == latch(old(base)@, known@, more@),
{
    let mut i: usize = 0;
    assert(more@.take(0) =~= Seq::<KeyCode>::empty());
    while i < more.len()
        invariant
            i <= more.len(),
            base@ == latch(old(base)@, known@, more@.take(i as int)),
        decreases more.len() - i,
    {
        assert(more@.take(i + 1).drop_last() =~= more@.take(i as int));
        assert(more@.take(i + 1).last() == more@[i as int]);
        let code = more[i];
        let b = code_byte(code);
        if !contains_code(known, b) && !contains_code(base, b) {
            base.push(code);
        }
        i = i + 1;
    }
    assert(more@.take(i as int) =~= more@);
}

/// The custom action of the first code that stands for one not asked for
/// before.
pub fn find_custom(codes: &Vec<KeyCode>, held: Held) -> (found: Option<CustomAction>)
    ensures
        found == first_custom(codes@, held),
{
    let mut i: usize = 0;
    assert(codes@.skip(0) =~= codes@);
    while i < codes.len()
        invariant
            i <= codes.len(),
            first_custom(codes@, held) == first_custom(codes@.skip(i as int), held),
        decreases codes.len() - i,
    {
        assert(codes@.skip(i as int).drop_first() =~= codes@.skip(i + 1));
        assert(codes@.skip(i as int)[0] == codes@[i as int]);
        match custom_for(code_byte(codes[i])) {
            Some(c) => {
                if !held.holds(c) {
                    return Some(c);
                }
            },
            None => {},
        }
        i = i + 1;
    }
    None
}

/// Splits `codes` into the keys among them, and which custom actions the
/// others ask for.
pub fn sort_out(codes: &Vec<KeyCode>) -> (out: (Vec<KeyCode>, Held))
    ensures
        out.0@ == reportable(codes@),
        out.1 == asked(codes@),
{
    let mut keys: Vec<KeyCode> = Vec::new();
    let mut held = Held { reset: false, bootloader: false };
    let mut i: usize = 0;
    assert(codes@.take(0) =~= Seq::<KeyCode>::empty());
    while i < codes.len()
        invariant
            i <= codes.len(),
            keys@ == reportable(codes@.take(i as int)),
            held.reset == exists|j: int|
                0 <= j < i && custom_of(key_code_byte(#[trigger] codes@[j])) == Some(
                    CustomAction::Reset,
                ),
            held.bootloader == exists|j: int|
                0 <= j < i && custom_of(key_code_byte(#[trigger] codes@[j])) == Some(
                    CustomAction::Bootloader,
                ),
        decreases codes.len() - i,
    {
        assert(codes@.take(i + 1).drop_last() =~= codes@.take(i as int));
        assert(codes@.take(i + 1).last() == codes@[i as int]);
        let code = codes[i];
        match custom_for(code_byte(code)) {
            Some(CustomAction::Reset) => {
                held.reset = true;
            },
            Some(CustomAction::Bootloader) => {
                held.bootloader = true;
            },
            None => {
                keys.push(code);
            },
        }
        i = i + 1;
    }
    assert(codes@.take(i as int) =~= codes@);
    (keys, held)
}

/// Writes an action as keyberon's.
fn outside_action(a: &KeyAction) -> (out: keyberon::action::Action)
    ensures
        action_model(out) == *a,
{
    match a {
        KeyAction::Plain(p) => outside_plain(p),
        KeyAction::HoldTap(h) => {
            let hold = outside_plain(&h.hold);
            let tap = outside_plain(&h.tap);
            outside_hold_tap(h.timeout, hold, tap)
        },
    }
}

/// Writes a table as keyberon's actions, cell for cell.
fn outside_table(table: &LayerTable) -> (cells: Vec<Vec<Vec<keyberon::action::Action>>>)
    ensures
        modeled(cells) == table.cells(),
{
    let mut cells: Vec<Vec<Vec<keyberon::action::Action>>> = Vec::new();
    let mut i: usize = 0;
    while i < table.layers.len()
        invariant
            i <= table.layers.len(),
            cells@.len() == i,
            forall|a: int|
                0 <= a < i ==> (#[trigger] cells@[a])@.len() == table.layers@[a]@.len(),
            forall|a: int, r: int|
                0 <= a < i && 0 <= r < table.layers@[a]@.len() ==> (#[trigger] cells@[a]@[r])@.len()
                    == table.layers@[a]@[r]@.len(),
            forall|a: int, r: int, c: int|
                0 <= a < i && 0 <= r < table.layers@[a]@.len() && 0 <= c
                    < table.layers@[a]@[r]@.len() ==> action_model(#[trigger] cells@[a]@[r]@[c])
                    == table.layers@[a]@[r]@[c],
        decreases table.layers.len() - i,
    {
        let layer = &table.layers[i];
        let mut rows: Vec<Vec<keyberon::action::Action>> = Vec::new();
        let mut r: usize = 0;
        while r < layer.len()
            invariant
                r <= layer.len(),
                rows@.len() == r,
                forall|b: int| 0 <= b < r ==> (#[trigger] rows@[b])@.len() == layer@[b]@.len(),
                forall|b: int, c: int|
                    0 <= b < r && 0 <= c < layer@[b]@.len() ==> action_model(
                        #[trigger] rows@[b]@[c],
                    ) == layer@[b]@[c],
            decreases layer.len() - r,
        {
            let row = &layer[r];
            let mut out: Vec<keyberon::action::Action> = Vec::new();
            let mut c: usize = 0;
            while c < row.len()
                invariant
                    c <= row.len(),
                    out@.len() == c,
                    forall|d: int| 0 <= d < c ==> action_model(#[trigger] out@[d]) == row@[d],
                decreases row.len() - c,
            {
                out.push(outside_action(&row[c]));
                c = c + 1;
            }
            rows.push(out);
            r = r + 1;
        }
        cells.push(rows);
        i = i + 1;
    }
    assert(modeled(cells) =~~= table.cells());
    cells
}

/// What the engine holds.
pub struct EngineState {
    /// keyberon's layout, as it stands.
    pub layout: Layout,
    /// The key codes that events have brought since the last tick.
    pub fresh: Seq<KeyCode>,
    /// The custom actions that were being asked for at the last tick.
    pub held: Held,
    /// The key codes that were down at the last tick.
    pub resolved: Seq<KeyCode>,
}

impl EngineState {
    /// The engine after the event `e`: the layout has taken it, and the
    /// key codes that it has newly brought are kept.
    pub open spec fn after_event(self, e: KeyEvent) -> EngineState {
        let next = layout_after_event(self.layout, e);
        EngineState {
            layout: next,
            fresh: latch(self.fresh, layout_key_codes(self.layout), layout_key_codes(next)),
            held: self.held,
            resolved: self.resolved,
        }
    }

    /// The key codes of the next tick: those that the layout holds after
    /// it, and behind them those that events have brought.
    pub open spec fn tick_codes(self) -> Seq<KeyCode> {
        latch(
            layout_key_codes(layout_after_tick(self.layout)),
            Seq::<KeyCode>::empty(),
            self.fresh,
        )
    }

    /// What the next tick brings besides the key codes.
    pub open spec fn tick_outcome(self) -> TickOutcome {
        outcome_of(self.tick_codes(), self.held)
    }

    /// The engine after the next tick.
    pub open spec fn after_tick(self) -> EngineState {
        EngineState {
            layout: layout_after_tick(self.layout),
            fresh: Seq::<KeyCode>::empty(),
            held: asked(self.tick_codes()),
            resolved: reportable(self.tick_codes()),
        }
    }
}

/// The layout engine.
pub struct Engine {
    layout: Layout,
    codes: Vec<KeyCode>,
    fresh: Vec<KeyCode>,
    held: Held,
    resolved: Vec<KeyCode>,
}

impl View for Engine {
    type V = EngineState;

    closed spec fn view(&self) -> EngineState {
        EngineState {
            layout: self.layout,
            fresh: self.fresh@,
            held: self.held,
            resolved: self.resolved@,
        }
    }
}

impl Engine {
    /// The actions of the table that the engine runs on.
    pub open spec fn cells(&self) -> Seq<Seq<Seq<KeyAction>>> {
        layout_cells(self@.layout)
    }

    /// The engine knows what its layout holds, and the table is sound.
    pub closed spec fn wf(&self) -> bool {
        &&& self.codes@ == layout_key_codes(self.layout)
        &&& sound_cells(layout_cells(self.layout))
    }

    /// An engine on `table`, with no key down.
    pub fn new(table: &LayerTable) -> (e: Engine)
        requires
            table.sound(),
        ensures
            e.wf(),
            e.cells() == table.cells(),
            layout_key_codes(e@.layout) == Seq::<KeyCode>::empty(),
            e@.fresh == Seq::<KeyCode>::empty(),
            e@.resolved == Seq::<KeyCode>::empty(),
            e@.held == (Held { reset: false, bootloader: false }),
    {
        let cells = outside_table(table);
        Engine {
            layout: layout_new(cells),
            codes: Vec::new(),
            fresh: Vec::new(),
            held: Held { reset: false, bootloader: false },
            resolved: Vec::new(),
        }
    }

    /// An engine on `table` if the table is sound, and nothing otherwise.
    pub fn try_new(table: &LayerTable) -> (out: Option<Engine>)
        ensures
            out is Some <==> table.sound(),
            out matches Some(e) ==> {
                &&& e.wf()
                &&& e.cells() == table.cells()
                &&& layout_key_codes(e@.layout) == Seq::<KeyCode>::empty()
                &&& e@.fresh == Seq::<KeyCode>::empty()
                &&& e@.resolved == Seq::<KeyCode>::empty()
                &&& e@.held == (Held { reset: false, bootloader: false })
            },
    {
        if table.check() {
            Some(Engine::new(table))
        } else {
            None
        }
    }

    /// Takes a key event. The layout takes it; what the event has newly
    /// brought down is kept for the next tick. Nothing is reported.
    pub fn event(&mut self, e: KeyEvent)
        requires
            old(self).wf(),
        ensures
            final(self).wf(),
            final(self).cells() == old(self).cells(),
            final(self)@ == old(self)@.after_event(e),
    {
        let after = layout_event(&mut self.layout, e);
        latch_codes(&mut self.fresh, &self.codes, &after);
        self.codes = after;
    }

    /// One tick. The layout ticks; the key codes of this tick are those
    /// that it holds now, and behind them those that events have brought
    /// since the tick before. A custom action is reported at the tick at
    /// which its code appears, and not again while the code stays.
    pub fn tick(&mut self) -> (out: TickOutcome)
        requires
            old(self).wf(),
        ensures
            final(self).wf(),
            final(self).cells() == old(self).cells(),
            final(self)@ == old(self)@.after_tick(),
            out == old(self)@.tick_outcome(),
    {
        let now = layout_tick(&mut self.layout);
        let mut all = now.clone();
        assert(all@ =~= now@) by {
            assert forall|i: int| 0 <= i < now@.len() implies all@[i] == now@[i] by {
                assert(cloned(now@[i], all@[i]));
            }
        }
        let none: Vec<KeyCode> = Vec::new();
        latch_codes(&mut all, &none, &self.fresh);
        let found = find_custom(&all, self.held);
        let (keys, held) = sort_out(&all);
        self.codes = now;
        self.fresh = Vec::new();
        self.held = held;
        self.resolved = keys;
        match found {
            Some(c) => TickOutcome::Custom(c),
            None => TickOutcome::NoEvent,
        }
    }

    /// The key codes that were down at the last tick.
    pub fn keycodes(&self) -> (codes: &Vec<KeyCode>)
        ensures
            codes@ == self@.resolved,
    {
        &self.resolved
    }

    /// The HID report of the last tick.
    pub fn report(&self) -> (bytes: [u8; 8])
        ensures
            bytes@ == report_of(bytes_of(self@.resolved)),
    {
        assemble(&self.resolved)
    }
}

/// Latching loses nothing: what was there stays, in its place.
pub proof fn lemma_latch_keeps(base: Seq<KeyCode>, known: Seq<KeyCode>, more: Seq<KeyCode>)
    ensures
        base.len() <= latch(base, known, more).len(),
        latch(base, known, more).take(base.len() as int) == base,
    decreases more.len(),
{
    if more.len() == 0 {
        assert(base.take(base.len() as int) =~= base);
    } else {
        lemma_latch_keeps(base, known, more.drop_last());
        let front = latch(base, known, more.drop_last());
        assert(front.push(more.last()).take(base.len() as int) =~= front.take(base.len() as int));
    }
}

/// Latching takes in every code that is not known: a code of `more` is
/// among the result unless a code of its byte is among `known`.
pub proof fn lemma_latch_takes(
    base: Seq<KeyCode>,
    known: Seq<KeyCode>,
    more: Seq<KeyCode>,
    i: int,
)
    requires
        0 <= i < more.len(),
        !has_code(known, key_code_byte(more[i])),
    ensures
        has_code(latch(base, known, more), key_code_byte(more[i])),
    decreases more.len(),
{
    let front = latch(base, known, more.drop_last());
    let all = latch(base, known, more);
    if i < more.len() - 1 {
        lemma_latch_takes(base, known, more.drop_last(), i);
        let j = choose|j: int|
            0 <= j < front.len() && key_code_byte(#[trigger] front[j]) == key_code_byte(more[i]);
        if all.len() > front.len() {
            assert(all[j] == front[j]);
        }
        assert(key_code_byte(all[j]) == key_code_byte(more[i]));
    } else {
        if !has_code(front, key_code_byte(more.last())) {
            assert(all[front.len() as int] == more.last());
        }
    }
}

/// A tapped key is down at the next tick. Whatever an event brings that
/// the layout did not hold before it is among the key codes of the tick
/// that follows, even where the layout lets go of it at that tick.
pub proof fn lemma_event_shows_at_tick(s: EngineState, e: KeyEvent, i: int)
    requires
        0 <= i < layout_key_codes(layout_after_event(s.layout, e)).len(),
        !has_code(
            layout_key_codes(s.layout),
            key_code_byte(layout_key_codes(layout_after_event(s.layout, e))[i]),
        ),
    ensures
        has_code(
            s.after_event(e).tick_codes(),
            key_code_byte(layout_key_codes(layout_after_event(s.layout, e))[i]),
        ),
{
    let after = layout_key_codes(layout_after_event(s.layout, e));
    let next = s.after_event(e);
    let b = key_code_byte(after[i]);
    lemma_latch_takes(s.fresh, layout_key_codes(s.layout), after, i);
    let j = choose|j: int| 0 <= j < next.fresh.len() && key_code_byte(#[trigger] next.fresh[j]) == b;
    let now = layout_key_codes(layout_after_tick(next.layout));
    assert(!has_code(Seq::<KeyCode>::empty(), b));
    lemma_latch_takes(now, Seq::<KeyCode>::empty(), next.fresh, j);
}

/// What the layout holds after a tick is down at that tick, in the
/// layout's order and before anything else.
pub proof fn lemma_tick_shows_layout(s: EngineState)
    ensures
        layout_key_codes(layout_after_tick(s.layout)).len() <= s.tick_codes().len(),
        s.tick_codes().take(layout_key_codes(layout_after_tick(s.layout)).len() as int)
            == layout_key_codes(layout_after_tick(s.layout)),
{
    lemma_latch_keeps(
        layout_key_codes(layout_after_tick(s.layout)),
        Seq::<KeyCode>::empty(),
        s.fresh,
    );
}

/// Without an event between two ticks, the second tick shows what the
/// layout holds and nothing else.
pub proof fn lemma_quiet_tick(s: EngineState)
    ensures
        s.after_tick().tick_codes() == layout_key_codes(
            layout_after_tick(layout_after_tick(s.layout)),
        ),
{
}

/// No custom action is found among codes that ask for none that is not
/// asked for already.
pub proof fn lemma_no_custom_when_held(codes: Seq<KeyCode>, held: Held)
    requires
        forall|i: int|
            0 <= i < codes.len() ==> match custom_of(key_code_byte(#[trigger] codes[i])) {
                Some(c) => held.has(c),
                None => true,
            },
    ensures
        first_custom(codes, held) is None,
    decreases codes.len(),
{
    if codes.len() > 0 {
        assert forall|i: int| 0 <= i < codes.drop_first().len() implies match custom_of(
            key_code_byte(#[trigger] codes.drop_first()[i]),
        ) {
            Some(c) => held.has(c),
            None => true,
        } by {
            assert(codes.drop_first()[i] == codes[i + 1]);
        }
        lemma_no_custom_when_held(codes.drop_first(), held);
    }
}

/// A custom action fires once: while the key codes of the ticks stay the
/// same, the tick after the first brings no event.
pub proof fn lemma_custom_fires_once(codes: Seq<KeyCode>)
    ensures
        outcome_of(codes, asked(codes)) == TickOutcome::NoEvent,
{
    lemma_no_custom_when_held(codes, asked(codes));
}

/// A custom action that a tick brings was not asked for at the tick
/// before, and a code among the key codes of the tick stands for it.
pub proof fn lemma_custom_is_new(codes: Seq<KeyCode>, held: Held, c: CustomAction)
    requires
        first_custom(codes, held) == Some(c),
    ensures
        !held.has(c),
        asked(codes).has(c),
    decreases codes.len(),
{
    if codes.len() > 0 {
        if custom_of(key_code_byte(codes[0])) == Some(c) && !held.has(c) {
        } else {
            lemma_custom_is_new(codes.drop_first(), held, c);
            let tail = codes.drop_first();
            let j = choose|j: int|
                0 <= j < tail.len() && custom_of(key_code_byte(#[trigger] tail[j])) == Some(c);
            assert(tail[j] == codes[j + 1]);
        }
    }
}

/// No code that stands for a custom action is reported as a key, and each
/// code that is reported is one of the codes given.
pub proof fn lemma_reportable_are_keys(codes: Seq<KeyCode>, i: int)
    requires
        0 <= i < reportable(codes).len(),
    ensures
        custom_of(key_code_byte(reportable(codes)[i])) is None,
        has_code(codes, key_code_byte(reportable(codes)[i])),
    decreases codes.len(),
{
    if codes.len() > 0 {
        let front = reportable(codes.drop_last());
        if i < front.len() {
            lemma_reportable_are_keys(codes.drop_last(), i);
            let b = key_code_byte(front[i]);
            let j = choose|j: int|
                0 <= j < codes.drop_last().len() && key_code_byte(
                    #[trigger] codes.drop_last()[j],
                ) == b;
            assert(codes[j] == codes.drop_last()[j]);
        } else {
            assert(reportable(codes)[i] == codes.last());
            assert(codes[codes.len() - 1] == codes.last());
        }
    }
}

/// Every key among some codes is reported.
pub proof fn lemma_reportable_keeps_keys(codes: Seq<KeyCode>, i: int)
    requires
        0 <= i < codes.len(),
        custom_of(key_code_byte(codes[i])) is None,
    ensures
        has_code(reportable(codes), key_code_byte(codes[i])),
    decreases codes.len(),
{
    let front = reportable(codes.drop_last());
    let all = reportable(codes);
    if i == codes.len() - 1 {
        assert(all[front.len() as int] == codes[i]);
    } else {
        lemma_reportable_keeps_keys(codes.drop_last(), i);
        let j = choose|j: int|
            0 <= j < front.len() && key_code_byte(#[trigger] front[j]) == key_code_byte(codes[i]);
        assert(all[j] == front[j]);
    }
}

/// A key that an event brings, and that the layout lets go of again, is
/// down for one tick. If the layout holds a key after an event that it did
/// not hold before, the key is among the key codes reported at the next
/// tick, whatever the layout does at that tick; and if the layout no
/// longer holds it after the tick that follows, with no event in between,
/// it is not among the key codes reported at that tick.
pub proof fn lemma_brought_key_shows_for_one_tick(s: EngineState, e: KeyEvent, i: int)
    requires
        0 <= i < layout_key_codes(layout_after_event(s.layout, e)).len(),
        custom_of(key_code_byte(layout_key_codes(layout_after_event(s.layout, e))[i])) is None,
        !has_code(
            layout_key_codes(s.layout),
            key_code_byte(layout_key_codes(layout_after_event(s.layout, e))[i]),
        ),
        !has_code(
            layout_key_codes(layout_after_tick(layout_after_tick(layout_after_event(s.layout, e)))),
            key_code_byte(layout_key_codes(layout_after_event(s.layout, e))[i]),
        ),
    ensures
        has_code(
            s.after_event(e).after_tick().resolved,
            key_code_byte(layout_key_codes(layout_after_event(s.layout, e))[i]),
        ),
        !has_code(
            s.after_event(e).after_tick().after_tick().resolved,
            key_code_byte(layout_key_codes(layout_after_event(s.layout, e))[i]),
        ),
{
    let b = key_code_byte(layout_key_codes(layout_after_event(s.layout, e))[i]);
    let first = s.after_event(e);
    lemma_event_shows_at_tick(s, e, i);
    let j = choose|j: int|
        0 <= j < first.tick_codes().len() && key_code_byte(#[trigger] first.tick_codes()[j]) == b;
    lemma_reportable_keeps_keys(first.tick_codes(), j);
    let second = first.after_tick();
    lemma_quiet_tick(first);
    if has_code(second.after_tick().resolved, b) {
        let k = choose|k: int|
            0 <= k < second.after_tick().resolved.len() && key_code_byte(
                #[trigger] second.after_tick().resolved[k],
            ) == b;
        lemma_reportable_are_keys(second.tick_codes(), k);
    }
}

} // verus!
