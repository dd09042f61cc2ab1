//! Actions and layer tables: what each position of the matrix does on each
//! layer.
//!
//! A key code is keyberon's `KeyCode`. The library carries such a value
//! along and reads it only as the byte that the HID usage tables give it.

use vstd::prelude::*;
use keyberon::key_code::KeyCode;
use crate::outside::{action_model, key_code_byte, key_code_value};

verus! {

/// Ticks after which a held hold-tap key counts as held.
pub const HOLD_TIMEOUT: u16 = 200;

/// Most layers that a table may have. keyberon's layout adds the numbers
/// of up to 64 active layers in a `usize`; with no more layers than this
/// the sum fits.
pub const MAX_LAYERS: usize = usize::MAX / 64;

/// An action that is done at once, without waiting for anything.
#[derive(Clone, Debug)]
pub enum Simple {
    /// The key is absorbed: nothing happens.
    NoOp,
    /// The position is transparent: the base layer's action is taken, and
    /// on the base layer nothing happens.
    Trans,
    /// One key code, for as long as the key is down.
    Key(KeyCode),
    /// Several key codes at once, for as long as the key is down.
    Chord(Vec<KeyCode>),
    /// The layer of this number is active for as long as the key is down.
    /// While several such keys are down, their numbers add up.
    Layer(usize),
}

/// An action with two outcomes: `hold` once the key has been down for
/// `timeout` ticks, `tap` if it is released before.
#[derive(Clone, Debug)]
pub struct HoldTapAction {
    /// Ticks after which the key counts as held.
    pub timeout: u16,
    /// What a held key does.
    pub hold: Simple,
    /// What a tapped key does.
    pub tap: Simple,
}

/// What a position does.
#[derive(Clone, Debug)]
pub enum KeyAction {
    /// An action done at once.
    Plain(Simple),
    /// An action that waits to see whether the key is held or tapped.
    HoldTap(HoldTapAction),
}

/// A layer table: layers, rows of a layer, positions of a row.
#[derive(Clone, Debug)]
pub struct LayerTable {
    /// The layers, the base layer first.
    pub layers: Vec<Vec<Vec<KeyAction>>>,
}

impl Simple {
    /// Whether the action names no layer beyond the first `layers`.
    pub open spec fn within(self, layers: int) -> bool {
        match self {
            Simple::Layer(n) => n < layers,
            _ => true,
        }
    }

    /// Whether the action names no layer beyond the first `layers`.
    pub fn is_within(&self, layers: usize) -> (ok: bool)
        ensures
            ok == self.within(layers as int),
    {
        match self {
            Simple::Layer(n) => *n < layers,
            _ => true,
        }
    }
}

impl KeyAction {
    /// Whether the action names no layer beyond the first `layers`.
    pub open spec fn within(self, layers: int) -> bool {
        match self {
            KeyAction::Plain(a) => a.within(layers),
            KeyAction::HoldTap(h) => h.hold.within(layers) && h.tap.within(layers),
        }
    }

    /// Whether the action names no layer beyond the first `layers`.
    pub fn is_within(&self, layers: usize) -> (ok: bool)
        ensures
            ok == self.within(layers as int),
    {
        match self {
            KeyAction::Plain(a) => a.is_within(layers),
            KeyAction::HoldTap(h) => h.hold.is_within(layers) && h.tap.is_within(layers),
        }
    }
}

/// The action of one key code.
pub fn k(code: KeyCode) -> (a: KeyAction)
    ensures
        a == KeyAction::Plain(Simple::Key(code)),
{
    KeyAction::Plain(Simple::Key(code))
}

/// The action that holds layer `layer` active.
pub fn l(layer: usize) -> (a: KeyAction)
    ensures
        a == KeyAction::Plain(Simple::Layer(layer)),
{
    KeyAction::Plain(Simple::Layer(layer))
}

/// The action of several key codes at once.
pub fn m(codes: Vec<KeyCode>) -> (a: KeyAction)
    ensures
        a == KeyAction::Plain(Simple::Chord(codes)),
{
    KeyAction::Plain(Simple::Chord(codes))
}

/// The byte of a key code.
pub fn code_byte(code: KeyCode) -> (b: u8)
    ensures
        b == key_code_byte(code),
{
    key_code_value(code)
}

/// The actions that `cells` stand for, one for one.
pub open spec fn modeled(cells: Vec<Vec<Vec<keyberon::action::Action>>>) -> Seq<
    Seq<Seq<KeyAction>>,
> {
    Seq::new(
        cells@.len(),
        |i: int|
            Seq::new(
                cells@[i]@.len(),
                |r: int|
                    Seq::new(cells@[i]@[r]@.len(), |c: int| action_model(cells@[i]@[r]@[c])),
            ),
    )
}

/// Whether the layout engine can run on a table of these cells: it has at
/// most `MAX_LAYERS` layers, and no action names a layer that it lacks.
pub open spec fn sound_cells(cells: Seq<Seq<Seq<KeyAction>>>) -> bool {
    &&& cells.len() <= MAX_LAYERS
    &&& forall|i: int, r: int, c: int|
        0 <= i < cells.len() && 0 <= r < cells[i].len() && 0 <= c < cells[i][r].len() ==> (
        #[trigger] cells[i][r][c]).within(cells.len() as int)
}

impl LayerTable {
    /// The actions of the table: by layer, by row, by column.
    pub open spec fn cells(&self) -> Seq<Seq<Seq<KeyAction>>> {
        Seq::new(
            self.layers@.len(),
            |i: int| Seq::new(self.layers@[i]@.len(), |r: int| self.layers@[i]@[r]@),
        )
    }

    /// Whether the layout engine can run on the table.
    pub open spec fn sound(&self) -> bool {
        sound_cells(self.cells())
    }

    /// Whether the layout engine can run on the table.
    pub fn check(&self) -> (ok: bool)
        ensures
            ok == self.sound(),
    {
        let n: usize = self.layers.len();
        if n > MAX_LAYERS {
            return false;
        }
        let mut i: usize = 0;
        while i < n
            invariant
                i <= n,
                n == self.layers@.len(),
                forall|a: int, r: int, c: int|
                    0 <= a < i && 0 <= r < self.layers@[a]@.len() && 0 <= c
                        < self.layers@[a]@[r]@.len() ==> (#[trigger] self.layers@[a]@[r]@[c]).within(
                        n as int,
                    ),
            decreases n - i,
        {
            let layer = &self.layers[i];
            let mut r: usize = 0;
            while r < layer.len()
                invariant
                    r <= layer.len(),
                    i < n,
                    n == self.layers@.len(),
                    *layer == self.layers@[i as int],
                    forall|b: int, c: int|
                        0 <= b < r && 0 <= c < layer@[b]@.len() ==> (#[trigger] layer@[b]@[c]).within(
                            n as int,
                        ),
                decreases layer.len() - r,
            {
                let row = &layer[r];
                let mut c: usize = 0;
                while c < row.len()
                    invariant
                        c <= row.len(),
                        r < layer.len(),
                        i < n,
                        n == self.layers@.len(),
                        *layer == self.layers@[i as int],
                        *row == layer@[r as int],
                        forall|d: int| 0 <= d < c ==> (#[trigger] row@[d]).within(n as int),
                    decreases row.len() - c,
                {
                    if !row[c].is_within(n) {
                        assert(self.cells()[i as int][r as int][c as int]
                            == self.layers@[i as int]@[r as int]@[c as int]);
                        return false;
                    }
                    c = c + 1;
                }
                r = r + 1;
            }
            i = i + 1;
        }
        assert forall|a: int, r: int, c: int|
            0 <= a < self.cells().len() && 0 <= r < self.cells()[a].len() && 0 <= c
                < self.cells()[a][r].len() implies (#[trigger] self.cells()[a][r][c]).within(
            self.cells().len() as int,
        ) by {
            assert(self.cells()[a][r][c] == self.layers@[a]@[r]@[c]);
        }
        true
    }
}

} // verus!
