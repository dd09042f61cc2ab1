//! The pieces that layer tables of this keyboard are built from: the named
//! layers, the hold-tap keys of the thumb row, and the two custom actions.

use vstd::prelude::*;
use keyberon::key_code::KeyCode;
use crate::action::{HoldTapAction, KeyAction, Simple, HOLD_TIMEOUT};
use crate::outside::{error_undefined_code, key_code_byte, post_fail_code};

verus! {

/// An action that the keyboard does to itself instead of sending a key.
#[derive(Clone, Copy, Debug, PartialEq, Eq, Structural)]
pub enum CustomAction {
    /// Restart the microcontroller.
    Reset,
    /// Restart into the mode in which new firmware is taken over USB.
    Bootloader,
}

/// The byte of the key code that stands for `Reset` in a layer table.
pub const RESET_CODE: u8 = 2;

/// The byte of the key code that stands for `Bootloader` in a layer table.
pub const BOOTLOADER_CODE: u8 = 3;

/// The custom action that a key code of byte `b` stands for, if any.
pub open spec fn custom_of(b: u8) -> Option<CustomAction> {
    if b == RESET_CODE {
        Some(CustomAction::Reset)
    } else if b == BOOTLOADER_CODE {
        Some(CustomAction::Bootloader)
    } else {
        None
    }
}

/// The custom action that a key code of byte `b` stands for, if any.
pub fn custom_for(b: u8) -> (c: Option<CustomAction>)
    ensures
        c == custom_of(b),
{
    if b == RESET_CODE {
        Some(CustomAction::Reset)
    } else if b == BOOTLOADER_CODE {
        Some(CustomAction::Bootloader)
    } else {
        None
    }
}

/// The action that asks for `custom`. The layout engine knows key codes
/// only, so the action is the key of a code that names no key.
pub fn custom(action: CustomAction) -> (a: KeyAction)
    ensures
        a matches KeyAction::Plain(Simple::Key(k)) && custom_of(key_code_byte(k)) == Some(action),
{
    match action {
        CustomAction::Reset => KeyAction::Plain(Simple::Key(post_fail_code())),
        CustomAction::Bootloader => KeyAction::Plain(Simple::Key(error_undefined_code())),
    }
}

/// The layers of the keyboard, by name.
#[derive(Clone, Copy, Debug, PartialEq, Eq, Structural)]
pub enum Layers {
    Base,
    Extra,
    Symbol,
    Number,
    Function,
    Navigation,
    Media,
}

/// Number of named layers.
pub const LAYER_COUNT: usize = 7;

impl Layers {
    /// The place of the layer in a table.
    pub open spec fn index(self) -> int {
        match self {
            Layers::Base => 0,
            Layers::Extra => 1,
            Layers::Symbol => 2,
            Layers::Number => 3,
            Layers::Function => 4,
            Layers::Navigation => 5,
            Layers::Media => 6,
        }
    }

    /// The place of the layer in a table.
    pub fn num(&self) -> (n: usize)
        ensures
            n == self.index(),
            n < LAYER_COUNT,
    {
        match self {
            Layers::Base => 0,
            Layers::Extra => 1,
            Layers::Symbol => 2,
            Layers::Number => 3,
            Layers::Function => 4,
            Layers::Navigation => 5,
            Layers::Media => 6,
        }
    }

    /// The hold-tap that holds this layer and taps `key`.
    pub fn hold_tap(&self, key: KeyCode) -> (h: HoldTapAction)
        ensures
            h.timeout == HOLD_TIMEOUT,
            h.hold == Simple::Layer(self.index() as usize),
            h.tap == Simple::Key(key),
    {
        hold_layer_tap_key(self.num(), key)
    }
}

/// The hold-tap that holds layer `layer` once the key has been down for
/// `HOLD_TIMEOUT` ticks, and taps `key` if it is released before.
pub fn hold_layer_tap_key(layer: usize, key: KeyCode) -> (h: HoldTapAction)
    ensures
        h.timeout == HOLD_TIMEOUT,
        h.hold == Simple::Layer(layer),
        h.tap == Simple::Key(key),
{
    HoldTapAction { timeout: HOLD_TIMEOUT, hold: Simple::Layer(layer), tap: Simple::Key(key) }
}

/// Two layers of one place are one layer.
pub proof fn lemma_layers_differ(a: Layers, b: Layers)
    ensures
        a.index() == b.index() <==> a == b,
        0 <= a.index() < LAYER_COUNT,
{
}

} // verus!
