//! Event pipeline of a split keyboard: debouncing, position mirroring, the
//! serial link between the halves, the layout engine and HID reports.

use vstd::prelude::*;

pub mod action;
pub mod codec;
pub mod common;
pub mod debounce;
pub mod engine;
pub mod event;
pub mod firmware;
pub mod layouts;
pub mod mcu;
pub mod outside;
pub mod receiver;
pub mod report;
pub mod transform;

verus! {

} // verus!
