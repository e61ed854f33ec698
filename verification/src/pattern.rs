//! A pattern that watches parsed events, for users of the library to
//! implement.

use vstd::prelude::*;

use crate::models::BluetoothEvent;

verus! {

/// A pattern that watches events one by one.
pub trait Pattern {
    /// The pattern's name.
    fn name(&self) -> &'static str;

    /// Takes one event into account.
    fn process(&mut self, event: &BluetoothEvent);
}

} // verus!
