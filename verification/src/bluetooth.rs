//! Bluetooth battery readings, one per connected device and tick.

use vstd::prelude::*;

verus! {

/// One Bluetooth device's battery reading: its display name (used as the
/// identity key across ticks) and its charge percentage.
#[derive(Debug)]
pub struct BluetoothBattery {
    pub name: String,
    pub level: u8,
}

} // verus!
