//! Battery status daemon core: aggregation of per-battery readings into one
//! global state, alert decisions with debounced notifications, and a
//! drift-correcting scheduler.

use vstd::prelude::*;

pub mod bluetooth;
pub mod config;
pub mod engine;
pub mod notification;
pub mod scheduler;
pub mod system;

pub use bluetooth::BluetoothBattery;
pub use config::Config;
pub use config::CustomCommands;
pub use config::Notification;
pub use config::Notifications;
pub use engine::Band;
pub use engine::DaemonState;
pub use engine::SLEEP_BACKOFF_MS;
pub use notification::SingleNotification;
pub use notification::Urgency;
pub use scheduler::next_schedule;
pub use system::Battery;
pub use system::BatteryState;
pub use system::battery_state_to_lower_name;
pub use system::battery_state_to_name;
pub use system::check_readings;
pub use system::get_global_battery;
pub use system::name_to_battery_state;
pub use system::read_battery_dir;
pub use system::read_battery_file_energy_or_charge;
pub use system::state_from_name;

verus! {

} // verus!
