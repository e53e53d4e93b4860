//! Configuration for the daemon: thresholds, polling interval, per-category
//! notification settings and command strings.

use vstd::prelude::*;

verus! {

/// How a notification category behaves: shown without a timeout, shown with
/// the notification server's default timeout, disabled entirely, or shown
/// with an explicit timeout in milliseconds.
#[derive(Clone, Copy, PartialEq, Eq, Structural, Debug)]
pub enum Notification {
    Persistent,
    ServerDefault,
    Disabled,
    Int(i32),
}

impl Notification {
    /// The wire value handed to the notification server: 0 means "never
    /// expire", -1 means "server default", and a positive value is a
    /// timeout in milliseconds.
    pub fn to_i32(&self) -> (r: i32)
        ensures
            r == self.timeout_value(),
    {
        match self {
            Notification::Persistent => 0,
            Notification::ServerDefault => -1,
            Notification::Disabled => -2,
            Notification::Int(value) => *value,
        }
    }

    /// Mathematical value of `to_i32`.
    pub open spec fn timeout_value(self) -> i32 {
        match self {
            Notification::Persistent => 0i32,
            Notification::ServerDefault => -1i32,
            Notification::Disabled => -2i32,
            Notification::Int(value) => value,
        }
    }

    /// Whether notifications of this category may be shown at all.
    pub open spec fn enabled(self) -> bool {
        self != Notification::Disabled
    }
}

/// Per-category notification settings.
#[derive(Clone, Copy, PartialEq, Eq, Structural, Debug)]
pub struct Notifications {
    pub low: Notification,
    pub sleep: Notification,
    pub bluetooth_low: Notification,
    pub monitors_with_no_ac: Notification,
    pub charging: Notification,
    pub discharging: Notification,
    pub not_charging: Notification,
    pub full: Notification,
    pub unknown: Notification,
    pub at_threshold: Notification,
}

impl Default for Notifications {
    /// Everything persistent, except the routine charging and discharging
    /// transitions, which use the notification server's default timeout.
    fn default() -> (r: Self)
        ensures
            r == (Notifications {
                low: Notification::Persistent,
                sleep: Notification::Persistent,
                bluetooth_low: Notification::Persistent,
                monitors_with_no_ac: Notification::Persistent,
                charging: Notification::ServerDefault,
                discharging: Notification::ServerDefault,
                not_charging: Notification::Persistent,
                full: Notification::Persistent,
                unknown: Notification::Persistent,
                at_threshold: Notification::Persistent,
            }),
    {
        Notifications {
            low: Notification::Persistent,
            sleep: Notification::Persistent,
            bluetooth_low: Notification::Persistent,
            monitors_with_no_ac: Notification::Persistent,
            charging: Notification::ServerDefault,
            discharging: Notification::ServerDefault,
            not_charging: Notification::Persistent,
            full: Notification::Persistent,
            unknown: Notification::Persistent,
            at_threshold: Notification::Persistent,
        }
    }
}

/// The shell command to run on each event; an empty string still runs the
/// shell with an empty command line, as configured.
#[derive(Debug)]
pub struct CustomCommands {
    pub low: String,
    pub sleep: String,
    pub charging: String,
    pub discharging: String,
    pub not_charging: String,
    pub full: String,
    pub unknown: String,
    pub at_threshold: String,
}

impl Default for CustomCommands {
    /// No commands, except that entering the critical band suspends the
    /// machine.
    fn default() -> (r: Self)
        ensures
            r.low@ == ""@,
            r.sleep@ == "systemctl suspend"@,
            r.charging@ == ""@,
            r.discharging@ == ""@,
            r.not_charging@ == ""@,
            r.full@ == ""@,
            r.unknown@ == ""@,
            r.at_threshold@ == ""@,
    {
        CustomCommands {
            low: "".to_owned(),
            sleep: "systemctl suspend".to_owned(),
            charging: "".to_owned(),
            discharging: "".to_owned(),
            not_charging: "".to_owned(),
            full: "".to_owned(),
            unknown: "".to_owned(),
            at_threshold: "".to_owned(),
        }
    }
}

/// Daemon configuration, loaded once at startup and immutable afterwards:
/// poll interval in milliseconds, the percentage thresholds, and the
/// per-category commands and notification settings.
#[derive(Debug)]
pub struct Config {
    pub interval: u64,
    pub sleep_pct: u8,
    pub low_pct: u8,
    pub monitors_with_no_ac: usize,
    pub bluetooth_low_pct: u8,
    pub events: CustomCommands,
    pub notifications: Notifications,
}

impl Default for Config {
    /// Poll every 30 seconds; low band at 40%, critical band at 15%,
    /// bluetooth low at 40%, monitor warning from 2 monitors on.
    fn default() -> (r: Self)
        ensures
            r.interval == 30000,
            r.low_pct == 40,
            r.sleep_pct == 15,
            r.bluetooth_low_pct == 40,
            r.monitors_with_no_ac == 2,
            r.events.low@ == ""@,
            r.events.sleep@ == "systemctl suspend"@,
            r.events.charging@ == ""@,
            r.events.discharging@ == ""@,
            r.events.not_charging@ == ""@,
            r.events.full@ == ""@,
            r.events.at_threshold@ == ""@,
            r.events.unknown@ == ""@,
            r.notifications == Notifications::default_spec(),
    {
        Config {
            interval: 30000,
            low_pct: 40,
            sleep_pct: 15,
            bluetooth_low_pct: 40,
            monitors_with_no_ac: 2,
            events: CustomCommands::default(),
            notifications: Notifications::default(),
        }
    }
}

impl Notifications {
    /// The default settings, as a value usable in contracts.
    pub open spec fn default_spec() -> Notifications {
        Notifications {
            low: Notification::Persistent,
            sleep: Notification::Persistent,
            bluetooth_low: Notification::Persistent,
            monitors_with_no_ac: Notification::Persistent,
            charging: Notification::ServerDefault,
            discharging: Notification::ServerDefault,
            not_charging: Notification::Persistent,
            full: Notification::Persistent,
            unknown: Notification::Persistent,
            at_threshold: Notification::Persistent,
        }
    }
}

} // verus!
