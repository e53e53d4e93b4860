use battery_notify::Battery;
use battery_notify::BatteryState;
use battery_notify::Config;
use battery_notify::Notification;
use battery_notify::battery_state_to_lower_name;
use battery_notify::battery_state_to_name;
use battery_notify::check_readings;
use battery_notify::get_global_battery;
use battery_notify::name_to_battery_state;
use battery_notify::read_battery_dir;
use battery_notify::read_battery_file_energy_or_charge;
use battery_notify::state_from_name;

fn bat(state: BatteryState, now_uwh: u64, full_uwh: u64) -> Battery {
    Battery { state, now_uwh, full_uwh }
}

#[test]
fn any_charging_wins() {
    let readings = vec![
        bat(BatteryState::Discharging, 100, 1000),
        bat(BatteryState::Charging, 100, 1000),
        bat(BatteryState::Full, 1000, 1000),
    ];
    assert_eq!(get_global_battery(&readings).state, BatteryState::Charging);
}

#[test]
fn discharging_beats_the_rest() {
    let readings = vec![
        bat(BatteryState::Full, 1000, 1000),
        bat(BatteryState::Discharging, 100, 1000),
    ];
    assert_eq!(get_global_battery(&readings).state, BatteryState::Discharging);
}

#[test]
fn all_full_is_full_at_level_100() {
    let readings = vec![
        bat(BatteryState::Full, 1000, 1000),
        bat(BatteryState::Full, 2000, 2000),
    ];
    let global = get_global_battery(&readings);
    assert_eq!(global.state, BatteryState::Full);
    assert_eq!(global.level(), 100);
}

#[test]
fn mixed_idle_states_are_at_threshold() {
    let readings = vec![
        bat(BatteryState::Unknown, 800, 1000),
        bat(BatteryState::NotCharging, 900, 1000),
        bat(BatteryState::Full, 1000, 1000),
    ];
    assert_eq!(get_global_battery(&readings).state, BatteryState::AtThreshold);
}

#[test]
fn unmatched_states_fall_back_to_discharging() {
    let readings = vec![
        bat(BatteryState::Invalid, 500, 1000),
        bat(BatteryState::Full, 1000, 1000),
    ];
    assert_eq!(get_global_battery(&readings).state, BatteryState::Discharging);
}

#[test]
fn level_is_summed_before_dividing() {
    // 3000 of 10000 plus 1000 of 10000: 4000 / 20000 = 20%, not the 25%
    // a per-battery average would give.
    let readings = vec![
        bat(BatteryState::Discharging, 3000, 10000),
        bat(BatteryState::Discharging, 1000, 10000),
    ];
    assert_eq!(get_global_battery(&readings).level(), 20);
}

#[test]
fn level_rounds_down() {
    assert_eq!(bat(BatteryState::Discharging, 9999, 10000).level(), 99);
    assert_eq!(bat(BatteryState::Discharging, 3000, 10000).level(), 30);
}

#[test]
fn level_is_clamped_to_100() {
    assert_eq!(bat(BatteryState::Full, 15000, 10000).level(), 100);
    let readings = vec![
        bat(BatteryState::Full, 15000, 10000),
        bat(BatteryState::Full, 500, 1000),
    ];
    assert_eq!(get_global_battery(&readings).level(), 100);
}

#[test]
fn check_readings_accepts_ordinary_sets() {
    let readings = vec![
        bat(BatteryState::Discharging, 3000, 10000),
        bat(BatteryState::Full, 1000, 1000),
    ];
    assert!(check_readings(&readings));
}

#[test]
fn check_readings_rejects_empty_sets() {
    assert!(!check_readings(&Vec::new()));
}

#[test]
fn check_readings_rejects_zero_full_energy() {
    let readings = vec![bat(BatteryState::Discharging, 3000, 0)];
    assert!(!check_readings(&readings));
}

#[test]
fn check_readings_rejects_overflowing_sums() {
    let readings = vec![bat(BatteryState::Discharging, u64::MAX, u64::MAX)];
    assert!(!check_readings(&readings));
}

#[test]
fn state_names_round_trip() {
    let states = [
        BatteryState::Discharging,
        BatteryState::Charging,
        BatteryState::NotCharging,
        BatteryState::Full,
        BatteryState::Unknown,
        BatteryState::AtThreshold,
        BatteryState::Invalid,
    ];
    for state in states {
        let name = battery_state_to_name(state);
        assert_eq!(state_from_name(name.as_str()), Some(state));
    }
}

#[test]
fn state_names_match_the_kernel_spelling() {
    assert_eq!(battery_state_to_name(BatteryState::NotCharging), "Not charging");
    assert_eq!(battery_state_to_name(BatteryState::AtThreshold), "At threshold");
    assert_eq!(battery_state_to_name(BatteryState::Charging), "Charging");
    assert_eq!(battery_state_to_lower_name(BatteryState::NotCharging), "not charging");
    assert_eq!(battery_state_to_lower_name(BatteryState::Full), "full");
}

#[test]
fn unknown_names_parse_to_none() {
    assert_eq!(state_from_name("charging"), None);
    assert_eq!(state_from_name(""), None);
    assert_eq!(state_from_name("Not  charging"), None);
}

#[test]
fn known_names_parse() {
    assert_eq!(name_to_battery_state("Unknown"), BatteryState::Unknown);
    assert_eq!(name_to_battery_state("Discharging"), BatteryState::Discharging);
}

#[test]
fn energy_file_wins_over_charge() {
    assert_eq!(
        read_battery_file_energy_or_charge(Some(5000), Some(1), Some(1)),
        Some(5000)
    );
}

#[test]
fn charge_and_voltage_convert_to_energy() {
    // 2000 µAh at 11_000_000 µV is 22_000_000 µWh after the /1000 scaling.
    assert_eq!(
        read_battery_file_energy_or_charge(None, Some(2000), Some(11_000_000)),
        Some(22_000_000)
    );
}

#[test]
fn missing_energy_and_charge_is_an_error() {
    assert_eq!(read_battery_file_energy_or_charge(None, None, Some(5)), None);
    assert_eq!(read_battery_file_energy_or_charge(None, Some(5), None), None);
    assert_eq!(read_battery_file_energy_or_charge(None, None, None), None);
}

#[test]
fn battery_dir_builds_a_reading() {
    let battery = read_battery_dir("Charging", Some(3000), Some(10000)).unwrap();
    assert_eq!(battery.state, BatteryState::Charging);
    assert_eq!(battery.now_uwh, 3000);
    assert_eq!(battery.full_uwh, 10000);
}

#[test]
fn battery_dir_rejects_bad_values() {
    assert!(read_battery_dir("Levitating", Some(3000), Some(10000)).is_none());
    assert!(read_battery_dir("Charging", None, Some(10000)).is_none());
    assert!(read_battery_dir("Charging", Some(3000), None).is_none());
    assert!(read_battery_dir("Charging", Some(3000), Some(0)).is_none());
}

#[test]
fn notification_wire_values() {
    assert_eq!(Notification::Persistent.to_i32(), 0);
    assert_eq!(Notification::ServerDefault.to_i32(), -1);
    assert_eq!(Notification::Disabled.to_i32(), -2);
    assert_eq!(Notification::Int(5000).to_i32(), 5000);
}

#[test]
fn config_defaults() {
    let cfg = Config::default();
    assert_eq!(cfg.interval, 30000);
    assert_eq!(cfg.low_pct, 40);
    assert_eq!(cfg.sleep_pct, 15);
    assert_eq!(cfg.bluetooth_low_pct, 40);
    assert_eq!(cfg.monitors_with_no_ac, 2);
    assert_eq!(cfg.events.sleep, "systemctl suspend");
    assert_eq!(cfg.events.low, "");
    assert_eq!(cfg.notifications.charging, Notification::ServerDefault);
    assert_eq!(cfg.notifications.discharging, Notification::ServerDefault);
    assert_eq!(cfg.notifications.low, Notification::Persistent);
    assert_eq!(cfg.notifications.sleep, Notification::Persistent);
}
