use battery_notify::Battery;
use battery_notify::BatteryState;
use battery_notify::BluetoothBattery;
use battery_notify::Config;
use battery_notify::DaemonState;
use battery_notify::Notification;

fn test_config() -> Config {
    let mut cfg = Config::default();
    cfg.events.low = "lowcmd".to_string();
    cfg.events.sleep = "sleepcmd".to_string();
    cfg.events.charging = "chargecmd".to_string();
    cfg.events.discharging = "dischargecmd".to_string();
    cfg
}

fn discharging_at(pct: u64) -> Vec<Battery> {
    vec![Battery { state: BatteryState::Discharging, now_uwh: pct * 100, full_uwh: 10000 }]
}

fn charging_at(pct: u64) -> Vec<Battery> {
    vec![Battery { state: BatteryState::Charging, now_uwh: pct * 100, full_uwh: 10000 }]
}

#[test]
fn low_battery_scenario() {
    // sleep_pct 15, low_pct 40, one battery at 3000 of 10000 µWh (30%),
    // discharging: the low alert is shown, the critical alert is not, and
    // the suspend command does not run.
    let cfg = test_config();
    let mut st = DaemonState::new();
    let cmds = st.tick(&cfg, &discharging_at(30), 0, &Vec::new(), 1000);
    assert_eq!(st.last_global_state, BatteryState::Discharging);
    assert_eq!(st.low_notif.summary_text().unwrap(), "Battery low");
    assert_eq!(cmds, vec!["dischargecmd".to_string(), "lowcmd".to_string()]);
    assert!(!cmds.contains(&"sleepcmd".to_string()));
}

#[test]
fn state_change_notifies_once() {
    let cfg = test_config();
    let mut st = DaemonState::new();
    st.tick(&cfg, &discharging_at(80), 0, &Vec::new(), 1000);
    assert_eq!(st.state_notif.summary_text().unwrap(), "Battery now discharging");
    // Unchanged state stays silent on this axis: no new command.
    let cmds = st.tick(&cfg, &discharging_at(79), 0, &Vec::new(), 2000);
    assert!(cmds.is_empty());
    assert_eq!(st.state_notif.summary_text().unwrap(), "Battery now discharging");
    // A transition to charging runs that command and updates the text.
    let cmds = st.tick(&cfg, &charging_at(79), 0, &Vec::new(), 3000);
    assert_eq!(cmds, vec!["chargecmd".to_string()]);
    assert_eq!(st.state_notif.summary_text().unwrap(), "Battery now charging");
}

#[test]
fn suspend_backoff_rate_limits() {
    let cfg = test_config();
    let mut st = DaemonState::new();
    // First critical tick: suspend fires and the backoff clock resets.
    let cmds = st.tick(&cfg, &discharging_at(10), 0, &Vec::new(), 1000);
    assert_eq!(cmds, vec!["dischargecmd".to_string(), "sleepcmd".to_string()]);
    assert_eq!(st.low_notif.summary_text().unwrap(), "Battery critical");
    assert_eq!(st.next_sleep_epoch_ms, 61000);
    // A second critical tick within 60 s does not re-fire it.
    let cmds = st.tick(&cfg, &discharging_at(9), 0, &Vec::new(), 31000);
    assert!(cmds.is_empty());
    // A critical tick after the 60 s backoff re-fires it.
    let cmds = st.tick(&cfg, &discharging_at(8), 0, &Vec::new(), 61001);
    assert_eq!(cmds, vec!["sleepcmd".to_string()]);
    assert_eq!(st.next_sleep_epoch_ms, 121001);
}

#[test]
fn low_command_fires_once_per_stay() {
    let cfg = test_config();
    let mut st = DaemonState::new();
    // Entering the low band fires the one-shot.
    let cmds = st.tick(&cfg, &discharging_at(30), 0, &Vec::new(), 1000);
    assert!(cmds.contains(&"lowcmd".to_string()));
    assert!(!st.run_low_command);
    // Staying in the band does not fire it again.
    let cmds = st.tick(&cfg, &discharging_at(25), 0, &Vec::new(), 2000);
    assert!(!cmds.contains(&"lowcmd".to_string()));
    // Leaving the band re-arms it ...
    st.tick(&cfg, &charging_at(90), 0, &Vec::new(), 3000);
    assert!(st.run_low_command);
    // ... so re-entering fires it once more.
    let cmds = st.tick(&cfg, &discharging_at(30), 0, &Vec::new(), 4000);
    assert!(cmds.contains(&"lowcmd".to_string()));
}

#[test]
fn charging_closes_the_low_alert() {
    let cfg = test_config();
    let mut st = DaemonState::new();
    st.tick(&cfg, &discharging_at(30), 0, &Vec::new(), 1000);
    let was_live = st.low_notif.live();
    st.tick(&cfg, &charging_at(30), 0, &Vec::new(), 2000);
    assert!(!st.low_notif.live());
    if was_live {
        assert!(st.low_notif.summary_text().is_none());
    }
}

#[test]
fn monitor_warning_counts_monitors() {
    let cfg = test_config();
    let mut st = DaemonState::new();
    st.tick(&cfg, &discharging_at(80), 3, &Vec::new(), 1000);
    assert_eq!(
        st.mon_notif.summary_text().unwrap(),
        "Connected to 3 monitors but not AC"
    );
    // Below the threshold the warning closes.
    st.tick(&cfg, &discharging_at(80), 1, &Vec::new(), 2000);
    assert!(!st.mon_notif.live());
    // While charging it is not evaluated at all and stays closed.
    st.tick(&cfg, &charging_at(80), 5, &Vec::new(), 3000);
    assert!(!st.mon_notif.live());
}

#[test]
fn monitor_warning_renders_multi_digit_counts() {
    let cfg = test_config();
    let mut st = DaemonState::new();
    st.tick(&cfg, &discharging_at(80), 12, &Vec::new(), 1000);
    assert_eq!(
        st.mon_notif.summary_text().unwrap(),
        "Connected to 12 monitors but not AC"
    );
}

#[test]
fn duplicate_bluetooth_names_share_one_slot() {
    let cfg = test_config();
    let mut st = DaemonState::new();
    let bt = vec![
        BluetoothBattery { name: "Headset".to_string(), level: 10 },
        BluetoothBattery { name: "Headset".to_string(), level: 90 },
    ];
    st.tick(&cfg, &discharging_at(80), 0, &bt, 1000);
    assert_eq!(st.bluetooth_notifs.len(), 1);
    assert_eq!(st.bluetooth_notifs[0].0, "Headset");
}

#[test]
fn bluetooth_low_device_gets_an_alert() {
    let cfg = test_config();
    let mut st = DaemonState::new();
    let bt = vec![
        BluetoothBattery { name: "Headset".to_string(), level: 10 },
        BluetoothBattery { name: "Mouse".to_string(), level: 90 },
    ];
    st.tick(&cfg, &discharging_at(80), 0, &bt, 1000);
    assert_eq!(st.bluetooth_notifs.len(), 2);
    let headset = st
        .bluetooth_notifs
        .iter()
        .find(|entry| entry.0 == "Headset")
        .unwrap();
    assert_eq!(headset.1.summary_text().unwrap(), "Headset battery low");
    let mouse = st
        .bluetooth_notifs
        .iter()
        .find(|entry| entry.0 == "Mouse")
        .unwrap();
    assert!(mouse.1.summary_text().is_none());
}

#[test]
fn absent_bluetooth_device_is_pruned() {
    let cfg = test_config();
    let mut st = DaemonState::new();
    let bt = vec![BluetoothBattery { name: "Headset".to_string(), level: 10 }];
    st.tick(&cfg, &discharging_at(80), 0, &bt, 1000);
    assert_eq!(st.bluetooth_notifs.len(), 1);
    // The device disappears: its slot is closed and removed this tick.
    st.tick(&cfg, &discharging_at(80), 0, &Vec::new(), 2000);
    assert_eq!(st.bluetooth_notifs.len(), 0);
}

#[test]
fn bluetooth_disabled_leaves_the_map_alone() {
    let mut cfg = test_config();
    let bt = vec![BluetoothBattery { name: "Headset".to_string(), level: 10 }];
    let mut st = DaemonState::new();
    st.tick(&cfg, &discharging_at(80), 0, &bt, 1000);
    assert_eq!(st.bluetooth_notifs.len(), 1);
    cfg.bluetooth_low_pct = 0;
    st.tick(&cfg, &discharging_at(80), 0, &Vec::new(), 2000);
    assert_eq!(st.bluetooth_notifs.len(), 1);
}

#[test]
fn disabled_categories_show_nothing() {
    let mut cfg = test_config();
    cfg.notifications.low = Notification::Disabled;
    cfg.notifications.discharging = Notification::Disabled;
    let mut st = DaemonState::new();
    let cmds = st.tick(&cfg, &discharging_at(30), 0, &Vec::new(), 1000);
    // Commands still run, but no notification text is remembered.
    assert_eq!(cmds, vec!["dischargecmd".to_string(), "lowcmd".to_string()]);
    assert!(st.low_notif.summary_text().is_none());
    assert!(st.state_notif.summary_text().is_none());
}

#[test]
fn teardown_closes_everything() {
    let cfg = test_config();
    let mut st = DaemonState::new();
    let bt = vec![BluetoothBattery { name: "Headset".to_string(), level: 10 }];
    st.tick(&cfg, &discharging_at(30), 3, &bt, 1000);
    st.teardown();
    assert!(!st.state_notif.live());
    assert!(!st.low_notif.live());
    assert!(!st.mon_notif.live());
    assert_eq!(st.bluetooth_notifs.len(), 0);
}
