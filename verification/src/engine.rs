//! The alert engine: per-tick decisions over the aggregated battery state,
//! the level bands, connected monitors and Bluetooth devices, together with
//! the process-lifetime `DaemonState` they mutate.

use vstd::prelude::*;

use crate::bluetooth::BluetoothBattery;
use crate::config::Config;
use crate::config::CustomCommands;
use crate::config::Notification;
use crate::config::Notifications;
use crate::notification::SingleNotification;
use crate::notification::Urgency;
use crate::system::Battery;
use crate::system::BatteryState;
use crate::system::battery_state_to_lower_name;
use crate::system::get_global_battery;
use crate::system::global_level_of;
use crate::system::global_state_of;
use crate::system::lemma_sum_full_pos;
use crate::system::readings_ok;
use crate::system::state_lower_name;
use vstd::string::StringExecFns;

verus! {

/// Minimum spacing between two runs of the suspend command, so a machine
/// that stays critical across ticks is not suspended again and again.
pub const SLEEP_BACKOFF_MS: u64 = 60000;

/// The level band a tick falls in.  `Clear` is "charging or above the low
/// threshold"; `Critical` is at or below the sleep threshold; `Low` is the
/// band in between.  Critical is checked before low, so the bands never
/// overlap.
#[derive(Clone, Copy, PartialEq, Eq, Structural, Debug)]
pub enum Band {
    Clear,
    Critical,
    Low,
}

/// Which band the current state and level fall in.
pub open spec fn band_of(cfg: Config, state: BatteryState, level: int) -> Band {
    if state == BatteryState::Charging || level > cfg.low_pct {
        Band::Clear
    } else if level <= cfg.sleep_pct {
        Band::Critical
    } else {
        Band::Low
    }
}

/// The low-band one-shot latch after a tick: re-armed when the band is
/// clear, spent while in the low band, untouched while critical.
pub open spec fn latch_after(band: Band, latch: bool) -> bool {
    match band {
        Band::Clear => true,
        Band::Critical => latch,
        Band::Low => false,
    }
}

/// Whether the suspend command runs this tick: only in the critical band,
/// and only once the backoff epoch has passed.
pub open spec fn suspend_fires(band: Band, now_ms: u64, epoch_ms: u64) -> bool {
    band == Band::Critical && now_ms > epoch_ms
}

/// The backoff epoch after a tick: pushed one backoff past `now` whenever
/// the suspend command runs, otherwise unchanged.
pub open spec fn epoch_after(band: Band, now_ms: u64, epoch_ms: u64) -> int {
    if suspend_fires(band, now_ms, epoch_ms) {
        now_ms + SLEEP_BACKOFF_MS
    } else {
        epoch_ms as int
    }
}

/// Whether the low-band one-shot command runs this tick.
pub open spec fn low_fires(band: Band, latch: bool) -> bool {
    band == Band::Low && latch
}

/// The command configured for a state transition; the `Invalid` sentinel
/// has none (a tick never transitions into it).
pub open spec fn event_command(ev: CustomCommands, s: BatteryState) -> Seq<char> {
    match s {
        BatteryState::Charging => ev.charging@,
        BatteryState::Discharging => ev.discharging@,
        BatteryState::NotCharging => ev.not_charging@,
        BatteryState::Full => ev.full@,
        BatteryState::Unknown => ev.unknown@,
        BatteryState::AtThreshold => ev.at_threshold@,
        BatteryState::Invalid => Seq::<char>::empty(),
    }
}

/// The notification setting for a state-transition category.
pub open spec fn state_setting(ns: Notifications, s: BatteryState) -> Notification {
    match s {
        BatteryState::Charging => ns.charging,
        BatteryState::Discharging => ns.discharging,
        BatteryState::NotCharging => ns.not_charging,
        BatteryState::Full => ns.full,
        BatteryState::Unknown => ns.unknown,
        BatteryState::AtThreshold => ns.at_threshold,
        BatteryState::Invalid => Notification::Disabled,
    }
}

/// The commands a tick runs, in order: the state-transition command when
/// the global state changed, then either the suspend command or the
/// low-band one-shot command.
pub open spec fn tick_commands(
    cfg: Config,
    prev: BatteryState,
    gstate: BatteryState,
    band: Band,
    latch: bool,
    now_ms: u64,
    epoch_ms: u64,
) -> Seq<Seq<char>> {
    let state_part: Seq<Seq<char>> = if gstate != prev && gstate != BatteryState::Invalid {
        seq![event_command(cfg.events, gstate)]
    } else {
        Seq::empty()
    };
    let level_part: Seq<Seq<char>> = if suspend_fires(band, now_ms, epoch_ms) {
        seq![cfg.events.sleep@]
    } else if low_fires(band, latch) {
        seq![cfg.events.low@]
    } else {
        Seq::empty()
    };
    state_part + level_part
}

/// A slot that has never talked to the notification server.
pub open spec fn fresh_slot(s: SingleNotification) -> bool {
    &&& !s.is_live()
    &&& s.summary_view() is None
    &&& s.shows_count() == 0
    &&& s.closes_count() == 0
}

/// Some entry of the slot map carries this device name.
pub open spec fn has_name(s: Seq<(String, SingleNotification)>, nm: Seq<char>) -> bool {
    exists|i: int| 0 <= i < s.len() && s[i].0@ == nm
}

/// The index of the entry carrying this name.
pub open spec fn index_of_name(s: Seq<(String, SingleNotification)>, nm: Seq<char>) -> int {
    choose|i: int| 0 <= i < s.len() && s[i].0@ == nm
}

/// The slot stored under this name.
pub open spec fn find_slot(
    s: Seq<(String, SingleNotification)>,
    nm: Seq<char>,
) -> SingleNotification {
    s[index_of_name(s, nm)].1
}

/// Each device name keys at most one entry.
pub open spec fn unique_names(s: Seq<(String, SingleNotification)>) -> bool {
    forall|i: int, j: int| 0 <= i < j < s.len() ==> s[i].0@ != s[j].0@
}

/// Some reading in the set reports this device name.
pub open spec fn reported(bt: Seq<BluetoothBattery>, nm: Seq<char>) -> bool {
    exists|i: int| 0 <= i < bt.len() && bt[i].name@ == nm
}

/// How many readings report this device name.
pub open spec fn name_count(bt: Seq<BluetoothBattery>, nm: Seq<char>) -> int
    decreases bt.len(),
{
    if bt.len() == 0 {
        0
    } else {
        name_count(bt.drop_last(), nm) + if bt.last().name@ == nm {
            1int
        } else {
            0int
        }
    }
}

/// What one Bluetooth reading does to its device's slot: at or below the
/// threshold the low alert is shown (when that category is enabled), above
/// it the slot is closed.
pub open spec fn bt_slot_step(
    o: SingleNotification,
    n: SingleNotification,
    r: BluetoothBattery,
    cfg: Config,
) -> bool {
    if r.level <= cfg.bluetooth_low_pct {
        if cfg.notifications.bluetooth_low.enabled() {
            SingleNotification::show_transition(o, n, r.name@ + " battery low"@)
        } else {
            n == o
        }
    } else {
        SingleNotification::close_transition(o, n)
    }
}

/// What a whole tick does to the Bluetooth slot map: afterwards it tracks
/// exactly the reported devices, and the slot of every uniquely-reported
/// device has taken the step its reading dictates, from its old slot or
/// from a fresh one.
pub open spec fn bt_outcome(
    orig: Seq<(String, SingleNotification)>,
    now: Seq<(String, SingleNotification)>,
    bt: Seq<BluetoothBattery>,
    cfg: Config,
) -> bool {
    &&& forall|i: int| 0 <= i < now.len() ==> reported(bt, #[trigger] now[i].0@)
    &&& forall|j: int| 0 <= j < bt.len() ==> has_name(now, #[trigger] bt[j].name@)
    &&& forall|j: int|
        0 <= j < bt.len() && name_count(bt, #[trigger] bt[j].name@) == 1 ==> {
            let nm = bt[j].name@;
            if has_name(orig, nm) {
                bt_slot_step(find_slot(orig, nm), find_slot(now, nm), bt[j], cfg)
            } else {
                exists|o: SingleNotification|
                    fresh_slot(o) && bt_slot_step(o, find_slot(now, nm), bt[j], cfg)
            }
        }
}

proof fn lemma_find_is(s: Seq<(String, SingleNotification)>, k: int)
    requires
        unique_names(s),
        0 <= k < s.len(),
    ensures
        has_name(s, s[k].0@),
        index_of_name(s, s[k].0@) == k,
        find_slot(s, s[k].0@) == s[k].1,
{
    let nm = s[k].0@;
    assert(0 <= k < s.len() && s[k].0@ == nm);
    let i0 = index_of_name(s, nm);
    assert(0 <= i0 < s.len() && s[i0].0@ == nm);
    if i0 != k {
        if i0 < k {
            assert(s[i0].0@ != s[k].0@);
        } else {
            assert(s[k].0@ != s[i0].0@);
        }
    }
}

proof fn lemma_push_entry(s: Seq<(String, SingleNotification)>, p: (String, SingleNotification))
    requires
        unique_names(s),
        !has_name(s, p.0@),
    ensures
        unique_names(s.push(p)),
        has_name(s.push(p), p.0@),
        find_slot(s.push(p), p.0@) == p.1,
        forall|i: int|
            0 <= i < s.len() ==> has_name(s.push(p), #[trigger] s[i].0@) && find_slot(
                s.push(p),
                s[i].0@,
            ) == find_slot(s, s[i].0@),
        forall|i: int|
            0 <= i < s.push(p).len() ==> (#[trigger] s.push(p)[i].0@ == p.0@ || has_name(
                s,
                s.push(p)[i].0@,
            )),
{
    let t = s.push(p);
    assert forall|i: int, j: int| 0 <= i < j < t.len() implies t[i].0@ != t[j].0@ by {
        if j < s.len() {
            assert(s[i].0@ != s[j].0@);
        } else {
            assert(t[j] == p);
            assert(t[i] == s[i]);
            if s[i].0@ == p.0@ {
                assert(has_name(s, p.0@));
            }
        }
    }
    assert(t[s.len() as int] == p);
    lemma_find_is(t, s.len() as int);
    assert forall|i: int| 0 <= i < s.len() implies has_name(t, #[trigger] s[i].0@) && find_slot(
        t,
        s[i].0@,
    ) == find_slot(s, s[i].0@) by {
        assert(t[i] == s[i]);
        lemma_find_is(t, i);
        lemma_find_is(s, i);
    }
    assert forall|i: int| 0 <= i < t.len() implies (#[trigger] t[i].0@ == p.0@ || has_name(
        s,
        t[i].0@,
    )) by {
        if i < s.len() {
            assert(t[i] == s[i]);
        }
    }
}

proof fn lemma_remove_entry(s: Seq<(String, SingleNotification)>, k: int)
    requires
        unique_names(s),
        0 <= k < s.len(),
    ensures
        unique_names(s.remove(k)),
        !has_name(s.remove(k), s[k].0@),
        forall|i: int|
            0 <= i < s.len() && i != k ==> has_name(s.remove(k), #[trigger] s[i].0@) && find_slot(
                s.remove(k),
                s[i].0@,
            ) == s[i].1,
        forall|i: int|
            0 <= i < s.remove(k).len() ==> has_name(s, #[trigger] s.remove(k)[i].0@) && find_slot(
                s,
                s.remove(k)[i].0@,
            ) == s.remove(k)[i].1,
{
    let t = s.remove(k);
    s.remove_ensures(k);
    assert forall|i: int, j: int| 0 <= i < j < t.len() implies t[i].0@ != t[j].0@ by {
        let i2 = if i < k {
            i
        } else {
            i + 1
        };
        let j2 = if j < k {
            j
        } else {
            j + 1
        };
        assert(t[i] == s[i2]);
        assert(t[j] == s[j2]);
        assert(s[i2].0@ != s[j2].0@);
    }
    assert forall|i: int| 0 <= i < t.len() implies has_name(s, #[trigger] t[i].0@) && find_slot(
        s,
        t[i].0@,
    ) == t[i].1 by {
        let i2 = if i < k {
            i
        } else {
            i + 1
        };
        assert(t[i] == s[i2]);
        lemma_find_is(s, i2);
    }
    if has_name(t, s[k].0@) {
        let i0 = choose|i: int| 0 <= i < t.len() && t[i].0@ == s[k].0@;
        let i2 = if i0 < k {
            i0
        } else {
            i0 + 1
        };
        assert(t[i0] == s[i2]);
        if i2 < k {
            assert(s[i2].0@ != s[k].0@);
        } else {
            assert(s[k].0@ != s[i2].0@);
        }
    }
    assert forall|i: int| 0 <= i < s.len() && i != k implies has_name(t, #[trigger] s[i].0@)
        && find_slot(t, s[i].0@) == s[i].1 by {
        let i2 = if i < k {
            i
        } else {
            i - 1
        };
        assert(t[i2] == s[i]);
        lemma_find_is(t, i2);
    }
}

proof fn lemma_reported_take_step(bt: Seq<BluetoothBattery>, j: int, nm: Seq<char>)
    requires
        0 <= j < bt.len(),
    ensures
        reported(bt.take(j + 1), nm) <==> (reported(bt.take(j), nm) || bt[j].name@ == nm),
{
    if reported(bt.take(j + 1), nm) {
        let i = choose|i: int| 0 <= i < bt.take(j + 1).len() && #[trigger] bt.take(j + 1)[i].name@ == nm;
        if i < j {
            assert(bt.take(j)[i].name@ == nm);
        }
    }
    if reported(bt.take(j), nm) {
        let i = choose|i: int| 0 <= i < bt.take(j).len() && #[trigger] bt.take(j)[i].name@ == nm;
        assert(bt.take(j + 1)[i].name@ == nm);
    }
    if bt[j].name@ == nm {
        assert(bt.take(j + 1)[j].name@ == nm);
    }
}

proof fn lemma_name_count_take_step(bt: Seq<BluetoothBattery>, j: int, nm: Seq<char>)
    requires
        0 <= j < bt.len(),
    ensures
        name_count(bt.take(j + 1), nm) == name_count(bt.take(j), nm) + if bt[j].name@ == nm {
            1int
        } else {
            0int
        },
{
    assert(bt.take(j + 1).drop_last() =~= bt.take(j));
    assert(bt.take(j + 1).last() == bt[j]);
}

proof fn lemma_name_count_reported(bt: Seq<BluetoothBattery>, nm: Seq<char>)
    ensures
        name_count(bt, nm) >= 0,
        (name_count(bt, nm) > 0) <==> reported(bt, nm),
    decreases bt.len(),
{
    if bt.len() == 0 {
    } else {
        lemma_name_count_reported(bt.drop_last(), nm);
        if bt.last().name@ == nm {
            assert(bt[bt.len() - 1].name@ == nm);
        } else {
            if reported(bt, nm) {
                let i = choose|i: int| 0 <= i < bt.len() && bt[i].name@ == nm;
                assert(i < bt.len() - 1);
                assert(bt.drop_last()[i].name@ == nm);
            }
            if reported(bt.drop_last(), nm) {
                let i = choose|i: int|
                    0 <= i < bt.drop_last().len() && bt.drop_last()[i].name@ == nm;
                assert(bt[i].name@ == nm);
            }
        }
    }
}

/// Finds the entry keyed by this device name, if any.
fn find_name_index(entries: &Vec<(String, SingleNotification)>, name: &String) -> (r: Option<
    usize,
>)
    ensures
        match r {
            Some(i) => i < entries@.len() && entries@[i as int].0@ == name@,
            None => !has_name(entries@, name@),
        },
{
    let mut k: usize = 0;
    while k < entries.len()
        invariant
            0 <= k <= entries@.len(),
            forall|t: int| 0 <= t < k ==> entries@[t].0@ != name@,
        decreases entries@.len() - k,
    {
        if entries[k].0 == *name {
            return Some(k);
        }
        k = k + 1;
    }
    None
}

/// Applies one Bluetooth reading to its device's slot: show the low alert
/// at or below the threshold (when enabled), close it above.
fn apply_bt_step(slot: &mut SingleNotification, cfg: &Config, reading: &BluetoothBattery)
    ensures
        bt_slot_step(*old(slot), *final(slot), *reading, *cfg),
{
    if reading.level <= cfg.bluetooth_low_pct {
        if cfg.notifications.bluetooth_low != Notification::Disabled {
            let mut msg = reading.name.clone();
            msg.append(" battery low");
            slot.show(msg, Urgency::Critical, cfg.notifications.bluetooth_low.to_i32());
        }
    } else {
        slot.close();
    }
}

/// Process-lifetime daemon state, mutated once per tick: the last observed
/// global state, the low-band one-shot latch, the suspend backoff epoch,
/// the fixed notification slots, and the per-device Bluetooth slot map.
pub struct DaemonState {
    pub last_global_state: BatteryState,
    pub run_low_command: bool,
    pub next_sleep_epoch_ms: u64,
    pub state_notif: SingleNotification,
    pub low_notif: SingleNotification,
    pub mon_notif: SingleNotification,
    pub bluetooth_notifs: Vec<(String, SingleNotification)>,
}

impl DaemonState {
    /// The state is well formed when each Bluetooth device keys at most
    /// one slot.
    pub open spec fn wf(self) -> bool {
        unique_names(self.bluetooth_notifs@)
    }

    /// The startup state: no state observed yet, the low-band one-shot
    /// armed, the suspend backoff epoch in the past, all slots fresh.
    pub fn new() -> (r: Self)
        ensures
            r.wf(),
            r.last_global_state == BatteryState::Invalid,
            r.run_low_command == true,
            r.next_sleep_epoch_ms == 0,
            fresh_slot(r.state_notif),
            fresh_slot(r.low_notif),
            fresh_slot(r.mon_notif),
            r.bluetooth_notifs@.len() == 0,
    {
        DaemonState {
            last_global_state: BatteryState::Invalid,
            run_low_command: true,
            next_sleep_epoch_ms: 0,
            state_notif: SingleNotification::default(),
            low_notif: SingleNotification::default(),
            mon_notif: SingleNotification::default(),
            bluetooth_notifs: Vec::new(),
        }
    }

    /// Applies one tick's Bluetooth readings: every reported device gets a
    /// slot and its reading's step; a device that is no longer reported
    /// has its slot closed and removed from tracking by the end of the
    /// tick, and the closed slots are returned.
    pub fn handle_bluetooth(&mut self, cfg: &Config, bt: &Vec<BluetoothBattery>) -> (removed: Vec<
        SingleNotification,
    >)
        requires
            old(self).wf(),
        ensures
            final(self).wf(),
            bt_outcome(old(self).bluetooth_notifs@, final(self).bluetooth_notifs@, bt@, *cfg),
            final(self).last_global_state == old(self).last_global_state,
            final(self).run_low_command == old(self).run_low_command,
            final(self).next_sleep_epoch_ms == old(self).next_sleep_epoch_ms,
            final(self).state_notif == old(self).state_notif,
            final(self).low_notif == old(self).low_notif,
            final(self).mon_notif == old(self).mon_notif,
            forall|k: int| 0 <= k < removed@.len() ==> !(#[trigger] removed@[k]).is_live(),
            forall|i: int|
                0 <= i < old(self).bluetooth_notifs@.len() && !reported(
                    bt@,
                    (#[trigger] old(self).bluetooth_notifs@[i]).0@,
                ) ==> exists|k: int|
                    0 <= k < removed@.len() && SingleNotification::close_transition(
                        old(self).bluetooth_notifs@[i].1,
                        #[trigger] removed@[k],
                    ),
    {
        let ghost orig = self.bluetooth_notifs@;
        let mut pool: Vec<(String, SingleNotification)> = Vec::new();
        core::mem::swap(&mut self.bluetooth_notifs, &mut pool);
        let mut fresh_entries: Vec<(String, SingleNotification)> = Vec::new();
        let mut j: usize = 0;
        while j < bt.len()
            invariant
                0 <= j <= bt@.len(),
                unique_names(orig),
                unique_names(fresh_entries@),
                unique_names(pool@),
                forall|i: int|
                    0 <= i < fresh_entries@.len() ==> reported(
                        bt@.take(j as int),
                        (#[trigger] fresh_entries@[i]).0@,
                    ),
                forall|i: int| 0 <= i < j ==> has_name(fresh_entries@, (#[trigger] bt@[i]).name@),
                forall|i: int|
                    0 <= i < pool@.len() ==> has_name(orig, (#[trigger] pool@[i]).0@) && find_slot(
                        orig,
                        pool@[i].0@,
                    ) == pool@[i].1,
                forall|i: int|
                    0 <= i < orig.len() ==> (if reported(bt@.take(j as int), (#[trigger] orig[i]).0@) {
                        !has_name(pool@, orig[i].0@)
                    } else {
                        has_name(pool@, orig[i].0@) && find_slot(pool@, orig[i].0@) == orig[i].1
                    }),
                forall|i: int|
                    0 <= i < j && name_count(bt@.take(j as int), (#[trigger] bt@[i]).name@) == 1
                        ==> (if has_name(orig, bt@[i].name@) {
                        bt_slot_step(
                            find_slot(orig, bt@[i].name@),
                            find_slot(fresh_entries@, bt@[i].name@),
                            bt@[i],
                            *cfg,
                        )
                    } else {
                        exists|o: SingleNotification|
                            fresh_slot(o) && bt_slot_step(
                                o,
                                find_slot(fresh_entries@, bt@[i].name@),
                                bt@[i],
                                *cfg,
                            )
                    }),
            decreases bt@.len() - j,
        {
            let reading = &bt[j];
            let ghost nm = reading.name@;
            let ghost entries_before = fresh_entries@;
            let ghost pool_before = pool@;
            proof {
                assert forall|x: Seq<char>| #![trigger reported(bt@.take(j as int + 1), x)] (
                reported(bt@.take(j as int + 1), x) <==> (reported(bt@.take(j as int), x)
                    || bt@[j as int].name@ == x)) by {
                    lemma_reported_take_step(bt@, j as int, x);
                }
                assert forall|x: Seq<char>| #![trigger name_count(bt@.take(j as int + 1), x)] (
                name_count(bt@.take(j as int + 1), x) == name_count(bt@.take(j as int), x) + (
                if bt@[j as int].name@ == x {
                    1int
                } else {
                    0int
                })) by {
                    lemma_name_count_take_step(bt@, j as int, x);
                }
                assert forall|x: Seq<char>| #![trigger name_count(bt@.take(j as int), x)] (
                name_count(bt@.take(j as int), x) >= 0 && ((name_count(bt@.take(j as int), x) > 0)
                    <==> reported(bt@.take(j as int), x))) by {
                    lemma_name_count_reported(bt@.take(j as int), x);
                }
            }
            match find_name_index(&fresh_entries, &reading.name) {
                Some(idx) => {
                    // A second reading for a device already seen this tick:
                    // apply the step to the slot it already has.
                    proof {
                        lemma_find_is(entries_before, idx as int);
                        lemma_remove_entry(entries_before, idx as int);
                    }
                    let (nm_s, mut slot) = fresh_entries.remove(idx);
                    apply_bt_step(&mut slot, cfg, reading);
                    proof {
                        lemma_push_entry(fresh_entries@, (nm_s, slot));
                    }
                    fresh_entries.push((nm_s, slot));
                    proof {
                        let now_e = fresh_entries@;
                        // keys are unchanged: every old key survives with its
                        // slot unless it is the updated name
                        assert forall|x: Seq<char>| has_name(entries_before, x) implies (has_name(
                            now_e,
                            x,
                        ) && (x != nm ==> find_slot(now_e, x) == find_slot(
                            entries_before,
                            x,
                        ))) by {
                            let w = index_of_name(entries_before, x);
                            lemma_find_is(entries_before, w);
                        }
                        assert(reported(bt@.take(j as int), nm));
                    }
                },
                None => {
                    let (nm_s, mut slot) = match find_name_index(&pool, &reading.name) {
                        Some(idx) => {
                            proof {
                                lemma_find_is(pool_before, idx as int);
                                lemma_remove_entry(pool_before, idx as int);
                            }
                            pool.remove(idx)
                        },
                        None => (reading.name.clone(), SingleNotification::default()),
                    };
                    let ghost slot_origin = slot;
                    apply_bt_step(&mut slot, cfg, reading);
                    proof {
                        lemma_push_entry(fresh_entries@, (nm_s, slot));
                    }
                    fresh_entries.push((nm_s, slot));
                    proof {
                        let now_e = fresh_entries@;
                        assert forall|x: Seq<char>| has_name(entries_before, x) implies (has_name(
                            now_e,
                            x,
                        ) && find_slot(now_e, x) == find_slot(entries_before, x)) by {
                            let w = index_of_name(entries_before, x);
                            lemma_find_is(entries_before, w);
                        }
                        assert forall|x: Seq<char>|
                            has_name(pool_before, x) && x != nm implies (has_name(pool@, x)
                                && find_slot(pool@, x) == find_slot(pool_before, x)) by {
                            let w = index_of_name(pool_before, x);
                            lemma_find_is(pool_before, w);
                        }
                        assert forall|x: Seq<char>| has_name(pool@, x) implies has_name(
                            pool_before,
                            x,
                        ) && find_slot(pool@, x) == find_slot(pool_before, x) by {
                            let w = index_of_name(pool@, x);
                            lemma_find_is(pool@, w);
                        }
                        // the name handled this iteration was not yet seen:
                        // it keys no earlier entry, so no earlier reading
                        // reported it
                        assert(!reported(bt@.take(j as int), nm));
                        assert(has_name(fresh_entries@, nm));
                        assert(find_slot(fresh_entries@, nm) == slot);
                        assert(bt_slot_step(slot_origin, slot, bt@[j as int], *cfg));
                        // a device known from earlier ticks is still in the
                        // pool, so when it was not found there it is new
                        if has_name(orig, nm) {
                            let w = index_of_name(orig, nm);
                            lemma_find_is(orig, w);
                            assert(has_name(pool_before, nm) && find_slot(pool_before, nm)
                                == orig[w].1);
                            assert(find_slot(orig, nm) == slot_origin);
                        } else {
                            assert(fresh_slot(slot_origin));
                        }
                    }
                },
            }
            j = j + 1;
        }
        proof {
            assert(bt@.take(bt@.len() as int) =~= bt@);
        }
        self.bluetooth_notifs = fresh_entries;
        let mut removed: Vec<SingleNotification> = Vec::new();
        while pool.len() > 0
            invariant
                unique_names(orig),
                unique_names(pool@),
                forall|i: int|
                    0 <= i < pool@.len() ==> has_name(orig, (#[trigger] pool@[i]).0@) && find_slot(
                        orig,
                        pool@[i].0@,
                    ) == pool@[i].1,
                forall|k: int| 0 <= k < removed@.len() ==> !(#[trigger] removed@[k]).is_live(),
                forall|i: int|
                    0 <= i < orig.len() && !reported(bt@, (#[trigger] orig[i]).0@) ==> ((has_name(
                        pool@,
                        orig[i].0@,
                    ) && find_slot(pool@, orig[i].0@) == orig[i].1) || (exists|k: int|
                        0 <= k < removed@.len() && SingleNotification::close_transition(
                            orig[i].1,
                            #[trigger] removed@[k],
                        ))),
            decreases pool@.len(),
        {
            let ghost pool_before = pool@;
            let last = pool.pop().unwrap();
            let (nm_s, mut slot) = last;
            slot.close();
            proof {
                lemma_find_is(pool_before, pool_before.len() - 1);
                assert forall|i: int|
                    0 <= i < pool@.len() implies has_name(pool_before, (#[trigger] pool@[i]).0@)
                    && find_slot(pool_before, pool@[i].0@) == pool@[i].1 by {
                    assert(pool@[i] == pool_before[i]);
                    lemma_find_is(pool_before, i);
                }
                assert forall|i: int, k: int| 0 <= i < k < pool@.len() implies pool@[i].0@
                    != pool@[k].0@ by {
                    assert(pool@[i] == pool_before[i]);
                    assert(pool@[k] == pool_before[k]);
                }
            }
            let ghost removed_before = removed@;
            removed.push(slot);
            proof {
                assert forall|i: int|
                    0 <= i < orig.len() && !reported(bt@, (#[trigger] orig[i]).0@) implies ((
                    has_name(pool@, orig[i].0@) && find_slot(pool@, orig[i].0@) == orig[i].1) || (
                    exists|k: int|
                        0 <= k < removed@.len() && SingleNotification::close_transition(
                            orig[i].1,
                            #[trigger] removed@[k],
                        ))) by {
                    let nm2 = orig[i].0@;
                    if has_name(pool_before, nm2) && find_slot(pool_before, nm2) == orig[i].1 {
                        let w = index_of_name(pool_before, nm2);
                        lemma_find_is(pool_before, w);
                        if w == pool_before.len() - 1 {
                            // this very entry was popped and closed
                            assert(SingleNotification::close_transition(
                                orig[i].1,
                                removed@[removed@.len() - 1],
                            ));
                        } else {
                            assert(pool@[w] == pool_before[w]);
                            lemma_find_is(pool@, w);
                        }
                    } else {
                        // accounted for in an earlier iteration; the push
                        // kept every earlier element of `removed` in place
                        let k = choose|k: int|
                            0 <= k < removed_before.len()
                                && SingleNotification::close_transition(
                                orig[i].1,
                                #[trigger] removed_before[k],
                            );
                        assert(removed@[k] == removed_before[k]);
                    }
                }
            }
        }
        removed
    }
}

/// The suspend command fires on the first critical tick after the backoff
/// epoch; a second critical tick within one backoff of it does not re-fire
/// the command, and a critical tick later than one backoff after it does.
pub proof fn lemma_suspend_backoff(now1: u64, now2: u64, epoch0: u64)
    requires
        now1 > epoch0,
        now1 + SLEEP_BACKOFF_MS <= u64::MAX,
    ensures
        suspend_fires(Band::Critical, now1, epoch0),
        epoch_after(Band::Critical, now1, epoch0) == now1 + SLEEP_BACKOFF_MS,
        now2 <= now1 + SLEEP_BACKOFF_MS ==> !suspend_fires(
            Band::Critical,
            now2,
            (now1 + SLEEP_BACKOFF_MS) as u64,
        ),
        now2 > now1 + SLEEP_BACKOFF_MS ==> suspend_fires(
            Band::Critical,
            now2,
            (now1 + SLEEP_BACKOFF_MS) as u64,
        ),
{
}

/// The low-band one-shot command fires exactly once per continuous stay in
/// the low band: a low tick with the latch armed fires it and spends the
/// latch, so further low ticks do not fire; critical ticks leave the latch
/// alone; a clear tick re-arms it, so re-entering the band fires again.
pub proof fn lemma_low_one_shot(latch: bool)
    ensures
        low_fires(Band::Low, latch) == latch,
        !latch_after(Band::Low, latch),
        !low_fires(Band::Low, latch_after(Band::Low, latch)),
        latch_after(Band::Critical, latch) == latch,
        latch_after(Band::Clear, latch),
        low_fires(Band::Low, latch_after(Band::Clear, latch)),
{
}

/// The decimal digit character for one digit value.
pub open spec fn dec_digit(d: int) -> char {
    if d == 0 {
        '0'
    } else if d == 1 {
        '1'
    } else if d == 2 {
        '2'
    } else if d == 3 {
        '3'
    } else if d == 4 {
        '4'
    } else if d == 5 {
        '5'
    } else if d == 6 {
        '6'
    } else if d == 7 {
        '7'
    } else if d == 8 {
        '8'
    } else {
        '9'
    }
}

/// The decimal rendering of a non-negative integer, most significant digit
/// first and without leading zeroes.
pub open spec fn dec_str(n: int) -> Seq<char>
    decreases n,
{
    if n < 10 {
        seq![dec_digit(n)]
    } else {
        dec_str(n / 10).push(dec_digit(n % 10))
    }
}

/// The one-character string for a digit value.
fn digit_str(d: usize) -> (r: &'static str)
    requires
        d < 10,
    ensures
        r@ == seq![dec_digit(d as int)],
{
    proof {
        reveal_strlit("0");
        reveal_strlit("1");
        reveal_strlit("2");
        reveal_strlit("3");
        reveal_strlit("4");
        reveal_strlit("5");
        reveal_strlit("6");
        reveal_strlit("7");
        reveal_strlit("8");
        reveal_strlit("9");
    }
    let r = match d {
        0 => "0",
        1 => "1",
        2 => "2",
        3 => "3",
        4 => "4",
        5 => "5",
        6 => "6",
        7 => "7",
        8 => "8",
        _ => "9",
    };
    proof {
        assert(r@ =~= seq![dec_digit(d as int)]);
    }
    r
}

/// Renders a number in decimal, most significant digit first.
fn usize_to_string(n: usize) -> (r: String)
    ensures
        r@ == dec_str(n as int),
    decreases n,
{
    if n < 10 {
        digit_str(n).to_owned()
    } else {
        let mut s = usize_to_string(n / 10);
        s.append(digit_str(n % 10));
        proof {
            assert(s@ =~= dec_str(n as int));
        }
        s
    }
}

/// The summary text of the monitors-without-AC warning.
pub open spec fn monitor_text(count: int) -> Seq<char> {
    "Connected to "@ + dec_str(count) + " monitors but not AC"@
}

/// The summary text of a state-transition notification.
pub open spec fn state_text(s: BatteryState) -> Seq<char> {
    "Battery now "@ + state_lower_name(s)
}

/// The command string configured for this state transition.
fn event_command_exec(ev: &CustomCommands, s: BatteryState) -> (r: String)
    requires
        s != BatteryState::Invalid,
    ensures
        r@ == event_command(*ev, s),
{
    match s {
        BatteryState::Charging => ev.charging.clone(),
        BatteryState::Discharging => ev.discharging.clone(),
        BatteryState::NotCharging => ev.not_charging.clone(),
        BatteryState::Full => ev.full.clone(),
        BatteryState::Unknown => ev.unknown.clone(),
        BatteryState::AtThreshold => ev.at_threshold.clone(),
        BatteryState::Invalid => {
            assert(false);
            "".to_owned()
        },
    }
}

/// The notification setting configured for this state transition.
fn state_setting_exec(ns: &Notifications, s: BatteryState) -> (r: Notification)
    ensures
        r == state_setting(*ns, s),
{
    match s {
        BatteryState::Charging => ns.charging,
        BatteryState::Discharging => ns.discharging,
        BatteryState::NotCharging => ns.not_charging,
        BatteryState::Full => ns.full,
        BatteryState::Unknown => ns.unknown,
        BatteryState::AtThreshold => ns.at_threshold,
        BatteryState::Invalid => Notification::Disabled,
    }
}

/// Everything one tick does to the daemon state, given the aggregated
/// readings, the monitor count, the Bluetooth readings and the tick's
/// start time: the remembered global state, the one-shot latch, the
/// suspend backoff epoch, each notification slot, and the commands to run.
pub open spec fn tick_post(
    o: DaemonState,
    n: DaemonState,
    cfg: Config,
    batteries: Seq<Battery>,
    monitor_count: int,
    bt: Seq<BluetoothBattery>,
    now_ms: u64,
    cmds: Seq<Seq<char>>,
) -> bool {
    let gstate = global_state_of(batteries);
    let level = global_level_of(batteries);
    let band = band_of(cfg, gstate, level);
    let changed = gstate != o.last_global_state;
    &&& n.last_global_state == gstate
    &&& n.run_low_command == latch_after(band, o.run_low_command)
    &&& n.next_sleep_epoch_ms == epoch_after(band, now_ms, o.next_sleep_epoch_ms)
    &&& cmds == tick_commands(
        cfg,
        o.last_global_state,
        gstate,
        band,
        o.run_low_command,
        now_ms,
        o.next_sleep_epoch_ms,
    )
    &&& (if changed && gstate != BatteryState::Invalid && state_setting(
        cfg.notifications,
        gstate,
    ).enabled() {
        SingleNotification::show_transition(o.state_notif, n.state_notif, state_text(gstate))
    } else {
        n.state_notif == o.state_notif
    })
    &&& (match band {
        Band::Clear => SingleNotification::close_transition(o.low_notif, n.low_notif),
        Band::Critical => if cfg.notifications.sleep.enabled() {
            SingleNotification::show_transition(o.low_notif, n.low_notif, "Battery critical"@)
        } else {
            n.low_notif == o.low_notif
        },
        Band::Low => if cfg.notifications.low.enabled() {
            SingleNotification::show_transition(o.low_notif, n.low_notif, "Battery low"@)
        } else {
            n.low_notif == o.low_notif
        },
    })
    &&& (if cfg.monitors_with_no_ac > 0 && gstate == BatteryState::Discharging {
        if monitor_count >= cfg.monitors_with_no_ac {
            if cfg.notifications.monitors_with_no_ac.enabled() {
                SingleNotification::show_transition(
                    o.mon_notif,
                    n.mon_notif,
                    monitor_text(monitor_count),
                )
            } else {
                n.mon_notif == o.mon_notif
            }
        } else {
            SingleNotification::close_transition(o.mon_notif, n.mon_notif)
        }
    } else {
        SingleNotification::close_transition(o.mon_notif, n.mon_notif)
    })
    &&& (if cfg.bluetooth_low_pct != 0 {
        bt_outcome(o.bluetooth_notifs@, n.bluetooth_notifs@, bt, cfg)
    } else {
        n.bluetooth_notifs@ == o.bluetooth_notifs@
    })
}

impl DaemonState {
    /// One tick of the alert engine: aggregates the readings, handles a
    /// state transition, the level bands with the suspend backoff and the
    /// low-band one-shot, the monitors-without-AC warning, and the
    /// Bluetooth slots.  Returns the commands to run, in order.
    pub fn tick(
        &mut self,
        cfg: &Config,
        batteries: &Vec<Battery>,
        monitor_count: usize,
        bt: &Vec<BluetoothBattery>,
        now_ms: u64,
    ) -> (cmds: Vec<String>)
        requires
            old(self).wf(),
            readings_ok(batteries@),
            now_ms + SLEEP_BACKOFF_MS <= u64::MAX,
        ensures
            final(self).wf(),
            tick_post(
                *old(self),
                *final(self),
                *cfg,
                batteries@,
                monitor_count as int,
                bt@,
                now_ms,
                cmds@.map_values(|c: String| c@),
            ),
    {
        let ghost o = *self;
        proof {
            lemma_sum_full_pos(batteries@);
        }
        let global = get_global_battery(batteries);
        let level = global.level();
        let ghost gstate = global_state_of(batteries@);
        let ghost band = band_of(*cfg, gstate, level as int);
        assert(level as int == global_level_of(batteries@));
        let mut cmds: Vec<String> = Vec::new();

        // A change of global state runs the configured transition command
        // and, when enabled, shows the "Battery now ..." notification.
        if global.state != self.last_global_state {
            if global.state != BatteryState::Invalid {
                cmds.push(event_command_exec(&cfg.events, global.state));
                let setting = state_setting_exec(&cfg.notifications, global.state);
                if setting != Notification::Disabled {
                    let mut msg = "Battery now ".to_owned();
                    msg.append(battery_state_to_lower_name(global.state).as_str());
                    self.state_notif.show(msg, Urgency::Normal, setting.to_i32());
                }
            }
            self.last_global_state = global.state;
        }
        let ghost cmds_after_state = cmds@;

        // Level bands: charging or above the low threshold clears the low
        // alert and re-arms the one-shot; the critical band shows the
        // critical alert and runs the suspend command under its backoff;
        // the low band shows the low alert and fires the one-shot.
        if global.state == BatteryState::Charging || level > cfg.low_pct {
            self.low_notif.close();
            self.run_low_command = true;
        } else if level <= cfg.sleep_pct {
            if cfg.notifications.sleep != Notification::Disabled {
                self.low_notif.show(
                    "Battery critical".to_owned(),
                    Urgency::Critical,
                    cfg.notifications.sleep.to_i32(),
                );
            }
            if now_ms > self.next_sleep_epoch_ms {
                self.next_sleep_epoch_ms = now_ms + SLEEP_BACKOFF_MS;
                cmds.push(cfg.events.sleep.clone());
            }
        } else {
            if cfg.notifications.low != Notification::Disabled {
                self.low_notif.show(
                    "Battery low".to_owned(),
                    Urgency::Critical,
                    cfg.notifications.low.to_i32(),
                );
            }
            if self.run_low_command {
                cmds.push(cfg.events.low.clone());
                self.run_low_command = false;
            }
        }

        // Warn when many monitors are connected while discharging.
        if cfg.monitors_with_no_ac > 0 && global.state == BatteryState::Discharging {
            if monitor_count >= cfg.monitors_with_no_ac {
                if cfg.notifications.monitors_with_no_ac != Notification::Disabled {
                    let mut msg = "Connected to ".to_owned();
                    msg.append(usize_to_string(monitor_count).as_str());
                    msg.append(" monitors but not AC");
                    self.mon_notif.show(
                        msg,
                        Urgency::Critical,
                        cfg.notifications.monitors_with_no_ac.to_i32(),
                    );
                }
            } else {
                self.mon_notif.close();
            }
        } else {
            self.mon_notif.close();
        }

        // Bluetooth device alerts, when the feature is enabled.
        if cfg.bluetooth_low_pct != 0 {
            self.handle_bluetooth(cfg, bt);
        }

        proof {
            assert(cmds@.map_values(|c: String| c@) =~= tick_commands(
                *cfg,
                o.last_global_state,
                gstate,
                band,
                o.run_low_command,
                now_ms,
                o.next_sleep_epoch_ms,
            ));
        }
        cmds
    }

    /// Closes every notification this state owns and forgets the Bluetooth
    /// slots, so that no bubble outlives the daemon.
    pub fn teardown(&mut self)
        requires
            old(self).wf(),
        ensures
            final(self).wf(),
            SingleNotification::close_transition(old(self).state_notif, final(self).state_notif),
            SingleNotification::close_transition(old(self).low_notif, final(self).low_notif),
            SingleNotification::close_transition(old(self).mon_notif, final(self).mon_notif),
            final(self).bluetooth_notifs@.len() == 0,
    {
        self.state_notif.close();
        self.low_notif.close();
        self.mon_notif.close();
        let ghost mid = *self;
        while self.bluetooth_notifs.len() > 0
            invariant
                self.state_notif == mid.state_notif,
                self.low_notif == mid.low_notif,
                self.mon_notif == mid.mon_notif,
                self.last_global_state == mid.last_global_state,
                self.run_low_command == mid.run_low_command,
                self.next_sleep_epoch_ms == mid.next_sleep_epoch_ms,
            decreases self.bluetooth_notifs@.len(),
        {
            let (_name, mut slot) = self.bluetooth_notifs.pop().unwrap();
            slot.close();
        }
    }
}

} // verus!
