//! Battery readings and the status aggregator: reduces the per-battery
//! readings of one tick into a single global state and charge level.

use vstd::prelude::*;

verus! {

/// Charging state of one battery, or of the aggregated global battery.
///
/// `AtThreshold` and `Invalid` are synthetic: hardware never reports them.
/// `AtThreshold` is inferred when every battery rests at a charge limit,
/// and `Invalid` is the "no reading yet" sentinel used before the first tick.
#[derive(Debug, Clone, Copy, PartialEq, Eq, Structural)]
pub enum BatteryState {
    Discharging,
    Charging,
    NotCharging,
    Full,
    Unknown,
    AtThreshold,
    Invalid,
}

/// One battery reading: state plus stored and full-charge energy in
/// micro-watt-hours.  A well-formed reading has `full_uwh > 0`; readings
/// that do not are rejected by the reader before they get here.
#[derive(Debug, Clone, Copy, PartialEq, Eq, Structural)]
pub struct Battery {
    pub state: BatteryState,
    pub now_uwh: u64,
    pub full_uwh: u64,
}

impl Battery {
    /// A reading is well formed when its full-charge energy is positive,
    /// so that a charge percentage can be computed from it.
    pub open spec fn wf(self) -> bool {
        self.full_uwh > 0
    }

    /// Charge percentage, clamped to 100: `min(100, now * 100 / full)`.
    pub open spec fn level_spec(self) -> int {
        let pct = (self.now_uwh * 100) as int / self.full_uwh as int;
        if pct > 100 {
            100
        } else {
            pct
        }
    }

    /// Charge percentage of this battery, clamped to `[0, 100]`.
    pub fn level(&self) -> (r: u8)
        requires
            self.wf(),
            self.now_uwh * 100 <= u64::MAX,
        ensures
            r == self.level_spec(),
            r <= 100,
    {
        let mut level: u64 = (self.now_uwh * 100) / self.full_uwh;
        if level > 100 {
            level = 100;
        }
        level as u8
    }
}

/// Sum of the stored energies of a reading sequence.
pub open spec fn sum_now(s: Seq<Battery>) -> int
    decreases s.len(),
{
    if s.len() == 0 {
        0
    } else {
        sum_now(s.drop_last()) + s.last().now_uwh
    }
}

/// Sum of the full-charge energies of a reading sequence.
pub open spec fn sum_full(s: Seq<Battery>) -> int
    decreases s.len(),
{
    if s.len() == 0 {
        0
    } else {
        sum_full(s.drop_last()) + s.last().full_uwh
    }
}

/// Some reading in the sequence is in the given state.
pub open spec fn any_in_state(s: Seq<Battery>, st: BatteryState) -> bool {
    exists|i: int| 0 <= i < s.len() && s[i].state == st
}

/// Every reading in the sequence is `Full`.
pub open spec fn all_full(s: Seq<Battery>) -> bool {
    forall|i: int| 0 <= i < s.len() ==> s[i].state == BatteryState::Full
}

/// Every reading is `Unknown`, `NotCharging` or `Full`: the battery set is
/// resting at a charge limit.
pub open spec fn all_at_threshold(s: Seq<Battery>) -> bool {
    forall|i: int|
        0 <= i < s.len() ==> (s[i].state == BatteryState::Unknown
            || s[i].state == BatteryState::NotCharging || s[i].state == BatteryState::Full)
}

/// The aggregation rule for the global state, first match wins:
/// any `Charging` wins, then any `Discharging`, then all `Full`,
/// then all at threshold; anything else falls back to `Discharging`
/// so that low-battery protections still engage.
pub open spec fn global_state_of(s: Seq<Battery>) -> BatteryState {
    if any_in_state(s, BatteryState::Charging) {
        BatteryState::Charging
    } else if any_in_state(s, BatteryState::Discharging) {
        BatteryState::Discharging
    } else if all_full(s) {
        BatteryState::Full
    } else if all_at_threshold(s) {
        BatteryState::AtThreshold
    } else {
        BatteryState::Discharging
    }
}

proof fn lemma_sum_now_take_step(s: Seq<Battery>, j: int)
    requires
        0 <= j < s.len(),
    ensures
        sum_now(s.take(j + 1)) == sum_now(s.take(j)) + s[j].now_uwh,
        sum_full(s.take(j + 1)) == sum_full(s.take(j)) + s[j].full_uwh,
{
    assert(s.take(j + 1).drop_last() =~= s.take(j));
    assert(s.take(j + 1).last() == s[j]);
}

proof fn lemma_sum_take_le(s: Seq<Battery>, j: int)
    requires
        0 <= j <= s.len(),
    ensures
        sum_now(s.take(j)) <= sum_now(s),
        sum_full(s.take(j)) <= sum_full(s),
    decreases s.len() - j,
{
    if j == s.len() {
        assert(s.take(j) =~= s);
    } else {
        lemma_sum_now_take_step(s, j);
        lemma_sum_take_le(s, j + 1);
    }
}

proof fn lemma_sum_nonneg(s: Seq<Battery>)
    ensures
        sum_now(s) >= 0,
        sum_full(s) >= 0,
    decreases s.len(),
{
    if s.len() > 0 {
        lemma_sum_nonneg(s.drop_last());
    }
}

/// Reduces a set of per-battery readings to one global battery whose state
/// follows the priority rule of `global_state_of` and whose energies are the
/// sums over all readings (summing before dividing weights unequal-capacity
/// batteries correctly).
pub fn get_global_battery(batteries: &Vec<Battery>) -> (r: Battery)
    requires
        sum_now(batteries@) <= u64::MAX,
        sum_full(batteries@) <= u64::MAX,
    ensures
        r.state == global_state_of(batteries@),
        r.now_uwh == sum_now(batteries@),
        r.full_uwh == sum_full(batteries@),
{
    let ghost s = batteries@;
    let mut any_charging = false;
    let mut any_discharging = false;
    let mut every_full = true;
    let mut every_at_threshold = true;
    let mut now_total: u64 = 0;
    let mut full_total: u64 = 0;
    let mut i: usize = 0;
    while i < batteries.len()
        invariant
            0 <= i <= s.len(),
            s == batteries@,
            sum_now(s) <= u64::MAX,
            sum_full(s) <= u64::MAX,
            any_charging == any_in_state(s.take(i as int), BatteryState::Charging),
            any_discharging == any_in_state(s.take(i as int), BatteryState::Discharging),
            every_full == all_full(s.take(i as int)),
            every_at_threshold == all_at_threshold(s.take(i as int)),
            now_total == sum_now(s.take(i as int)),
            full_total == sum_full(s.take(i as int)),
        decreases s.len() - i,
    {
        let b = &batteries[i];
        proof {
            lemma_sum_now_take_step(s, i as int);
            lemma_sum_take_le(s, i as int + 1);
            lemma_sum_nonneg(s.take(i as int));
        }
        if b.state == BatteryState::Charging {
            any_charging = true;
        }
        if b.state == BatteryState::Discharging {
            any_discharging = true;
        }
        if b.state != BatteryState::Full {
            every_full = false;
        }
        if !(b.state == BatteryState::Unknown || b.state == BatteryState::NotCharging || b.state
            == BatteryState::Full) {
            every_at_threshold = false;
        }
        now_total = now_total + b.now_uwh;
        full_total = full_total + b.full_uwh;
        proof {
            assert forall|k: int| 0 <= k < i as int + 1 implies #[trigger] s.take(i as int + 1)[k]
                == s.take(i as int).push(s[i as int])[k] by {}
            assert(s.take(i as int + 1) =~= s.take(i as int).push(s[i as int]));
        }
        i = i + 1;
    }
    proof {
        assert(s.take(s.len() as int) =~= s);
    }
    let state = if any_charging {
        BatteryState::Charging
    } else if any_discharging {
        BatteryState::Discharging
    } else if every_full {
        BatteryState::Full
    } else if every_at_threshold {
        BatteryState::AtThreshold
    } else {
        BatteryState::Discharging
    };
    Battery { state, now_uwh: now_total, full_uwh: full_total }
}

/// Charge level of the whole battery set: energies are summed across
/// batteries before dividing, then clamped to 100.
pub open spec fn global_level_of(s: Seq<Battery>) -> int {
    let pct = sum_now(s) * 100 / sum_full(s);
    if pct > 100 {
        100
    } else {
        pct
    }
}

/// A reading set the tick logic can work on: non-empty, every reading well
/// formed, and the summed energies small enough that the percentage
/// arithmetic cannot overflow a `u64`.
pub open spec fn readings_ok(s: Seq<Battery>) -> bool {
    &&& s.len() > 0
    &&& forall|i: int| 0 <= i < s.len() ==> s[i].wf()
    &&& sum_now(s) * 100 <= u64::MAX
    &&& sum_full(s) <= u64::MAX
}

/// Decides `readings_ok` for a reading set, so that a caller holding raw
/// readings can establish the preconditions of the aggregation functions.
pub fn check_readings(batteries: &Vec<Battery>) -> (r: bool)
    ensures
        r == readings_ok(batteries@),
{
    let ghost s = batteries@;
    if batteries.len() == 0 {
        return false;
    }
    let mut now_total: u64 = 0;
    let mut full_total: u64 = 0;
    let mut i: usize = 0;
    while i < batteries.len()
        invariant
            0 <= i <= s.len(),
            s == batteries@,
            s.len() > 0,
            now_total == sum_now(s.take(i as int)),
            full_total == sum_full(s.take(i as int)),
            forall|k: int| 0 <= k < i ==> s[k].wf(),
        decreases s.len() - i,
    {
        let b = &batteries[i];
        proof {
            lemma_sum_now_take_step(s, i as int);
        }
        if b.full_uwh == 0 {
            return false;
        }
        now_total = match now_total.checked_add(b.now_uwh) {
            Some(v) => v,
            None => {
                proof {
                    lemma_sum_take_le(s, i as int + 1);
                    vstd::arithmetic::mul::lemma_mul_inequality(
                        u64::MAX as int + 1,
                        sum_now(s),
                        100,
                    );
                }
                return false;
            },
        };
        full_total = match full_total.checked_add(b.full_uwh) {
            Some(v) => v,
            None => {
                proof {
                    lemma_sum_take_le(s, i as int + 1);
                }
                return false;
            },
        };
        i = i + 1;
    }
    proof {
        assert(s.take(s.len() as int) =~= s);
    }
    now_total <= u64::MAX / 100
}

/// Any `Charging` reading forces the global state to `Charging`, whatever
/// the other readings report.
pub proof fn lemma_any_charging_wins(s: Seq<Battery>)
    requires
        s.len() > 0,
        any_in_state(s, BatteryState::Charging),
    ensures
        global_state_of(s) == BatteryState::Charging,
{
}

proof fn lemma_sum_now_eq_sum_full(s: Seq<Battery>)
    requires
        forall|i: int| 0 <= i < s.len() ==> s[i].now_uwh == s[i].full_uwh,
    ensures
        sum_now(s) == sum_full(s),
    decreases s.len(),
{
    if s.len() > 0 {
        lemma_sum_now_eq_sum_full(s.drop_last());
    }
}

/// A non-empty set of well-formed readings has positive summed full-charge
/// energy, so the global level's division is defined.
pub proof fn lemma_sum_full_pos(s: Seq<Battery>)
    requires
        s.len() > 0,
        forall|i: int| 0 <= i < s.len() ==> s[i].wf(),
    ensures
        sum_full(s) > 0,
    decreases s.len(),
{
    if s.len() > 1 {
        assert forall|i: int| 0 <= i < s.drop_last().len() implies #[trigger] s.drop_last()[i].wf()
            by {
            assert(s[i].wf());
        }
        lemma_sum_full_pos(s.drop_last());
    } else {
        assert(s[0].wf());
        assert(s.last() == s[0]);
        assert(s.drop_last().len() == 0);
        assert(sum_full(s.drop_last()) == 0);
    }
}

/// When every reading is `Full`, the global state is `Full`; and when in
/// addition every reading is topped up (`now == full`), the global level
/// is exactly 100.
pub proof fn lemma_all_full_level_100(s: Seq<Battery>)
    requires
        s.len() > 0,
        all_full(s),
        forall|i: int| 0 <= i < s.len() ==> s[i].wf(),
        forall|i: int| 0 <= i < s.len() ==> s[i].now_uwh == s[i].full_uwh,
    ensures
        global_state_of(s) == BatteryState::Full,
        global_level_of(s) == 100,
{
    lemma_sum_now_eq_sum_full(s);
    lemma_sum_full_pos(s);
    let f = sum_full(s);
    vstd::arithmetic::div_mod::lemma_div_multiples_vanish(100, f);
    assert(f * 100 == 100 * f) by (nonlinear_arith);
}

/// Readings drawn only from `{Unknown, NotCharging, Full}`, with no
/// `Charging` and no `Discharging` present and not all of them `Full`,
/// aggregate to the synthetic `AtThreshold` state.
pub proof fn lemma_mixed_is_at_threshold(s: Seq<Battery>)
    requires
        s.len() > 0,
        all_at_threshold(s),
        !any_in_state(s, BatteryState::Charging),
        !any_in_state(s, BatteryState::Discharging),
        !all_full(s),
    ensures
        global_state_of(s) == BatteryState::AtThreshold,
{
}

/// Canonical display name of a state, as the kernel reports it in the
/// `status` file of a power supply.  This table is the single source of
/// truth for both parsing and display.
pub open spec fn state_name(s: BatteryState) -> Seq<char> {
    match s {
        BatteryState::Discharging => "Discharging"@,
        BatteryState::Charging => "Charging"@,
        BatteryState::NotCharging => "Not charging"@,
        BatteryState::Full => "Full"@,
        BatteryState::Unknown => "Unknown"@,
        BatteryState::AtThreshold => "At threshold"@,
        BatteryState::Invalid => "Invalid"@,
    }
}

/// Lower-case form of `state_name`, used in notification texts.
pub open spec fn state_lower_name(s: BatteryState) -> Seq<char> {
    match s {
        BatteryState::Discharging => "discharging"@,
        BatteryState::Charging => "charging"@,
        BatteryState::NotCharging => "not charging"@,
        BatteryState::Full => "full"@,
        BatteryState::Unknown => "unknown"@,
        BatteryState::AtThreshold => "at threshold"@,
        BatteryState::Invalid => "invalid"@,
    }
}

/// Inverse of the name table: the state a canonical name denotes, if any.
pub open spec fn state_of_name(n: Seq<char>) -> Option<BatteryState> {
    if n == "Discharging"@ {
        Some(BatteryState::Discharging)
    } else if n == "Charging"@ {
        Some(BatteryState::Charging)
    } else if n == "Not charging"@ {
        Some(BatteryState::NotCharging)
    } else if n == "Full"@ {
        Some(BatteryState::Full)
    } else if n == "Unknown"@ {
        Some(BatteryState::Unknown)
    } else if n == "At threshold"@ {
        Some(BatteryState::AtThreshold)
    } else if n == "Invalid"@ {
        Some(BatteryState::Invalid)
    } else {
        None
    }
}

/// Character-by-character string equality, decided over the string views.
fn str_eq(a: &str, b: &str) -> (r: bool)
    ensures
        r == (a@ == b@),
{
    let alen = a.unicode_len();
    let blen = b.unicode_len();
    if alen != blen {
        return false;
    }
    let mut i: usize = 0;
    while i < alen
        invariant
            0 <= i <= alen,
            alen == a@.len(),
            blen == b@.len(),
            alen == blen,
            forall|j: int| 0 <= j < i ==> a@[j] == b@[j],
        decreases alen - i,
    {
        if a.get_char(i) != b.get_char(i) {
            return false;
        }
        i = i + 1;
    }
    proof {
        assert(a@ =~= b@);
    }
    true
}

/// Parses a state's canonical display name; `None` for any other string.
pub fn state_from_name(name: &str) -> (r: Option<BatteryState>)
    ensures
        r == state_of_name(name@),
{
    if str_eq(name, "Discharging") {
        Some(BatteryState::Discharging)
    } else if str_eq(name, "Charging") {
        Some(BatteryState::Charging)
    } else if str_eq(name, "Not charging") {
        Some(BatteryState::NotCharging)
    } else if str_eq(name, "Full") {
        Some(BatteryState::Full)
    } else if str_eq(name, "Unknown") {
        Some(BatteryState::Unknown)
    } else if str_eq(name, "At threshold") {
        Some(BatteryState::AtThreshold)
    } else if str_eq(name, "Invalid") {
        Some(BatteryState::Invalid)
    } else {
        None
    }
}

/// Parses a canonical state name that is known to be valid.
pub fn name_to_battery_state(name: &str) -> (r: BatteryState)
    requires
        state_of_name(name@) is Some,
    ensures
        Some(r) == state_of_name(name@),
{
    state_from_name(name).unwrap()
}

/// Renders a state under its canonical display name.
pub fn battery_state_to_name(state: BatteryState) -> (r: String)
    ensures
        r@ == state_name(state),
{
    match state {
        BatteryState::Discharging => "Discharging".to_owned(),
        BatteryState::Charging => "Charging".to_owned(),
        BatteryState::NotCharging => "Not charging".to_owned(),
        BatteryState::Full => "Full".to_owned(),
        BatteryState::Unknown => "Unknown".to_owned(),
        BatteryState::AtThreshold => "At threshold".to_owned(),
        BatteryState::Invalid => "Invalid".to_owned(),
    }
}

/// Renders a state's lower-case name, as used in notification texts.
pub fn battery_state_to_lower_name(state: BatteryState) -> (r: String)
    ensures
        r@ == state_lower_name(state),
{
    match state {
        BatteryState::Discharging => "discharging".to_owned(),
        BatteryState::Charging => "charging".to_owned(),
        BatteryState::NotCharging => "not charging".to_owned(),
        BatteryState::Full => "full".to_owned(),
        BatteryState::Unknown => "unknown".to_owned(),
        BatteryState::AtThreshold => "at threshold".to_owned(),
        BatteryState::Invalid => "invalid".to_owned(),
    }
}

/// The name table round-trips: parsing the canonical name of any state
/// yields that state back, so display and parsing cannot drift apart.
pub proof fn lemma_state_name_round_trip(s: BatteryState)
    ensures
        state_of_name(state_name(s)) == Some(s),
{
    reveal_strlit("Discharging");
    reveal_strlit("Charging");
    reveal_strlit("Not charging");
    reveal_strlit("Full");
    reveal_strlit("Unknown");
    reveal_strlit("At threshold");
    reveal_strlit("Invalid");
    assert("Discharging"@.len() == 11);
    assert("Charging"@.len() == 8);
    assert("Not charging"@.len() == 12);
    assert("Full"@.len() == 4);
    assert("Unknown"@.len() == 7);
    assert("At threshold"@.len() == 12);
    assert("Invalid"@.len() == 7);
    assert("Not charging"@[0] == 'N');
    assert("At threshold"@[0] == 'A');
    assert("Unknown"@[0] == 'U');
    assert("Invalid"@[0] == 'I');
}

/// Result of `read_battery_file_energy_or_charge` over the three values a
/// battery directory may provide: the energy file wins; otherwise charge
/// and voltage are combined as `charge * voltage / 1000`.
pub open spec fn energy_or_charge_spec(
    energy: Option<u64>,
    charge: Option<u64>,
    voltage: Option<u64>,
) -> Option<int> {
    match energy {
        Some(e) => Some(e as int),
        None => match (charge, voltage) {
            (Some(c), Some(v)) => Some(c * v / 1000),
            _ => None,
        },
    }
}

/// Combines the values read from a battery directory into one energy in
/// micro-watt-hours.  Some drivers expose energy (µWh) directly, some only
/// charge (µAh); for the latter the measured voltage converts the unit.
/// The caller passes `None` for a value whose file is absent or unreadable.
pub fn read_battery_file_energy_or_charge(
    energy: Option<u64>,
    charge: Option<u64>,
    voltage: Option<u64>,
) -> (r: Option<u64>)
    requires
        (energy is None && charge is Some && voltage is Some) ==> charge.unwrap()
            * voltage.unwrap() <= u64::MAX,
    ensures
        r is Some <==> energy_or_charge_spec(energy, charge, voltage) is Some,
        r is Some ==> r.unwrap() == energy_or_charge_spec(energy, charge, voltage).unwrap(),
{
    match energy {
        Some(uwh) => Some(uwh),
        None => match (charge, voltage) {
            (Some(uah), Some(uv)) => Some((uah * uv) / 1000),
            _ => None,
        },
    }
}

/// The battery a directory's values describe, if they form a well-formed
/// reading: the status name must be canonical, both energies present, and
/// the full-charge energy positive.
pub open spec fn battery_of_readings(
    status_name: Seq<char>,
    now_uwh: Option<u64>,
    full_uwh: Option<u64>,
) -> Option<Battery> {
    match (state_of_name(status_name), now_uwh, full_uwh) {
        (Some(state), Some(now), Some(full)) => if full > 0 {
            Some(Battery { state, now_uwh: now, full_uwh: full })
        } else {
            None
        },
        _ => None,
    }
}

/// Builds one battery reading from the values read out of its directory,
/// rejecting it when the status name is not canonical, an energy is
/// missing, or the full-charge energy is zero.
pub fn read_battery_dir(status_name: &str, now_uwh: Option<u64>, full_uwh: Option<u64>) -> (r:
    Option<Battery>)
    ensures
        r == battery_of_readings(status_name@, now_uwh, full_uwh),
        r is Some ==> r.unwrap().wf(),
{
    match (state_from_name(status_name), now_uwh, full_uwh) {
        (Some(state), Some(now), Some(full)) => if full > 0 {
            Some(Battery { state, now_uwh: now, full_uwh: full })
        } else {
            None
        },
        _ => None,
    }
}

/// The global level is clamped to `[0, 100]` even when the summed stored
/// energy exceeds the summed full-charge energy.
pub proof fn lemma_level_clamped(s: Seq<Battery>)
    requires
        s.len() > 0,
        forall|i: int| 0 <= i < s.len() ==> s[i].wf(),
    ensures
        0 <= global_level_of(s) <= 100,
{
    lemma_sum_nonneg(s);
    lemma_sum_full_pos(s);
    vstd::arithmetic::div_mod::lemma_div_pos_is_pos(sum_now(s) * 100, sum_full(s));
}

} // verus!
