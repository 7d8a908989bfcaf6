use vstd::prelude::*;

use crate::config::{curve_percent, interpolate, mode_profile_value, ControlMode, CurvePoint, FanConfig};
use crate::filter::{is_median, median, window_after, FILTER_WINDOW};

verus! {

/// At or above this temperature (thousandths of a degree) the fans run at
/// least at `CRITICAL_MIN_SPEED`.
pub const CRITICAL_TEMP: i64 = 90_000;

/// The least fan speed, in percent, at or above `CRITICAL_TEMP`.
pub const CRITICAL_MIN_SPEED: u8 = 40;

/// At or above this temperature (thousandths of a degree) the fans run at
/// least at `HOT_MIN_SPEED`.
pub const HOT_TEMP: i64 = 80_000;

/// The least fan speed, in percent, at or above `HOT_TEMP`.
pub const HOT_MIN_SPEED: u8 = 30;

/// Above this speed, in percent, a fan slows down by at most
/// `MAX_FALL_PER_TICK` per tick.
pub const FALL_LIMIT_ABOVE: u8 = 20;

/// The largest drop of a fan's speed, in percent, in one tick while the fan
/// runs above `FALL_LIMIT_ABOVE`.
pub const MAX_FALL_PER_TICK: u8 = 2;

/// The least speed the safety net allows at `temp`.
pub open spec fn safety_floor(temp: int) -> u8 {
    if temp >= CRITICAL_TEMP {
        CRITICAL_MIN_SPEED
    } else if temp >= HOT_TEMP {
        HOT_MIN_SPEED
    } else {
        0u8
    }
}

/// `target` after the falling speed limiter: a fan that ran above
/// `FALL_LIMIT_ABOVE` at the last tick drops by at most `MAX_FALL_PER_TICK`.
pub open spec fn limit_fall(prev: Option<u8>, target: u8) -> u8 {
    match prev {
        Some(p) => if p > FALL_LIMIT_ABOVE && target + MAX_FALL_PER_TICK < p {
            (p - MAX_FALL_PER_TICK) as u8
        } else {
            target
        },
        None => target,
    }
}

pub open spec fn max_u8(a: u8, b: u8) -> u8 {
    if a >= b {
        a
    } else {
        b
    }
}

/// The speed a fan is set to at filtered temperature `temp`, given its
/// curve and the speed it was set to at the last tick: the curve's speed,
/// raised to the safety floor, then held back by the falling limiter.
pub open spec fn fan_speed(pts: Seq<CurvePoint>, temp: int, prev: Option<u8>) -> u8 {
    limit_fall(prev, max_u8(curve_percent(temp, pts), safety_floor(temp)))
}

/// The safety net holds whatever the curve says: at 90°C and above a fan
/// runs at least at 40%, at 80°C and above at least at 30%; and a fan never
/// runs below its curve's speed.
pub proof fn law_safety_net(pts: Seq<CurvePoint>, temp: int, prev: Option<u8>)
    ensures
        fan_speed(pts, temp, prev) >= safety_floor(temp),
        fan_speed(pts, temp, prev) >= curve_percent(temp, pts),
        temp >= CRITICAL_TEMP ==> fan_speed(pts, temp, prev) >= CRITICAL_MIN_SPEED,
        temp >= HOT_TEMP ==> fan_speed(pts, temp, prev) >= HOT_MIN_SPEED,
{
}

/// The falling speed limiter: a fan that ran above 20% slows down by at
/// most 2% in one tick; a fan at or below 20%, or on its first tick, gets
/// the target at once; and a rising target is never held back.
pub proof fn law_falling_limiter(pts: Seq<CurvePoint>, temp: int, prev: Option<u8>)
    ensures
        ({
            let target = max_u8(curve_percent(temp, pts), safety_floor(temp));
            let s = fan_speed(pts, temp, prev);
            &&& (prev is Some && prev.unwrap() > 20) ==> s + 2 >= prev.unwrap()
            &&& (prev is Some && prev.unwrap() > 20 && target + 2 < prev.unwrap()) ==> s + 2
                == prev.unwrap()
            &&& (prev is Some && prev.unwrap() <= 20) ==> s == target
            &&& prev is None ==> s == target
            &&& (prev is Some && target >= prev.unwrap()) ==> s == target
            &&& s >= target
        }),
{
}

/// The safety floor is exactly the documented one: 40% from 90°C up, 30%
/// from 80°C up to 90°C, none below 80°C. On a first tick (no limiter) the
/// fan gets its curve's speed whenever the curve is at or above the floor,
/// and the floor otherwise.
pub proof fn law_safety_floor_thresholds(pts: Seq<CurvePoint>, temp: int)
    ensures
        temp >= 90_000 ==> safety_floor(temp) == 40,
        80_000 <= temp < 90_000 ==> safety_floor(temp) == 30,
        temp < 80_000 ==> safety_floor(temp) == 0,
        temp >= 90_000 && curve_percent(temp, pts) >= 40 ==> fan_speed(pts, temp, None)
            == curve_percent(temp, pts),
        temp >= 90_000 && curve_percent(temp, pts) < 40 ==> fan_speed(pts, temp, None) == 40,
        80_000 <= temp < 90_000 && curve_percent(temp, pts) >= 30 ==> fan_speed(pts, temp, None)
            == curve_percent(temp, pts),
        80_000 <= temp < 90_000 && curve_percent(temp, pts) < 30 ==> fan_speed(pts, temp, None)
            == 30,
        temp < 80_000 ==> fan_speed(pts, temp, None) == curve_percent(temp, pts),
{
}

/// The least speed the safety net allows at `temp` (thousandths of a
/// degree Celsius).
pub fn safety_min_speed(temp: i64) -> (r: u8)
    ensures
        r == safety_floor(temp as int),
{
    if temp >= CRITICAL_TEMP {
        CRITICAL_MIN_SPEED
    } else if temp >= HOT_TEMP {
        HOT_MIN_SPEED
    } else {
        0
    }
}

/// `target` held back by the falling speed limiter, given the speed set at
/// the last tick.
pub fn limit_falling_speed(prev: Option<u8>, target: u8) -> (r: u8)
    ensures
        r == limit_fall(prev, target),
{
    match prev {
        Some(p) => {
            if p > FALL_LIMIT_ABOVE && (target as u16) + (MAX_FALL_PER_TICK as u16) < (p as u16) {
                p - MAX_FALL_PER_TICK
            } else {
                target
            }
        },
        None => target,
    }
}

/// What a tick of the custom-curve daemon decided: the filtered
/// temperature and the speeds, in percent, written to the two fans.
#[derive(Debug, Clone, Copy, PartialEq, Eq, Structural)]
pub struct TickSpeeds {
    pub temp: i64,
    pub fan1: u8,
    pub fan2: u8,
}

/// The abstract state of the daemon: the recent temperature samples, oldest
/// first, and the speed each fan was last set to.
pub struct DaemonView {
    pub samples: Seq<i64>,
    pub fan1: Option<u8>,
    pub fan2: Option<u8>,
}

/// The state the custom-curve daemon carries from one tick to the next.
pub struct DaemonState {
    samples: Vec<i64>,
    fan1: Option<u8>,
    fan2: Option<u8>,
}

pub open spec fn speed_ok(s: Option<u8>) -> bool {
    match s {
        Some(v) => v <= 100,
        None => true,
    }
}

impl View for DaemonState {
    type V = DaemonView;

    closed spec fn view(&self) -> DaemonView {
        DaemonView { samples: self.samples@, fan1: self.fan1, fan2: self.fan2 }
    }
}

impl DaemonState {
    #[verifier::type_invariant]
    closed spec fn well_formed(&self) -> bool {
        &&& self.samples.len() <= FILTER_WINDOW
        &&& speed_ok(self.fan1)
        &&& speed_ok(self.fan2)
    }

    /// The state before the first tick: no samples, no speed set yet.
    pub fn new() -> (s: Self)
        ensures
            s@.samples == Seq::<i64>::empty(),
            s@.fan1 is None,
            s@.fan2 is None,
            s@.samples.len() <= FILTER_WINDOW,
    {
        DaemonState { samples: Vec::new(), fan1: None, fan2: None }
    }

    /// One tick of the custom curve: with no CPU temperature nothing is
    /// written and nothing changes; otherwise the reading (thousandths of a
    /// degree) joins the filter window, and each fan gets its curve's speed
    /// at the window's median, raised to the safety floor and held back by
    /// the falling limiter.
    pub fn tick(&mut self, config: &FanConfig, reading: Option<i64>) -> (out: Option<TickSpeeds>)
        ensures
            final(self)@.samples.len() <= FILTER_WINDOW,
            speed_ok(final(self)@.fan1),
            speed_ok(final(self)@.fan2),
            match reading {
                None => out is None && final(self)@ == old(self)@,
                Some(t) => {
                    let w = window_after(old(self)@.samples, t);
                    &&& final(self)@.samples == w
                    &&& out matches Some(o) && {
                        &&& o.fan1 <= 100 && o.fan2 <= 100
                        &&& is_median(w, o.temp)
                        &&& w.contains(o.temp)
                        &&& o.fan1 == fan_speed(config.fan1.points@, o.temp as int, old(self)@.fan1)
                        &&& o.fan2 == fan_speed(config.fan2.points@, o.temp as int, old(self)@.fan2)
                        &&& final(self)@.fan1 == Some(o.fan1)
                        &&& final(self)@.fan2 == Some(o.fan2)
                    }
                },
            },
    {
        proof {
            use_type_invariant(&*self);
        }
        match reading {
            None => None,
            Some(t) => {
                let mut w: Vec<i64> = Vec::new();
                let n = self.samples.len();
                let start: usize = if n + 1 > FILTER_WINDOW {
                    n + 1 - FILTER_WINDOW
                } else {
                    0
                };
                let mut i: usize = start;
                while i < n
                    invariant
                        start <= i <= n,
                        n == self.samples.len(),
                        w@ == self.samples@.subrange(start as int, i as int),
                    decreases n - i,
                {
                    w.push(self.samples[i]);
                    i = i + 1;
                }
                w.push(t);
                assert(w@ == window_after(self.samples@, t)) by {
                    let p = self.samples@.push(t);
                    assert(w@ =~= p.subrange(start as int, p.len() as int));
                    assert(p.subrange(0, p.len() as int) =~= p);
                }
                let temp = median(&w);
                let f1 = limit_falling_speed(
                    self.fan1,
                    max_speed(interpolate(temp, &config.fan1), safety_min_speed(temp)),
                );
                let f2 = limit_falling_speed(
                    self.fan2,
                    max_speed(interpolate(temp, &config.fan2), safety_min_speed(temp)),
                );
                self.samples = w;
                self.fan1 = Some(f1);
                self.fan2 = Some(f2);
                Some(TickSpeeds { temp, fan1: f1, fan2: f2 })
            },
        }
    }
}

/// A step the program asks of the embedded controller.
#[derive(Debug, Clone, Copy, PartialEq, Eq, Structural)]
pub enum EcAction {
    /// Enable (`true`) or disable manual fan control.
    SetManualMode(bool),
    /// Return fan control to the firmware's automatic curve.
    SetAuto,
    /// Select an automatic EC fan profile by its register value.
    SetPerformanceProfile(u8),
    /// Write the speeds, in percent, of fan 1 and fan 2.
    SetFanSpeeds(u8, u8),
}

/// Handing the fans back to the firmware: manual control off, then
/// automatic control on.
pub open spec fn release_plan() -> Seq<EcAction> {
    seq![EcAction::SetManualMode(false), EcAction::SetAuto]
}

/// What applying a mode asks of the EC: for a built-in profile, release
/// the fans to the firmware and select the profile; for the custom curve,
/// nothing (the daemon drives the fans).
pub open spec fn profile_plan(mode: ControlMode) -> Seq<EcAction> {
    match mode_profile_value(mode) {
        Some(v) => release_plan().push(EcAction::SetPerformanceProfile(v)),
        None => Seq::empty(),
    }
}

/// What the daemon asks of the EC when it starts: the active built-in
/// profile, or, for the custom curve, manual fan control.
pub open spec fn daemon_start_plan(mode: ControlMode) -> Seq<EcAction> {
    match mode_profile_value(mode) {
        Some(_) => profile_plan(mode),
        None => seq![EcAction::SetManualMode(true)],
    }
}

/// Applying a mode: a built-in profile first turns manual control off,
/// then hands the fans to the firmware, then selects the profile's value;
/// the custom curve asks nothing of the EC.
pub proof fn law_profile_steps(m: ControlMode)
    ensures
        mode_profile_value(m) is Some ==> profile_plan(m) == seq![
            EcAction::SetManualMode(false),
            EcAction::SetAuto,
            EcAction::SetPerformanceProfile(mode_profile_value(m).unwrap()),
        ],
        m == ControlMode::Custom ==> profile_plan(m).len() == 0,
{
}

/// The daemon starts a built-in mode exactly as applying that mode does
/// (manual control off, automatic control, the profile's value), and takes
/// manual fan control exactly when the mode is the custom curve.
pub proof fn law_daemon_start(m: ControlMode)
    ensures
        mode_profile_value(m) is Some ==> daemon_start_plan(m) == profile_plan(m),
        mode_profile_value(m) is Some ==> daemon_start_plan(m) == seq![
            EcAction::SetManualMode(false),
            EcAction::SetAuto,
            EcAction::SetPerformanceProfile(mode_profile_value(m).unwrap()),
        ],
        daemon_start_plan(m).contains(EcAction::SetManualMode(true)) <==> m == ControlMode::Custom,
        m == ControlMode::Custom ==> daemon_start_plan(m) == seq![EcAction::SetManualMode(true)],
{
    let p = daemon_start_plan(m);
    if m != ControlMode::Custom {
        assert(p[0] == EcAction::SetManualMode(false));
        assert(p[1] == EcAction::SetAuto);
        assert(!p.contains(EcAction::SetManualMode(true)));
    } else {
        assert(p[0] == EcAction::SetManualMode(true));
    }
}

/// The EC steps that hand the fans back to the firmware.
pub fn release_actions() -> (r: Vec<EcAction>)
    ensures
        r@ == release_plan(),
{
    vec![EcAction::SetManualMode(false), EcAction::SetAuto]
}

/// The EC steps that apply `mode`.
pub fn profile_actions(mode: ControlMode) -> (r: Vec<EcAction>)
    ensures
        r@ == profile_plan(mode),
{
    match mode.ec_profile_value() {
        Some(v) => {
            let mut r = release_actions();
            r.push(EcAction::SetPerformanceProfile(v));
            r
        },
        None => Vec::new(),
    }
}

/// The EC steps the daemon takes when it starts in `mode`.
pub fn daemon_start_actions(mode: ControlMode) -> (r: Vec<EcAction>)
    ensures
        r@ == daemon_start_plan(mode),
{
    match mode.ec_profile_value() {
        Some(_) => profile_actions(mode),
        None => vec![EcAction::SetManualMode(true)],
    }
}

/// The EC steps that start a raw fan test at `speed` percent: manual
/// control on, then both fans at `speed`.
pub fn fan_test_actions(speed: u8) -> (r: Vec<EcAction>)
    ensures
        r@ == seq![EcAction::SetManualMode(true), EcAction::SetFanSpeeds(speed, speed)],
{
    vec![EcAction::SetManualMode(true), EcAction::SetFanSpeeds(speed, speed)]
}

fn max_speed(a: u8, b: u8) -> (r: u8)
    ensures
        r == max_u8(a, b),
{
    if a >= b {
        a
    } else {
        b
    }
}

} // verus!
