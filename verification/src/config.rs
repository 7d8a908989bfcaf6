use vstd::prelude::*;

verus! {

/// How the fans are driven: one of the embedded controller's built-in
/// profiles, or the user's own curve applied by the daemon.
#[derive(Debug, Clone, Copy, PartialEq, Eq, Structural)]
pub enum ControlMode {
    Quiet,
    Performance,
    Overboost,
    Custom,
}

/// The name under which a mode is shown to the user.
pub open spec fn mode_label(mode: ControlMode) -> Seq<char> {
    match mode {
        ControlMode::Quiet => "Quiet"@,
        ControlMode::Performance => "Performance"@,
        ControlMode::Overboost => "Overboost"@,
        ControlMode::Custom => "Custom"@,
    }
}

/// The value written to the EC profile register for a built-in mode.
pub open spec fn mode_profile_value(mode: ControlMode) -> Option<u8> {
    match mode {
        ControlMode::Quiet => Some(1u8),
        ControlMode::Performance => Some(2u8),
        ControlMode::Overboost => Some(3u8),
        ControlMode::Custom => None,
    }
}

/// The EC profile register values of the built-in modes, as the driver's
/// table gives them: quiet 1, performance 2, overboost 3; the custom curve
/// has no EC profile. No two modes share a value.
pub proof fn law_profile_values(m: ControlMode)
    ensures
        mode_profile_value(m) == Some(1u8) <==> m == ControlMode::Quiet,
        mode_profile_value(m) == Some(2u8) <==> m == ControlMode::Performance,
        mode_profile_value(m) == Some(3u8) <==> m == ControlMode::Overboost,
        mode_profile_value(m) is None <==> m == ControlMode::Custom,
{
}

impl ControlMode {
    pub fn label(self) -> (r: &'static str)
        ensures
            r@ == mode_label(self),
    {
        match self {
            ControlMode::Quiet => "Quiet",
            ControlMode::Performance => "Performance",
            ControlMode::Overboost => "Overboost",
            ControlMode::Custom => "Custom",
        }
    }

    pub fn ec_profile_value(self) -> (r: Option<u8>)
        ensures
            r == mode_profile_value(self),
    {
        match self {
            ControlMode::Quiet => Some(0x01),
            ControlMode::Performance => Some(0x02),
            ControlMode::Overboost => Some(0x03),
            ControlMode::Custom => None,
        }
    }
}

impl Default for ControlMode {
    fn default() -> (r: Self)
        ensures
            r == ControlMode::Custom,
    {
        ControlMode::Custom
    }
}


/// One point of a fan curve. Both values are kept in thousandths: `temp`
/// in thousandths of a degree Celsius (the unit in which hwmon reports
/// temperatures) and `speed` in thousandths of a percent of full fan speed.
#[derive(Debug, Clone, Copy, PartialEq, Eq, Structural)]
pub struct CurvePoint {
    pub temp: i32,
    pub speed: i32,
}

/// A fan curve: points in the order the configuration lists them.
#[derive(Debug, Clone)]
pub struct FanCurve {
    pub points: Vec<CurvePoint>,
}

/// The whole configuration: the active mode, whether both curves are
/// edited together, and the two fan curves.
#[derive(Debug, Clone)]
pub struct FanConfig {
    pub active_mode: ControlMode,
    pub paired_edit: bool,
    pub fan1: FanCurve,
    pub fan2: FanCurve,
}

/// `n / d` rounded to the nearest integer, ties away from zero (the
/// rounding of `f64::round`), for `d > 0`.
pub open spec fn round_div(n: int, d: int) -> int {
    if n >= 0 {
        (2 * n + d) / (2 * d)
    } else {
        -((2 * (-n) + d) / (2 * d))
    }
}

/// An integer percentage clamped into `0..=100`.
pub open spec fn clamp_percent(x: int) -> u8 {
    if x < 0 {
        0u8
    } else if x > 100 {
        100u8
    } else {
        x as u8
    }
}

/// A speed given in thousandths of a percent, rounded to a whole percent
/// and clamped into `0..=100`.
pub open spec fn speed_percent(speed: int) -> u8 {
    clamp_percent(round_div(speed, 1000))
}

/// The speed on the straight line through `p1` and `p2` at `temp`, as a
/// clamped whole percent; a vertical segment gives the speed of `p1`.
pub open spec fn segment_percent(temp: int, p1: CurvePoint, p2: CurvePoint) -> u8 {
    let d = p2.temp - p1.temp;
    if d == 0 {
        speed_percent(p1.speed as int)
    } else {
        clamp_percent(round_div(p1.speed * d + (temp - p1.temp) * (p2.speed - p1.speed), 1000 * d))
    }
}

/// The speed given by the first segment, from index `i` on, whose
/// temperature range holds `temp`; 0 when none does.
pub open spec fn scan_percent(temp: int, pts: Seq<CurvePoint>, i: int) -> u8
    decreases pts.len() - i,
{
    if i < 0 || i + 1 >= pts.len() {
        0u8
    } else if pts[i].temp <= temp <= pts[i + 1].temp {
        segment_percent(temp, pts[i], pts[i + 1])
    } else {
        scan_percent(temp, pts, i + 1)
    }
}

/// The fan speed, in whole percent, that a curve gives at `temp`
/// (thousandths of a degree): 0 for an empty curve, the end points' speeds
/// at and beyond the ends, and linear interpolation in between.
pub open spec fn curve_percent(temp: int, pts: Seq<CurvePoint>) -> u8 {
    if pts.len() == 0 {
        0u8
    } else if pts.len() == 1 || temp <= pts[0].temp {
        speed_percent(pts[0].speed as int)
    } else if temp >= pts.last().temp {
        speed_percent(pts.last().speed as int)
    } else {
        scan_percent(temp, pts, 0)
    }
}

proof fn lemma_negative_rounds_to_zero(n: int, d: int)
    requires
        n < 0,
        d > 0,
    ensures
        clamp_percent(round_div(n, d)) == 0,
{
    assert((2 * (-n) + d) / (2 * d) >= 0) by (nonlinear_arith)
        requires
            n < 0,
            d > 0,
    ;
}

/// Rounds `n / d` (with `n >= 0`, `d > 0`) to a whole percent and clamps it.
fn rounded_percent(n: i128, d: i128) -> (r: u8)
    requires
        n >= 0,
        d > 0,
        n <= 0x1_0000_0000_0000_0000_0000_0000,
        d <= 0x1_0000_0000_0000_0000_0000_0000,
    ensures
        r == clamp_percent(round_div(n as int, d as int)),
{
    let q = (2 * n + d) / (2 * d);
    if q > 100 {
        100
    } else {
        q as u8
    }
}

/// A speed in thousandths of a percent, rounded to a whole percent and
/// clamped into `0..=100`.
pub fn speed_to_percent(speed: i32) -> (r: u8)
    ensures
        r == speed_percent(speed as int),
        r <= 100,
{
    if speed < 0 {
        proof {
            lemma_negative_rounds_to_zero(speed as int, 1000);
        }
        0
    } else {
        rounded_percent(speed as i128, 1000)
    }
}

fn segment_to_percent(temp: i64, p1: CurvePoint, p2: CurvePoint) -> (r: u8)
    requires
        p1.temp <= temp <= p2.temp,
    ensures
        r == segment_percent(temp as int, p1, p2),
{
    if p1.temp == p2.temp {
        return speed_to_percent(p1.speed);
    }
    let d: i128 = p2.temp as i128 - p1.temp as i128;
    let dt: i128 = temp as i128 - p1.temp as i128;
    let ds: i128 = p2.speed as i128 - p1.speed as i128;
    let s1: i128 = p1.speed as i128;
    assert(-0x1_0000_0000_0000_0000 < s1 * d < 0x1_0000_0000_0000_0000) by (nonlinear_arith)
        requires
            -0x8000_0000 <= s1 < 0x8000_0000,
            0 < d < 0x1_0000_0000,
    ;
    assert(-0x1_0000_0000_0000_0000 < dt * ds < 0x1_0000_0000_0000_0000) by (nonlinear_arith)
        requires
            0 <= dt <= d,
            d < 0x1_0000_0000,
            -0x1_0000_0000 < ds < 0x1_0000_0000,
    ;
    let n: i128 = s1 * d + dt * ds;
    let den: i128 = 1000 * d;
    if n < 0 {
        proof {
            lemma_negative_rounds_to_zero(n as int, den as int);
        }
        0
    } else {
        rounded_percent(n, den)
    }
}

/// The fan speed, in whole percent, that `curve` gives at `temp`
/// (thousandths of a degree Celsius).
pub fn interpolate(temp: i64, curve: &FanCurve) -> (r: u8)
    ensures
        r == curve_percent(temp as int, curve.points@),
        r <= 100,
{
    let pts = &curve.points;
    if pts.len() == 0 {
        return 0;
    }
    if pts.len() == 1 {
        return speed_to_percent(pts[0].speed);
    }
    if temp <= pts[0].temp as i64 {
        return speed_to_percent(pts[0].speed);
    }
    let last = pts[pts.len() - 1];
    if temp >= last.temp as i64 {
        return speed_to_percent(last.speed);
    }
    let mut i: usize = 0;
    while i < pts.len() - 1
        invariant
            pts@ == curve.points@,
            pts.len() >= 2,
            i <= pts.len() - 1,
            scan_percent(temp as int, pts@, 0) == scan_percent(temp as int, pts@, i as int),
            curve_percent(temp as int, pts@) == scan_percent(temp as int, pts@, 0),
        decreases pts.len() - 1 - i,
    {
        let p1 = pts[i];
        let p2 = pts[i + 1];
        if temp >= p1.temp as i64 && temp <= p2.temp as i64 {
            assert(p1 == pts@[i as int] && p2 == pts@[i + 1]);
            return segment_to_percent(temp, p1, p2);
        }
        i = i + 1;
    }
    0
}


/// The temperatures of a curve never decrease along its points.
pub open spec fn temps_nondecreasing(pts: Seq<CurvePoint>) -> bool {
    forall|i: int, j: int| 0 <= i <= j < pts.len() ==> pts[i].temp <= pts[j].temp
}

/// The temperatures of a curve rise strictly along its points.
pub open spec fn temps_increasing(pts: Seq<CurvePoint>) -> bool {
    forall|i: int, j: int| 0 <= i < j < pts.len() ==> pts[i].temp < pts[j].temp
}

/// The speeds of a curve never decrease along its points.
pub open spec fn speeds_nondecreasing(pts: Seq<CurvePoint>) -> bool {
    forall|i: int, j: int| 0 <= i <= j < pts.len() ==> pts[i].speed <= pts[j].speed
}

proof fn lemma_round_div_monotone(n1: int, n2: int, d: int)
    requires
        n1 <= n2,
        d > 0,
    ensures
        round_div(n1, d) <= round_div(n2, d),
{
    if n1 >= 0 {
        vstd::arithmetic::div_mod::lemma_div_is_ordered(2 * n1 + d, 2 * n2 + d, 2 * d);
    } else if n2 < 0 {
        vstd::arithmetic::div_mod::lemma_div_is_ordered(2 * (-n2) + d, 2 * (-n1) + d, 2 * d);
    } else {
        assert((2 * (-n1) + d) / (2 * d) >= 0) by (nonlinear_arith)
            requires
                n1 < 0,
                d > 0,
        ;
        assert((2 * n2 + d) / (2 * d) >= 0) by (nonlinear_arith)
            requires
                n2 >= 0,
                d > 0,
        ;
    }
}

proof fn lemma_speed_percent_monotone(s1: int, s2: int)
    requires
        s1 <= s2,
    ensures
        speed_percent(s1) <= speed_percent(s2),
{
    lemma_round_div_monotone(s1, s2, 1000);
}

/// Scaling numerator and denominator alike leaves the rounded percent.
proof fn lemma_round_div_scale(s: int, d: int)
    requires
        d > 0,
    ensures
        round_div(s * d, 1000 * d) == round_div(s, 1000),
{
    if s >= 0 {
        vstd::arithmetic::div_mod::lemma_div_multiples_vanish_quotient(d, 2 * s + 1000, 2000);
        assert(d * (2 * s + 1000) == 2 * (s * d) + 1000 * d) by (nonlinear_arith);
        assert(d * 2000 == 2 * (1000 * d)) by (nonlinear_arith);
        assert(s * d >= 0) by (nonlinear_arith)
            requires
                s >= 0,
                d > 0,
        ;
    } else {
        vstd::arithmetic::div_mod::lemma_div_multiples_vanish_quotient(d, 2 * (-s) + 1000, 2000);
        assert(d * (2 * (-s) + 1000) == 2 * (-(s * d)) + 1000 * d) by (nonlinear_arith);
        assert(d * 2000 == 2 * (1000 * d)) by (nonlinear_arith);
        assert(s * d < 0) by (nonlinear_arith)
            requires
                s < 0,
                d > 0,
        ;
    }
}

/// Within one segment whose speed does not fall, the speed rises with the
/// temperature and stays between the speeds of the segment's ends.
proof fn lemma_segment_monotone(t: int, u: int, p1: CurvePoint, p2: CurvePoint)
    requires
        p1.temp <= t <= u <= p2.temp,
        p1.speed <= p2.speed,
    ensures
        speed_percent(p1.speed as int) <= segment_percent(t, p1, p2),
        segment_percent(t, p1, p2) <= segment_percent(u, p1, p2),
        segment_percent(u, p1, p2) <= speed_percent(p2.speed as int),
{
    let d = p2.temp - p1.temp;
    if d != 0 {
        let ds = p2.speed - p1.speed;
        let n0 = p1.speed * d;
        let nt = p1.speed * d + (t - p1.temp) * ds;
        let nu = p1.speed * d + (u - p1.temp) * ds;
        let n2 = p1.speed * d + d * ds;
        assert(n0 <= nt <= nu <= n2) by (nonlinear_arith)
            requires
                n0 == p1.speed * d,
                nt == p1.speed * d + (t - p1.temp) * ds,
                nu == p1.speed * d + (u - p1.temp) * ds,
                n2 == p1.speed * d + d * ds,
                p1.temp <= t <= u <= p2.temp,
                d == p2.temp - p1.temp,
                ds >= 0,
        ;
        assert(n2 == p2.speed * d) by (nonlinear_arith)
            requires
                n2 == p1.speed * d + d * ds,
                ds == p2.speed - p1.speed,
        ;
        lemma_round_div_scale(p1.speed as int, d);
        lemma_round_div_scale(p2.speed as int, d);
        lemma_round_div_monotone(n0, nt, 1000 * d);
        lemma_round_div_monotone(nt, nu, 1000 * d);
        lemma_round_div_monotone(nu, n2, 1000 * d);
    } else {
        lemma_speed_percent_monotone(p1.speed as int, p2.speed as int);
    }
}

/// Strictly between the temperature of point `i` and that of the last
/// point, the scan from `i` settles on the first segment `k` that reaches
/// `t`, whatever the order of the points.
proof fn lemma_scan_segment(t: int, pts: Seq<CurvePoint>, i: int) -> (k: int)
    requires
        0 <= i < pts.len() - 1,
        pts[i].temp < t < pts.last().temp,
    ensures
        i <= k < pts.len() - 1,
        pts[k].temp < t <= pts[k + 1].temp,
        scan_percent(t, pts, i) == segment_percent(t, pts[k], pts[k + 1]),
        forall|j: int| i < j <= k ==> #[trigger] pts[j].temp < t,
    decreases pts.len() - i,
{
    if t <= pts[i + 1].temp {
        i
    } else {
        lemma_scan_segment(t, pts, i + 1)
    }
}

/// A segment's speed lies between the rounded bounds of its ends' speeds.
proof fn lemma_segment_within(t: int, p1: CurvePoint, p2: CurvePoint, lo: int, hi: int)
    requires
        p1.temp <= t <= p2.temp,
        lo <= p1.speed <= hi,
        lo <= p2.speed <= hi,
    ensures
        speed_percent(lo) <= segment_percent(t, p1, p2) <= speed_percent(hi),
{
    let d = p2.temp - p1.temp;
    if d != 0 {
        let dt = t - p1.temp;
        let n = p1.speed * d + dt * (p2.speed - p1.speed);
        assert(lo * d <= n <= hi * d) by (nonlinear_arith)
            requires
                n == p1.speed * d + dt * (p2.speed - p1.speed),
                0 <= dt <= d,
                lo <= p1.speed <= hi,
                lo <= p2.speed <= hi,
        ;
        lemma_round_div_scale(lo, d);
        lemma_round_div_scale(hi, d);
        lemma_round_div_monotone(lo * d, n, 1000 * d);
        lemma_round_div_monotone(n, hi * d, 1000 * d);
    } else {
        lemma_speed_percent_monotone(lo, p1.speed as int);
        lemma_speed_percent_monotone(p1.speed as int, hi);
    }
}

/// Whatever the order of its points, a curve gives a speed between the
/// rounded least and greatest speeds of its points.
pub proof fn law_curve_within_point_speeds(pts: Seq<CurvePoint>, t: int, lo: int, hi: int)
    requires
        pts.len() > 0,
        forall|i: int| 0 <= i < pts.len() ==> lo <= #[trigger] pts[i].speed <= hi,
    ensures
        speed_percent(lo) <= curve_percent(t, pts) <= speed_percent(hi),
{
    let first = pts[0];
    let last = pts.last();
    assert(lo <= last.speed <= hi);
    if pts.len() == 1 || t <= first.temp {
        lemma_speed_percent_monotone(lo, first.speed as int);
        lemma_speed_percent_monotone(first.speed as int, hi);
    } else if t >= last.temp {
        lemma_speed_percent_monotone(lo, last.speed as int);
        lemma_speed_percent_monotone(last.speed as int, hi);
    } else {
        let k = lemma_scan_segment(t, pts, 0);
        assert(lo <= pts[k].speed <= hi);
        assert(lo <= pts[k + 1].speed <= hi);
        lemma_segment_within(t, pts[k], pts[k + 1], lo, hi);
    }
}

/// On a curve whose temperatures and speeds never fall, a hotter reading
/// never gives a slower fan.
pub proof fn law_curve_monotone(pts: Seq<CurvePoint>, t: int, u: int)
    requires
        temps_nondecreasing(pts),
        speeds_nondecreasing(pts),
        t <= u,
    ensures
        curve_percent(t, pts) <= curve_percent(u, pts),
{
    if pts.len() >= 2 {
        let first = pts[0];
        let last = pts.last();
        let n = pts.len() - 1;
        lemma_speed_percent_monotone(first.speed as int, last.speed as int);
        if t <= first.temp {
            if first.temp < u < last.temp {
                let k = lemma_scan_segment(u, pts, 0);
                lemma_segment_monotone(u, u, pts[k], pts[k + 1]);
                lemma_speed_percent_monotone(first.speed as int, pts[k].speed as int);
            }
        } else if t >= last.temp {
        } else {
            let k = lemma_scan_segment(t, pts, 0);
            lemma_segment_monotone(t, t, pts[k], pts[k + 1]);
            if u >= last.temp {
                lemma_speed_percent_monotone(pts[k + 1].speed as int, last.speed as int);
            } else {
                let k2 = lemma_scan_segment(u, pts, 0);
                if k2 < k {
                    assert(pts[k2 + 1].temp < t);
                }
                if k == k2 {
                    lemma_segment_monotone(t, u, pts[k], pts[k + 1]);
                } else {
                    lemma_segment_monotone(u, u, pts[k2], pts[k2 + 1]);
                    lemma_speed_percent_monotone(pts[k + 1].speed as int, pts[k2].speed as int);
                }
            }
        }
    }
}

/// On a curve whose temperatures rise strictly, the speed at each point's
/// temperature is that point's own speed.
pub proof fn law_curve_passes_through_points(pts: Seq<CurvePoint>, j: int)
    requires
        temps_increasing(pts),
        0 <= j < pts.len(),
    ensures
        curve_percent(pts[j].temp as int, pts) == speed_percent(pts[j].speed as int),
{
    let t = pts[j].temp as int;
    if pts.len() >= 2 && j > 0 && j < pts.len() - 1 {
        assert(temps_nondecreasing(pts));
        assert(pts[0].temp < t);
        assert(t < pts.last().temp);
        let k = lemma_scan_segment(t, pts, 0);
        if k < j - 1 {
            assert(pts[k + 1].temp < t);
        }
        if k > j - 1 {
            assert(pts[j].temp < t);
        }
        assert(k == j - 1);
        let d = pts[j].temp - pts[k].temp;
        let ds = pts[j].speed - pts[k].speed;
        assert(pts[k].speed * d + (t - pts[k].temp) * ds == pts[j].speed * d) by (nonlinear_arith)
            requires
                d == pts[j].temp - pts[k].temp,
                ds == pts[j].speed - pts[k].speed,
                t == pts[j].temp,
        ;
        lemma_round_div_scale(pts[j].speed as int, d);
    } else if pts.len() >= 2 && j == pts.len() - 1 {
        assert(pts[0].temp < t);
    }
}

/// `clamp_percent(round_div(n, d))` is the whole percent nearest to
/// `n / d` (a half rounds up), 0 below zero and 100 above a hundred.
proof fn lemma_rounded_nearest(n: int, d: int)
    requires
        d > 0,
    ensures
        ({
            let r = clamp_percent(round_div(n, d)) as int;
            &&& n < 0 ==> r == 0
            &&& n > 100 * d ==> r == 100
            &&& 0 <= n <= 100 * d ==> d * (2 * r - 1) <= 2 * n && 2 * n < d * (2 * r + 1)
        }),
{
    if n < 0 {
        lemma_negative_rounds_to_zero(n, d);
    } else {
        let q = (2 * n + d) / (2 * d);
        vstd::arithmetic::div_mod::lemma_fundamental_div_mod(2 * n + d, 2 * d);
        vstd::arithmetic::div_mod::lemma_mod_bound(2 * n + d, 2 * d);
        let m = (2 * n + d) % (2 * d);
        assert(2 * n + d == 2 * d * q + m);
        if n > 100 * d {
            assert(q >= 100) by (nonlinear_arith)
                requires
                    2 * n + d == 2 * d * q + m,
                    0 <= m < 2 * d,
                    n > 100 * d,
                    d > 0,
            ;
        } else {
            assert(q <= 100 && q >= 0) by (nonlinear_arith)
                requires
                    2 * n + d == 2 * d * q + m,
                    0 <= m < 2 * d,
                    0 <= n <= 100 * d,
                    d > 0,
            ;
            assert(d * (2 * q - 1) <= 2 * n && 2 * n < d * (2 * q + 1)) by (nonlinear_arith)
                requires
                    2 * n + d == 2 * d * q + m,
                    0 <= m < 2 * d,
            ;
        }
    }
}

/// A speed in thousandths of a percent becomes the nearest whole percent (a
/// half rounds up), 0 for a negative speed and 100 above 100%.
pub proof fn law_speed_percent_nearest(s: int)
    ensures
        s < 0 ==> speed_percent(s) == 0,
        s > 100_000 ==> speed_percent(s) == 100,
        0 <= s <= 100_000 ==> 1000 * (2 * speed_percent(s) - 1) <= 2 * s && 2 * s < 1000 * (2
            * speed_percent(s) + 1),
{
    lemma_rounded_nearest(s, 1000);
}

/// On a curve whose temperatures rise strictly, the speed at a temperature
/// `t` in the segment from point `k` to point `k + 1` is the straight line
/// through those points, rounded to the nearest whole percent (a half
/// rounds up) and clamped into `0..=100`. With `d` the segment's width and
/// `n` the line's speed times `d` (both in thousandths), the line's
/// percentage is `n / (1000 d)`.
pub proof fn law_curve_rounds_the_line(pts: Seq<CurvePoint>, k: int, t: int)
    requires
        temps_increasing(pts),
        0 <= k < pts.len() - 1,
        pts[k].temp < t <= pts[k + 1].temp,
    ensures
        ({
            let p1 = pts[k];
            let p2 = pts[k + 1];
            let d = p2.temp - p1.temp;
            let n = p1.speed * d + (t - p1.temp) * (p2.speed - p1.speed);
            let r = curve_percent(t, pts) as int;
            &&& n < 0 ==> r == 0
            &&& n > 100_000 * d ==> r == 100
            &&& 0 <= n <= 100_000 * d ==> 1000 * d * (2 * r - 1) <= 2 * n && 2 * n < 1000 * d * (2
                * r + 1)
        }),
{
    let p1 = pts[k];
    let p2 = pts[k + 1];
    let d = p2.temp - p1.temp;
    assert(d > 0);
    let n = p1.speed * d + (t - p1.temp) * (p2.speed - p1.speed);
    assert(temps_nondecreasing(pts));
    if t == pts.last().temp {
        assert(k + 1 == pts.len() - 1) by {
            if k + 1 < pts.len() - 1 {
                assert(pts[k + 1].temp < pts[pts.len() - 1].temp);
            }
        }
        assert(n == p2.speed * d) by (nonlinear_arith)
            requires
                n == p1.speed * d + (t - p1.temp) * (p2.speed - p1.speed),
                t == p2.temp,
                d == p2.temp - p1.temp,
        ;
        lemma_round_div_scale(p2.speed as int, d);
        assert(curve_percent(t, pts) == speed_percent(p2.speed as int)) by {
            assert(pts[0].temp < t);
        }
    } else {
        assert(pts[0].temp < t) by {
            if k > 0 {
                assert(pts[0].temp < pts[k].temp);
            }
        }
        let j = lemma_scan_segment(t, pts, 0);
        if j < k {
            assert(pts[j + 1].temp <= pts[k].temp);
        }
        if j > k {
            assert(pts[k + 1].temp < t);
        }
        assert(j == k);
    }
    assert(1000 * d > 0);
    lemma_rounded_nearest(n, 1000 * d);
    assert(100 * (1000 * d) == 100_000 * d);
    assert(1000 * d * (2 * (curve_percent(t, pts) as int) - 1) == (1000 * d) * (2 * (curve_percent(t, pts) as int) - 1));
}

/// Whether both curves are edited together when a configuration does not
/// say: they are.
pub fn default_paired_edit() -> (r: bool)
    ensures
        r,
{
    true
}

/// The point at `temp` degrees and `speed` percent, both whole numbers.
pub open spec fn whole_point(temp: int, speed: int) -> CurvePoint {
    CurvePoint { temp: (temp * 1000) as i32, speed: (speed * 1000) as i32 }
}

/// The default curve of fan 1: 40°C 0%, 55°C 20%, 70°C 50%, 85°C 80%,
/// 95°C 100%.
pub open spec fn default_fan1_points() -> Seq<CurvePoint> {
    seq![
        whole_point(40, 0),
        whole_point(55, 20),
        whole_point(70, 50),
        whole_point(85, 80),
        whole_point(95, 100),
    ]
}

/// The default curve of fan 2: 40°C 0%, 55°C 15%, 70°C 40%, 85°C 70%,
/// 95°C 100%.
pub open spec fn default_fan2_points() -> Seq<CurvePoint> {
    seq![
        whole_point(40, 0),
        whole_point(55, 15),
        whole_point(70, 40),
        whole_point(85, 70),
        whole_point(95, 100),
    ]
}

impl FanConfig {
    /// The configuration a file gives: a missing mode is the custom curve,
    /// a missing pairing flag means paired editing.
    pub fn from_file_fields(
        active_mode: Option<ControlMode>,
        paired_edit: Option<bool>,
        fan1: FanCurve,
        fan2: FanCurve,
    ) -> (r: FanConfig)
        ensures
            r.active_mode == (match active_mode {
                Some(m) => m,
                None => ControlMode::Custom,
            }),
            r.paired_edit == (match paired_edit {
                Some(p) => p,
                None => true,
            }),
            r.fan1 == fan1,
            r.fan2 == fan2,
    {
        let active_mode = match active_mode {
            Some(m) => m,
            None => ControlMode::default(),
        };
        let paired_edit = match paired_edit {
            Some(p) => p,
            None => default_paired_edit(),
        };
        FanConfig { active_mode, paired_edit, fan1, fan2 }
    }
}

impl Default for FanConfig {
    fn default() -> (r: Self)
        ensures
            r.active_mode == ControlMode::Custom,
            r.paired_edit,
            r.fan1.points@ == default_fan1_points(),
            r.fan2.points@ == default_fan2_points(),
    {
        FanConfig {
            active_mode: ControlMode::Custom,
            paired_edit: default_paired_edit(),
            fan1: FanCurve {
                points: vec![
                    CurvePoint { temp: 40_000, speed: 0 },
                    CurvePoint { temp: 55_000, speed: 20_000 },
                    CurvePoint { temp: 70_000, speed: 50_000 },
                    CurvePoint { temp: 85_000, speed: 80_000 },
                    CurvePoint { temp: 95_000, speed: 100_000 },
                ],
            },
            fan2: FanCurve {
                points: vec![
                    CurvePoint { temp: 40_000, speed: 0 },
                    CurvePoint { temp: 55_000, speed: 15_000 },
                    CurvePoint { temp: 70_000, speed: 40_000 },
                    CurvePoint { temp: 85_000, speed: 70_000 },
                    CurvePoint { temp: 95_000, speed: 100_000 },
                ],
            },
        }
    }
}

} // verus!
