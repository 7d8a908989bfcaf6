use tuxfans::config::{
    default_paired_edit, interpolate, speed_to_percent, ControlMode, CurvePoint, FanConfig,
    FanCurve,
};

// Temperatures are in thousandths of a degree and speeds in thousandths of
// a percent: 60_000 is 60.0°C, 125_000 is 125.0%.
fn curve(points: &[(i32, i32)]) -> FanCurve {
    FanCurve {
        points: points
            .iter()
            .map(|(temp, speed)| CurvePoint {
                temp: *temp,
                speed: *speed,
            })
            .collect(),
    }
}

#[test]
fn interpolate_handles_empty_curve() {
    assert_eq!(interpolate(60_000, &curve(&[])), 0);
}

#[test]
fn interpolate_clamps_single_point_speed() {
    assert_eq!(interpolate(60_000, &curve(&[(40_000, 125_000)])), 100);
    assert_eq!(interpolate(60_000, &curve(&[(40_000, -5_000)])), 0);
}

#[test]
fn interpolate_uses_endpoints_outside_curve_range() {
    let fan_curve = curve(&[(40_000, 10_000), (80_000, 90_000)]);

    assert_eq!(interpolate(35_000, &fan_curve), 10);
    assert_eq!(interpolate(85_000, &fan_curve), 90);
}

#[test]
fn interpolate_linearly_between_points() {
    let fan_curve = curve(&[(40_000, 10_000), (80_000, 90_000)]);

    assert_eq!(interpolate(60_000, &fan_curve), 50);
}

#[test]
fn interpolate_handles_duplicate_temperatures() {
    let fan_curve = curve(&[(40_000, 10_000), (40_000, 30_000), (80_000, 90_000)]);

    assert_eq!(interpolate(40_000, &fan_curve), 10);
}

#[test]
fn config_defaults_to_custom_mode() {
    assert_eq!(FanConfig::default().active_mode, ControlMode::Custom);
}

#[test]
fn config_defaults_to_paired_editing() {
    assert!(FanConfig::default().paired_edit);
}

// The configuration file's shape read through `toml`'s own value tree: the
// fields an older file lacks stay `None` for the library to default.
fn config_from_toml(text: &str) -> Option<FanConfig> {
    let value: toml::Value = toml::from_str(text).ok()?;
    let table = value.as_table()?;
    let mode = match table.get("active_mode") {
        None => None,
        Some(m) => Some(match m.as_str()? {
            "quiet" => ControlMode::Quiet,
            "performance" => ControlMode::Performance,
            "overboost" => ControlMode::Overboost,
            "custom" => ControlMode::Custom,
            _ => return None,
        }),
    };
    let paired = match table.get("paired_edit") {
        None => None,
        Some(p) => Some(p.as_bool()?),
    };
    let fan = |name: &str| -> Option<FanCurve> {
        let points = table.get(name)?.as_table()?.get("points")?.as_array()?;
        let mut out = Vec::new();
        for p in points {
            let p = p.as_table()?;
            let temp = p.get("temp")?.as_float()?;
            let speed = p.get("speed")?.as_float()?;
            out.push(CurvePoint {
                temp: (temp * 1000.0).round() as i32,
                speed: (speed * 1000.0).round() as i32,
            });
        }
        Some(FanCurve { points: out })
    };
    Some(FanConfig::from_file_fields(mode, paired, fan("fan1")?, fan("fan2")?))
}

#[test]
fn old_config_shape_loads_with_default_mode_and_pairing() {
    let config: FanConfig = config_from_toml(
        r#"
[fan1]
points = [{ temp = 40.0, speed = 0.0 }, { temp = 80.0, speed = 100.0 }]

[fan2]
points = [{ temp = 40.0, speed = 0.0 }, { temp = 80.0, speed = 100.0 }]
"#,
    )
    .expect("old config shape should still load");

    assert_eq!(config.active_mode, ControlMode::Custom);
    assert!(config.paired_edit);
}

#[test]
fn file_fields_override_the_defaults() {
    let config = FanConfig::from_file_fields(
        Some(ControlMode::Quiet),
        Some(false),
        curve(&[(40_000, 0)]),
        curve(&[]),
    );
    assert_eq!(config.active_mode, ControlMode::Quiet);
    assert!(!config.paired_edit);
    assert_eq!(config.fan1.points.len(), 1);
    assert_eq!(config.fan2.points.len(), 0);
}

#[test]
fn unsorted_curve_stays_within_its_point_speeds() {
    let fan_curve = curve(&[(60_000, 30_000), (40_000, 10_000), (90_000, 50_000), (50_000, 20_000)]);
    let mut t = 30_000;
    while t <= 100_000 {
        let s = interpolate(t, &fan_curve);
        assert!((10..=50).contains(&s));
        t += 500;
    }
}

#[test]
fn default_paired_edit_is_true() {
    assert!(default_paired_edit());
}

#[test]
fn default_curves_hold_the_documented_points() {
    let c = FanConfig::default();
    let f1: Vec<(i32, i32)> = c.fan1.points.iter().map(|p| (p.temp, p.speed)).collect();
    let f2: Vec<(i32, i32)> = c.fan2.points.iter().map(|p| (p.temp, p.speed)).collect();
    assert_eq!(
        f1,
        vec![(40_000, 0), (55_000, 20_000), (70_000, 50_000), (85_000, 80_000), (95_000, 100_000)]
    );
    assert_eq!(
        f2,
        vec![(40_000, 0), (55_000, 15_000), (70_000, 40_000), (85_000, 70_000), (95_000, 100_000)]
    );
}

#[test]
fn mode_labels_and_profile_values() {
    assert_eq!(ControlMode::Quiet.label(), "Quiet");
    assert_eq!(ControlMode::Performance.label(), "Performance");
    assert_eq!(ControlMode::Overboost.label(), "Overboost");
    assert_eq!(ControlMode::Custom.label(), "Custom");
    assert_eq!(ControlMode::Quiet.ec_profile_value(), Some(1));
    assert_eq!(ControlMode::Performance.ec_profile_value(), Some(2));
    assert_eq!(ControlMode::Overboost.ec_profile_value(), Some(3));
    assert_eq!(ControlMode::Custom.ec_profile_value(), None);
    assert_eq!(ControlMode::default(), ControlMode::Custom);
}

#[test]
fn speed_rounds_half_away_from_zero_and_clamps() {
    assert_eq!(speed_to_percent(2_499), 2);
    assert_eq!(speed_to_percent(2_500), 3);
    assert_eq!(speed_to_percent(99_500), 100);
    assert_eq!(speed_to_percent(250_000), 100);
    assert_eq!(speed_to_percent(-400), 0);
    assert_eq!(speed_to_percent(-2_500), 0);
}

#[test]
fn interpolate_rounds_the_line_to_whole_percent() {
    // 40°C 0% to 55°C 20%: at 47.5°C the line gives 10%, at 41°C 1.333..%.
    let fan_curve = curve(&[(40_000, 0), (55_000, 20_000)]);
    assert_eq!(interpolate(47_500, &fan_curve), 10);
    assert_eq!(interpolate(41_000, &fan_curve), 1);
    // 3/8 of the way from 0% to 4%: 1.5% rounds up to 2%.
    let steep = curve(&[(0, 0), (8_000, 4_000)]);
    assert_eq!(interpolate(3_000, &steep), 2);
}

#[test]
fn interpolate_uses_first_matching_segment_of_unsorted_curve() {
    // The first segment that holds 100°C is the one from 40°C to 120°C.
    let fan_curve = curve(&[(40_000, 10_000), (120_000, 50_000), (60_000, 90_000), (150_000, 20_000)]);
    assert_eq!(interpolate(100_000, &fan_curve), 40);
    let odd = curve(&[(40_000, 10_000), (50_000, 20_000), (30_000, 30_000), (90_000, 40_000)]);
    assert_eq!(interpolate(55_000, &odd), 34);
}

#[test]
fn default_curve_passes_through_its_points_and_rises() {
    let c = FanConfig::default();
    assert_eq!(interpolate(55_000, &c.fan1), 20);
    assert_eq!(interpolate(70_000, &c.fan1), 50);
    assert_eq!(interpolate(85_000, &c.fan2), 70);
    let mut last = 0;
    let mut t = 30_000;
    while t <= 100_000 {
        let s = interpolate(t, &c.fan1);
        assert!(s >= last);
        last = s;
        t += 250;
    }
}
