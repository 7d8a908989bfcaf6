use tuxfans::config::FanConfig;
use tuxfans::controller::{
    daemon_start_actions, fan_test_actions, limit_falling_speed, profile_actions,
    release_actions, safety_min_speed, DaemonState, EcAction, TickSpeeds,
};
use tuxfans::config::ControlMode;
use tuxfans::filter::median;

#[test]
fn median_picks_the_middle_sample() {
    assert_eq!(median(&vec![5]), 5);
    assert_eq!(median(&vec![3, 1, 2]), 2);
    // With an even count the upper of the two middle values is taken.
    assert_eq!(median(&vec![10, 40, 20, 30]), 30);
    assert_eq!(median(&vec![7, 7, 1, 7, 9]), 7);
    assert_eq!(median(&vec![-5, -1, -3]), -3);
}

#[test]
fn median_ignores_a_short_spike() {
    let mut samples = vec![50_000; 7];
    samples.extend(vec![99_000; 6]);
    assert_eq!(median(&samples), 50_000);
}

#[test]
fn safety_floor_by_temperature() {
    assert_eq!(safety_min_speed(79_999), 0);
    assert_eq!(safety_min_speed(80_000), 30);
    assert_eq!(safety_min_speed(89_999), 30);
    assert_eq!(safety_min_speed(90_000), 40);
}

#[test]
fn falling_limiter_holds_back_drops_above_twenty() {
    assert_eq!(limit_falling_speed(Some(50), 10), 48);
    assert_eq!(limit_falling_speed(Some(50), 49), 49);
    assert_eq!(limit_falling_speed(Some(21), 0), 19);
    assert_eq!(limit_falling_speed(Some(20), 0), 0);
    assert_eq!(limit_falling_speed(Some(30), 80), 80);
    assert_eq!(limit_falling_speed(None, 0), 0);
}

#[test]
fn daemon_tick_without_reading_writes_nothing() {
    let config = FanConfig::default();
    let mut state = DaemonState::new();
    assert_eq!(state.tick(&config, None), None);
    assert_eq!(
        state.tick(&config, Some(60_000)),
        Some(TickSpeeds { temp: 60_000, fan1: 30, fan2: 23 })
    );
    assert_eq!(state.tick(&config, None), None);
}

#[test]
fn daemon_tick_filters_and_limits() {
    let config = FanConfig::default();
    let mut state = DaemonState::new();
    assert_eq!(
        state.tick(&config, Some(95_000)),
        Some(TickSpeeds { temp: 95_000, fan1: 100, fan2: 100 })
    );
    // Two samples: the upper middle value is still 95°C.
    assert_eq!(
        state.tick(&config, Some(40_000)),
        Some(TickSpeeds { temp: 95_000, fan1: 100, fan2: 100 })
    );
    // Three samples: the median drops to 40°C, the curve to 0%, but the
    // limiter lets the fans fall by 2% only.
    assert_eq!(
        state.tick(&config, Some(40_000)),
        Some(TickSpeeds { temp: 40_000, fan1: 98, fan2: 98 })
    );
    assert_eq!(
        state.tick(&config, Some(40_000)),
        Some(TickSpeeds { temp: 40_000, fan1: 96, fan2: 96 })
    );
}

#[test]
fn daemon_tick_applies_the_safety_floor() {
    // A flat curve at 10% still runs the fans at 40% at 90°C.
    let mut config = FanConfig::default();
    config.fan1.points = vec![tuxfans::config::CurvePoint { temp: 40_000, speed: 10_000 }];
    let mut state = DaemonState::new();
    assert_eq!(
        state.tick(&config, Some(91_000)),
        Some(TickSpeeds { temp: 91_000, fan1: 40, fan2: 88 })
    );
}

#[test]
fn daemon_window_keeps_thirteen_samples() {
    let config = FanConfig::default();
    let mut state = DaemonState::new();
    for _ in 0..13 {
        state.tick(&config, Some(95_000));
    }
    // Six cool samples are a minority of thirteen.
    for _ in 0..6 {
        let out = state.tick(&config, Some(40_000)).unwrap();
        assert_eq!(out.temp, 95_000);
    }
    // The seventh makes them the majority of the window.
    let out = state.tick(&config, Some(40_000)).unwrap();
    assert_eq!(out.temp, 40_000);
}

#[test]
fn profile_and_daemon_actions() {
    assert_eq!(
        profile_actions(ControlMode::Quiet),
        vec![EcAction::SetManualMode(false), EcAction::SetAuto, EcAction::SetPerformanceProfile(1)]
    );
    assert_eq!(
        profile_actions(ControlMode::Overboost),
        vec![EcAction::SetManualMode(false), EcAction::SetAuto, EcAction::SetPerformanceProfile(3)]
    );
    assert_eq!(profile_actions(ControlMode::Custom), vec![]);
    assert_eq!(daemon_start_actions(ControlMode::Custom), vec![EcAction::SetManualMode(true)]);
    assert_eq!(
        daemon_start_actions(ControlMode::Performance),
        vec![EcAction::SetManualMode(false), EcAction::SetAuto, EcAction::SetPerformanceProfile(2)]
    );
    assert_eq!(release_actions(), vec![EcAction::SetManualMode(false), EcAction::SetAuto]);
    assert_eq!(
        fan_test_actions(70),
        vec![EcAction::SetManualMode(true), EcAction::SetFanSpeeds(70, 70)]
    );
}
