use mqtt_pid::cell::MeasurementCell;
use mqtt_pid::config::{ConfigError, LoopConfig, RunArgs};
use mqtt_pid::control::{quantize_output, ControlScheduler, TickAction};
use mqtt_pid::debounce::{FailurePolicy, OutputDebouncer};
use mqtt_pid::decode::{decode_measurement, ingest_payload};
use mqtt_pid::watchdog::{LinkState, Watchdog};
use pid::Pid;

fn proportional_only(setpoint: f64) -> Pid<f64> {
    let mut pid = Pid::<f64>::new(setpoint, 100.0);
    pid.p(1.0, 100.0);
    pid.i(0.0, 100.0);
    pid.d(0.0, 100.0);
    pid
}

fn rounded(pid: &mut Pid<f64>, measurement: u16) -> i64 {
    pid.next_control_output(measurement as f64).output.round() as i64
}

#[test]
fn cell_starts_at_zero() {
    let cell = MeasurementCell::new();
    assert_eq!(cell.get_latest(), 0);
}

#[test]
fn cell_keeps_only_the_last_write() {
    let mut cell = MeasurementCell::new();
    for v in [5u16, 900, 17, 65535, 3] {
        cell.set(v);
    }
    assert_eq!(cell.get_latest(), 3);
    cell.set(3);
    cell.set(40);
    assert_eq!(cell.get_latest(), 40);
    assert_eq!(cell.get_latest(), 40);
}

#[test]
fn decode_accepts_plain_decimal() {
    assert_eq!(decode_measurement(b"42"), Some(42));
    assert_eq!(decode_measurement(b"0"), Some(0));
    assert_eq!(decode_measurement(b"007"), Some(7));
    assert_eq!(decode_measurement(b"+7"), Some(7));
    assert_eq!(decode_measurement(b"65535"), Some(65535));
}

#[test]
fn decode_rejects_malformed_payloads() {
    assert_eq!(decode_measurement(b""), None);
    assert_eq!(decode_measurement(b"+"), None);
    assert_eq!(decode_measurement(b"-1"), None);
    assert_eq!(decode_measurement(b"-0"), None);
    assert_eq!(decode_measurement(b"++5"), None);
    assert_eq!(decode_measurement(b"4a"), None);
    assert_eq!(decode_measurement(b" 5"), None);
    assert_eq!(decode_measurement(b"2.5"), None);
    assert_eq!(decode_measurement(b"65536"), None);
    assert_eq!(decode_measurement(b"9999999999999"), None);
    assert_eq!(decode_measurement(&[0xff, 0x31]), None);
}

#[test]
fn decode_matches_std_parsing() {
    for text in ["1", "+12", "65535", "65536", "", "+", "-3", "x", "00000123", "1 "] {
        let expected = std::str::from_utf8(text.as_bytes())
            .ok()
            .and_then(|s| s.parse::<u16>().ok());
        assert_eq!(decode_measurement(text.as_bytes()), expected, "{text:?}");
    }
}

#[test]
fn malformed_payload_leaves_cell_unchanged() {
    let mut cell = MeasurementCell::new();
    assert!(ingest_payload(&mut cell, b"12"));
    assert_eq!(cell.get_latest(), 12);
    assert!(!ingest_payload(&mut cell, b"twelve"));
    assert_eq!(cell.get_latest(), 12);
    assert!(ingest_payload(&mut cell, b"30"));
    assert_eq!(cell.get_latest(), 30);
}

#[test]
fn quantize_clamps_to_bounds() {
    assert_eq!(quantize_output(-5, 0, 100), 0);
    assert_eq!(quantize_output(150, 0, 100), 100);
    assert_eq!(quantize_output(37, 0, 100), 37);
    assert_eq!(quantize_output(i64::MIN, 10, 20), 10);
    assert_eq!(quantize_output(i64::MAX, 10, 20), 20);
    assert_eq!(quantize_output(15, 15, 15), 15);
}

#[test]
fn outputs_stay_within_bounds_for_any_measurements() {
    let mut config = LoopConfig::standard();
    config.min_output = 10;
    config.max_output = 60;
    let mut scheduler = ControlScheduler::new(&config);
    let mut pid = proportional_only(50.0);
    for m in [0u16, 100, 65535, 50, 45, 7, 1000] {
        match scheduler.on_tick(rounded(&mut pid, m), LinkState::Healthy) {
            TickAction::Publish(v) => {
                assert!((10..=60).contains(&v));
                scheduler.on_publish_result(v, true);
            }
            TickAction::Unchanged(v) => assert!((10..=60).contains(&v)),
            TickAction::Halt => panic!("the link is healthy"),
        }
    }
}

#[test]
fn proportional_scenario_publishes_only_changes() {
    let mut scheduler = ControlScheduler::new(&LoopConfig::standard());
    let mut pid = proportional_only(50.0);

    let first = scheduler.on_tick(rounded(&mut pid, 0), LinkState::Healthy);
    assert_eq!(first, TickAction::Publish(50));
    scheduler.on_publish_result(50, true);

    let second = scheduler.on_tick(rounded(&mut pid, 30), LinkState::Healthy);
    assert_eq!(second, TickAction::Publish(20));
    scheduler.on_publish_result(20, true);

    let third = scheduler.on_tick(rounded(&mut pid, 30), LinkState::Healthy);
    assert_eq!(third, TickAction::Unchanged(20));
}

#[test]
fn first_output_is_always_emitted() {
    let debouncer = OutputDebouncer::new(FailurePolicy::RetryOnNextTick);
    assert_eq!(debouncer.remembered_value(), None);
    assert!(debouncer.should_publish(0));
    assert!(debouncer.should_publish(255));
}

#[test]
fn successful_publish_is_not_repeated() {
    for policy in [FailurePolicy::RetryOnNextTick, FailurePolicy::DropUntilChange] {
        let mut debouncer = OutputDebouncer::new(policy);
        assert!(debouncer.should_publish(7));
        debouncer.record_outcome(7, true);
        assert!(!debouncer.should_publish(7));
        assert!(!debouncer.should_publish(7));
        assert!(debouncer.should_publish(8));
        assert_eq!(debouncer.remembered_value(), Some(7));
    }
}

#[test]
fn failed_publish_is_retried_under_retry_policy() {
    let mut scheduler = ControlScheduler::new(&LoopConfig::standard());
    let mut pid = proportional_only(50.0);
    assert_eq!(scheduler.on_tick(rounded(&mut pid, 0), LinkState::Healthy), TickAction::Publish(50));
    scheduler.on_publish_result(50, true);
    assert_eq!(scheduler.on_tick(rounded(&mut pid, 30), LinkState::Healthy), TickAction::Publish(20));
    scheduler.on_publish_result(20, false);
    assert_eq!(scheduler.on_tick(rounded(&mut pid, 30), LinkState::Healthy), TickAction::Publish(20));
    scheduler.on_publish_result(20, true);
    assert_eq!(scheduler.on_tick(rounded(&mut pid, 30), LinkState::Healthy), TickAction::Unchanged(20));
}

#[test]
fn failed_publish_is_dropped_under_drop_policy() {
    let mut config = LoopConfig::standard();
    config.failure_policy = FailurePolicy::DropUntilChange;
    let mut scheduler = ControlScheduler::new(&config);
    let mut pid = proportional_only(50.0);
    assert_eq!(scheduler.on_tick(rounded(&mut pid, 0), LinkState::Healthy), TickAction::Publish(50));
    scheduler.on_publish_result(50, true);
    assert_eq!(scheduler.on_tick(rounded(&mut pid, 30), LinkState::Healthy), TickAction::Publish(20));
    scheduler.on_publish_result(20, false);
    assert_eq!(scheduler.on_tick(rounded(&mut pid, 30), LinkState::Healthy), TickAction::Unchanged(20));
    assert_eq!(scheduler.on_tick(rounded(&mut pid, 40), LinkState::Healthy), TickAction::Publish(10));
}

#[test]
fn watchdog_dies_at_threshold() {
    let mut watchdog = Watchdog::new(1_000, 30_000);
    assert_eq!(watchdog.check(30_999), LinkState::Healthy);
    assert_eq!(watchdog.check(31_000), LinkState::Dead);
    assert_eq!(watchdog.state(), LinkState::Dead);
}

#[test]
fn liveness_signal_restarts_the_timer() {
    let mut watchdog = Watchdog::new(0, 30_000);
    watchdog.signal(20_000);
    assert_eq!(watchdog.check(45_000), LinkState::Healthy);
    assert_eq!(watchdog.check(50_000), LinkState::Dead);
}

#[test]
fn dead_watchdog_stays_dead() {
    let mut watchdog = Watchdog::new(0, 10);
    assert_eq!(watchdog.check(10), LinkState::Dead);
    watchdog.signal(11);
    assert_eq!(watchdog.check(12), LinkState::Dead);
    assert_eq!(watchdog.state(), LinkState::Dead);
}

#[test]
fn clock_going_backwards_keeps_link_healthy() {
    let mut watchdog = Watchdog::new(5_000, 1_000);
    watchdog.signal(4_000);
    assert_eq!(watchdog.check(4_500), LinkState::Healthy);
    assert_eq!(watchdog.check(6_000), LinkState::Dead);
}

#[test]
fn no_publish_after_link_death() {
    let mut watchdog = Watchdog::new(0, 30_000);
    let mut scheduler = ControlScheduler::new(&LoopConfig::standard());
    assert_eq!(scheduler.on_tick(40, watchdog.check(1_000)), TickAction::Publish(40));
    scheduler.on_publish_result(40, true);
    assert_eq!(scheduler.on_tick(41, watchdog.check(30_000)), TickAction::Halt);
    assert!(scheduler.is_halted());
    assert_eq!(scheduler.on_tick(42, LinkState::Healthy), TickAction::Halt);
    assert_eq!(scheduler.on_tick(43, watchdog.check(31_000)), TickAction::Halt);
}

#[test]
fn standard_config_is_valid() {
    let config = LoopConfig::standard();
    assert_eq!(config.min_output, 0);
    assert_eq!(config.max_output, 100);
    assert_eq!(config.tick_ms, 1000);
    assert_eq!(config.liveness_timeout_ms, 30_000);
    assert_eq!(config.validate(), Ok(()));
}

#[test]
fn invalid_loop_config_is_rejected() {
    let mut config = LoopConfig::standard();
    config.min_output = 101;
    assert_eq!(config.validate(), Err(ConfigError::InvertedBounds));
    let mut config = LoopConfig::standard();
    config.tick_ms = 0;
    assert_eq!(config.validate(), Err(ConfigError::ZeroTickInterval));
    let mut config = LoopConfig::standard();
    config.liveness_timeout_ms = 0;
    assert_eq!(config.validate(), Err(ConfigError::ZeroLivenessTimeout));
}

fn run_args(input: &str, output: &str, host: &str) -> RunArgs {
    RunArgs {
        input_topic: input.to_string(),
        output_topic: output.to_string(),
        mqtt_host: host.to_string(),
        mqtt_port: 1883,
    }
}

#[test]
fn run_args_require_topics_and_host() {
    assert_eq!(run_args("in", "out", "broker").validate(), Ok(()));
    assert_eq!(run_args("", "out", "broker").validate(), Err(ConfigError::EmptyInputTopic));
    assert_eq!(run_args("in", "", "broker").validate(), Err(ConfigError::EmptyOutputTopic));
    assert_eq!(run_args("in", "out", "").validate(), Err(ConfigError::EmptyBrokerHost));
    assert_eq!(run_args("", "", "").validate(), Err(ConfigError::EmptyInputTopic));
}

#[test]
fn silence_is_detected_within_one_check_spacing() {
    let mut watchdog = Watchdog::new(0, 30_000);
    let mut now = 500u64;
    while watchdog.check(now) == LinkState::Healthy {
        assert!(now < 30_000);
        now += 1_000;
    }
    assert_eq!(now, 30_500);
    assert!(now <= 30_000 + 1_000);
}
