//! Readings, how they age, and the alerts raised on them.

use kori::measure::Measured;
use kori::profile::Channel;
use kori::telemetry::{
    clamp_percent, format_binary_bytes, format_temperature, liquid_critical, AlertTracker,
    ChannelTelemetry, Collector, CollectorFailure, History, KrakenTelemetry, MemoryUsage,
    MetricView, PwmMode, Reading, Retained, SafetyAlert, TelemetrySnapshot, Unavailable,
    DROP_AFTER_MS, STALE_AFTER_MS, STALL_SAMPLE_COUNT,
};

fn measured(value: f32) -> Measured {
    if value.is_nan() {
        Measured::NotANumber
    } else if value == f32::INFINITY {
        Measured::PositiveInfinity
    } else if value == f32::NEG_INFINITY {
        Measured::NegativeInfinity
    } else {
        Measured::Finite { thousandths: (f64::from(value) * 1000.0).round() as i32 }
    }
}

fn valid(value: f32) -> Reading<Measured> {
    Reading::valid(measured(value))
}

fn missing() -> Reading<Measured> {
    Reading::unavailable(Unavailable::unreadable("/sys/.../temp1_input: EIO"))
}

#[test]
fn converting_a_reading_keeps_a_gap_as_a_gap() {
    let valid: Reading<u16> = Reading::valid(2_970);
    assert_eq!(valid.map(|rpm| f32::from(*rpm)).copied(), Some(2_970.0));

    // The whole point: a failure must not become a zero on the way through.
    let missing: Reading<u16> = Reading::unavailable(Unavailable::unreadable("fan1_input"));
    let widened = missing.map(|rpm| f32::from(*rpm));
    assert_eq!(widened.value(), None);
    assert!(widened.cause().is_some(), "the reason has to survive");
}

#[test]
fn an_unreadable_metric_is_unavailable_with_its_cause_not_a_zero() {
    let reading = missing();
    assert!(!reading.is_valid());
    assert_eq!(reading.copied(), None);
    let cause = reading.cause().unwrap();
    assert!(cause.detail().contains("EIO"), "{cause:?}");
}

#[test]
fn telemetry_converting_a_view_keeps_how_old_it_is() {
    let fresh: MetricView<u8> = MetricView::Fresh { value: 180 };
    assert_eq!(fresh.map(|duty| f32::from(*duty)).copied(), Some(180.0));

    let stale: MetricView<u8> = MetricView::Stale { value: 180, age_ms: 3_000 };
    let widened = stale.map(|duty| f32::from(*duty));
    assert!(widened.is_stale(), "freshness is a state, not a label");
    assert_eq!(widened.copied(), Some(180.0));

    let missing: MetricView<u8> = MetricView::Unavailable {
        cause: Some(Unavailable::unreadable("pwm1")),
    };
    let widened = missing.map(|duty| f32::from(*duty));
    assert!(widened.is_unavailable());
    assert_eq!(widened.copied(), None);
}

#[test]
fn view_converting_a_view_keeps_how_old_it_is() {
    let fresh: MetricView<u8> = MetricView::Fresh { value: 180 };
    assert_eq!(fresh.map(|duty| f32::from(*duty)).copied(), Some(180.0));

    let stale: MetricView<u8> = MetricView::Stale { value: 180, age_ms: 3_000 };
    let widened = stale.map(|duty| f32::from(*duty));
    assert!(widened.is_stale(), "freshness is a state, not a label");
    assert_eq!(widened.copied(), Some(180.0));

    let missing: MetricView<u8> = MetricView::Unavailable {
        cause: Some(Unavailable::unreadable("pwm1")),
    };
    let widened = missing.map(|duty| f32::from(*duty));
    assert!(widened.is_unavailable());
    assert_eq!(widened.copied(), None);
}

fn a_value_ages_out() {
    let mut retained = Retained::new();
    retained.observe(&valid(29.8), 10_000);

    assert_eq!(retained.view(10_500), MetricView::Fresh { value: measured(29.8) });

    // A read failure does not blank the readout.
    retained.observe(&missing(), 11_000);
    assert_eq!(retained.view(11_500), MetricView::Fresh { value: measured(29.8) });

    let stale = retained.view(10_000 + STALE_AFTER_MS);
    assert!(stale.is_stale(), "{stale:?}");
    assert_eq!(stale.copied(), Some(measured(29.8)));
    assert_eq!(stale.qualifier(), Some("Stale"));

    let dropped = retained.view(10_000 + DROP_AFTER_MS);
    assert!(dropped.is_unavailable(), "{dropped:?}");
    assert_eq!(dropped.copied(), None);
    assert!(dropped.detail().unwrap().contains("EIO"));
}

#[test]
fn telemetry_a_retained_value_becomes_stale_then_disappears() {
    a_value_ages_out();
}

#[test]
fn view_a_retained_value_becomes_stale_then_disappears() {
    a_value_ages_out();
}

fn a_sample_clears_a_failure() {
    let mut retained = Retained::new();
    retained.observe(&valid(29.8), 0);
    retained.observe(&missing(), 1_000);
    retained.observe(&valid(31.2), 2_000);
    assert_eq!(retained.view(2_100), MetricView::Fresh { value: measured(31.2) });
    assert_eq!(retained.view(2_100).detail(), None);
}

#[test]
fn telemetry_a_fresh_sample_clears_a_previous_failure() {
    a_sample_clears_a_failure();
}

#[test]
fn view_a_fresh_sample_clears_a_previous_failure() {
    a_sample_clears_a_failure();
}

#[test]
fn telemetry_a_metric_never_sampled_is_unavailable_from_the_start() {
    let retained: Retained<Measured> = Retained::new();
    assert!(retained.view(0).is_unavailable());
    assert_eq!(retained.view(0).qualifier(), Some("N/A"));
}

#[test]
fn view_a_metric_never_sampled_is_unavailable_from_the_start() {
    let retained: Retained<Measured> = Retained::new();
    assert!(retained.view(0).is_unavailable());
    assert_eq!(retained.view(0).qualifier(), Some("N/A"));
}

fn a_history_is_windowed() {
    let mut history = History::new(10_000);
    for step in 0..20u64 {
        let at = step * 1_000;
        history.push(at, if step == 5 { None } else { Some(measured(step as f32)) });
    }

    assert!(history.len() <= 11, "{} points retained", history.len());
    let points = history.points();
    let oldest = points.first().unwrap();
    assert!(oldest.at_unix_ms >= 19_000 - 10_000);
    // The gap survives pruning as an explicit hole, not as a zero.
    let mut history = History::new(10_000);
    history.push(0, Some(measured(1.0)));
    history.push(1_000, None);
    history.push(2_000, Some(measured(3.0)));
    assert_eq!(history.points().iter().filter(|p| p.value.is_none()).count(), 1);
    assert_eq!(history.len(), 3);
}

#[test]
fn a_history_is_in_time_order_and_inside_its_window_in_every_state() {
    let mut history = History::new(3_000);
    for at in [5_000u64, 4_000, 6_500, 6_500, 9_501, 2_000, 9_501, 60_000] {
        history.push(at, None);
        let points = history.points();
        assert!(points.windows(2).all(|pair| pair[0].at_unix_ms <= pair[1].at_unix_ms));
        let newest = points.last().unwrap().at_unix_ms;
        assert!(points.iter().all(|point| point.at_unix_ms + history.window_ms() >= newest));
        let copy = history.clone();
        assert_eq!(copy.points(), points);
        assert_eq!(copy.window_ms(), history.window_ms());
    }
    assert_eq!(history.len(), 1);
}

#[test]
fn telemetry_history_keeps_only_the_window_and_records_gaps() {
    a_history_is_windowed();
}

#[test]
fn view_history_keeps_only_the_window_and_records_gaps() {
    a_history_is_windowed();
}

#[test]
fn telemetry_history_ignores_a_point_that_travels_backwards_in_time() {
    let mut history = History::new(10_000);
    history.push(5_000, Some(measured(1.0)));
    history.push(4_000, Some(measured(2.0)));
    assert_eq!(history.len(), 1);
}

#[test]
fn view_history_ignores_a_point_that_travels_backwards_in_time() {
    let mut history = History::new(10_000);
    history.push(5_000, Some(measured(1.0)));
    history.push(4_000, Some(measured(2.0)));
    assert_eq!(history.len(), 1);
}

#[test]
fn telemetry_the_default_history_window_is_fifteen_minutes() {
    assert_eq!(History::default().window_ms(), 15 * 60 * 1_000);
}

#[test]
fn view_the_default_history_window_is_fifteen_minutes() {
    assert_eq!(History::default().window_ms(), 15 * 60 * 1_000);
}

#[test]
fn pwm_modes_round_trip_through_the_kernel_abi() {
    for mode in [PwmMode::FullSpeed, PwmMode::Fixed, PwmMode::Curve] {
        assert_eq!(PwmMode::from_kernel(mode.to_kernel()), Some(mode));
        assert!(!mode.label().is_empty());
    }
    assert_eq!(PwmMode::from_kernel(3), None);
    // Mode 0 is the firmware failsafe, not "off".
    assert!(PwmMode::FullSpeed.label().contains("100%"));
}

#[test]
fn percentages_are_clamped_and_temperatures_keep_one_decimal() {
    assert_eq!(clamp_percent(measured(-5.0)), Some(measured(0.0)));
    assert_eq!(clamp_percent(measured(140.0)), Some(measured(100.0)));
    assert_eq!(format_temperature(measured(46.75)), "46.8");
    assert_eq!(format_temperature(measured(29.0)), "29.0");
}

#[test]
fn a_percentage_that_is_not_a_number_never_becomes_zero_or_a_hundred() {
    for impossible in [f32::NAN, f32::INFINITY, f32::NEG_INFINITY] {
        assert_eq!(clamp_percent(measured(impossible)), None, "{impossible}");

        let reading = Reading::percent(measured(impossible), "/proc/stat");
        assert!(!reading.is_valid());
        let detail = reading.cause().unwrap().detail();
        assert!(detail.contains("/proc/stat"), "{detail}");
        assert!(detail.contains("finite percentage"), "{detail}");
    }

    // A value that is a number still arrives clamped and valid.
    assert_eq!(Reading::percent(measured(140.0), "nvml").copied(), Some(measured(100.0)));
    assert_eq!(Reading::percent(measured(-1.0), "nvml").copied(), Some(measured(0.0)));
    assert_eq!(Reading::percent(measured(42.5), "nvml").copied(), Some(measured(42.5)));
}

#[test]
fn temperatures_keep_exactly_one_decimal() {
    assert_eq!(format_temperature(measured(46.75)), "46.8");
    assert_eq!(format_temperature(measured(29.0)), "29.0");
}

#[test]
fn telemetry_memory_is_reported_in_explicit_binary_units() {
    assert_eq!(format_binary_bytes(0), "0 B");
    assert_eq!(format_binary_bytes(2048), "2 KiB");
    assert_eq!(format_binary_bytes(12 * 1024 * 1024), "12 MiB");
    assert_eq!(format_binary_bytes(32 * 1024 * 1024 * 1024), "32.0 GiB");
}

#[test]
fn view_memory_is_reported_in_explicit_binary_units() {
    assert_eq!(format_binary_bytes(0), "0 B");
    assert_eq!(format_binary_bytes(2048), "2 KiB");
    assert_eq!(format_binary_bytes(12 * 1024 * 1024), "12 MiB");
    assert_eq!(format_binary_bytes(32 * 1024 * 1024 * 1024), "32.0 GiB");
}

#[test]
fn memory_occupancy_is_a_clamped_percentage_or_nothing_at_all() {
    let usage = MemoryUsage { used_bytes: 512, total_bytes: 1024 };
    assert_eq!(usage.percent(), Some(measured(50.0)));

    assert_eq!(MemoryUsage { used_bytes: 1, total_bytes: 0 }.percent(), None);
    // Including when nothing at all was read, which is the shape the
    // collector produces before it has answered once.
    assert_eq!(MemoryUsage { used_bytes: 0, total_bytes: 0 }.percent(), None);
    assert_eq!(
        MemoryUsage { used_bytes: 9, total_bytes: 3 }.percent(),
        Some(measured(100.0))
    );
}

#[test]
fn an_absent_kraken_reports_every_field_unavailable() {
    let telemetry =
        KrakenTelemetry::absent(1, Unavailable::no_device("1e71:300e is not present"));
    assert!(!telemetry.present);
    assert!(!telemetry.liquid_temperature_c.is_valid());
    for channel in [Channel::Pump, Channel::Fan] {
        let entry = telemetry.channel(channel);
        assert_eq!(entry.channel, channel);
        assert!(!entry.rpm.is_valid());
        assert!(!entry.duty.is_valid());
        assert!(!entry.mode.is_valid());
        assert_eq!(entry.duty_percent(), None);
    }
}

#[test]
fn a_snapshot_knows_how_old_it_is() {
    let snapshot = TelemetrySnapshot::unavailable(1_700, Unavailable::absent("no hwmon"));
    assert_eq!(snapshot.age_ms(2_000), 300);
    assert_eq!(snapshot.age_ms(1_000), 0);
}

#[test]
fn a_wedged_section_ages_without_dragging_the_others_with_it() {
    let mut snapshot = TelemetrySnapshot::unavailable(10_000, Unavailable::absent("none"));
    snapshot.kraken.at_unix_ms = 10_000;
    snapshot.system.at_unix_ms = 10_000;
    // The GPU collector stopped publishing eight seconds ago.
    snapshot.gpu.at_unix_ms = 2_000;

    assert_eq!(snapshot.oldest_section_age_ms(10_500), 8_500);
    assert_eq!(snapshot.kraken.at_unix_ms.max(snapshot.system.at_unix_ms), 10_000);
}

#[test]
fn a_failed_collector_is_findable_by_name() {
    let mut snapshot = TelemetrySnapshot::unavailable(1, Unavailable::absent("none"));
    snapshot.failed.push(CollectorFailure {
        collector: Collector::Gpu,
        detail: "the collector panicked".to_string(),
    });
    assert!(snapshot.failure(Collector::Gpu).is_some());
    assert!(snapshot.failure(Collector::Cpu).is_none());
    assert_eq!(Collector::Gpu.label(), "GPU");
}

#[test]
fn one_decimal_is_what_single_precision_prints() {
    for thousandths in -70_000..70_000i32 {
        let value = thousandths as f32 / 1000.0;
        let own = Measured::Finite { thousandths };
        assert_eq!(own.one_decimal(), format!("{value:.1}"), "{thousandths}");
        assert_eq!(own.whole(), format!("{value:.0}"), "{thousandths}");
    }
    for thousandths in (-2_000_000_000..2_000_000_000i32).step_by(99_991) {
        let value = (f64::from(thousandths) / 1000.0) as f32;
        let own = Measured::Finite { thousandths };
        assert_eq!(own.one_decimal(), format!("{value:.1}"), "{thousandths}");
    }
    assert_eq!(Measured::NotANumber.one_decimal(), format!("{:.1}", f32::NAN));
    assert_eq!(Measured::PositiveInfinity.one_decimal(), format!("{:.1}", f32::INFINITY));
    assert_eq!(Measured::NegativeInfinity.whole(), format!("{:.0}", f32::NEG_INFINITY));
}

#[test]
fn bytes_are_worded_as_double_precision_prints_them() {
    let gib = 1024.0 * 1024.0 * 1024.0;
    for bytes in [
        1u64 << 30,
        (1 << 30) + 53_687_091,
        3_435_973_837,
        17_179_869_184,
        34_359_738_367,
        u64::MAX,
    ] {
        let expected = format!("{:.1} GiB", bytes as f64 / gib);
        assert_eq!(format_binary_bytes(bytes), expected, "{bytes}");
    }
    assert_eq!(format_binary_bytes(1_572_864), format!("{:.0} MiB", 1.5));
    assert_eq!(format_binary_bytes(1023), "1023 B");
}

fn kraken(temperature_c: f32, mode: PwmMode, duty: u8, pump_rpm: u32) -> KrakenTelemetry {
    KrakenTelemetry {
        at_unix_ms: 0,
        present: true,
        liquid_temperature_c: Reading::valid(measured(temperature_c)),
        pump: ChannelTelemetry {
            channel: Channel::Pump,
            rpm: Reading::valid(pump_rpm),
            duty: Reading::valid(duty),
            mode: Reading::valid(mode),
        },
        fan: ChannelTelemetry {
            channel: Channel::Fan,
            rpm: Reading::valid(1_700),
            duty: Reading::valid(duty),
            mode: Reading::valid(mode),
        },
    }
}

#[test]
fn a_stalled_channel_alert_names_the_channel_and_its_readback() {
    let alert = SafetyAlert::ChannelStalled {
        channel: Channel::Pump,
        commanded_duty: 180,
        samples: STALL_SAMPLE_COUNT,
        rpm: 0,
    };
    let message = alert.message();
    assert_eq!(alert.channel(), Some(Channel::Pump));
    assert!(message.contains("Pump"), "{message}");
    assert!(message.contains("180"), "{message}");
    assert!(message.contains("0 RPM"), "{message}");
}

#[test]
fn the_critical_alert_states_that_the_failsafe_is_not_overridden() {
    let alert = SafetyAlert::LiquidCritical {
        temperature_c: measured(61.4),
        threshold_c: liquid_critical(),
    };
    let message = alert.message();
    assert!(message.contains("61.4"), "{message}");
    assert!(message.contains("overrides neither"), "{message}");
    assert_eq!(alert.channel(), None);
}

#[test]
fn the_critical_alert_claims_the_failsafe_only_where_it_is_evidenced() {
    let message = SafetyAlert::LiquidCritical {
        temperature_c: measured(62.0),
        threshold_c: liquid_critical(),
    }
    .message();

    assert!(message.contains("pump to 100%"), "{message}");
    assert!(
        !message.contains("both channels"),
        "the fan failsafe is not evidenced and must not be stated: {message}"
    );
    assert!(
        message.contains("not established"),
        "the gap has to be named, not left out: {message}"
    );
}

#[test]
fn a_single_zero_rpm_sample_is_not_yet_a_stall() {
    let mut tracker = AlertTracker::new();
    let stalled = kraken(30.0, PwmMode::Fixed, 180, 0);

    assert!(tracker.observe(&stalled).is_empty());
    assert!(tracker.observe(&stalled).is_empty());

    let alerts = tracker.observe(&stalled);
    assert_eq!(alerts.len(), 1);
    match &alerts[0] {
        SafetyAlert::ChannelStalled { channel, commanded_duty, samples, rpm } => {
            assert_eq!(*channel, Channel::Pump);
            assert_eq!(*commanded_duty, 180);
            assert_eq!(*samples, STALL_SAMPLE_COUNT);
            assert_eq!(*rpm, 0);
        }
        other => panic!("expected a stall, got {other:?}"),
    }

    // One good sample clears the streak.
    tracker.observe(&kraken(30.0, PwmMode::Fixed, 180, 2_900));
    assert!(tracker.observe(&stalled).is_empty());
}

#[test]
fn a_channel_commanded_to_zero_is_not_a_stall() {
    let mut tracker = AlertTracker::new();
    let idle = kraken(30.0, PwmMode::Fixed, 0, 0);
    for _ in 0..5 {
        assert!(tracker.observe(&idle).is_empty());
    }
}

#[test]
fn the_failsafe_mode_counts_as_a_full_duty_command() {
    let mut tracker = AlertTracker::new();
    // `pwmN` can hold anything in mode 0: the channel still runs at 100%.
    let stalled = kraken(30.0, PwmMode::FullSpeed, 0, 0);
    for _ in 0..STALL_SAMPLE_COUNT {
        let _ = tracker.observe(&stalled);
    }
    let alerts = tracker.observe(&stalled);
    assert!(matches!(
        alerts.first(),
        Some(SafetyAlert::ChannelStalled { commanded_duty: 255, .. })
    ));
}

#[test]
fn an_unreadable_sample_neither_raises_nor_clears_a_stall() {
    let mut tracker = AlertTracker::new();
    let stalled = kraken(30.0, PwmMode::Fixed, 180, 0);
    tracker.observe(&stalled);
    tracker.observe(&stalled);

    let mut unreadable = stalled.clone();
    unreadable.pump.rpm = Reading::unavailable(Unavailable::unreadable("EIO"));
    assert!(tracker.observe(&unreadable).is_empty());

    // The streak survived the gap rather than restarting from zero.
    assert!(!tracker.observe(&stalled).is_empty());
}

#[test]
fn the_liquid_alert_fires_on_the_first_sample_at_the_threshold() {
    let mut tracker = AlertTracker::new();
    assert!(tracker.observe(&kraken(59.9, PwmMode::Curve, 200, 2_900)).is_empty());
    let alerts = tracker.observe(&kraken(60.0, PwmMode::Curve, 200, 2_900));
    assert!(matches!(alerts.first(), Some(SafetyAlert::LiquidCritical { .. })));
}

#[test]
fn the_two_channels_keep_their_own_streaks() {
    let mut tracker = AlertTracker::new();
    let mut stalled_pump = kraken(30.0, PwmMode::Fixed, 180, 0);
    stalled_pump.fan.rpm = Reading::valid(1_700);

    for _ in 0..STALL_SAMPLE_COUNT {
        tracker.observe(&stalled_pump);
    }
    let alerts = tracker.observe(&stalled_pump);
    assert!(
        alerts.iter().all(|alert| alert.channel() == Some(Channel::Pump)),
        "{alerts:?}"
    );

    // Now stall the fan too: it needs its own full streak.
    let mut both = stalled_pump.clone();
    both.fan.rpm = Reading::valid(0);
    for _ in 0..STALL_SAMPLE_COUNT - 1 {
        let alerts = tracker.observe(&both);
        assert!(
            !alerts.iter().any(|alert| alert.channel() == Some(Channel::Fan)),
            "the fan alerted before its own streak was met: {alerts:?}"
        );
    }
    let alerts = tracker.observe(&both);
    assert!(
        alerts.iter().any(|alert| alert.channel() == Some(Channel::Fan)),
        "{alerts:?}"
    );
}
