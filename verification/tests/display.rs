//! What the panel shows.

use kori::display::{
    DisplayError, DisplayMode, DisplayPreset, LcdMetric, MetricSample, Orientation,
    INCREMENT_DEGREES, MAX_IMAGE_PATH_BYTES,
};
use kori::lighting::{LightingError, Rgb};
use kori::measure::Measured;
use kori::telemetry::{Reading, TelemetrySnapshot, Unavailable};

fn measured(value: f32) -> Measured {
    Measured::Finite { thousandths: (f64::from(value) * 1000.0).round() as i32 }
}

fn snapshot() -> TelemetrySnapshot {
    let mut snapshot = TelemetrySnapshot::unavailable(0, Unavailable::absent("fixture"));
    snapshot.system.cpu_temperature_c = Reading::valid(measured(61.4));
    snapshot.system.cpu_load_percent = Reading::valid(measured(12.0));
    snapshot.gpu.temperature_c = Reading::valid(measured(48.6));
    snapshot.kraken.liquid_temperature_c = Reading::valid(measured(31.2));
    snapshot
}

#[test]
fn every_metric_resolves_to_a_collector_this_daemon_actually_samples() {
    let telemetry = snapshot();
    // GPU load is the one field the fixture leaves unavailable, which is
    // exactly the case the panel has to render as `--`.
    for metric in LcdMetric::all() {
        let sample = metric.sample(&telemetry);
        assert_eq!(sample.metric, metric);
        if metric == LcdMetric::GpuLoad {
            assert_eq!(sample.value, None);
        } else {
            assert!(sample.value.is_some(), "{metric:?} resolved to nothing");
        }
    }
    assert_eq!(LcdMetric::GpuTemperature.sample(&telemetry).text(), "49");
    assert_eq!(LcdMetric::CpuTemperature.sample(&telemetry).text(), "61");
}

#[test]
fn an_unavailable_metric_is_never_drawn_as_zero() {
    let sample = MetricSample::unavailable(LcdMetric::GpuTemperature);
    assert_eq!(sample.text(), "--");
    assert_eq!(
        sample.fraction(),
        None,
        "a missing reading must not collapse the arc onto zero, which is a value the metric could \
         genuinely have"
    );

    let zero = MetricSample {
        metric: LcdMetric::GpuTemperature,
        value: Some(measured(0.0)),
    };
    assert_eq!(zero.text(), "0");
    assert_eq!(zero.fraction(), Some(measured(0.0)));
}

#[test]
fn a_reading_beyond_full_scale_stays_inside_its_arc() {
    let hot = MetricSample {
        metric: LcdMetric::CpuTemperature,
        value: Some(measured(180.0)),
    };
    assert_eq!(hot.fraction(), Some(measured(1.0)));
    assert_eq!(hot.text(), "180", "the number is not clamped, only the arc");

    let cold = MetricSample {
        metric: LcdMetric::CpuTemperature,
        value: Some(measured(-40.0)),
    };
    assert_eq!(cold.fraction(), Some(measured(0.0)));
    assert_eq!(cold.text(), "-40");
}

#[test]
fn a_non_finite_reading_is_treated_as_unavailable() {
    let mut telemetry = snapshot();
    telemetry.system.cpu_temperature_c = Reading::valid(Measured::NotANumber);
    assert_eq!(LcdMetric::CpuTemperature.sample(&telemetry).value, None);

    telemetry.system.cpu_temperature_c = Reading::valid(Measured::PositiveInfinity);
    let sample = LcdMetric::CpuTemperature.sample(&telemetry);
    assert_eq!(sample.value, None);
    assert_eq!(sample.text(), "--");
}

#[test]
fn rotation_walks_the_validated_increment_and_returns_to_zero() {
    let mut orientation = Orientation::Deg0;
    let mut seen = Vec::new();
    for _ in 0..4 {
        seen.push(orientation.degrees());
        orientation = orientation.rotated();
    }
    assert_eq!(seen, vec![0, 90, 180, 270]);
    assert_eq!(orientation, Orientation::Deg0);
    assert!(Orientation::all().iter().all(|o| o.degrees() % INCREMENT_DEGREES == 0));
}

#[test]
fn quarter_turns_match_what_the_display_control_report_carries() {
    assert_eq!(Orientation::Deg0.quarter_turns(), 0);
    assert_eq!(Orientation::Deg90.quarter_turns(), 1);
    assert_eq!(Orientation::Deg180.quarter_turns(), 2);
    assert_eq!(Orientation::Deg270.quarter_turns(), 3);
}

#[test]
fn image_mode_without_a_file_is_refused_and_names_the_field() {
    let mut preset = DisplayPreset::default_infographic();
    preset.mode = DisplayMode::Image;
    let error = preset.validate().unwrap_err();
    assert_eq!(error, DisplayError::ImagePathMissing);
    assert_eq!(error.field(), Some("image"));

    preset.image = Some("".to_string());
    assert_eq!(preset.validate(), Err(DisplayError::ImagePathMissing));

    preset.image = Some("/home/a/wallpaper.png".to_string());
    assert!(preset.validate().is_ok());
}

#[test]
fn an_unbounded_image_path_is_refused_before_it_becomes_a_frame() {
    let mut preset = DisplayPreset::default_infographic();
    preset.mode = DisplayMode::Image;
    preset.image = Some("/".repeat(MAX_IMAGE_PATH_BYTES + 1));
    match preset.validate().unwrap_err() {
        DisplayError::ImagePathTooLong { max_bytes, .. } => {
            assert_eq!(max_bytes, MAX_IMAGE_PATH_BYTES)
        }
        other => panic!("expected a length refusal, got {other:?}"),
    }
    preset.image = Some("/".repeat(MAX_IMAGE_PATH_BYTES));
    assert!(preset.validate().is_ok());
}

#[test]
fn a_path_left_over_from_image_mode_does_not_block_another_mode() {
    let mut preset = DisplayPreset::default_infographic();
    preset.image = Some("/home/a/wallpaper.png".to_string());
    assert!(
        preset.validate().is_ok(),
        "switching back to the infographic must not be refused by a path the operator picked \
         earlier"
    );
}

#[test]
fn every_mode_and_metric_key_round_trips() {
    for mode in DisplayMode::all() {
        assert_eq!(DisplayMode::from_key(mode.key()), Some(mode));
    }
    for metric in LcdMetric::all() {
        assert_eq!(LcdMetric::from_key(metric.key()), Some(metric));
    }
    assert_eq!(DisplayMode::from_key("gif"), None);
    assert_eq!(LcdMetric::from_key("fan_rpm"), None);
}

#[test]
fn each_mode_declares_how_many_readings_it_draws() {
    assert_eq!(DisplayMode::DualInfographic.reading_slots(), 2);
    assert_eq!(DisplayMode::SingleReading.reading_slots(), 1);
    assert_eq!(DisplayMode::Solid.reading_slots(), 0);
    assert_eq!(DisplayMode::Image.reading_slots(), 0);

    for mode in DisplayMode::all() {
        assert_eq!(mode.uses_readings(), mode.reading_slots() > 0);
        assert!(
            mode.reading_slots() <= 2,
            "{mode:?} asks for more slots than a preset carries"
        );
    }
    assert!(DisplayMode::Image.uses_image());
    assert!(!DisplayMode::Solid.uses_image());
    assert!(!DisplayMode::SingleReading.uses_image());
}

#[test]
fn a_band_without_a_second_color_is_solid() {
    let preset = DisplayPreset::default_infographic();
    assert_eq!(preset.readings[0].band_end(), Rgb::new(0xd6, 0x00, 0xbf));
    let mut slot = preset.readings[0];
    slot.reading_end = None;
    assert_eq!(slot.band_end(), slot.reading);
    assert!(DisplayMode::SingleReading.gradates_band());
    assert!(!DisplayMode::DualInfographic.gradates_band());
}

#[test]
fn a_solid_preset_paints_one_color_and_compares_equal_to_itself() {
    let solid = DisplayPreset::solid(Rgb::new(1, 2, 3));
    assert_eq!(solid.mode, DisplayMode::Solid);
    assert_eq!(solid.background, Rgb::new(1, 2, 3));
    assert!(solid.same(&solid.clone()));
    let mut other = solid.clone();
    other.orientation = Orientation::Deg90;
    assert!(!solid.same(&other));
    assert_eq!(Orientation::Deg270.label(), "270\u{b0}");
}

#[test]
fn every_display_refusal_has_its_own_sentence() {
    let color = DisplayError::Color {
        field: "Band 1".to_string(),
        source: LightingError::ColorDigits { expected: 6, actual: 2 },
    };
    assert!(color.to_text().starts_with("Band 1: "), "{}", color.to_text());
    assert_eq!(color.field(), Some("Band 1"));
    assert_eq!(
        DisplayError::ImagePathMissing.to_text(),
        "Image mode needs a file to display."
    );
    assert_eq!(
        DisplayError::ImagePathTooLong { bytes: 5000, max_bytes: 4096 }.to_text(),
        "Image path is 5000 bytes, above the 4096 byte limit."
    );
    assert_eq!(
        DisplayError::ImageTooLarge { width: 9000, height: 10, max: 8192 }.to_text(),
        "Image is 9000x10, above the 8192x8192 limit."
    );
    assert_eq!(
        DisplayError::ImageUndecodable {
            path: "/a.png".to_string(),
            detail: "bad header".to_string()
        }
        .to_text(),
        "/a.png could not be decoded as an image: bad header"
    );
    assert!(!DisplayError::AnimationTooLong { max: 120 }.to_text().is_empty());
    assert!(!DisplayError::PanelUnknown.to_text().is_empty());
}
