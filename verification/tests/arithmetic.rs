//! The integer arithmetic of the library against the real numbers it stands
//! for.

use kori::display::{LcdMetric, MetricSample};
use kori::geometry::{Bounds, Point, Size};
use kori::ipc::ChannelReadback;
use kori::lighting::Rgb;
use kori::measure::{from_bits, to_number, to_whole_single, Measured};
use kori::profile::{
    duty_from_percent, duty_to_percent, Channel, CurveNodes, TemperatureCurve,
};
use kori::shell::screen::drag::value_at;
use kori::telemetry::{ChannelTelemetry, MemoryUsage, PwmMode, Reading, Unavailable};

fn value(measured: Measured) -> f64 {
    match measured {
        // The single-precision value the thousandths stand for.
        Measured::Finite { thousandths } => f64::from((f64::from(thousandths) / 1000.0) as f32),
        Measured::Binary { significand, shift } => {
            f64::from(significand) / 2f64.powi(i32::from(shift))
        }
        Measured::Whole { negative, magnitude } => {
            if negative { -(magnitude as f64) } else { magnitude as f64 }
        }
        other => panic!("{other:?} is no number"),
    }
}

#[test]
fn every_duty_is_worded_as_single_precision_words_it() {
    for duty in 0..=255u8 {
        let channel = ChannelTelemetry {
            channel: Channel::Fan,
            rpm: Reading::valid(1),
            duty: Reading::valid(duty),
            mode: Reading::valid(PwmMode::Fixed),
        };
        let percent = channel.duty_percent().unwrap();
        let real = f32::from(duty) / 255.0 * 100.0;
        assert_eq!(value(percent), f64::from(real), "{duty}");
        assert_eq!(percent.whole(), format!("{real:.0}"), "{duty}");
        assert_eq!(percent.one_decimal(), format!("{real:.1}"), "{duty}");
    }
}

#[test]
fn a_duty_is_the_nearest_percentage() {
    for duty in 0..=255u8 {
        let real = (f64::from(duty) * 100.0 / 255.0).round() as u8;
        assert_eq!(duty_to_percent(duty), real, "{duty}");
    }
    for percent in 0..=100u8 {
        let real = (f64::from(percent) * 255.0 / 100.0).round() as u8;
        assert_eq!(duty_from_percent(percent), real, "{percent}");
    }
}

#[test]
fn occupancy_is_a_single_precision_percentage() {
    for (used_bytes, total_bytes) in [
        (0u64, 7u64),
        (1, 3),
        (2, 3),
        (1, 8),
        (33_554_435, 67_108_869),
        (7_000_000_000, 34_359_738_368),
        (16_106_127_361, 34_283_986_944),
        (1, u64::MAX),
        (u64::MAX, u64::MAX),
        (9, 3),
    ] {
        let percent = MemoryUsage { used_bytes, total_bytes }.percent().unwrap();
        let real = (used_bytes as f32 / total_bytes as f32 * 100.0).clamp(0.0, 100.0);
        assert_eq!(value(percent), f64::from(real), "{used_bytes} of {total_bytes}");
        assert_eq!(percent.one_decimal(), format!("{real:.1}"), "{used_bytes} of {total_bytes}");
        assert_eq!(percent.whole(), format!("{real:.0}"), "{used_bytes} of {total_bytes}");
    }
}

#[test]
fn a_number_is_held_as_thousandths_where_they_stand_for_it() {
    assert_eq!(to_number(0, 0), Measured::Finite { thousandths: 0 });
    assert_eq!(to_number(5, 1), Measured::Finite { thousandths: 2_500 });
    // A third: no count of thousandths is nearest to it.
    let third = 1.0f32 / 3.0;
    let bits = (third.to_bits() & 0x7f_ffff) | 0x80_0000;
    assert_eq!(to_number(bits, 25), Measured::Binary { significand: bits as i32, shift: 25 });
    assert_eq!(value(to_number(bits, 25)), f64::from(third));
    assert_eq!(to_number(bits, 25).one_decimal(), format!("{third:.1}"));
    let negative = Measured::Binary { significand: -(bits as i32), shift: 25 };
    assert_eq!(negative.one_decimal(), format!("{:.1}", -third));
    assert_eq!(negative.whole(), format!("{:.0}", -third));
    assert_eq!(negative.rounded(), 0);
    assert!(!negative.at_least(0) && negative.at_least(-1_000));
    assert_eq!(negative.clamped(0, 100_000), Measured::Finite { thousandths: 0 });
}

#[test]
fn a_whole_number_is_rounded_to_twenty_four_bits() {
    for number in [0u64, 1, 16_777_216, 16_777_217, 16_777_219, 68_719_476_735, u64::MAX] {
        assert_eq!(to_whole_single(number) as f64, f64::from(number as f32), "{number}");
    }
}

fn mixed_byte(from: u8, to: u8, amount: f32) -> u8 {
    Rgb::new(from, 0, 0).mixed(Rgb::new(to, 0, 0), from_bits(amount.to_bits())).r
}

#[test]
fn a_mix_is_the_single_precision_value_on_the_line() {
    for (from, to) in [(0u8, 255u8), (255, 0), (10, 11), (200, 3), (7, 7), (25, 0), (0, 25)] {
        for step in -200..=1200i32 {
            let amount = step as f32 / 1000.0;
            let real = (f32::from(from) + (f32::from(to) - f32::from(from)) * amount).round() as u8;
            assert_eq!(mixed_byte(from, to, amount), real, "{from} to {to} at {amount}");
        }
        for amount in [
            f32::NAN,
            f32::INFINITY,
            f32::NEG_INFINITY,
            f32::MAX,
            f32::MIN,
            f32::MIN_POSITIVE,
            -f32::MIN_POSITIVE,
            f32::from_bits(1),
            -0.0,
            3e9,
            511.0,
            512.0,
            1e-20,
            -1e-20,
            1.0 / 3.0,
        ] {
            let real = (f32::from(from) + (f32::from(to) - f32::from(from)) * amount).round() as u8;
            assert_eq!(mixed_byte(from, to, amount), real, "{from} to {to} at {amount}");
        }
    }
    // The product rounds up, so what is left of the start stays below the half.
    assert_eq!(mixed_byte(25, 0, 0.54), 11);
    assert_eq!(mixed_byte(0, 25, 0.46), 12);
}

#[test]
fn a_mix_is_the_same_from_both_ends() {
    for part in 0..=256u32 {
        let share = part as f32 / 256.0;
        for (from, to) in [(0u8, 255u8), (3, 200), (17, 17), (254, 255)] {
            assert_eq!(mixed_byte(from, to, share), mixed_byte(to, from, 1.0 - share), "{part}");
        }
    }
}

#[test]
fn every_kind_of_single_precision_value_is_worded_as_it_is() {
    for real in [
        0.0f32,
        -0.0,
        0.04,
        -0.04,
        0.5,
        -0.5,
        1.5,
        36.6,
        -12.345,
        1.0 / 3.0,
        2_147_483.6,
        16_777_216.0,
        -16_777_218.0,
        3e9,
        -3e9,
        f32::MAX,
        f32::MIN,
        f32::MIN_POSITIVE,
        f32::from_bits(1),
        -f32::from_bits(1),
        f32::INFINITY,
        f32::NEG_INFINITY,
        f32::NAN,
    ] {
        let held = from_bits(real.to_bits());
        assert_eq!(held.one_decimal(), format!("{real:.1}"));
        assert_eq!(held.whole(), format!("{real:.0}"));
        assert_eq!(held.is_finite(), real.is_finite());
        assert_eq!(held.rounded(), real.round() as i32);
        assert_eq!(held.at_least(60_000), real >= 60.0);
        if real.is_finite() {
            assert_eq!(value(held), f64::from(real));
            let clamped = held.clamped(0, 100_000);
            assert_eq!(value(clamped), f64::from(real.clamp(0.0, 100.0)));
            assert_eq!(clamped.one_decimal(), format!("{:.1}", real.clamp(0.0, 100.0)));
            let share = held.share_of_hundred();
            let sweep = (real / 100.0).clamp(0.0, 1.0);
            assert_eq!(value(share), f64::from(sweep));
            assert_eq!(share.one_decimal(), format!("{sweep:.1}"));
        }
    }
    assert_eq!(from_bits(0x8000_0000), Measured::Whole { negative: true, magnitude: 0 });
    assert_eq!(
        from_bits(3e9f32.to_bits()),
        Measured::Whole { negative: false, magnitude: 3_000_000_000 }
    );
    assert_eq!(from_bits(2.5f32.to_bits()), Measured::Finite { thousandths: 2_500 });
}

#[test]
fn a_curve_is_the_line_between_its_nodes() {
    let nodes = CurveNodes { duty: [3, 17, 40, 41, 99, 100, 180, 181, 250] };
    let curve = nodes.interpolate();
    for (index, duty) in curve.points().iter().enumerate() {
        let lower = (index / 5).min(7);
        let low = CurveNodes::point_index(lower);
        let high = CurveNodes::point_index(lower + 1);
        let share = (index - low) as f64 / (high - low) as f64;
        let real = f64::from(nodes.duty[lower])
            + (f64::from(nodes.duty[lower + 1]) - f64::from(nodes.duty[lower])) * share;
        assert!((f64::from(*duty) - real).abs() <= 0.5, "{index}");
    }
}

#[test]
fn a_curve_is_the_single_precision_line_between_any_two_duties() {
    for low in 0..=255u8 {
        for high in 0..=255u8 {
            // The first segment has five steps, the last one four.
            let duty = [low, high, high, high, high, high, high, low, high];
            let curve = CurveNodes { duty }.interpolate();
            for (index, got) in curve.points().iter().enumerate() {
                let lower = (index / 5).min(7);
                let start = CurveNodes::point_index(lower);
                let end = CurveNodes::point_index(lower + 1);
                let (from, to) = (f32::from(duty[lower]), f32::from(duty[lower + 1]));
                let fraction = (index - start) as f32 / (end - start) as f32;
                let real = (from + (to - from) * fraction).round().clamp(0.0, 255.0) as u8;
                assert_eq!(*got, real, "{low} and {high} at {index}");
            }
        }
    }
}

#[test]
fn the_point_in_force_is_the_nearest_single_precision_degree() {
    let mut readings: Vec<f32> = vec![f32::MAX, f32::MIN, 3e9, -0.0, 0.0, 1e-30];
    for half in -10..=160i32 {
        let middle = half as f32 / 2.0;
        for bits in -3..=3i32 {
            readings.push(f32::from_bits((middle.to_bits() as i32).wrapping_add(bits) as u32));
        }
        for thousandths in -2..=2i32 {
            readings.push(middle + thousandths as f32 / 1000.0);
        }
    }
    for reading in readings {
        let expected = reading
            .is_finite()
            .then(|| (reading - 20.0).round().clamp(0.0, 39.0) as usize);
        let index = TemperatureCurve::point_index_for(from_bits(reading.to_bits()));
        assert_eq!(index, expected, "{reading}");
    }
}

#[test]
fn a_track_is_the_line_between_its_ends() {
    let track = Bounds {
        origin: Point { x: 20_000, y: 0 },
        size: Size { width: 176_000, height: 22_000 },
    };
    for x in (20_000..=196_000).step_by(333) {
        let share = f64::from(x - 20_000) / 176_000.0;
        let real = 20.0 + 80.0 * share;
        let got = value_at(track, Point { x, y: 0 }, 20, 100);
        assert!((f64::from(got) - real).abs() <= 0.5, "{x}: {got} against {real}");
    }
}

#[test]
fn a_reading_fills_its_share_of_the_arc() {
    assert_eq!(value(LcdMetric::CpuLoad.full_scale()), 100.0);
    for thousandths in [0, 1, 48_600, 61_400, 99_999, 100_000] {
        let sample = MetricSample {
            metric: LcdMetric::CpuTemperature,
            value: Some(Measured::Finite { thousandths }),
        };
        let real = (f64::from(thousandths) / 1000.0) as f32 / 100.0;
        assert_eq!(value(sample.fraction().unwrap()), f64::from(real.clamp(0.0, 1.0)));
    }
}

#[test]
fn a_readback_is_confirmed_only_where_it_says_something() {
    let mut readback = ChannelReadback::new(Channel::Pump);
    assert!(!readback.is_confirmed());
    readback.duty = Some(180);
    assert!(readback.is_confirmed());
    readback.mismatch = Some("expected 180, read 90".to_string());
    assert!(!readback.is_confirmed());
    assert_eq!(Unavailable::unparsable("abc").detail(), "abc");
}
