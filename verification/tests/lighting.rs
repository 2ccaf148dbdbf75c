//! Colors, brightness and lighting programs.

use kori::capability::CapabilityId;
use kori::lighting::{
    validate_command, validate_program, Brightness, EffectDirection, EffectSpeed, LightingCommand,
    LightingEffect, LightingError, LightingProgram, Rgb, PROBE_BRIGHTNESS,
};
use kori::measure::{from_bits, Measured};

fn measured(value: f32) -> Measured {
    from_bits(value.to_bits())
}

#[test]
fn a_six_digit_color_round_trips() {
    let color = Rgb::parse_hex("7C5CFF").unwrap();
    assert_eq!(color, Rgb::new(0x7c, 0x5c, 0xff));
    assert_eq!(color.to_hex(), "7C5CFF");
    assert_eq!(Rgb::parse_hex("#7c5cff").unwrap(), color);
    assert_eq!(Rgb::parse_hex("  7C5CFF ").unwrap(), color);
}

#[test]
fn an_invalid_color_names_the_exact_problem() {
    let short = Rgb::parse_hex("7C5C").unwrap_err();
    assert!(matches!(short, LightingError::ColorDigits { actual: 4, .. }));
    assert!(
        short.to_text().contains("6 hexadecimal digits"),
        "{}",
        short.to_text()
    );

    let bad = Rgb::parse_hex("ZZZZZZ").unwrap_err();
    assert!(matches!(bad, LightingError::ColorAlphabet { .. }));

    // A multi-byte character counts once, so the message cannot claim more
    // digits than the operator typed.
    let unicode = Rgb::parse_hex("éé").unwrap_err();
    assert!(matches!(unicode, LightingError::ColorDigits { actual: 2, .. }));
}

#[test]
fn a_sign_is_not_a_hexadecimal_digit() {
    assert!(matches!(
        Rgb::parse_hex("+12345"),
        Err(LightingError::ColorAlphabet { .. })
    ));
}

#[test]
fn brightness_cannot_hold_an_out_of_range_value() {
    assert_eq!(Brightness::new(100).unwrap().percent(), 100);
    assert_eq!(Brightness::new(0).unwrap().percent(), 0);
    assert!(Brightness::new(101).is_err());
    assert_eq!(Brightness::new(42).unwrap().percent(), 42);
    assert_eq!(
        Brightness::new(200),
        Err(LightingError::BrightnessOutOfRange { value: 200, max: 100 })
    );
    assert_eq!(Brightness::from_percent(15).percent(), 15);
}

#[test]
fn brightness_scales_the_triplet_and_zero_means_dark() {
    let color = Rgb::new(200, 100, 50);
    assert_eq!(color.scaled(Brightness::full()), color);
    assert_eq!(color.scaled(Brightness::off()), Rgb::black());
    assert_eq!(color.scaled(Brightness::new(50).unwrap()), Rgb::new(100, 50, 25));
    // The scale never overflows a channel, whatever the inputs.
    assert_eq!(
        Rgb::new(255, 255, 255).scaled(Brightness::full()),
        Rgb::new(255, 255, 255)
    );
}

#[test]
fn mixing_lands_on_the_ends_it_was_given_and_is_symmetric_between_them() {
    let from = Rgb::new(0x00, 0x20, 0xff);
    let to = Rgb::new(0xff, 0xa0, 0x00);
    assert_eq!(from.mixed(to, measured(0.0)), from, "nothing of the way is the start");
    assert_eq!(from.mixed(to, measured(1.0)), to, "all of the way is the end");
    // The same point, approached from either end, rounds to the same color.
    assert_eq!(from.mixed(to, measured(0.25)), to.mixed(from, measured(0.75)));
    // And it is a straight line between them, channel by channel.
    assert_eq!(from.mixed(to, measured(0.5)), Rgb::new(0x80, 0x60, 0x80));
}

#[test]
fn the_probe_brightness_is_dim_but_visible() {
    assert!(
        PROBE_BRIGHTNESS > 0 && PROBE_BRIGHTNESS <= 25,
        "the write probe must be visible and stay low-brightness"
    );
    assert_eq!(
        Brightness::new(PROBE_BRIGHTNESS).map(Brightness::percent),
        Ok(PROBE_BRIGHTNESS)
    );
}

#[test]
fn only_the_two_validated_effects_exist() {
    assert_eq!(LightingEffect::all().len(), 2);
    let keys: Vec<_> = LightingEffect::all().iter().map(|e| e.key()).collect();
    assert_eq!(keys, vec!["breathing", "spectrum_wave"]);
    assert_eq!(LightingEffect::from_key("rainbow_flow"), None);
}

#[test]
fn every_lighting_key_is_the_name_serde_writes() {
    // The snake-case names the variants travel under.
    let effects = [
        (LightingEffect::Breathing, "breathing"),
        (LightingEffect::SpectrumWave, "spectrum_wave"),
    ];
    assert_eq!(effects.map(|(effect, _)| effect), LightingEffect::all());
    for (effect, name) in effects {
        assert_eq!(effect.key(), name);
        assert_eq!(LightingEffect::from_key(name), Some(effect));
    }
    let speeds = [
        (EffectSpeed::Slowest, "slowest"),
        (EffectSpeed::Slower, "slower"),
        (EffectSpeed::Normal, "normal"),
        (EffectSpeed::Faster, "faster"),
        (EffectSpeed::Fastest, "fastest"),
    ];
    assert_eq!(speeds.map(|(speed, _)| speed), EffectSpeed::all());
    for (speed, name) in speeds {
        assert_eq!(speed.key(), name);
        assert_eq!(EffectSpeed::from_key(name), Some(speed));
    }
    let directions = [
        (EffectDirection::Forward, "forward"),
        (EffectDirection::Backward, "backward"),
    ];
    assert_eq!(directions.map(|(direction, _)| direction), EffectDirection::all());
    for (direction, name) in directions {
        assert_eq!(direction.key(), name);
        assert_eq!(EffectDirection::from_key(name), Some(direction));
    }
    let unknown = "a key no variant will ever claim";
    assert_eq!(LightingEffect::from_key(unknown), None);
    assert_eq!(EffectSpeed::from_key(unknown), None);
    assert_eq!(EffectDirection::from_key(unknown), None);
}

#[test]
fn the_speeds_index_the_firmware_table_in_order() {
    let indices: Vec<usize> = EffectSpeed::all().iter().map(|speed| speed.index()).collect();
    assert_eq!(indices, vec![0, 1, 2, 3, 4]);
}

fn effect(
    effect: LightingEffect,
    colors: Vec<Rgb>,
    speed: EffectSpeed,
    direction: EffectDirection,
) -> LightingProgram {
    LightingProgram::Effect { effect, colors, brightness: Brightness::full(), speed, direction }
}

#[test]
fn an_effect_refuses_a_color_count_it_does_not_accept() {
    let wave = effect(
        LightingEffect::SpectrumWave,
        vec![Rgb::new(255, 0, 0)],
        EffectSpeed::Normal,
        EffectDirection::Forward,
    );
    let error = validate_program(&wave).unwrap_err();
    assert!(matches!(error, LightingError::ColorCount { .. }));

    let breathing_empty = effect(
        LightingEffect::Breathing,
        vec![],
        EffectSpeed::Normal,
        EffectDirection::Forward,
    );
    assert!(validate_program(&breathing_empty).is_err());

    let breathing_too_many = effect(
        LightingEffect::Breathing,
        vec![Rgb::black(); 9],
        EffectSpeed::Normal,
        EffectDirection::Forward,
    );
    assert!(validate_program(&breathing_too_many).is_err());
}

#[test]
fn a_direction_the_effect_ignores_is_refused_rather_than_silently_dropped() {
    let breathing = effect(
        LightingEffect::Breathing,
        vec![Rgb::new(255, 0, 0)],
        EffectSpeed::Normal,
        EffectDirection::Backward,
    );
    let error = validate_program(&breathing).unwrap_err();
    assert!(matches!(error, LightingError::DirectionUnsupported { .. }));

    let wave = effect(
        LightingEffect::SpectrumWave,
        vec![],
        EffectSpeed::Fastest,
        EffectDirection::Backward,
    );
    assert!(validate_program(&wave).is_ok());
}

#[test]
fn a_channel_outside_the_reported_topology_is_refused() {
    let command = LightingCommand { channel: 4, program: LightingProgram::Off };
    let error = validate_command(&command, 3).unwrap_err();
    assert_eq!(error.channel(), Some(4));
    assert!(error.to_text().contains("exposes 3"), "{}", error.to_text());

    // Channels are one-based, so zero is not an alias for the first one.
    let zero = LightingCommand { channel: 0, program: LightingProgram::Off };
    assert!(validate_command(&zero, 3).is_err());

    for channel in 1..=3 {
        assert!(validate_command(
            &LightingCommand { channel, program: LightingProgram::Off },
            3
        )
        .is_ok());
    }
}

#[test]
fn each_program_names_the_capability_it_needs() {
    assert_eq!(
        LightingProgram::Off.required_capability(),
        CapabilityId::RgbFixedColor
    );
    assert_eq!(
        LightingProgram::Fixed { color: Rgb::black(), brightness: Brightness::full() }
            .required_capability(),
        CapabilityId::RgbFixedColor
    );
    assert_eq!(
        effect(
            LightingEffect::Breathing,
            vec![Rgb::black()],
            EffectSpeed::Normal,
            EffectDirection::Forward,
        )
        .required_capability(),
        CapabilityId::RgbEffects
    );
}

#[test]
fn a_program_is_summed_up_in_one_line() {
    assert_eq!(LightingProgram::Off.summary(), "off");
    assert_eq!(
        LightingProgram::Fixed {
            color: Rgb::new(0x7c, 0x5c, 0xff),
            brightness: Brightness::new(80).unwrap()
        }
        .summary(),
        "fixed #7C5CFF at 80%"
    );
    let wave = effect(
        LightingEffect::SpectrumWave,
        vec![],
        EffectSpeed::Faster,
        EffectDirection::Backward,
    );
    assert_eq!(
        wave.summary(),
        format!("{} at faster speed, backward", LightingEffect::SpectrumWave.label())
    );
    assert!(wave.same(&wave.clone()));
    assert!(!wave.same(&LightingProgram::Off));
}

#[test]
fn every_lighting_refusal_has_its_own_sentence() {
    let refusals = vec![
        LightingError::ColorDigits { expected: 6, actual: 4 },
        LightingError::ColorAlphabet { value: "ZZZZZZ".to_string() },
        LightingError::BrightnessOutOfRange { value: 120, max: 100 },
        LightingError::ChannelUnknown { channel: 4, available: 3 },
        LightingError::ColorCount { effect: "Breathing".to_string(), min: 1, max: 8, actual: 0 },
        LightingError::DirectionUnsupported { effect: "Breathing".to_string() },
        LightingError::CadenceTooFast { channel: 1, minimum_interval_ms: 50, elapsed_ms: 3 },
    ];
    let mut words: Vec<String> = refusals.iter().map(|error| error.to_text()).collect();
    words.sort();
    words.dedup();
    assert_eq!(words.len(), refusals.len());
}
