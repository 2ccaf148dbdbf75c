//! Duties, curves and profiles.

use kori::capability::{
    Capability, CapabilityId, CapabilityState, DeviceRecord, Evidenced, SupportState, UsbIdentity,
};
use kori::display::{DisplayMode, DisplayPreset};
use kori::measure::Measured;
use kori::profile::{
    duty_from_percent, duty_to_percent, incompatibilities, program_incompatibilities,
    validate_curve, validate_duty, validate_name, validate_profile, validate_program, Channel,
    CoolingProgram, CurveNodes, Profile, TemperatureCurve, ValidationError, CURVE_FIRST_TEMP_C,
    CURVE_LAST_TEMP_C, CURVE_NODE_COUNT, CURVE_NODE_STEP_C, CURVE_POINT_COUNT, MAX_DUTY,
    MAX_DUTY_PERCENT, MIN_PUMP_DUTY,
};
use kori::{kraken_base, rgb_controller};

fn device_with(capabilities: Vec<Capability>) -> DeviceRecord {
    DeviceRecord {
        support: SupportState::Supported,
        usb: UsbIdentity {
            id: kraken_base(),
            manufacturer: Evidenced::unknown("absent", "sysfs"),
            product: Evidenced::unknown("absent", "sysfs"),
            serial: Evidenced::unknown("absent", "sysfs"),
            firmware: Evidenced::unknown("absent", "sysfs"),
            sysfs_path: "/sys/bus/usb/devices/1-9".to_string(),
        },
        interfaces: vec![],
        hwmon: None,
        rgb: None,
        lcd: None,
        capabilities,
    }
}

#[test]
fn every_percentage_survives_the_trip_through_a_duty() {
    for percent in 0..=MAX_DUTY_PERCENT {
        let duty = duty_from_percent(percent);
        assert_eq!(
            duty_to_percent(duty),
            percent,
            "{percent}% became duty {duty}, which reads back as {}%",
            duty_to_percent(duty)
        );
    }
    assert_eq!(duty_from_percent(0), 0);
    assert_eq!(duty_from_percent(MAX_DUTY_PERCENT), MAX_DUTY);
}

#[test]
fn no_two_percentages_share_a_duty() {
    let duties: Vec<u8> = (0..=MAX_DUTY_PERCENT).map(duty_from_percent).collect();
    assert!(duties.windows(2).all(|pair| pair[0] < pair[1]), "{duties:?}");
}

#[test]
fn the_pump_floor_is_a_whole_percentage() {
    assert_eq!(duty_to_percent(MIN_PUMP_DUTY), 20);
    assert_eq!(duty_from_percent(20), MIN_PUMP_DUTY);
}

#[test]
fn safe_profile_writes_nothing() {
    let safe = Profile::safe();
    assert!(safe.is_safe_builtin());
    assert!(safe.program.required_capabilities().is_empty());
    assert!(validate_profile(&safe).is_ok());
}

#[test]
fn pump_duty_below_floor_is_rejected_with_its_range() {
    let error = validate_duty(Channel::Pump, 10).unwrap_err();
    let message = error.to_text();
    assert!(message.contains("51-255"), "{message}");
    assert_eq!(error.channel(), Some(Channel::Pump));
}

#[test]
fn fan_duty_accepts_zero_but_pump_does_not() {
    assert!(validate_duty(Channel::Fan, 0).is_ok());
    assert!(validate_duty(Channel::Pump, 0).is_err());
}

#[test]
fn each_channel_names_its_own_capability() {
    assert_eq!(Channel::Pump.duty_capability(), CapabilityId::PumpDuty);
    assert_eq!(Channel::Fan.duty_capability(), CapabilityId::FanDuty);
    assert_eq!(Channel::Pump.curve_capability(), CapabilityId::PumpCurve);
    assert_eq!(Channel::Fan.curve_capability(), CapabilityId::FanCurve);

    // And every capability a program requires is one a channel names, so a
    // control cannot be gated on a capability the daemon never checks.
    let fixed = CoolingProgram::Fixed { pump: 128, fan: 128 }.required_capabilities();
    assert_eq!(
        fixed,
        vec![Channel::Pump.duty_capability(), Channel::Fan.duty_capability()]
    );
    let curve = CoolingProgram::Curve {
        pump: TemperatureCurve::flat(120),
        fan: TemperatureCurve::flat(120),
    }
    .required_capabilities();
    assert_eq!(
        curve,
        vec![Channel::Pump.curve_capability(), Channel::Fan.curve_capability()]
    );
}

#[test]
fn curve_must_not_decrease() {
    let mut curve = TemperatureCurve::flat(120);
    curve.points_mut()[20] = 119;
    let error = validate_curve(Channel::Pump, &curve).unwrap_err();
    let message = error.to_text();
    assert!(message.contains("40 C"), "{message}");
}

#[test]
fn profile_name_bounds_are_enforced() {
    assert!(validate_name("Silent").is_ok());
    assert!(validate_name("").is_err());
    assert!(validate_name("  ").is_err());
    assert!(validate_name(" padded").is_err());
    assert!(validate_name(&"x".repeat(48)).is_ok());
    assert!(validate_name(&"x".repeat(49)).is_err());
}

#[test]
fn incompatible_profile_lists_every_missing_capability() {
    let device = device_with(vec![Capability {
        id: CapabilityId::PumpDuty,
        state: CapabilityState::Available {
            writable: false,
            source: "/sys/class/hwmon/hwmon4/pwm1".to_string(),
        },
    }]);
    let profile = Profile {
        name: "Fixed".to_string(),
        program: CoolingProgram::Fixed { pump: 128, fan: 128 },
        device: None,
        lighting: Vec::new(),
        display: None,
    };

    let found = incompatibilities(&profile, &device);
    assert_eq!(found.len(), 2);
    assert!(found.iter().any(|i| i.capability == CapabilityId::PumpDuty));
    assert!(found.iter().any(|i| i.capability == CapabilityId::FanDuty));
    assert_eq!(program_incompatibilities(&profile.program, &device).len(), 2);
}

#[test]
fn profile_for_another_device_is_incompatible() {
    let device = device_with(vec![]);
    let profile = Profile {
        name: "Other".to_string(),
        program: CoolingProgram::Onboard,
        device: Some(rgb_controller()),
        lighting: Vec::new(),
        display: None,
    };
    let found = incompatibilities(&profile, &device);
    assert_eq!(found.len(), 1);
    assert!(found[0].reason.contains("1e71:2021"), "{}", found[0].reason);
}

#[test]
fn safe_profile_is_compatible_with_a_device_exposing_nothing() {
    let device = device_with(vec![]);
    assert!(incompatibilities(&Profile::safe(), &device).is_empty());
}

#[test]
fn a_profile_carrying_an_unrenderable_preset_is_refused_at_save() {
    let mut preset = DisplayPreset::default_infographic();
    preset.mode = DisplayMode::Image;
    preset.image = None;

    let profile = Profile {
        name: "Panel".to_string(),
        program: CoolingProgram::Onboard,
        device: None,
        lighting: Vec::new(),
        display: Some(preset.clone()),
    };
    let error = validate_profile(&profile).unwrap_err();
    assert!(matches!(error, ValidationError::Display { .. }), "{error:?}");
    assert!(error.to_text().contains("needs a file"), "{error:?}");
    assert_eq!(error.channel(), None);

    preset.image = Some("/home/a/wallpaper.png".to_string());
    let renderable = Profile { display: Some(preset), ..profile };
    assert!(validate_profile(&renderable).is_ok());
}

#[test]
fn the_safe_profile_still_validates_with_the_preset_check_in_place() {
    assert!(Profile::safe().display.is_none());
    assert!(validate_profile(&Profile::safe()).is_ok());
}

#[test]
fn a_program_is_refused_for_the_channel_at_fault() {
    assert!(validate_program(&CoolingProgram::Fixed { pump: 51, fan: 0 }).is_ok());
    let error = validate_program(&CoolingProgram::Fixed { pump: 50, fan: 0 }).unwrap_err();
    assert_eq!(error.channel(), Some(Channel::Pump));
    let low = CoolingProgram::Curve {
        pump: TemperatureCurve::flat(50),
        fan: TemperatureCurve::flat(0),
    };
    assert!(matches!(
        validate_program(&low),
        Err(ValidationError::CurveDutyOutOfRange { channel: Channel::Pump, temperature_c: 20, .. })
    ));
    assert!(low.same(&low.clone()));
    assert!(!low.same(&CoolingProgram::Onboard));
}

#[test]
fn the_starting_ramp_sits_on_the_grid() {
    for duty in CurveNodes::starting_ramp().duty {
        assert_eq!(
            duty_from_percent(duty_to_percent(duty)),
            duty,
            "node duty {duty} is not a whole percentage"
        );
    }
}

#[test]
fn the_nodes_span_exactly_the_kernel_range_on_round_degrees() {
    assert_eq!(CURVE_NODE_COUNT, 9);
    assert_eq!(CurveNodes::temperature_at(0), CURVE_FIRST_TEMP_C);
    assert_eq!(CurveNodes::temperature_at(CURVE_NODE_COUNT - 1), CURVE_LAST_TEMP_C);
    assert!((0..CURVE_NODE_COUNT)
        .map(CurveNodes::temperature_at)
        .all(|t| (CURVE_FIRST_TEMP_C..=CURVE_LAST_TEMP_C).contains(&t)));
}

#[test]
fn nodes_interpolate_to_exactly_forty_integer_points() {
    let nodes = CurveNodes::starting_ramp();
    let curve = nodes.interpolate();
    assert_eq!(curve.points().len(), CURVE_POINT_COUNT);
    // The endpoints land on the nodes rather than near them.
    assert_eq!(curve.points()[0], nodes.duty[0]);
    assert_eq!(
        curve.points()[CURVE_POINT_COUNT - 1],
        nodes.duty[CURVE_NODE_COUNT - 1]
    );
    assert!(validate_curve(Channel::Pump, &curve).is_ok());
    assert!(validate_curve(Channel::Fan, &curve).is_ok());
}

#[test]
fn interpolation_between_two_nodes_is_linear() {
    let mut nodes = CurveNodes::flat(0);
    nodes.duty = [0, 90, 90, 90, 90, 90, 90, 90, 90];
    let curve = nodes.interpolate();
    // Node 1 sits on point index 5, so point 2 is two fifths of the way
    // up: 0 + 90 * 2/5 = 36.
    assert_eq!(curve.points()[0], 0);
    assert_eq!(curve.points()[2], 36);
    assert_eq!(curve.points()[5], 90);
    assert!(curve.points().windows(2).all(|pair| pair[0] <= pair[1]));
}

#[test]
fn every_point_sits_on_the_segment_its_own_two_nodes_define() {
    let nodes = CurveNodes { duty: [0, 10, 30, 60, 100, 150, 200, 230, 255] };
    let curve = nodes.interpolate();

    for (index, &duty) in curve.points().iter().enumerate() {
        let lower = (index / CURVE_NODE_STEP_C).min(CURVE_NODE_COUNT - 2);
        let (low, high) = (nodes.duty[lower], nodes.duty[lower + 1]);
        assert!(
            (low..=high).contains(&duty),
            "point {index} is {duty}, outside the {low}-{high} segment it belongs to"
        );
    }

    // Both ends of the last, shorter segment are exact.
    assert_eq!(curve.points()[35], nodes.duty[7]);
    assert_eq!(curve.points()[CURVE_POINT_COUNT - 1], nodes.duty[8]);
    // And its midpoint is interpolated over four points, not five.
    assert_eq!(curve.points()[37], 243);
}

#[test]
fn nodes_sit_on_whole_points_and_whole_degrees() {
    let indices: Vec<usize> = (0..CURVE_NODE_COUNT).map(CurveNodes::point_index).collect();
    assert_eq!(indices, vec![0, 5, 10, 15, 20, 25, 30, 35, 39]);
    assert!(
        indices.windows(2).all(|pair| pair[0] < pair[1]),
        "two nodes must never share a point"
    );
    // Whole degrees by type.
    let temperatures: Vec<u8> = (0..CURVE_NODE_COUNT).map(CurveNodes::temperature_at).collect();
    assert_eq!(temperatures.first(), Some(&20));
    assert_eq!(temperatures.last(), Some(&59));
}

#[test]
fn every_node_but_the_last_lands_on_a_round_temperature() {
    let temperatures: Vec<u8> = (0..CURVE_NODE_COUNT).map(CurveNodes::temperature_at).collect();
    assert_eq!(temperatures, vec![20, 25, 30, 35, 40, 45, 50, 55, 59]);

    let step = CURVE_NODE_STEP_C as u8;
    for (index, temperature) in temperatures.iter().enumerate().take(CURVE_NODE_COUNT - 1) {
        assert_eq!(
            temperature % step,
            0,
            "node {index} is at {temperature} C, not a multiple of {step}"
        );
    }
    assert_eq!(
        *temperatures.last().unwrap(),
        CURVE_LAST_TEMP_C,
        "the last node is pinned to the end of the ABI, not to a round degree"
    );
}

#[test]
fn editing_one_node_keeps_the_whole_set_monotonic() {
    let mut nodes = CurveNodes::flat(100);
    nodes.set(4, 200);
    assert!(nodes.duty.windows(2).all(|pair| pair[0] <= pair[1]));
    assert_eq!(nodes.duty[3], 100);
    assert_eq!(nodes.duty[4], 200);
    assert_eq!(nodes.duty[CURVE_NODE_COUNT - 1], 200, "higher nodes are lifted");

    nodes.set(7, 50);
    assert!(nodes.duty.windows(2).all(|pair| pair[0] <= pair[1]));
    assert_eq!(nodes.duty[7], 50);
    assert_eq!(nodes.duty[4], 50, "lower nodes are pulled down");
    assert_eq!(nodes.duty[CURVE_NODE_COUNT - 1], 200, "nodes above are untouched");

    // An index outside the set changes nothing rather than panicking.
    let before = nodes;
    nodes.set(CURVE_NODE_COUNT, 255);
    assert_eq!(nodes, before);
}

#[test]
fn an_edited_node_set_always_validates_as_a_curve() {
    let mut nodes = CurveNodes::starting_ramp();
    for (index, duty) in [(0, 255), (8, 60), (5, 130), (2, 200)] {
        nodes.set(index, duty);
        let curve = nodes.interpolate();
        assert!(
            validate_curve(Channel::Fan, &curve).is_ok(),
            "set({index}, {duty}) produced {curve:?}"
        );
    }
}

#[test]
fn nodes_round_trip_through_a_stored_curve() {
    for nodes in [
        CurveNodes::starting_ramp(),
        CurveNodes::flat(200),
        CurveNodes { duty: [51, 51, 60, 80, 110, 150, 190, 240, 255] },
    ] {
        // Exact, not merely close: an edit cycle that crept by one PWM
        // step would drift a saved curve over repeated loads.
        assert_eq!(CurveNodes::from_curve(&nodes.interpolate()), Some(nodes));
    }
}

#[test]
fn a_curve_this_editor_could_not_have_drawn_is_not_sampled_into_nodes() {
    let mut bent = CurveNodes::flat(120).interpolate();
    // Points 0 and 5 carry two adjacent nodes, so point 2 lies on the
    // segment between them.
    bent.points_mut()[2] = 200;
    assert!(CurveNodes::from_curve(&bent).is_none());

    // The nodes themselves still read back, which is what makes the
    // refusal about the shape between them rather than about the values.
    assert_eq!(bent.points()[0], 120);
    assert_eq!(bent.points()[5], 120);

    // And a curve that does lie on its segments still round-trips.
    let drawn = CurveNodes::flat(120).interpolate();
    assert_eq!(
        CurveNodes::from_curve(&drawn),
        Some(CurveNodes::flat(120)),
        "a curve this editor drew has to load back into the editor"
    );
}

#[test]
fn the_starting_ramp_clears_the_pump_floor_at_every_node() {
    let nodes = CurveNodes::starting_ramp();
    assert!(nodes.duty.iter().all(|duty| *duty >= MIN_PUMP_DUTY));
    assert_eq!(nodes.duty[CURVE_NODE_COUNT - 1], 255);
    assert!(nodes.duty.windows(2).all(|pair| pair[0] <= pair[1]));
}

#[test]
fn a_list_that_is_not_forty_points_never_becomes_a_curve() {
    for actual in [0usize, 39, 41] {
        let error = TemperatureCurve::new(vec![100; actual]).unwrap_err();
        assert_eq!(
            error,
            ValidationError::CurvePointCount { expected: CURVE_POINT_COUNT, actual }
        );
    }
    assert!(TemperatureCurve::new(vec![100; CURVE_POINT_COUNT]).is_ok());
}

#[test]
fn a_temperature_that_is_not_a_number_names_no_point_and_no_duty() {
    let curve = TemperatureCurve::flat(200);
    for impossible in [
        Measured::NotANumber,
        Measured::PositiveInfinity,
        Measured::NegativeInfinity,
    ] {
        assert_eq!(TemperatureCurve::point_index_for(impossible), None, "{impossible:?}");
        assert_eq!(curve.duty_at(impossible), None, "{impossible:?}");
    }

    // A reading outside the ABI's range still names the point in force.
    assert_eq!(
        TemperatureCurve::point_index_for(Measured::Finite { thousandths: -40_000 }),
        Some(0)
    );
    assert_eq!(
        TemperatureCurve::point_index_for(Measured::Finite { thousandths: 200_000 }),
        Some(CURVE_POINT_COUNT - 1)
    );
    assert_eq!(curve.duty_at(Measured::Finite { thousandths: 31_200 }), Some(200));
    assert_eq!(
        TemperatureCurve::point_index_for(Measured::Finite { thousandths: 31_500 }),
        Some(12)
    );
}

#[test]
fn the_highest_duty_is_the_last_point_of_a_non_decreasing_curve() {
    let curve = CurveNodes::starting_ramp().interpolate();
    assert!(validate_curve(Channel::Pump, &curve).is_ok());
    assert_eq!(curve.highest_duty(), MAX_DUTY);
    assert_eq!(
        curve.highest_duty(),
        *curve.points().iter().max().unwrap(),
        "a validated curve never decreases, so its last point is its highest"
    );
}

#[test]
fn curve_temperature_range_matches_the_kernel_abi() {
    assert_eq!(TemperatureCurve::temperature_at(0), CURVE_FIRST_TEMP_C);
    assert_eq!(
        TemperatureCurve::temperature_at(CURVE_POINT_COUNT - 1),
        CURVE_LAST_TEMP_C
    );
    assert_eq!(CURVE_LAST_TEMP_C, 59);
}
