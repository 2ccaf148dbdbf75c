//! What the cooling, lighting, panel, monitoring and settings screens show.

use kori::capability::{LcdPanel, LcdPanelShape};
use kori::display::{DisplayError, DisplayMode, DisplayPreset, LcdMetric};
use kori::geometry::{Bounds, Point, Size};
use kori::ipc::ChannelState;
use kori::lighting::{Brightness, EffectDirection, EffectSpeed, LightingProgram, Rgb};
use kori::measure::Measured;
use kori::profile::{
    Channel, CoolingProgram, CurveNodes, Profile, ValidationError, SAFE_PROFILE_NAME,
};
use kori::shell::screen::channel::{
    channel_detail, channel_row, curve_key, duty_key, duty_slider, press_curve_key, press_duty_key,
    press_row, reported_program, ChannelInputs, CurveKey,
};
use kori::shell::screen::cooling::{
    activate_profile, adopt_committed_program, cooling, delete_button, delete_state, is_editing, next_deletion,
    outcome_note, press_revert, program_to_adopt, save_profile, send_and_remember, send_cooling,
    touch_cooling, ButtonKind,
    CoolingInputs, PendingChannel, SAVING,
};
use kori::shell::screen::drag::{Drag, Interaction};
use kori::shell::screen::lighting::{
    choose_direction, choose_speed, channel_detail_lighting, channel_headline, channel_row_lighting, last_sent, lighting,
    parse_color, reported_name, send_lighting, ChannelEditor, ModeParameters, NO_CONTROLLER,
    RGB_CONTROLLER_NAME,
};
use kori::shell::screen::monitoring::{
    collector_note, degraded_devices, device_strip, gpu_source, gpu_subtitle, memory_subtitle,
    monitoring, Bar, DeviceStrip, Metric, MetricBook, Series, Wording, NO_DEVICE, NO_GPU,
};
use kori::shell::screen::panel::{
    choose_image, choose_metric, choose_mode, file_name, image_field, image_note, lcd_detail, lcd_lines, lcd_row, metric_select,
    panel_notes, panel_subtitle, press_image, press_resume, preview_samples, resume_display, screen_modes, send_display,
    Animation, DisplayColorField, FieldStop, FilmClock, PanelControl, PanelField, PanelInputs,
};
use kori::shell::screen::row::LightingRow;
use kori::shell::screen::settings::{device_settings, sampling, settings, DeviceLine, SettingRow};
use kori::shell::screen::tab::{COOLING_TAB_DELETE, LCD_OFFSET_COLOR_BASE, LCD_OFFSET_RESUME};
use kori::shell::screen::write::{WriteSchedule, WriteTarget, COOLING_QUIET};
use kori::shell::screen::{Disclosure, Popover, SelectId, SelectOption};
use kori::shell::{
    Command, CommandOutcome, ControlState, DeviceHealth, DeviceSummary, NoteLevel, OutcomeSeverity,
};
use kori::telemetry::{
    Collector, CollectorFailure, MemoryUsage, MetricView, PwmMode, SafetyAlert, TelemetrySnapshot,
    Unavailable,
};
use kori::theme::Color;
use kori::{kraken_base, rgb_controller, DeviceId};

fn measured(value: f32) -> Measured {
    Measured::Finite { thousandths: (f64::from(value) * 1000.0).round() as i32 }
}

#[test]
fn a_channel_row_names_the_program_the_device_reports_not_the_one_pending() {
    assert_eq!(
        reported_program(Some(PwmMode::Fixed), Some(measured(70.6))),
        "Fixed duty 71%"
    );
    assert_eq!(reported_program(Some(PwmMode::Curve), None), "Onboard curve");
    assert_eq!(
        reported_program(Some(PwmMode::FullSpeed), Some(measured(52.0))),
        "Firmware failsafe"
    );
    assert_eq!(
        reported_program(None, Some(measured(50.0))),
        "Mode not reported"
    );
}

#[test]
fn a_channel_row_carries_its_readings_and_its_alerts() {
    let alerts = vec![
        SafetyAlert::ChannelStalled {
            channel: Channel::Pump,
            commanded_duty: 180,
            samples: 3,
            rpm: 0,
        },
    ];
    let rpm = MetricView::Fresh { value: measured(2_970.0) };
    let duty = MetricView::Unavailable { cause: None };
    let row = channel_row(
        Channel::Pump,
        ChannelInputs {
            rpm: &rpm,
            duty: &duty,
            mode: Some(PwmMode::Curve),
            percent: None,
            alerts: &alerts,
            open: true,
        },
    );
    assert_eq!(row.title, "Pump");
    assert_eq!(row.program, "Onboard curve");
    assert!(row.rpm.value.contains("2970"), "{}", row.rpm.value);
    assert!(row.pwm.value.contains("--"), "{}", row.pwm.value);
    assert_eq!(row.alerts.len(), 1);
    assert!(row.open);
}

#[test]
fn a_duty_is_stepped_by_whole_percentages() {
    assert_eq!(duty_key(Channel::Pump, 128, "left"), Some(-1));
    assert_eq!(duty_key(Channel::Pump, 128, "up"), Some(1));
    assert_eq!(duty_key(Channel::Pump, 128, "home"), Some(20 - 50));
    assert_eq!(duty_key(Channel::Fan, 128, "home"), Some(-50));
    assert_eq!(duty_key(Channel::Fan, 128, "end"), Some(50));
    assert_eq!(duty_key(Channel::Fan, 128, "tab"), None);

    let enabled = ControlState::Enabled;
    assert_eq!(
        press_duty_key(Channel::Fan, 128, &enabled, "end"),
        Some((50, WriteTarget::Cooling))
    );
    assert_eq!(press_duty_key(Channel::Fan, 128, &enabled, "tab"), None);
    assert_eq!(
        press_duty_key(Channel::Fan, 128, &ControlState::disabled("no lock"), "end"),
        None
    );

    let field = duty_slider(Channel::Pump, 128, &ControlState::Enabled, 13);
    assert_eq!((field.slider.low, field.slider.high, field.slider.value), (20, 100, 50));
}

#[test]
fn a_plot_answers_to_four_keys() {
    assert_eq!(curve_key("left"), Some(CurveKey::Back));
    assert_eq!(curve_key("right"), Some(CurveKey::Forward));
    assert_eq!(curve_key("up"), Some(CurveKey::Raise));
    assert_eq!(curve_key("down"), Some(CurveKey::Lower));
    assert_eq!(curve_key("home"), None);

    let enabled = ControlState::Enabled;
    let refused = ControlState::disabled("no lock");
    let mut rows = Disclosure::default();
    let mut press = |state: &ControlState, key: &str| {
        let change = press_curve_key(Channel::Fan, state, key, &mut rows);
        (change, rows.node(Channel::Fan), rows.node(Channel::Pump))
    };
    assert_eq!(press(&enabled, "right"), (Some((CurveKey::Forward, None)), 1, 0));
    assert_eq!(press(&enabled, "right"), (Some((CurveKey::Forward, None)), 2, 0));
    assert_eq!(press(&enabled, "left"), (Some((CurveKey::Back, None)), 1, 0));
    assert_eq!(
        press(&enabled, "up"),
        (Some((CurveKey::Raise, Some(WriteTarget::Cooling))), 1, 0)
    );
    assert_eq!(
        press(&enabled, "down"),
        (Some((CurveKey::Lower, Some(WriteTarget::Cooling))), 1, 0)
    );
    assert_eq!(press(&enabled, "home"), (None, 1, 0));
    assert_eq!(press(&refused, "right"), (None, 1, 0));
    assert_eq!(press(&enabled, "left"), (Some((CurveKey::Back, None)), 0, 0));
    assert_eq!(press(&enabled, "left"), (Some((CurveKey::Back, None)), 0, 0), "the plot ends");
}

#[test]
fn the_duty_slider_is_drawn_in_fixed_mode_only() {
    let detail = |fixed| {
        channel_detail(
            Channel::Fan,
            fixed,
            100,
            &ControlState::Enabled,
            CurveNodes::starting_ramp(),
            2,
            ControlState::disabled("Fixed duty is in force."),
            Some(measured(31.0)),
        )
    };
    assert!(detail(true).duty.is_some());
    assert!(detail(false).duty.is_none());
    assert_eq!(
        detail(false).curve.refusal.as_deref(),
        Some("Fixed duty is in force.")
    );
}

#[test]
fn the_committed_program_is_adopted_once_and_never_over_an_edit() {
    let committed = CoolingProgram::Fixed { pump: 180, fan: 90 };
    let other = CoolingProgram::Fixed { pump: 200, fan: 90 };

    assert_eq!(
        program_to_adopt(Some(&committed), None, false),
        Some(committed.clone()),
        "a window opening on a running machine takes what it is running"
    );
    assert_eq!(
        program_to_adopt(Some(&committed), Some(&committed), false),
        None,
        "a status repeating itself must not redraw the screen every second"
    );
    assert_eq!(
        program_to_adopt(Some(&other), Some(&committed), false),
        Some(other.clone()),
        "activating a profile is the daemon committing a program, and the plot has to follow it"
    );
    assert_eq!(
        program_to_adopt(Some(&other), Some(&committed), true),
        None,
        "an edit in flight is the operator's intent, and it outranks the state that intent is \
         about to replace"
    );
    assert_eq!(
        program_to_adopt(None, Some(&committed), false),
        None,
        "a daemon that has committed nothing says nothing about the plot"
    );

    let mut seen = None;
    assert_eq!(
        adopt_committed_program(&mut seen, Some(&committed), false),
        Some(committed.clone())
    );
    assert_eq!(seen, Some(committed.clone()));
    assert_eq!(adopt_committed_program(&mut seen, Some(&committed), false), None);
}

#[test]
fn deleting_a_profile_takes_two_deliberate_activations() {
    // The first activation only arms the control.
    let (armed, command) = next_deletion(Some("Silent"), false);
    assert!(armed);
    assert_eq!(command, None, "one press must not delete anything");

    // The second sends the command the daemon acts on.
    let (armed, command) = next_deletion(Some("Silent"), true);
    assert!(!armed, "the control disarms once it has fired");
    assert_eq!(command, Some(Command::DeleteProfile("Silent".to_string())));
}

#[test]
fn the_built_in_safe_profile_can_never_be_deleted() {
    for armed in [false, true] {
        assert_eq!(next_deletion(Some(SAFE_PROFILE_NAME), armed), (false, None));
        assert_eq!(next_deletion(None, armed), (false, None));
    }

    let state = delete_state(Some(SAFE_PROFILE_NAME));
    assert!(state.is_disabled());
    assert!(state.message().unwrap().contains("falls back"), "{state:?}");

    assert!(delete_state(None).is_disabled());
    assert!(delete_state(Some("Silent")).is_enabled());
}

#[test]
fn an_armed_deletion_says_so() {
    let resting = delete_button(Some("Silent"), false, COOLING_TAB_DELETE);
    assert_eq!(resting.label, "Delete profile");
    assert_eq!(resting.kind, ButtonKind::Danger);
    let armed = delete_button(Some("Silent"), true, COOLING_TAB_DELETE);
    assert_eq!(armed.label, "Confirm deletion");
    assert_eq!(armed.kind, ButtonKind::Danger);
    let safe = delete_button(Some(SAFE_PROFILE_NAME), false, COOLING_TAB_DELETE);
    assert!(safe.state.is_disabled());
    let absent = delete_button(None, false, COOLING_TAB_DELETE);
    assert!(absent.state.is_disabled());
    assert_ne!(absent.state.message(), safe.state.message());
}

#[test]
fn a_sent_program_is_remembered_until_it_is_reverted() {
    let program = CoolingProgram::Fixed { pump: 180, fan: 90 };
    let mut sent: Option<CoolingProgram> = None;
    assert_eq!(send_and_remember(false, None, program.clone(), &mut sent), None);
    assert_eq!(sent, None, "nothing was sent");
    assert_eq!(
        send_and_remember(true, None, program.clone(), &mut sent),
        Some(Command::Apply(program.clone()))
    );
    assert_eq!(sent, Some(program));

    let mut schedule = WriteSchedule::default();
    press_revert(&mut sent, &mut schedule, 2_000);
    assert_eq!(sent, None);
    assert!(schedule.is_pending(WriteTarget::Cooling));
    assert!(schedule.take_due(2_000 + COOLING_QUIET - 1).is_empty());
    assert_eq!(schedule.take_due(2_000 + COOLING_QUIET), vec![WriteTarget::Cooling]);
}

#[test]
fn a_press_that_moves_or_covers_a_row_closes_the_open_list() {
    let popover = Popover::Options { select: SelectId::CoolingMode };
    let mut interaction = Interaction::default();
    let mut rows = Disclosure::default();
    rows.select_node(Channel::Pump, 4);

    interaction.toggle(popover);
    press_row(Channel::Pump, &mut rows, &mut interaction);
    assert!(rows.cooling.contains(Channel::Pump));
    assert_eq!(rows.node(Channel::Pump), 0);
    assert!(!interaction.showing_any());
    press_row(Channel::Pump, &mut rows, &mut interaction);
    assert!(!rows.cooling.contains(Channel::Pump));

    interaction.toggle(popover);
    press_image(&mut interaction);
    assert!(!interaction.showing_any());

    interaction.toggle(popover);
    let preset = DisplayPreset::solid(Rgb::new(1, 2, 3));
    assert_eq!(
        press_resume(Some(preset.clone()), &mut interaction),
        Some(Command::ApplyDisplay(preset))
    );
    assert!(!interaction.showing_any());
    interaction.toggle(popover);
    assert_eq!(press_resume(None, &mut interaction), None);
    assert!(!interaction.showing_any());
}

#[test]
fn a_picture_named_by_the_same_parts_is_sent_once() {
    let preset = |path: &str| DisplayPreset {
        mode: DisplayMode::Image,
        image: Some(path.to_string()),
        ..DisplayPreset::default_infographic()
    };
    for (shown, pending) in [
        ("/home/a/x.png", "/home/a//x.png"),
        ("/home/a/x.png", "/home/./a/x.png/"),
        ("/home/a/x.png", "//home/a/x.png/."),
        ("a/x.png", "a/./x.png"),
        ("./x.png", ".//x.png"),
        ("", ""),
        ("/", "//./"),
    ] {
        assert_eq!(std::path::Path::new(shown), std::path::Path::new(pending));
        assert_eq!(send_display(Some(preset(pending)), Some(&preset(shown))), None, "{pending}");
    }
    for (shown, pending) in [
        ("/home/a/x.png", "home/a/x.png"),
        ("./x.png", "x.png"),
        ("/a/../x.png", "/x.png"),
        ("/a/x.png", "/a/X.png"),
        ("/a", "/a/b"),
        ("", "."),
        ("/", ""),
    ] {
        assert_ne!(std::path::Path::new(shown), std::path::Path::new(pending));
        assert_eq!(
            send_display(Some(preset(pending)), Some(&preset(shown))),
            Some(Command::ApplyDisplay(preset(pending))),
            "{pending}"
        );
    }
}

#[test]
fn an_edit_lasts_until_its_write_has_left() {
    let mut schedule = WriteSchedule::default();
    assert!(!is_editing(None, &schedule, false));
    assert!(is_editing(None, &schedule, true));
    touch_cooling(&mut schedule, 1_000);
    assert!(is_editing(None, &schedule, false));
    assert!(schedule.take_due(1_000 + COOLING_QUIET - 1).is_empty());
    assert_eq!(
        schedule.take_due(1_000 + COOLING_QUIET),
        vec![WriteTarget::Cooling]
    );
    let track = Bounds {
        origin: Point { x: 0, y: 0 },
        size: Size { width: 1_000, height: 1_000 },
    };
    assert!(is_editing(
        Some(Drag::Duty { channel: Channel::Fan, track }),
        &schedule,
        false
    ));
}

#[test]
fn a_program_is_sent_only_when_it_is_pending_and_valid() {
    let program = CoolingProgram::Fixed { pump: 180, fan: 90 };
    assert_eq!(
        send_cooling(true, None, program.clone()),
        Some(Command::Apply(program.clone()))
    );
    assert_eq!(send_cooling(false, None, program.clone()), None);
    let invalid = ValidationError::CurvePointCount { expected: 40, actual: 3 };
    assert_eq!(send_cooling(true, Some(&invalid), program), None);
}

#[test]
fn a_saved_profile_carries_what_can_be_put_back() {
    let command = save_profile(
        "Fixed duty",
        2,
        CoolingProgram::Onboard,
        vec![
            PendingChannel { channel: 1, program: Some(LightingProgram::Off) },
            PendingChannel { channel: 2, program: None },
        ],
        &ControlState::disabled("no panel"),
        Some(DisplayPreset::default_infographic()),
    );
    match command {
        Command::SaveProfile(profile) => {
            assert_eq!(profile.name, "Fixed duty 2");
            assert_eq!(profile.device, Some(kraken_base()));
            assert_eq!(profile.lighting.len(), 1);
            assert_eq!(profile.lighting[0].channel, 1);
            assert_eq!(profile.display, None, "a panel that cannot be written is not stored");
        }
        other => panic!("expected a save, got {other:?}"),
    }
}

fn outcome(severity: OutcomeSeverity) -> CommandOutcome {
    CommandOutcome { severity, message: "The daemon refused it.".to_string() }
}

#[test]
fn only_what_went_wrong_is_told() {
    assert!(outcome_note(None).is_none());
    assert!(outcome_note(Some(&outcome(OutcomeSeverity::Confirmed))).is_none());
    let refused = outcome_note(Some(&outcome(OutcomeSeverity::Refused))).unwrap();
    assert_eq!(refused.level, NoteLevel::Warning);
    assert_eq!(refused.message, "The daemon refused it.");
    let uncertain = outcome_note(Some(&outcome(OutcomeSeverity::Unconfirmed))).unwrap();
    assert_eq!(uncertain.level, NoteLevel::Critical);
}

#[test]
fn the_cooling_screen_lists_every_profile_and_says_when_it_saves() {
    let profiles = vec![Profile::safe()];
    let alerts = Vec::new();
    let view = cooling(CoolingInputs {
        modes: vec![SelectOption::new("fixed", "Fixed duty")],
        mode: "fixed".to_string(),
        profiles: &profiles,
        active: Some(SAFE_PROFILE_NAME),
        write: ControlState::Enabled,
        alerts: &alerts,
        invalid: None,
        program: ControlState::Enabled,
        pending: true,
        outcome: None,
        armed: false,
    });
    assert_eq!(view.title, "Cooling");
    assert_eq!(view.profile.options.len(), 1);
    assert_eq!(view.profile.options[0].label, SAFE_PROFILE_NAME);
    assert_eq!(view.status, Some(SAVING));
    assert!(view.delete.state.is_disabled());
    assert!(view.outcome.is_none());
}

fn channel_state(channel: u8, accessories: &[&str]) -> ChannelState {
    ChannelState {
        channel,
        accessories: accessories.iter().map(|name| name.to_string()).collect(),
        committed: None,
    }
}

#[test]
fn a_channel_is_named_by_what_the_controller_answered() {
    let one = channel_state(1, &["HUE 2 LED Strip 300 mm"]);
    assert_eq!(channel_headline(&one), "HUE 2 LED Strip 300 mm");

    let many = channel_state(2, &["AER RGB 2 120 mm", "AER RGB 2 140 mm"]);
    assert_eq!(channel_headline(&many), "2 accessories");

    let empty = channel_state(3, &[]);
    assert_eq!(channel_headline(&empty), "Channel 3");
}

#[test]
fn a_lighting_command_is_sent_once() {
    let mut state = channel_state(1, &["Strip"]);
    let program = LightingProgram::Fixed {
        color: Rgb::new(1, 2, 3),
        brightness: Brightness::full(),
    };
    let states = vec![state.clone()];
    assert_eq!(last_sent(&states, 1), "Nothing sent to this channel yet");
    match send_lighting(1, Some(program.clone()), &states) {
        Some(Command::ApplyLighting(command)) => {
            assert_eq!(command.channel, 1);
            assert_eq!(command.program, program);
        }
        other => panic!("expected a lighting command, got {other:?}"),
    }
    assert_eq!(send_lighting(1, None, &states), None);

    state.committed = Some(program.clone());
    let committed = vec![state];
    assert_eq!(send_lighting(1, Some(program), &committed), None);
    assert_eq!(last_sent(&committed, 1), "Last sent: fixed #010203 at 100%");
}

#[test]
fn a_channel_row_and_its_detail_follow_the_mode() {
    let states = vec![channel_state(1, &["Strip"])];
    let row = channel_row_lighting(
        ChannelEditor {
            channel: 1,
            modes: vec![SelectOption::new("fixed", "Fixed")],
            mode: "fixed".to_string(),
            effect: false,
            brightness: 60,
            color: Some("FF0000"),
        },
        &states,
        &ControlState::Enabled,
        &ControlState::disabled("unproven"),
        0,
        false,
    );
    assert_eq!(row.head.title, "Strip");
    assert_eq!(row.brightness.value, 60);
    assert_eq!(row.brightness.caption, "Brightness");
    assert!(!row.brightness.caption_shown);
    assert_eq!((row.brightness.low, row.brightness.high), (0, 100));
    assert_eq!(row.brightness.unit, "%");
    assert_eq!(row.thumbnail.fill, Color::rgb(0xff0000));
    assert_eq!(parse_color("nothing"), None);

    let interaction = Interaction::default();
    let detail = channel_detail_lighting(
        1,
        ModeParameters {
            color: None,
            speed: Some(EffectSpeed::Normal),
            direction: Some(EffectDirection::Forward),
        },
        None,
        &states,
        &ControlState::Enabled,
        10,
        &interaction,
    );
    assert!(detail.color.is_none());
    assert_eq!(detail.speed.unwrap().id, SelectId::ChannelSpeed(1));
    assert_eq!(detail.direction.unwrap().id, SelectId::ChannelDirection(1));
    assert!(detail.problem.is_none());
}

fn device(id: DeviceId, health: DeviceHealth) -> DeviceSummary {
    DeviceSummary {
        id,
        name: "Device".to_string(),
        firmware: Some("0200".to_string()),
        driver: "kraken2023".to_string(),
        health,
    }
}

#[test]
fn the_lighting_screen_says_when_no_controller_answered() {
    let devices = vec![device(kraken_base(), DeviceHealth::Ready)];
    assert_eq!(reported_name(&devices, kraken_base()), Some("Device"));
    assert_eq!(reported_name(&devices, rgb_controller()), None);

    let quiet = lighting(&Vec::new(), &ControlState::Enabled, &devices, None);
    assert_eq!(quiet.controller, RGB_CONTROLLER_NAME);
    assert_eq!(quiet.warning.unwrap().message, NO_CONTROLLER);
    assert!(quiet.channels.is_empty());
    assert_eq!(quiet.panel, "Device");

    let states = vec![channel_state(1, &[]), channel_state(2, &[])];
    let lit = lighting(&states, &ControlState::Enabled, &Vec::new(), None);
    assert_eq!(lit.channels, vec![1, 2]);
    assert_eq!(lit.panel, "Kraken");
    assert_eq!(lit.panel_tab, 30);
}

#[test]
fn the_monitoring_strip_speaks_for_a_device_only_while_it_is_not_ready() {
    assert!(degraded_devices(vec![
        device(kraken_base(), DeviceHealth::Ready),
        device(rgb_controller(), DeviceHealth::Ready),
    ])
    .is_empty());

    for health in [DeviceHealth::ReadOnly, DeviceHealth::Unavailable] {
        let shown = degraded_devices(vec![
            device(kraken_base(), DeviceHealth::Ready),
            device(rgb_controller(), health),
        ]);
        assert_eq!(shown.len(), 1, "{health:?} was not reported");
        assert_eq!(shown[0].id, rgb_controller());
        assert_eq!(shown[0].health, health);
    }
}

#[test]
fn a_strip_tells_an_absent_machine_from_a_quiet_one() {
    assert!(matches!(device_strip(Vec::new()), DeviceStrip::Absent(words) if words == NO_DEVICE));
    assert!(matches!(
        device_strip(vec![device(kraken_base(), DeviceHealth::Ready)]),
        DeviceStrip::Quiet
    ));
}

#[test]
fn a_metric_without_a_reading_draws_no_bar() {
    let missing: MetricView<Measured> = MetricView::Unavailable { cause: None };
    let metric = Metric::measured("Load", "%", &missing, Wording::Whole, 0, 100_000);
    assert_eq!(metric.value, "--");
    assert_eq!(metric.bar, None);

    let fresh = MetricView::Fresh { value: measured(31.25) };
    let metric = Metric::measured("Liquid", " C", &fresh, Wording::OneDecimal, 20_000, 60_000);
    assert_eq!(metric.value, "31.2");
    assert_eq!(
        metric.bar,
        Some(Bar::Share { value: measured(31.25), low: 20_000, high: 60_000 })
    );
    let speed = Metric::speed("Pump", &MetricView::Fresh { value: measured(2_900.0) }, 3000);
    assert_eq!(speed.value, "2900");
    assert_eq!(speed.bar, Some(Bar::Speed { rpm: measured(2_900.0), full: 3000 }));
}

#[test]
fn the_monitoring_screen_names_a_failed_collector() {
    let mut snapshot = TelemetrySnapshot::unavailable(1, Unavailable::absent("none"));
    snapshot.failed.push(CollectorFailure {
        collector: Collector::Cpu,
        detail: "the collector panicked".to_string(),
    });
    let note = collector_note(Some(&snapshot), Collector::Cpu, "Load.");
    assert!(note.contains("the collector panicked"), "{note}");
    assert_eq!(collector_note(Some(&snapshot), Collector::Memory, "Usual."), "Usual.");
    assert_eq!(gpu_source(None), "no interface");

    let unnamed: MetricView<String> = MetricView::Unavailable { cause: None };
    assert_eq!(gpu_subtitle(&unnamed, None), NO_GPU);
    let named = MetricView::Fresh { value: "RTX".to_string() };
    assert_eq!(gpu_subtitle(&named, None), "RTX, read through no interface");

    let usage = MetricView::Fresh {
        value: MemoryUsage { used_bytes: 1 << 30, total_bytes: 4 << 30 },
    };
    assert_eq!(memory_subtitle(&usage), "1.0 GiB of 4.0 GiB in use");
}

#[test]
fn the_monitoring_screen_has_a_section_for_each_source() {
    let load = MetricView::Fresh { value: measured(12.0) };
    let missing: MetricView<Measured> = MetricView::Unavailable { cause: None };
    let name: MetricView<String> = MetricView::Unavailable { cause: None };
    let usage: MetricView<MemoryUsage> = MetricView::Unavailable { cause: None };
    let rpm = MetricView::Fresh { value: measured(1_700.0) };
    let view = monitoring(
        MetricBook {
            cpu_load: &load,
            cpu_temperature: &missing,
            gpu_name: &name,
            gpu_load: &missing,
            gpu_temperature: &missing,
            memory: &usage,
            memory_percent: &missing,
            liquid: &missing,
            pump_rpm: &rpm,
            fan_rpm: &rpm,
        },
        None,
        Vec::new(),
    );
    assert_eq!(view.cpu.metrics[0].value, "12");
    assert_eq!(view.cpu.metrics[1].value, "--");
    assert_eq!(
        [view.cpu.history, view.gpu.history, view.memory.history, view.kraken.history],
        [Series::CpuLoad, Series::GpuLoad, Series::MemoryShare, Series::Liquid]
    );
    assert_eq!(view.kraken.metrics.len(), 3);
    assert_eq!(view.kraken.metrics[2].value, "1700");
    assert_eq!(view.footnote, "Rolling 15 minute window, held in memory only.");
}

#[test]
fn the_screen_offers_every_mode_and_a_control_for_each_of_them() {
    let modes = screen_modes();
    assert_eq!(modes.len(), DisplayMode::all().len());
    for mode in DisplayMode::all() {
        assert!(
            modes.iter().any(|option| option.value == mode.key() && option.label == mode.label()),
            "{} is absent",
            mode.label()
        );
    }

    // Every mode but one produces a preset from the defaults alone.
    for mode in DisplayMode::all() {
        let mut preset = DisplayPreset::default_infographic();
        preset.mode = mode;
        assert_eq!(
            preset.validate().is_ok(),
            mode != DisplayMode::Image,
            "{} produced the wrong verdict from the defaults",
            mode.label()
        );
    }

    let mut preset = DisplayPreset::default_infographic();
    preset.mode = DisplayMode::Image;
    preset.image = Some("/home/a/loop.gif".to_string());
    assert!(
        preset.validate().is_ok(),
        "a picked file is all image mode is missing"
    );
}

#[test]
fn the_editor_exposes_every_color_control_the_panel_can_paint() {
    let labels: Vec<_> = DisplayColorField::all().map(DisplayColorField::label).to_vec();
    let mut unique = labels.clone();
    unique.sort();
    unique.dedup();
    assert_eq!(unique.len(), labels.len(), "labels must be distinct: {labels:?}");
    for required in [
        "Band 1",
        "Band 2",
        "Fade 1",
        "Fade 2",
        "Text 1",
        "Text 2",
        "Background",
    ] {
        assert!(labels.contains(&required), "{required} is missing");
    }
    assert!(
        !labels.iter().any(|label| label.contains("Wordmark")),
        "nothing draws a wordmark, so nothing colors one: {labels:?}"
    );
}

fn panel() -> LcdPanel {
    LcdPanel {
        width: 240,
        height: 240,
        shape: LcdPanelShape::Circular,
        pixel_format: "RGB565 big-endian".to_string(),
        frame_bytes: 115_200,
        bulk_endpoint: 0x02,
        bulk_interface: 1,
    }
}

#[test]
fn a_panel_says_what_it_was_last_told() {
    let preset = DisplayPreset::default_infographic();
    assert_eq!(panel_subtitle(None, None), "no panel has answered");
    assert_eq!(
        panel_subtitle(None, Some(&panel())),
        "240x240 panel, nothing sent yet"
    );
    assert_eq!(
        panel_subtitle(Some(&preset), Some(&panel())),
        format!(
            "{} at {}, {}%",
            preset.mode.label(),
            preset.orientation.label(),
            preset.brightness.percent()
        )
    );
    let row = lcd_row(
        DisplayMode::Solid,
        80,
        "102030",
        None,
        None,
        &ControlState::Enabled,
        30,
        true,
    );
    assert_eq!(row.head.title, "LCD display");
    assert_eq!(row.brightness.value, 80);
    assert_eq!(row.brightness.caption, "Brightness");
    assert!(!row.brightness.caption_shown);
    assert_eq!((row.brightness.low, row.brightness.high), (0, 100));
    assert_eq!(row.brightness.unit, "%");
    assert_eq!(row.thumbnail.fill, Color::rgb(0x102030));
}

#[test]
fn a_mode_lays_out_only_the_lines_it_draws() {
    let mut used = [false; 7];
    used[1] = true;
    used[6] = true;
    let lines = lcd_lines(DisplayMode::SingleReading, used, 30);
    assert_eq!(lines.len(), 3);
    assert_eq!(lines[0][0].field, PanelField::Reading(0));
    assert_eq!(
        lines[1],
        vec![FieldStop {
            field: PanelField::Color(DisplayColorField::BandTwo),
            tab_index: 30 + LCD_OFFSET_COLOR_BASE + 1
        }]
    );
    assert_eq!(
        lines[2][0].field,
        PanelField::Color(DisplayColorField::Background)
    );
    assert!(lcd_lines(DisplayMode::Image, [false; 7], 30)
        .iter()
        .any(|line| line[0].field == PanelField::Image));
}

#[test]
fn the_panel_detail_carries_a_control_for_every_line() {
    let preset = DisplayPreset::default_infographic();
    let mut used = [false; 7];
    used[6] = true;
    let frame = ControlState::Enabled;
    let interaction = Interaction::default();
    let detail = lcd_detail(
        PanelInputs {
            mode: DisplayMode::Image,
            metrics: [LcdMetric::CpuTemperature, LcdMetric::GpuTemperature],
            digits: ["", "", "", "", "", "", "102030"],
            used,
            image_path: "/home/a/loop.gif",
            animation: None,
            preview: &preset,
            preset_error: None,
            film_error: None,
            telemetry: None,
            faulted: Some("bulk write timed out"),
            frame: &frame,
        },
        30,
        &interaction,
    );
    assert_eq!(detail.lines.len(), 2);
    match &detail.lines[0][0] {
        PanelControl::Color(field) => assert_eq!(field.digits, "102030"),
        other => panic!("expected a color, got {other:?}"),
    }
    match &detail.lines[1][0] {
        PanelControl::Image(_, words) => assert_eq!(words, "loop.gif, one still picture"),
        other => panic!("expected a picture, got {other:?}"),
    }
    let (button, words) = detail.notes.resume.unwrap();
    assert_eq!(button.tab_index, 30 + LCD_OFFSET_RESUME);
    assert_eq!(words, "The panel stopped updating: bulk write timed out");
}

#[test]
fn a_preview_samples_what_the_preset_reads() {
    let preset = DisplayPreset::default_infographic();
    let samples = preview_samples(
        &preset,
        [LcdMetric::CpuTemperature, LcdMetric::GpuLoad],
        None,
    );
    assert!(samples.iter().all(|sample| sample.value.is_none()));
    let field = metric_select(1, LcdMetric::GpuLoad, ControlState::Enabled, 34);
    assert_eq!(field.id, SelectId::LcdMetric(1));
    assert_eq!(field.options.len(), LcdMetric::all().len());
    assert_eq!(field.selected, LcdMetric::GpuLoad.key());
}

#[test]
fn a_panel_problem_is_told_in_its_own_words() {
    let notes = panel_notes(
        Some(&DisplayError::ImagePathMissing),
        None,
        None,
        &ControlState::disabled("no panel"),
        30,
    );
    assert_eq!(
        notes.problem.unwrap().message,
        DisplayError::ImagePathMissing.to_text()
    );
    assert!(notes.resume.is_none());
    assert_eq!(notes.refusal.as_deref(), Some("no panel"));
}

#[test]
fn a_path_is_named_by_its_last_part() {
    assert_eq!(file_name("/home/a/loop.gif").as_deref(), Some("loop.gif"));
    assert_eq!(file_name("/home/a/"), Some("a".to_string()));
    assert_eq!(file_name(""), None);
    assert_eq!(file_name("/home/.."), None);
    assert_eq!(image_note("", None), "No file chosen");
    assert_eq!(
        image_note(
            "/a/loop.gif",
            Some(Animation { frames: 12, duration_s: measured(1.5) })
        ),
        "loop.gif, 12 frames over 1.5 s"
    );
    let (button, words) = image_field("/a/b.png", None, ControlState::Enabled, 42);
    assert_eq!(button.label, "Choose a picture");
    assert_eq!(words, "b.png, one still picture");
    for path in ["/home/a/loop.gif", "/", "..", "a/..", "a/.", "./a", "a//b//", ".", "a", "//"] {
        assert_eq!(
            file_name(path),
            std::path::Path::new(path)
                .file_name()
                .map(|name| name.to_string_lossy().into_owned()),
            "{path}"
        );
    }
}

#[test]
fn a_cancelled_dialog_changes_nothing() {
    assert_eq!(choose_image(None), None);
    assert_eq!(choose_image(Some(Vec::new())), None);
    assert_eq!(
        choose_image(Some(vec!["/a.png".to_string(), "/b.png".to_string()])),
        Some(("/a.png".to_string(), WriteTarget::Lighting(LightingRow::Lcd)))
    );
}

#[test]
fn a_preset_already_shown_is_not_sent_again() {
    let preset = DisplayPreset::default_infographic();
    assert_eq!(
        send_display(Some(preset.clone()), None),
        Some(Command::ApplyDisplay(preset.clone()))
    );
    assert_eq!(send_display(Some(preset.clone()), Some(&preset)), None);
    assert_eq!(send_display(None, None), None);
    // Resuming sends it whatever was committed.
    assert_eq!(
        resume_display(Some(preset.clone())),
        Some(Command::ApplyDisplay(preset))
    );
}

#[test]
fn a_film_timer_of_an_older_film_is_ignored() {
    let mut clock = FilmClock { generation: 4 };
    let (delay, generation) = clock.play(true, Some(40)).unwrap();
    assert_eq!((delay, generation), (40, 5));
    assert!(clock.accepts(generation));
    clock.play(true, Some(40));
    assert!(!clock.accepts(generation), "a film restarted drops the timer of the one before");
    assert_eq!(clock.play(false, Some(40)), None);
    assert_eq!(clock.play(true, None), None);
}

#[test]
fn the_settings_screen_speaks_without_a_daemon() {
    let view = settings(None, None, &Vec::new(), 5, &Vec::new());
    assert_eq!(view.service[0], SettingRow::new("Socket", "not connected"));
    assert_eq!(view.service[3], SettingRow::new("Sampling", "no telemetry"));
    assert_eq!(view.service.len(), 5);
    assert_eq!(view.devices[0].value, NO_DEVICE);
    assert_eq!(view.export.id, "export-diagnostics");

    let mut snapshot = TelemetrySnapshot::unavailable(1_000, Unavailable::absent("none"));
    snapshot.interval_ms = 1_000;
    assert_eq!(
        sampling(Some(&snapshot), 1_250),
        "Every 1000 ms, 250 ms since the last complete pass"
    );

    let rows = device_settings(&vec![DeviceLine {
        summary: device(kraken_base(), DeviceHealth::Ready),
        state: "Ready".to_string(),
        detail: "firmware 0200".to_string(),
    }]);
    assert_eq!(rows[0].label, "Device");
    assert_eq!(
        rows[0].value,
        "Ready \u{b7} 1e71:300e \u{b7} firmware 0200"
    );
}

#[test]
fn a_choice_names_what_it_changes_and_what_is_due() {
    let row = WriteTarget::Lighting(LightingRow::Channel(2));
    assert_eq!(choose_speed(2, "faster"), Some((EffectSpeed::Faster, row)));
    assert_eq!(choose_speed(2, "warp"), None);
    assert_eq!(choose_direction(2, "backward"), Some((EffectDirection::Backward, row)));
    assert_eq!(choose_direction(2, "sideways"), None);

    let panel = WriteTarget::Lighting(LightingRow::Lcd);
    assert_eq!(choose_mode("solid"), Some((DisplayMode::Solid, panel)));
    assert_eq!(choose_mode("gif"), None);
    let metrics = [LcdMetric::CpuTemperature, LcdMetric::GpuTemperature];
    assert_eq!(
        choose_metric(metrics, 1, "gpu_load"),
        Some(([LcdMetric::CpuTemperature, LcdMetric::GpuLoad], panel))
    );
    assert_eq!(choose_metric(metrics, 0, "fan_rpm"), None);

    assert_eq!(
        activate_profile("Silent"),
        Command::ActivateProfile("Silent".to_string())
    );
    assert_eq!(image_note("  /a/b.png  ", None), "b.png, one still picture");
}
