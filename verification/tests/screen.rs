//! Controls, keys, gestures and writes on a screen.

use kori::geometry::{Bounds, Point, Size};
use kori::lighting::MIN_COMMAND_INTERVAL_MS;
use kori::profile::{duty_from_percent, duty_to_percent, Channel, CurveNodes, CURVE_NODE_COUNT, MAX_DUTY_PERCENT};
use kori::shell::screen::drag::{
    touches_cooling, value_at, Aim, Drag, Edit, Interaction, Sink, TrackMap,
};
use kori::shell::screen::keyed::{KeySet, Keyed};
use kori::shell::screen::panel::DisplayColorField;
use kori::shell::screen::row::{
    brightness_key, brightness_slider, device_row, held_brightness, press_brightness_key,
    row_disclosure, row_thumbnail,
    Ink, LightingRow, RowGlyph, RowLine, RowNote,
};
use kori::shell::screen::swatch::{
    choose_color, color_picker, swatch_grid, swatches, ColorPicker, SWATCH_COLUMNS,
};
use kori::shell::screen::tab::{
    cooling_row_tab, lcd_row_tab, lighting_row_tab, CHANNEL_OFFSET_COLOR,
    CHANNEL_OFFSET_DIRECTION, CHANNEL_OFFSET_SPEED, COOLING_OFFSET_CURVE, COOLING_OFFSET_DUTY,
    COOLING_ROW_STRIDE, COOLING_TAB_DELETE, COOLING_TAB_MODE, COOLING_TAB_PROFILE,
    COOLING_TAB_REVERT, COOLING_TAB_SAVE, LCD_OFFSET_COLOR_BASE, LCD_OFFSET_IMAGE,
    LCD_OFFSET_METRIC_ONE, LCD_OFFSET_METRIC_TWO, LCD_OFFSET_RESUME, ROW_OFFSET_BRIGHTNESS,
    ROW_OFFSET_MODE, SCREEN_TAB_BASE,
};
use kori::shell::screen::write::{
    write_is_held_back, WriteSchedule, WriteTarget, COOLING_QUIET, LIGHTING_QUIET,
};
use kori::shell::screen::{choose_option, press_trigger, select, Disclosure, Popover, SelectField, SelectId, SelectOption};
use kori::shell::{ControlState, Destination};
use kori::theme::Color;

fn px(pixels: f32) -> i32 {
    (pixels * 1000.0).round() as i32
}

fn point(x: f32, y: f32) -> Point {
    Point { x: px(x), y: px(y) }
}

fn bounds(x: f32, y: f32, width: f32, height: f32) -> Bounds {
    Bounds {
        origin: point(x, y),
        size: Size { width: px(width), height: px(height) },
    }
}

#[test]
fn a_key_is_replaced_rather_than_duplicated() {
    let mut book: Keyed<u8, &str> = Keyed::default();
    book.set(1, "first");
    book.set(2, "second");
    book.set(1, "moved");

    assert_eq!(book.get(1), Some(&"moved"));
    assert_eq!(book.entries().len(), 2, "a key must not accumulate");

    book.remove(1);
    assert_eq!(book.get(1), None);
    book.clear();
    assert_eq!(book.entries().len(), 0);
}

#[test]
fn taking_leaves_every_entry_that_was_not_ready() {
    let mut book: Keyed<u8, u32> = Keyed::default();
    for (key, value) in [(1, 10), (2, 20), (3, 30)] {
        book.set(key, value);
    }

    let mut taken = book.take(|value| *value <= 20);
    taken.sort_unstable();
    assert_eq!(taken, vec![1, 2]);
    assert!(!book.contains(1));
    assert_eq!(book.get(3), Some(&30));
}

#[test]
fn a_set_toggles_a_key_in_and_out() {
    let mut open: KeySet<char> = KeySet::default();
    assert!(!open.contains('a'));

    open.toggle('a');
    open.toggle('b');
    assert!(open.contains('a') && open.contains('b'));

    open.toggle('a');
    assert!(!open.contains('a'), "a second toggle closes it");
    assert!(open.contains('b'), "and leaves the other alone");

    // Inserting twice is not toggling: the panel row opens by default and
    // must stay open when the same key is seeded again.
    open.insert('b');
    assert!(open.contains('b'));
}

fn channel_row_stops(base: isize) -> Vec<isize> {
    vec![
        base,
        base + ROW_OFFSET_BRIGHTNESS,
        base + ROW_OFFSET_MODE,
        base + CHANNEL_OFFSET_COLOR,
        base + CHANNEL_OFFSET_SPEED,
        base + CHANNEL_OFFSET_DIRECTION,
    ]
}

fn lcd_row_stops(base: isize) -> Vec<isize> {
    let mut stops = vec![
        base,
        base + ROW_OFFSET_BRIGHTNESS,
        base + ROW_OFFSET_MODE,
        base + LCD_OFFSET_METRIC_ONE,
        base + LCD_OFFSET_METRIC_TWO,
    ];
    stops.extend(
        (0..DisplayColorField::all().len() as isize)
            .map(|index| base + LCD_OFFSET_COLOR_BASE + index),
    );
    stops.push(base + LCD_OFFSET_IMAGE);
    stops.push(base + LCD_OFFSET_RESUME);
    stops
}

#[test]
fn every_lighting_control_keeps_traversal_order_equal_to_visual_order() {
    for channel_count in 0..4usize {
        let mut stops = Vec::new();
        for index in 0..channel_count {
            stops.extend(channel_row_stops(lighting_row_tab(index)));
        }
        stops.extend(lcd_row_stops(lcd_row_tab(channel_count)));

        let sorted = {
            let mut copy = stops.clone();
            copy.sort();
            copy.dedup();
            copy
        };
        assert_eq!(
            stops, sorted,
            "with {channel_count} channels two controls share a stop, or run out of order"
        );
        assert!(
            stops
                .iter()
                .all(|stop| *stop >= SCREEN_TAB_BASE && *stop > Destination::Settings.tab_index()),
            "screen controls come after every rail entry"
        );
    }
}

#[test]
fn a_channel_block_never_reaches_the_row_below_it() {
    let widest = channel_row_stops(lighting_row_tab(0)).into_iter().max().unwrap();
    assert!(
        widest < lighting_row_tab(1),
        "the widest channel detail must stay inside its own block"
    );
}

#[test]
fn every_cooling_control_keeps_traversal_order_equal_to_visual_order() {
    let pump = cooling_row_tab(Channel::Pump);
    let fan = cooling_row_tab(Channel::Fan);
    let indices = [
        COOLING_TAB_MODE,
        COOLING_TAB_PROFILE,
        pump,
        pump + COOLING_OFFSET_DUTY,
        pump + COOLING_OFFSET_CURVE,
        fan,
        COOLING_TAB_REVERT,
        COOLING_TAB_SAVE,
        COOLING_TAB_DELETE,
    ];

    let mut sorted = indices.to_vec();
    sorted.sort();
    sorted.dedup();
    assert_eq!(
        indices.to_vec(),
        sorted,
        "no two cooling controls share a stop, and they run in visual order"
    );
    assert!(
        indices
            .iter()
            .all(|index| *index >= SCREEN_TAB_BASE && *index > Destination::Settings.tab_index()),
        "screen controls come after every rail entry"
    );
    assert!(
        fan + COOLING_ROW_STRIDE - 1 < COOLING_TAB_REVERT,
        "the last row's detail must not reach the action buttons"
    );
}

#[test]
fn rail_tab_order_is_stable_and_precedes_screen_controls() {
    let mut indices: Vec<isize> = Destination::primary()
        .into_iter()
        .chain([Destination::Settings])
        .map(Destination::tab_index)
        .collect();
    let sorted = {
        let mut copy = indices.clone();
        copy.sort();
        copy
    };
    assert_eq!(indices, sorted, "rail order must match visual order");

    indices.dedup();
    assert_eq!(indices.len(), 4, "every entry needs its own tab stop");
    assert!(indices.iter().all(|index| *index < SCREEN_TAB_BASE));
}

#[test]
fn the_picker_takes_a_stop_of_its_own_ahead_of_the_recovery_button() {
    assert_eq!(
        LCD_OFFSET_IMAGE,
        LCD_OFFSET_COLOR_BASE + DisplayColorField::all().len() as isize
    );
    assert_eq!(LCD_OFFSET_RESUME, LCD_OFFSET_IMAGE + 1);
}

#[test]
fn the_panel_row_follows_whatever_the_controller_reported() {
    for channel_count in 0..8usize {
        let base = lcd_row_tab(channel_count);
        let last_channel_stop = channel_count
            .checked_sub(1)
            .and_then(|index| channel_row_stops(lighting_row_tab(index)).into_iter().max());
        if let Some(last) = last_channel_stop {
            assert!(last < base, "the panel row overlaps the last channel row");
        }
        assert!(lcd_row_stops(base).iter().all(|stop| *stop >= base));
    }
}

#[test]
fn a_due_write_still_waits_for_the_gesture_and_for_the_one_in_flight() {
    let track = bounds(0.0, 0.0, 200.0, 22.0);
    let duty = Drag::Duty { channel: Channel::Pump, track };
    let brightness = Drag::Brightness { row: LightingRow::Channel(1), track };

    assert!(!write_is_held_back(WriteTarget::Cooling, None, false));
    assert!(write_is_held_back(WriteTarget::Cooling, Some(duty), false));
    assert!(write_is_held_back(
        WriteTarget::Cooling,
        Some(Drag::Curve {
            channel: Channel::Fan,
            node: 0,
            base: CurveNodes::starting_ramp(),
            plot: track,
        }),
        false
    ));
    assert!(
        write_is_held_back(WriteTarget::Cooling, None, true),
        "one write in flight at a time, or an outcome lands against the wrong program"
    );

    assert!(!write_is_held_back(WriteTarget::Cooling, Some(brightness), false));
    assert!(write_is_held_back(
        WriteTarget::Lighting(LightingRow::Channel(1)),
        Some(brightness),
        false
    ));
    assert!(!write_is_held_back(
        WriteTarget::Lighting(LightingRow::Channel(2)),
        Some(brightness),
        false
    ));
    assert!(!write_is_held_back(
        WriteTarget::Lighting(LightingRow::Lcd),
        None,
        true
    ));
}

#[test]
fn each_target_waits_out_the_floor_its_own_daemon_path_enforces() {
    assert_eq!(WriteTarget::Cooling.quiet(), COOLING_QUIET);
    assert_eq!(WriteTarget::Lighting(LightingRow::Lcd).quiet(), LIGHTING_QUIET);
    assert!(
        LIGHTING_QUIET < COOLING_QUIET,
        "the lighting floor is four times lower than the thermal one"
    );
}

#[test]
fn the_quiet_period_clears_the_floor_the_daemon_enforces() {
    assert!(
        LIGHTING_QUIET > MIN_COMMAND_INTERVAL_MS,
        "an edit must not be written faster than the controller accepts"
    );
    assert!(
        LIGHTING_QUIET < 250,
        "an edit that takes a quarter of a second to leave reads as a control that did not take"
    );
}

#[test]
fn each_target_waits_out_its_own_quiet_period() {
    let start: u64 = 1_700_000_000_000;
    let mut schedule = WriteSchedule::default();
    schedule.touch(
        WriteTarget::Lighting(LightingRow::Channel(1)),
        start + LIGHTING_QUIET,
    );
    schedule.touch(WriteTarget::Lighting(LightingRow::Lcd), start + LIGHTING_QUIET * 3);

    assert!(schedule.take_due(start).is_empty());
    assert_eq!(
        schedule.take_due(start + LIGHTING_QUIET),
        vec![WriteTarget::Lighting(LightingRow::Channel(1))]
    );
    assert!(!schedule.is_pending(WriteTarget::Lighting(LightingRow::Channel(1))));
    assert!(schedule.is_pending(WriteTarget::Lighting(LightingRow::Lcd)));

    schedule.touch(WriteTarget::Lighting(LightingRow::Lcd), start + LIGHTING_QUIET * 5);
    assert!(schedule.take_due(start + LIGHTING_QUIET * 3).is_empty());
    assert_eq!(
        schedule.take_due(start + LIGHTING_QUIET * 5),
        vec![WriteTarget::Lighting(LightingRow::Lcd)]
    );
    assert!(!schedule.is_pending(WriteTarget::Lighting(LightingRow::Lcd)));
}

#[test]
fn a_duty_track_and_a_brightness_track_never_answer_for_each_other() {
    let mut duty: TrackMap<Channel> = TrackMap::default();
    let at = point(300.0, 200.0);
    duty.record(Channel::Pump, bounds(200.0, 190.0, 200.0, 22.0));
    assert_eq!(duty.at(at).map(|(channel, _)| channel), Some(Channel::Pump));
    duty.clear();
    assert_eq!(duty.at(at), None);
}

fn track(row: LightingRow, x: f32, y: f32) -> (LightingRow, Bounds) {
    (row, bounds(x, y, 110.0, 22.0))
}

#[test]
fn a_press_finds_the_track_it_landed_on_and_no_other() {
    let mut tracks = TrackMap::default();
    for (row, bounds) in [
        track(LightingRow::Channel(1), 576.0, 210.0),
        track(LightingRow::Channel(2), 576.0, 297.0),
        track(LightingRow::Lcd, 576.0, 573.0),
    ] {
        tracks.record(row, bounds);
    }

    let at = |x: f32, y: f32| tracks.at(point(x, y)).map(|(row, _)| row);

    assert_eq!(at(600.0, 220.0), Some(LightingRow::Channel(1)));
    assert_eq!(at(600.0, 305.0), Some(LightingRow::Channel(2)));
    assert_eq!(at(680.0, 580.0), Some(LightingRow::Lcd));
    assert_eq!(at(600.0, 260.0), None);
    assert_eq!(at(400.0, 220.0), None);

    assert_eq!(at(600.0, 206.0), Some(LightingRow::Channel(1)));
    assert_eq!(at(572.0, 220.0), Some(LightingRow::Channel(1)));
}

#[test]
fn a_row_that_went_away_takes_its_track_with_it() {
    let mut tracks = TrackMap::default();
    let (row, bounds) = track(LightingRow::Channel(1), 576.0, 210.0);
    tracks.record(row, bounds);
    let inside = point(600.0, 220.0);
    assert!(tracks.at(inside).is_some());

    let (_, moved) = track(LightingRow::Channel(1), 576.0, 400.0);
    tracks.record(row, moved);
    assert_eq!(tracks.at(inside), None);
    assert!(tracks.at(point(600.0, 410.0)).is_some());

    tracks.clear();
    assert_eq!(tracks.at(point(600.0, 410.0)), None);
}

fn press(interaction: &mut Interaction, position: Point) -> Option<Edit> {
    let mut rows = Disclosure::default();
    interaction.begin_drag(
        position,
        Aim { node: 3, duty: 128 },
        CurveNodes::starting_ramp(),
        CurveNodes::flat(100),
        &mut rows,
    )
}

#[test]
fn a_refused_control_publishes_no_rectangle_to_grab() {
    let mut interaction = Interaction::default();
    assert!(
        interaction.duty_sink(Channel::Pump, false).is_none(),
        "a track the hardware refused must not be grabbable"
    );

    let Some(sink) = interaction.duty_sink(Channel::Pump, true) else {
        panic!("an operable track publishes where it was painted");
    };
    let track = bounds(0.0, 0.0, 200.0, 22.0);
    interaction.publish(sink, track);
    press(&mut interaction, point(100.0, 10.0));
    assert_eq!(
        interaction.drag(),
        Some(Drag::Duty { channel: Channel::Pump, track })
    );
}

#[test]
fn one_list_is_open_at_a_time_and_pressing_its_own_control_closes_it() {
    let mut interaction = Interaction::default();
    let mode = Popover::Options { select: SelectId::CoolingMode };
    let profile = Popover::Options { select: SelectId::Profile };

    assert!(!interaction.showing_any());
    interaction.toggle(mode);
    assert!(interaction.showing(&mode));

    interaction.toggle(profile);
    assert!(interaction.showing(&profile) && !interaction.showing(&mode));

    interaction.toggle(profile);
    assert!(!interaction.showing_any());

    interaction.toggle(mode);
    assert!(interaction.dismiss(), "a press outside closes the list");
    assert!(
        !interaction.dismiss(),
        "and dismissing nothing must not repaint the window"
    );
}

#[test]
fn a_gesture_follows_its_own_track_until_it_ends() {
    let mut interaction = Interaction::default();
    let rail = bounds(0.0, 0.0, 100.0, 22.0);
    interaction.publish(Sink::Brightness(LightingRow::Lcd), rail);
    interaction.publish(Sink::Curve(Channel::Fan), bounds(0.0, 100.0, 100.0, 80.0));

    assert_eq!(
        press(&mut interaction, point(50.0, 10.0)),
        Some(Edit::Brightness { row: LightingRow::Lcd, percent: 50 })
    );
    assert_eq!(
        interaction.drag_to(point(500.0, 300.0), 7),
        Some(Edit::Brightness { row: LightingRow::Lcd, percent: 100 })
    );
    assert!(interaction.end_drag().is_some());
    assert_eq!(interaction.drag_to(point(50.0, 10.0), 7), None);

    assert_eq!(
        press(&mut interaction, point(40.0, 140.0)),
        Some(Edit::Node {
            channel: Channel::Fan,
            base: CurveNodes::flat(100),
            node: 3,
            duty: 128
        })
    );
    assert_eq!(
        interaction.drag_to(point(40.0, 120.0), 200),
        Some(Edit::Node {
            channel: Channel::Fan,
            base: CurveNodes::flat(100),
            node: 3,
            duty: 200
        })
    );
    assert!(interaction.drag().unwrap().is_cooling());
    interaction.end_drag();
    interaction.clear_tracks();
    assert_eq!(press(&mut interaction, point(50.0, 10.0)), None);
}

#[test]
fn every_select_on_a_screen_carries_its_own_identity() {
    let ids = [
        SelectId::CoolingMode,
        SelectId::Profile,
        SelectId::ChannelMode(1),
        SelectId::ChannelMode(2),
        SelectId::ChannelSpeed(1),
        SelectId::ChannelDirection(1),
        SelectId::LcdMode,
        SelectId::LcdMetric(0),
        SelectId::LcdMetric(1),
    ];

    let mut keys: Vec<String> = ids.iter().map(|id| id.key()).collect();
    let spelled = keys.len();
    keys.sort();
    keys.dedup();
    assert_eq!(keys.len(), spelled, "two selects share an element id");

    for id in ids {
        assert!(!id.label().is_empty(), "{id:?} has no caption to show");
    }
}

#[test]
fn only_the_selects_a_row_already_names_hide_their_caption() {
    assert!(!SelectId::ChannelMode(1).shows_label());
    assert!(!SelectId::LcdMode.shows_label());
    for id in [
        SelectId::CoolingMode,
        SelectId::Profile,
        SelectId::ChannelSpeed(1),
        SelectId::ChannelDirection(1),
        SelectId::LcdMetric(0),
    ] {
        assert!(id.shows_label(), "{id:?} has nothing else naming it");
    }
}

#[test]
fn a_reading_slot_is_numbered_from_one_wherever_it_is_named() {
    assert_eq!(SelectId::LcdMetric(0).label(), "Reading 1");
    assert_eq!(SelectId::LcdMetric(1).label(), "Reading 2");
    assert_eq!(SelectId::LcdMetric(0).key(), "lcd-metric-1");
    assert_eq!(SelectId::LcdMetric(1).key(), "lcd-metric-2");
}

#[test]
fn opening_a_cooling_row_puts_the_keyboard_on_its_first_node() {
    let mut rows = Disclosure::default();
    assert!(!rows.cooling.contains(Channel::Pump), "rows start closed");

    rows.step_node(Channel::Pump, 4);
    assert_eq!(rows.node(Channel::Pump), 4);

    rows.toggle_cooling(Channel::Pump);
    assert!(rows.cooling.contains(Channel::Pump));
    assert_eq!(
        rows.node(Channel::Pump),
        0,
        "the plot opens on its first node"
    );

    rows.step_node(Channel::Pump, 3);
    assert_eq!(rows.node(Channel::Fan), 0, "the fan kept its own node");

    rows.toggle_cooling(Channel::Pump);
    assert!(
        !rows.cooling.contains(Channel::Pump),
        "a second press closes it"
    );
}

#[test]
fn node_selection_stays_inside_the_curve() {
    let mut rows = Disclosure::default();
    rows.step_node(Channel::Pump, -5);
    assert_eq!(rows.node(Channel::Pump), 0);
    rows.step_node(Channel::Pump, 100);
    assert_eq!(rows.node(Channel::Pump), CURVE_NODE_COUNT - 1);
    rows.select_node(Channel::Pump, 999);
    assert_eq!(rows.node(Channel::Pump), CURVE_NODE_COUNT - 1);
    rows.step_node(Channel::Pump, isize::MIN);
    assert_eq!(rows.node(Channel::Pump), 0);
    rows.step_node(Channel::Pump, isize::MAX);
    assert_eq!(rows.node(Channel::Pump), CURVE_NODE_COUNT - 1);
}

#[test]
fn lighting_rows_open_independently_of_each_other() {
    let mut rows = Disclosure::default();
    rows.lighting.insert(LightingRow::Lcd);

    rows.lighting.toggle(LightingRow::Channel(1));
    assert!(rows.lighting.contains(LightingRow::Channel(1)));
    assert!(
        rows.lighting.contains(LightingRow::Lcd),
        "opening one row does not close another"
    );

    rows.lighting.toggle(LightingRow::Lcd);
    assert!(!rows.lighting.contains(LightingRow::Lcd));
    assert!(rows.lighting.contains(LightingRow::Channel(1)));
}

#[test]
fn a_duty_track_spans_the_range_the_channel_actually_accepts() {
    for channel in [Channel::Pump, Channel::Fan] {
        let floor = duty_to_percent(channel.min_duty());
        let track = bounds(0.0, 0.0, 200.0, 22.0);
        for (x, expected) in [(-40.0, floor), (400.0, MAX_DUTY_PERCENT)] {
            let percent = value_at(track, point(x, 10.0), floor, MAX_DUTY_PERCENT);
            let duty = duty_from_percent(percent);
            assert_eq!(duty_to_percent(duty), expected, "{channel:?} at {x:?}");
            assert!(duty >= channel.min_duty());
        }
    }
}

#[test]
fn a_track_reads_its_middle_as_its_middle() {
    let track = bounds(10.0, 0.0, 200.0, 22.0);
    assert_eq!(value_at(track, point(110.0, 0.0), 0, 100), 50);
    assert_eq!(value_at(track, point(110.0, 0.0), 20, 100), 60);
    assert_eq!(value_at(track, point(11.0, 0.0), 0, 100), 1);
}

#[test]
fn a_select_opens_only_its_own_list() {
    let mut interaction = Interaction::default();
    let field = |selected: &str| SelectField {
        id: SelectId::CoolingMode,
        options: vec![
            SelectOption::new("fixed", "Fixed duty"),
            SelectOption::new("curve", "Onboard curve"),
        ],
        selected: selected.to_string(),
        state: ControlState::Enabled,
        tab_index: 10,
    };
    let closed = select(field("curve"), 900, &interaction);
    assert_eq!(closed.key, SelectId::CoolingMode.key());
    assert_eq!(closed.selected, "curve");
    assert_eq!(closed.options, field("curve").options);
    assert!(closed.menu.is_none());

    let popover = Popover::Options { select: SelectId::CoolingMode };
    press_trigger(popover, &ControlState::disabled("no lock"), &mut interaction);
    assert!(!interaction.showing_any(), "a refused control opens nothing");
    press_trigger(popover, &ControlState::Enabled, &mut interaction);
    assert!(interaction.showing(&popover));
    let open = select(field("curve"), 900, &interaction);
    let rows = open.menu.unwrap();
    assert_eq!(rows.len(), 2);
    assert!(!rows[0].chosen && rows[1].chosen);
    assert_eq!(rows[0].label, "Fixed duty");
    assert_eq!((rows[0].tab_index, rows[1].tab_index), (900, 901));
    assert_eq!(choose_option(&rows[0], &mut interaction), "fixed");
    assert!(!interaction.showing_any(), "choosing closes the list");
}

#[test]
fn a_brightness_step_stays_inside_its_range() {
    assert_eq!(brightness_key(40, "right"), Some(45));
    assert_eq!(brightness_key(40, "left"), Some(35));
    assert_eq!(brightness_key(40, "a"), None);
    assert_eq!(held_brightness(-5), 0);
    assert_eq!(held_brightness(105), 100);
    assert_eq!(held_brightness(45), 45);
}

#[test]
fn a_brightness_key_edits_only_a_slider_that_can_be_operated() {
    let row = LightingRow::Channel(2);
    let mut interaction = Interaction::default();
    interaction.toggle(Popover::Options { select: SelectId::CoolingMode });

    let refused = ControlState::disabled("no lock");
    assert_eq!(press_brightness_key(row, 40, &refused, "right", &mut interaction), None);
    assert_eq!(
        press_brightness_key(row, 40, &ControlState::Enabled, "a", &mut interaction),
        None
    );
    assert!(interaction.showing_any(), "nothing was pressed that answers");

    assert_eq!(
        press_brightness_key(row, 98, &ControlState::Enabled, "right", &mut interaction),
        Some((100, WriteTarget::Lighting(row)))
    );
    assert!(!interaction.showing_any());
}

#[test]
fn only_an_edit_of_a_curve_pushes_its_write_out() {
    let before = CurveNodes { duty: [50; CURVE_NODE_COUNT] };
    let mut after = before;
    after.duty[3] = 90;
    let node = Edit::Node { channel: Channel::Fan, base: before, node: 3, duty: 90 };
    assert!(touches_cooling(node, true, before, before), "a press always does");
    assert!(touches_cooling(node, false, before, after));
    assert!(!touches_cooling(node, false, before, before), "a sideways move changes nothing");
    let duty = Edit::Duty { channel: Channel::Fan, duty: 90 };
    assert!(!touches_cooling(duty, true, before, after));
    let brightness = Edit::Brightness { row: LightingRow::Lcd, percent: 40 };
    assert!(!touches_cooling(brightness, true, before, after));
    assert!(before.same(&before) && !before.same(&after));
}

#[test]
fn a_row_shows_what_it_was_given() {
    let head = row_disclosure(
        LightingRow::Channel(2),
        true,
        20,
        "Strip".to_string(),
        Some(RowNote::Fragment("Channel 2".to_string())),
    );
    assert_eq!(head.id, format!("lighting-row-{}", LightingRow::Channel(2).key()));
    assert_eq!(head.fragment.as_deref(), Some("Channel 2"));
    assert_eq!(head.sentence, None);

    let slider = brightness_slider(
        LightingRow::Lcd,
        30,
        ControlState::disabled("read-only"),
        21,
    );
    assert_eq!(slider.value, 30);
    assert!(!slider.publishes());

    let mode = SelectField {
        id: SelectId::LcdMode,
        options: Vec::new(),
        selected: String::new(),
        state: ControlState::Enabled,
        tab_index: 22,
    };
    let row = device_row(
        LightingRow::Lcd,
        RowLine {
            thumbnail: row_thumbnail(None, RowGlyph::Photo, true),
            title: "LCD display".to_string(),
            note: None,
            brightness: 70,
            write: ControlState::Enabled,
            mode,
            tab_index: 20,
        },
        false,
    );
    assert_eq!(row.head.tab_index, 20);
    assert_eq!(row.brightness.tab_index, 21);
    assert_eq!(row.brightness.value, 70);
    assert!(row.brightness.publishes());

    let dotted = row_thumbnail(Some(Color::rgb(0xff0000)), RowGlyph::Windmill, false);
    assert_eq!(dotted.fill, Color::rgb(0xff0000));
    assert_eq!(dotted.ink, Ink::ReadableOn(Color::rgb(0xff0000)));
}

#[test]
fn swatches_are_distinct() {
    let mut values: Vec<u32> = swatches().iter().map(|color| color.0).collect();
    values.sort();
    values.dedup();
    assert_eq!(values.len(), swatches().len());
}

#[test]
fn choosing_a_swatch_writes_its_digits_to_its_own_row() {
    let mut interaction = Interaction::default();
    let picker = ColorPicker::Channel(2);
    interaction.toggle(Popover::Swatches { picker });
    let field = color_picker(picker, "FF0000", ControlState::Enabled, 30, &interaction);
    assert!(field.open);
    assert_eq!(field.digits, "FF0000");
    assert_eq!(field.swatch_ids.len(), swatches().len());

    // A channel without an editor has no field to put a color in.
    assert!(choose_color(picker, Color::rgb(0x00a0ff), &vec![1, 3], &mut interaction).is_none());
    assert!(interaction.showing_any());

    let choice =
        choose_color(picker, Color::rgb(0x00a0ff), &vec![1, 2], &mut interaction).unwrap();
    assert_eq!(choice.digits, "00A0FF");
    assert_eq!(choice.target, WriteTarget::Lighting(LightingRow::Channel(2)));
    assert!(!interaction.showing_any());

    // The panel's fields are always there.
    let panel = ColorPicker::Panel(DisplayColorField::BandOne);
    let choice = choose_color(panel, Color::rgb(0x102030), &vec![], &mut interaction).unwrap();
    assert_eq!(choice.target, WriteTarget::Lighting(LightingRow::Lcd));
    assert_eq!(
        ColorPicker::Panel(DisplayColorField::BandOne).row(),
        LightingRow::Lcd
    );
}

#[test]
fn a_grid_keeps_every_swatch_in_order() {
    let rows = swatch_grid(vec![1, 2, 3, 4, 5, 6, 7]);
    assert_eq!(rows, vec![vec![1, 2, 3], vec![4, 5, 6], vec![7]]);
    assert!(rows.iter().all(|row| row.len() <= SWATCH_COLUMNS));
}

#[test]
fn a_control_says_why_it_is_refused() {
    assert!(ControlState::Enabled.is_enabled());
    assert_eq!(ControlState::Enabled.message(), None);
    let disabled = ControlState::disabled("no lock");
    assert!(disabled.is_disabled());
    assert_eq!(disabled.message(), Some("no lock"));
    assert_eq!(ControlState::error("out of range").message(), Some("out of range"));
}

#[test]
fn every_sink_publishes_under_its_own_book() {
    let mut interaction = Interaction::default();
    assert!(interaction.brightness_sink(LightingRow::Lcd, false).is_none());
    assert!(interaction.curve_sink(Channel::Fan, false).is_none());
    let brightness = interaction.brightness_sink(LightingRow::Lcd, true).unwrap();
    let curve = interaction.curve_sink(Channel::Fan, true).unwrap();
    assert_eq!(brightness, Sink::Brightness(LightingRow::Lcd));
    assert_eq!(curve, Sink::Curve(Channel::Fan));
    interaction.publish(curve, bounds(0.0, 0.0, 100.0, 100.0));
    assert!(matches!(
        press(&mut interaction, point(50.0, 50.0)),
        Some(Edit::Node { channel: Channel::Fan, .. })
    ));
    let mut rows = Disclosure::default();
    assert!(!rows.is_open(LightingRow::Lcd));
    rows.lighting.insert(LightingRow::Lcd);
    assert!(rows.is_open(LightingRow::Lcd));
}
