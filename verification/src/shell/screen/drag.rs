//! What the pointer is doing, and where this frame painted what it can grab.
//!
//! The window decides which control a press landed on, rather than the control
//! hearing about the press itself. All of it is one value: the open popover,
//! the running gesture and the three books of painted rectangles are one
//! concern, what the pointer is doing to this window right now.

use vstd::laws_eq::obeys_concrete_eq;
use vstd::prelude::*;

use super::keyed::Keyed;
use super::row::{held_brightness, LightingRow};
use super::{Disclosure, Popover};
use crate::geometry::{Bounds, Point};
use crate::lighting::MAX_BRIGHTNESS;
use crate::lists;
use crate::profile::curve::CurveNodes;
use crate::profile::{duty_from_percent, duty_to_percent, Channel, MAX_DUTY_PERCENT};

verus! {

/// How far outside a track a press still counts as landing on it, in
/// thousandths of a logical pixel.
pub const TRACK_GRAB_MARGIN: i32 = 6_000;

/// What the pointer is currently moving.
///
/// A pointer moves one thing. Every variant captures the rectangle it was
/// painted at, which is what lets the pointer leave the control and keep moving
/// the value it grabbed.
#[derive(Debug, Clone, Copy, PartialEq)]
pub enum Drag {
    Brightness { row: LightingRow, track: Bounds },
    Duty { channel: Channel, track: Bounds },
    /// A curve node, fixed at the press, and the whole curve as it stood at
    /// that moment.
    Curve { channel: Channel, node: usize, base: CurveNodes, plot: Bounds },
}

impl Drag {
    pub open spec fn edits_cooling(self) -> bool {
        self is Duty || self is Curve
    }

    /// Whether this gesture is editing the cooling program.
    ///
    /// Both cooling gestures hold back the autosave and the adoption of what
    /// the daemon committed; a brightness drag on another screen holds back
    /// neither.
    pub fn is_cooling(self) -> (cooling: bool)
        ensures
            cooling == self.edits_cooling(),
            cooling <==> self is Duty || self is Curve,
    {
        matches!(self, Self::Duty { .. } | Self::Curve { .. })
    }
}

/// The first track a position lands on, of those painted.
pub open spec fn track_at<K>(book: Seq<(K, Bounds)>, position: Point) -> Option<(K, Bounds)> {
    lists::first_where(
        book,
        |entry: (K, Bounds)| entry.1.covers(position, TRACK_GRAB_MARGIN as int),
    )
}

/// Where each operable track was painted, by whatever names the control.
///
/// A disabled slider records nothing, so a track that cannot be moved cannot be
/// grabbed either.
#[derive(Debug)]
pub struct TrackMap<K> {
    tracks: Keyed<K, Bounds>,
}

impl<K> View for TrackMap<K> {
    type V = Seq<(K, Bounds)>;

    closed spec fn view(&self) -> Seq<(K, Bounds)> {
        self.tracks@
    }
}

impl<K> Default for TrackMap<K> {
    fn default() -> (map: Self)
        ensures
            map@ == Seq::<(K, Bounds)>::empty(),
    {
        Self { tracks: Keyed::default() }
    }
}

impl<K: Copy + PartialEq> TrackMap<K> {
    /// Publish where one key's track was painted, replacing its last position.
    pub fn record(&mut self, key: K, track: Bounds)
        requires
            obeys_concrete_eq::<K>(),
        ensures
            final(self)@ == super::keyed::with(old(self)@, key, track),
    {
        self.tracks.set(key, track);
    }

    /// Forget every track, so a row that went away takes its rectangle with it.
    pub fn clear(&mut self)
        ensures
            final(self)@ == Seq::<(K, Bounds)>::empty(),
    {
        self.tracks.clear();
    }

    /// The track under a pointer position, if any.
    ///
    /// Grown a little: a press a pixel above the track is a press on the track
    /// as far as the operator is concerned.
    pub fn at(&self, position: Point) -> (found: Option<(K, Bounds)>)
        ensures
            found == track_at(self@, position),
    {
        let entries: Vec<(K, &Bounds)> = self.tracks.entries();
        let ghost book = self@;
        let ghost wanted = |entry: (K, Bounds)|
            entry.1.covers(position, TRACK_GRAB_MARGIN as int);
        assert(entries@.len() == book.len());
        let mut at: usize = 0;
        while at < entries.len()
            invariant
                at <= entries@.len(),
                book == self@,
                entries@ == book.map_values(|entry: (K, Bounds)| (entry.0, &entry.1)),
                lists::first_where(book, wanted) == lists::first_from(book, wanted, at as int),
                wanted == (|entry: (K, Bounds)|
                    entry.1.covers(position, TRACK_GRAB_MARGIN as int)),
            decreases entries.len() - at,
        {
            let entry: (K, &Bounds) = entries[at];
            assert(entry.0 == book[at as int].0 && *entry.1 == book[at as int].1);
            if entry.1.contains(position, TRACK_GRAB_MARGIN) {
                assert(wanted(book[at as int]));
                return Some((entry.0, *entry.1));
            }
            assert(!wanted(book[at as int]));
            at += 1;
        }
        None
    }
}

/// Re-recording a key moves its rectangle rather than adding a second one.
pub proof fn a_track_moves_rather_than_accumulates<K>(
    book: Seq<(K, Bounds)>,
    key: K,
    track: Bounds,
    position: Point,
)
    requires
        super::keyed::unique(book),
    ensures
        ({
            let after = super::keyed::with(book, key, track);
            &&& super::keyed::unique(after)
            &&& super::keyed::held(after, key) == Some(track)
            &&& track_at(after, position) matches Some(found) ==> found.0 == key ==> found.1
                == track
        }),
{
    let after = super::keyed::with(book, key, track);
    super::keyed::setting_keeps_keys_unique(book, key, track);
    super::keyed::what_is_set_is_held(book, key, track, key);
    let wanted = |entry: (K, Bounds)| entry.1.covers(position, TRACK_GRAB_MARGIN as int);
    lists::first_where_is_wanted(after, wanted);
    if let Some(found) = track_at(after, position) {
        if found.0 == key {
            let i = choose|i: int| 0 <= i < after.len() && #[trigger] after[i] == found;
            let at = super::keyed::position(after, key);
            super::keyed::a_key_stands_where_it_is_found(after, key);
            assert(after[at].0 == key && after[i].0 == key);
            if i < at {
                assert(after[i].0 != after[at].0);
            }
            if at < i {
                assert(after[at].0 != after[i].0);
            }
        }
    }
}

/// The value a position on a track stands for: the nearest whole one, halves up.
///
/// A position past an end is the value at that end.
pub open spec fn track_value(track: Bounds, position: Point, low: int, high: int) -> int {
    let width = track.size.width as int;
    let along = position.x - track.origin.x;
    if width <= 0 || along <= 0 {
        low
    } else if along >= width {
        high
    } else {
        low + (2 * along * (high - low) + width) / (2 * width)
    }
}

proof fn lemma_track_value(track: Bounds, position: Point, low: int, high: int)
    requires
        low <= high,
    ensures
        low <= track_value(track, position, low, high) <= high,
{
    let width = track.size.width as int;
    let along = position.x - track.origin.x;
    let span = high - low;
    if 0 < along < width {
        let scaled = 2 * along * span + width;
        assert(0 <= scaled / (2 * width) <= span) by (nonlinear_arith)
            requires
                scaled == 2 * along * span + width,
                0 < along < width,
                0 <= span,
        {
            assert(0 <= scaled);
            assert(scaled < (span + 1) * (2 * width));
        }
    }
}

/// The value a position on a track stands for: the nearest whole one, halves up.
///
/// A position past an end is the value at that end.
pub fn value_at(track: Bounds, position: Point, low: u8, high: u8) -> (value: u8)
    requires
        low <= high,
    ensures
        value == track_value(track, position, low as int, high as int),
        low <= value <= high,
{
    proof {
        lemma_track_value(track, position, low as int, high as int);
    }
    let width: i64 = track.size.width as i64;
    let along: i64 = position.x as i64 - track.origin.x as i64;
    if width <= 0 || along <= 0 {
        return low;
    }
    if along >= width {
        return high;
    }
    let span: i64 = high as i64 - low as i64;
    proof {
        lemma_track_value(track, position, low as int, high as int);
        assert(0 <= along * span <= 2147483647 * 255) by (nonlinear_arith)
            requires
                0 < along < 2147483647,
                0 <= span <= 255,
        ;
        assert(2 * along * span == 2 * (along * span)) by (nonlinear_arith);
    }
    let steps: i64 = (2 * (along * span) + width) / (2 * width);
    (low as i64 + steps) as u8
}

/// A gesture that leaves its track keeps pinning the end it left by, and moving
/// along the track never turns the value back.
pub proof fn a_track_is_pinned_at_its_ends(
    track: Bounds,
    left: Point,
    right: Point,
    low: int,
    high: int,
)
    requires
        low <= high,
        track.size.width > 0,
        left.x <= right.x,
    ensures
        low <= track_value(track, left, low, high) <= track_value(track, right, low, high) <= high,
        left.x <= track.origin.x ==> track_value(track, left, low, high) == low,
        right.x >= track.origin.x + track.size.width ==> track_value(track, right, low, high)
            == high,
{
    lemma_track_value(track, left, low, high);
    lemma_track_value(track, right, low, high);
    let width = track.size.width as int;
    let (a, b) = (left.x - track.origin.x, right.x - track.origin.x);
    if 0 < a && b < width {
        let span = high - low;
        let (p, q) = (2 * a * span + width, 2 * b * span + width);
        assert(p <= q) by (nonlinear_arith)
            requires
                p == 2 * a * span + width,
                q == 2 * b * span + width,
                a <= b,
                0 <= span,
        ;
        assert(p / (2 * width) <= q / (2 * width)) by (nonlinear_arith)
            requires
                p <= q,
                width > 0,
        ;
    }
}

/// The duty a position on a channel's track stands for.
///
/// Read as whole percent: the driver stores a percentage, so a finer reading
/// would offer positions the hardware cannot hold.
pub open spec fn track_duty(channel: Channel, track: Bounds, position: Point) -> int {
    crate::profile::duty_of_percent(
        track_value(
            track,
            position,
            crate::profile::percent_of_duty(channel.floor() as int),
            MAX_DUTY_PERCENT as int,
        ),
    )
}

/// Every position of a channel's track, on it or past its ends, is a duty the
/// channel accepts.
pub proof fn a_duty_track_spans_what_the_channel_accepts(
    channel: Channel,
    track: Bounds,
    position: Point,
)
    ensures
        channel.floor() <= track_duty(channel, track, position) <= crate::profile::MAX_DUTY,
{
    let floor = crate::profile::percent_of_duty(channel.floor() as int);
    crate::profile::the_pump_floor_sits_on_the_grid(0);
    lemma_track_value(track, position, floor, MAX_DUTY_PERCENT as int);
    let percent = track_value(track, position, floor, MAX_DUTY_PERCENT as int);
    crate::profile::the_pump_floor_sits_on_the_grid(percent);
    crate::profile::a_percentage_survives_its_duty(percent);
}

/// What one move of a gesture changes.
#[derive(Debug, Clone, Copy, PartialEq)]
pub enum Edit {
    Brightness { row: LightingRow, percent: u8 },
    Duty { channel: Channel, duty: u8 },
    /// One node of a curve, replayed against the curve the gesture started on.
    Node { channel: Channel, base: CurveNodes, node: usize, duty: u8 },
}

/// What the plot under the pointer answers for its position.
#[derive(Debug, Clone, Copy, PartialEq, Eq, Structural)]
pub struct Aim {
    /// The node nearest the position.
    pub node: usize,
    /// The duty the position is level with.
    pub duty: u8,
}

/// What moving a gesture to `position` changes. Of a curve only the height is
/// read, so a gesture that wanders sideways keeps editing the node it grabbed.
pub open spec fn edit_at(drag: Drag, position: Point, duty: u8) -> Edit {
    match drag {
        Drag::Brightness { row, track } => Edit::Brightness {
            row,
            percent: track_value(track, position, 0, MAX_BRIGHTNESS as int) as u8,
        },
        Drag::Duty { channel, track } => Edit::Duty {
            channel,
            duty: track_duty(channel, track, position) as u8,
        },
        Drag::Curve { channel, node, base, .. } => Edit::Node { channel, base, node, duty },
    }
}

/// Whether an edit of a gesture pushes out the deadline the cooling program is
/// written at: a press on a plot always does, a move on one only when it changed
/// the curve, and no other edit does.
pub open spec fn pushes_deadline(
    edit: Edit,
    pressed: bool,
    before: CurveNodes,
    after: CurveNodes,
) -> bool {
    edit is Node && (pressed || before.duty@ != after.duty@)
}

/// Whether an edit of a gesture pushes out the deadline the cooling program is
/// written at, given the curve of its channel before and after it.
///
/// A pointer reports far more moves than the scale has values, and a sideways
/// drag reports moves that change nothing at all.
pub fn touches_cooling(edit: Edit, pressed: bool, before: CurveNodes, after: CurveNodes) -> (touches:
    bool)
    ensures
        touches == pushes_deadline(edit, pressed, before, after),
{
    match edit {
        Edit::Node { .. } => pressed || !before.same(&after),
        _ => false,
    }
}

/// A control this frame painted, which a press can grab.
#[derive(Debug, Clone, Copy, PartialEq)]
pub enum Sink {
    Brightness(LightingRow),
    Duty(Channel),
    Curve(Channel),
}

/// What the pointer is doing to the window.
pub struct Pointer {
    pub popover: Option<Popover>,
    pub drag: Option<Drag>,
    pub brightness: Seq<(LightingRow, Bounds)>,
    pub duty: Seq<(Channel, Bounds)>,
    pub curves: Seq<(Channel, Bounds)>,
}

impl Pointer {
    /// The gesture a press starts. The books are asked in the order the
    /// controls are stacked, and the first that answers owns the press.
    pub open spec fn gesture_at(
        self,
        position: Point,
        aim: Aim,
        pump: CurveNodes,
        fan: CurveNodes,
    ) -> Option<Drag> {
        if let Some((row, track)) = track_at(self.brightness, position) {
            Some(Drag::Brightness { row, track })
        } else if let Some((channel, track)) = track_at(self.duty, position) {
            Some(Drag::Duty { channel, track })
        } else if let Some((channel, plot)) = track_at(self.curves, position) {
            Some(
                Drag::Curve {
                    channel,
                    node: aim.node,
                    base: match channel {
                        Channel::Pump => pump,
                        Channel::Fan => fan,
                    },
                    plot,
                },
            )
        } else {
            None
        }
    }
}

/// Everything about the pointer's relationship with this window.
///
/// The books are cleared and refilled every frame, so a rectangle only exists
/// while the control that owns it is on screen and operable.
#[derive(Debug)]
pub struct Interaction {
    popover: Option<Popover>,
    drag: Option<Drag>,
    brightness: TrackMap<LightingRow>,
    duty: TrackMap<Channel>,
    curves: TrackMap<Channel>,
}

impl View for Interaction {
    type V = Pointer;

    closed spec fn view(&self) -> Pointer {
        Pointer {
            popover: self.popover,
            drag: self.drag,
            brightness: self.brightness@,
            duty: self.duty@,
            curves: self.curves@,
        }
    }
}

impl Default for Interaction {
    fn default() -> (interaction: Self)
        ensures
            interaction@ == (Pointer {
                popover: None,
                drag: None,
                brightness: Seq::empty(),
                duty: Seq::empty(),
                curves: Seq::empty(),
            }),
    {
        Self {
            popover: None,
            drag: None,
            brightness: TrackMap::default(),
            duty: TrackMap::default(),
            curves: TrackMap::default(),
        }
    }
}

impl Interaction {
    /// Close whatever list is open, and say whether one was.
    pub fn dismiss(&mut self) -> (was_open: bool)
        ensures
            was_open == (old(self)@.popover is Some),
            final(self)@ == (Pointer { popover: None, ..old(self)@ }),
    {
        let was_open: bool = self.popover.is_some();
        self.popover = None;
        was_open
    }

    /// Open `popover`, or close it when it is the one already showing.
    pub fn toggle(&mut self, popover: Popover)
        ensures
            final(self)@ == (Pointer {
                popover: if old(self)@.popover == Some(popover) {
                    None
                } else {
                    Some(popover)
                },
                ..old(self)@
            }),
    {
        if self.showing(&popover) {
            self.popover = None;
        } else {
            self.popover = Some(popover);
        }
    }

    pub fn showing(&self, popover: &Popover) -> (showing: bool)
        ensures
            showing == (self@.popover == Some(*popover)),
    {
        match self.popover {
            Some(shown) => shown == *popover,
            None => false,
        }
    }

    pub fn showing_any(&self) -> (showing: bool)
        ensures
            showing == (self@.popover is Some),
    {
        self.popover.is_some()
    }

    pub fn drag(&self) -> (drag: Option<Drag>)
        ensures
            drag == self@.drag,
    {
        self.drag
    }

    /// End the gesture, returning what it was moving.
    pub fn end_drag(&mut self) -> (drag: Option<Drag>)
        ensures
            drag == old(self)@.drag,
            final(self)@ == (Pointer { drag: None, ..old(self)@ }),
    {
        let drag: Option<Drag> = self.drag;
        self.drag = None;
        drag
    }

    /// Forget every rectangle this frame published.
    pub fn clear_tracks(&mut self)
        ensures
            final(self)@ == (Pointer {
                brightness: Seq::empty(),
                duty: Seq::empty(),
                curves: Seq::empty(),
                ..old(self)@
            }),
    {
        self.brightness.clear();
        self.duty.clear();
        self.curves.clear();
    }

    /// Where a row's brightness track may be published, `None` when it cannot
    /// be operated: a rectangle that was never recorded cannot be grabbed.
    pub fn brightness_sink(&self, row: LightingRow, enabled: bool) -> (sink: Option<Sink>)
        ensures
            sink == if enabled {
                Some(Sink::Brightness(row))
            } else {
                None
            },
    {
        if enabled {
            Some(Sink::Brightness(row))
        } else {
            None
        }
    }

    /// Where a channel's duty track may be published.
    pub fn duty_sink(&self, channel: Channel, enabled: bool) -> (sink: Option<Sink>)
        ensures
            sink == if enabled {
                Some(Sink::Duty(channel))
            } else {
                None
            },
    {
        if enabled {
            Some(Sink::Duty(channel))
        } else {
            None
        }
    }

    /// Where a channel's plot may be published.
    pub fn curve_sink(&self, channel: Channel, enabled: bool) -> (sink: Option<Sink>)
        ensures
            sink == if enabled {
                Some(Sink::Curve(channel))
            } else {
                None
            },
    {
        if enabled {
            Some(Sink::Curve(channel))
        } else {
            None
        }
    }

    /// Publish where one control was painted.
    pub fn publish(&mut self, sink: Sink, track: Bounds)
        ensures
            final(self)@ == match sink {
                Sink::Brightness(row) => Pointer {
                    brightness: super::keyed::with(old(self)@.brightness, row, track),
                    ..old(self)@
                },
                Sink::Duty(channel) => Pointer {
                    duty: super::keyed::with(old(self)@.duty, channel, track),
                    ..old(self)@
                },
                Sink::Curve(channel) => Pointer {
                    curves: super::keyed::with(old(self)@.curves, channel, track),
                    ..old(self)@
                },
            },
    {
        proof {
            reveal(obeys_concrete_eq);
        }
        match sink {
            Sink::Brightness(row) => self.brightness.record(row, track),
            Sink::Duty(channel) => self.duty.record(channel, track),
            Sink::Curve(channel) => self.curves.record(channel, track),
        }
    }

    /// Begin whatever gesture a press at `position` starts, if it starts one,
    /// and say what the press itself already changes.
    ///
    /// `aim` is what the plot under the position answers, and the curves are
    /// the ones pending. A node is chosen once, here, and the keyboard moves to
    /// it. Nothing dismisses a popover here: a press while a list is open
    /// belongs to the list.
    pub fn begin_drag(
        &mut self,
        position: Point,
        aim: Aim,
        pump: CurveNodes,
        fan: CurveNodes,
        rows: &mut Disclosure,
    ) -> (edit: Option<Edit>)
        requires
            old(self)@.popover is None,
        ensures
            match old(self)@.gesture_at(position, aim, pump, fan) {
                None => {
                    &&& edit is None
                    &&& final(self)@ == old(self)@
                    &&& *final(rows) == *old(rows)
                },
                Some(drag) => {
                    &&& edit == Some(edit_at(drag, position, aim.duty))
                    &&& final(self)@ == (Pointer { drag: Some(drag), ..old(self)@ })
                    &&& final(rows).cooling == old(rows).cooling
                    &&& final(rows).lighting == old(rows).lighting
                    &&& final(rows).nodes@ == match drag {
                        Drag::Curve { channel, node, .. } => super::keyed::with(
                            old(rows).nodes@,
                            channel,
                            super::on_plot(node as int) as usize,
                        ),
                        _ => old(rows).nodes@,
                    }
                },
            },
    {
        let drag: Drag = if let Some((row, track)) = self.brightness.at(position) {
            Drag::Brightness { row, track }
        } else if let Some((channel, track)) = self.duty.at(position) {
            Drag::Duty { channel, track }
        } else if let Some((channel, plot)) = self.curves.at(position) {
            rows.select_node(channel, aim.node);
            let base: CurveNodes = match channel {
                Channel::Pump => pump,
                Channel::Fan => fan,
            };
            Drag::Curve { channel, node: aim.node, base, plot }
        } else {
            return None;
        };
        self.drag = Some(drag);
        self.drag_to(position, aim.duty)
    }

    /// Move whatever is being dragged to a pointer position.
    ///
    /// Every rectangle was captured at the press, so a gesture that leaves its
    /// control keeps pinning the end it left by. `duty` is the duty the
    /// position is level with on a plot.
    pub fn drag_to(&self, position: Point, duty: u8) -> (edit: Option<Edit>)
        ensures
            edit == match self@.drag {
                Some(drag) => Some(edit_at(drag, position, duty)),
                None => None,
            },
    {
        match self.drag {
            None => None,
            Some(Drag::Brightness { row, track }) => {
                let percent: u8 = value_at(track, position, 0, MAX_BRIGHTNESS);
                proof {
                    lemma_track_value(track, position, 0, MAX_BRIGHTNESS as int);
                }
                Some(Edit::Brightness { row, percent: held_brightness(percent as i16) })
            },
            Some(Drag::Duty { channel, track }) => {
                let floor: u8 = duty_to_percent(channel.min_duty());
                let percent: u8 = value_at(track, position, floor, MAX_DUTY_PERCENT);
                Some(Edit::Duty { channel, duty: duty_from_percent(percent) })
            },
            Some(Drag::Curve { channel, node, base, .. }) => Some(
                Edit::Node { channel, base, node, duty },
            ),
        }
    }
}

/// A position on a track stands for the whole value nearest to it on the line
/// from the one end to the other, and from the middle for the higher one.
pub proof fn a_position_stands_for_the_nearest_value(
    track: Bounds,
    position: Point,
    low: int,
    high: int,
)
    requires
        low <= high,
        track.origin.x <= position.x <= track.origin.x + track.size.width,
        track.size.width > 0,
    ensures
        ({
            let off = track.size.width * (track_value(track, position, low, high) - low) - (
            position.x - track.origin.x) * (high - low);
            -track.size.width < 2 * off <= track.size.width
        }),
{
    let width = track.size.width as int;
    let along = position.x - track.origin.x;
    let span = high - low;
    let value = track_value(track, position, low, high) - low;
    if along <= 0 {
        assert(width * value - along * span == 0) by (nonlinear_arith)
            requires
                value == 0,
                along == 0,
        ;
    } else if along >= width {
        assert(width * value - along * span == 0) by (nonlinear_arith)
            requires
                value == span,
                along == width,
        ;
    } else {
        assert(2 * along * span == 2 * (along * span)) by (nonlinear_arith);
        let scaled = 2 * (along * span) + width;
        assert(value == scaled / (2 * width));
        assert(2 * (width * value) <= scaled && scaled < 2 * (width * value) + 2 * width)
            by (nonlinear_arith)
            requires
                value == scaled / (2 * width),
                width > 0,
        ;
    }
}

/// A track without a width stands for its low end.
pub proof fn a_track_without_a_width_stands_for_its_low_end(
    track: Bounds,
    position: Point,
    low: int,
    high: int,
)
    requires
        track.size.width <= 0,
    ensures
        track_value(track, position, low, high) == low,
{
}

/// A gesture on a brightness track asks its row for the nearest percentage of
/// the track, and one on a plot for its own node of the curve it was grabbed on.
pub proof fn a_gesture_edits_what_it_grabbed(drag: Drag, position: Point, duty: u8)
    ensures
        match drag {
            Drag::Brightness { row, track } => {
                &&& edit_at(drag, position, duty) matches Edit::Brightness { row: own, percent }
                &&& own == row
                &&& percent == track_value(track, position, 0, 100)
            },
            Drag::Duty { channel, track } => {
                &&& edit_at(drag, position, duty) matches Edit::Duty { channel: own, duty: asked }
                &&& own == channel
                &&& asked == track_duty(channel, track, position)
            },
            Drag::Curve { channel, node, base, plot } => edit_at(drag, position, duty)
                == (Edit::Node { channel, base, node, duty }),
        },
{
    match drag {
        Drag::Brightness { row, track } => {
            lemma_track_value(track, position, 0, 100);
        },
        Drag::Duty { channel, track } => {
            a_duty_track_spans_what_the_channel_accepts(channel, track, position);
        },
        _ => {},
    }
}

/// A pump's track runs from a fifth of its duty to all of it and a fan's from
/// none, in whole percentages, and the duty is the one nearest to the
/// percentage.
pub proof fn a_duty_track_runs_in_percentages(channel: Channel, track: Bounds, position: Point) -> (
percent: int)
    ensures
        percent == track_value(
            track,
            position,
            match channel {
                Channel::Pump => 20,
                Channel::Fan => 0,
            },
            100,
        ),
        0 <= percent <= 100,
        -100 <= 2 * (100 * track_duty(channel, track, position) - 255 * percent) <= 100,
{
    let low = match channel {
        Channel::Pump => 20int,
        Channel::Fan => 0int,
    };
    let percent = track_value(track, position, low, 100);
    lemma_track_value(track, position, low, 100);
    crate::profile::the_floors_of_the_channels();
    crate::profile::a_percentage_becomes_the_nearest_duty(percent);
    percent
}

/// A press lands on the first track painted that it is within six pixels of.
pub proof fn a_press_lands_on_the_first_track_in_reach<K>(
    book: Seq<(K, Bounds)>,
    position: Point,
) -> (at: int)
    ensures
        match track_at(book, position) {
            Some(found) => {
                &&& 0 <= at < book.len()
                &&& book[at] == found
                &&& book[at].1.covers(position, 6_000)
                &&& forall|i: int| 0 <= i < at ==> !(#[trigger] book[i]).1.covers(position, 6_000)
            },
            None => forall|i: int|
                0 <= i < book.len() ==> !(#[trigger] book[i]).1.covers(position, 6_000),
        },
{
    let near = |entry: (K, Bounds)| entry.1.covers(position, TRACK_GRAB_MARGIN as int);
    let at = lists::first_where_comes_first(book, near);
    assert(forall|i: int|
        0 <= i < book.len() ==> near(#[trigger] book[i]) == book[i].1.covers(position, 6_000));
    at
}

/// A press grabs a brightness track before a duty track, and either before a
/// plot; a plot is grabbed at the node it was aimed at, with its own channel's
/// curve.
pub proof fn a_press_grabs_what_lies_on_top(
    pointer: Pointer,
    position: Point,
    aim: Aim,
    pump: CurveNodes,
    fan: CurveNodes,
)
    ensures
        ({
            let bright = track_at(pointer.brightness, position);
            let duty = track_at(pointer.duty, position);
            let plot = track_at(pointer.curves, position);
            let gesture = pointer.gesture_at(position, aim, pump, fan);
            &&& gesture is None <==> bright is None && duty is None && plot is None
            &&& bright matches Some((row, track)) ==> gesture == Some(
                Drag::Brightness { row, track },
            )
            &&& bright is None ==> (duty matches Some((channel, track)) ==> gesture == Some(
                Drag::Duty { channel, track },
            ))
            &&& bright is None && duty is None ==> (plot matches Some((channel, area)) ==> {
                &&& gesture matches Some(Drag::Curve { channel: own, node, base, plot: place })
                &&& own == channel
                &&& node == aim.node
                &&& place == area
                &&& channel is Pump ==> base == pump
                &&& channel is Fan ==> base == fan
            })
        }),
{
}

/// A press on a plot and a move that changes the curve push the deadline out;
/// nothing else does.
pub proof fn only_a_curve_edit_pushes_the_deadline(
    edit: Edit,
    pressed: bool,
    before: CurveNodes,
    after: CurveNodes,
)
    ensures
        edit is Brightness || edit is Duty ==> !pushes_deadline(edit, pressed, before, after),
        edit is Node && pressed ==> pushes_deadline(edit, pressed, before, after),
        edit is Node && !pressed ==> (pushes_deadline(edit, pressed, before, after) <==> before.duty@
            != after.duty@),
{
}

} // verus!
