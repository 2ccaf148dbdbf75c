//! How a sampled metric presents to whoever is looking at it.
//!
//! A [`Reading`] is what one collector produced in one pass; a [`MetricView`]
//! is what a readout shows now, which depends on how long ago that pass was.
//! [`Retained`] holds the difference and [`History`] keeps the bounded series a
//! chart plots.

use std::collections::VecDeque;

use vstd::prelude::*;

use super::{elapsed_since, Reading, Unavailable};
use crate::measure::{push_tenths, round_half_even, Measured};
use crate::text;

verus! {

/// Age at which a retained value is presented as stale.
pub const STALE_AFTER_MS: u64 = 2_000;

/// Age at which a retained value is dropped rather than shown stale.
pub const DROP_AFTER_MS: u64 = 10_000;

/// Longest history the product keeps, in milliseconds: fifteen minutes.
pub const HISTORY_WINDOW_MS: u64 = 900_000;

/// How a retained metric currently presents.
#[derive(Debug, Clone, PartialEq)]
pub enum MetricView<T> {
    /// Sampled recently enough to be shown as current.
    Fresh { value: T },
    /// The last valid value, kept visible and marked as aging.
    Stale { value: T, age_ms: u64 },
    /// Nothing valid is available, and `cause` says why when one is known.
    Unavailable { cause: Option<Unavailable> },
}

impl<T> MetricView<T> {
    /// The value on show, when there is one.
    pub open spec fn held(self) -> Option<T> {
        match self {
            Self::Fresh { value } => Some(value),
            Self::Stale { value, .. } => Some(value),
            Self::Unavailable { .. } => None,
        }
    }

    pub fn value(&self) -> (value: Option<&T>)
        ensures
            value == match self.held() {
                Some(value) => Some(&value),
                None => None,
            },
    {
        match self {
            Self::Fresh { value } => Some(value),
            Self::Stale { value, .. } => Some(value),
            Self::Unavailable { .. } => None,
        }
    }

    /// The same view with its value converted, keeping the freshness intact.
    pub fn map<U, F: FnOnce(&T) -> U>(&self, convert: F) -> (converted: MetricView<U>)
        requires
            self.held() matches Some(value) ==> convert.requires((&value,)),
        ensures
            match *self {
                Self::Fresh { value } => converted matches MetricView::Fresh { value: new }
                    && convert.ensures((&value,), new),
                Self::Stale { value, age_ms } => converted matches MetricView::Stale {
                    value: new,
                    age_ms: age,
                } && convert.ensures((&value,), new) && age == age_ms,
                Self::Unavailable { cause } => converted == MetricView::<U>::Unavailable { cause },
            },
    {
        match self {
            Self::Fresh { value } => MetricView::Fresh { value: convert(value) },
            Self::Stale { value, age_ms } => MetricView::Stale {
                value: convert(value),
                age_ms: *age_ms,
            },
            Self::Unavailable { cause } => MetricView::Unavailable { cause: cause.clone() },
        }
    }

    pub fn is_stale(&self) -> (stale: bool)
        ensures
            stale == (*self is Stale),
    {
        matches!(self, Self::Stale { .. })
    }

    pub fn is_unavailable(&self) -> (unavailable: bool)
        ensures
            unavailable == (*self is Unavailable),
    {
        matches!(self, Self::Unavailable { .. })
    }

    /// A word shown next to the value, so state never rests on color alone.
    pub open spec fn qualifier_text(self) -> Option<Seq<char>> {
        match self {
            Self::Fresh { .. } => None,
            Self::Stale { .. } => Some("Stale"@),
            Self::Unavailable { .. } => Some("N/A"@),
        }
    }

    /// A word shown next to the value, so state never rests on color alone.
    pub fn qualifier(&self) -> (word: Option<&'static str>)
        ensures
            match word {
                Some(word) => self.qualifier_text() == Some(word@),
                None => self.qualifier_text() is None,
            },
            *self is Fresh ==> word is None,
            *self is Stale ==> (word matches Some(word) && word@ == "Stale"@),
            *self is Unavailable ==> (word matches Some(word) && word@ == "N/A"@),
    {
        match self {
            Self::Fresh { .. } => None,
            Self::Stale { .. } => Some("Stale"),
            Self::Unavailable { .. } => Some("N/A"),
        }
    }

    /// The sentence explaining an unavailable metric, when there is one.
    pub fn detail(&self) -> (detail: Option<&str>)
        ensures
            match *self {
                Self::Unavailable { cause: Some(cause) } => detail matches Some(detail) && detail@
                    == cause.detail_text(),
                _ => detail is None,
            },
    {
        match self {
            Self::Unavailable { cause: Some(cause) } => Some(cause.detail()),
            _ => None,
        }
    }
}

impl<T: Copy> MetricView<T> {
    pub fn copied(&self) -> (value: Option<T>)
        ensures
            value == self.held(),
    {
        match self {
            Self::Fresh { value } => Some(*value),
            Self::Stale { value, .. } => Some(*value),
            Self::Unavailable { .. } => None,
        }
    }
}

/// The last valid value of one metric, with its age.
///
/// A temporary read failure does not blank a readout: the previous value stays
/// visible and ages out.
#[derive(Debug, Clone, PartialEq)]
pub struct Retained<T> {
    last_valid: Option<(T, u64)>,
    cause: Option<Unavailable>,
}

/// Whether `shown` is how a metric presents: the last valid value with the time
/// it was sampled, and the last failure since.
pub open spec fn presents<T: Clone>(
    last: Option<(T, u64)>,
    failure: Option<Unavailable>,
    now: u64,
    shown: MetricView<T>,
) -> bool {
    match last {
        None => shown == (MetricView::<T>::Unavailable { cause: failure }),
        Some((value, at)) => {
            let age = super::elapsed(now, at);
            if age >= DROP_AFTER_MS {
                shown == (MetricView::<T>::Unavailable { cause: failure })
            } else if age >= STALE_AFTER_MS {
                shown matches MetricView::Stale { value: copy, age_ms } && cloned(value, copy)
                    && age_ms == age
            } else {
                shown matches MetricView::Fresh { value: copy } && cloned(value, copy)
            }
        },
    }
}

impl<T> Retained<T> {
    /// The last valid value and when it was sampled.
    pub closed spec fn last(self) -> Option<(T, u64)> {
        self.last_valid
    }

    /// The last failure since the last valid value.
    pub closed spec fn failure(self) -> Option<Unavailable> {
        self.cause
    }
}

impl<T> Default for Retained<T> {
    fn default() -> (retained: Self)
        ensures
            retained.last() is None,
            retained.failure() is None,
    {
        Self { last_valid: None, cause: None }
    }
}

impl<T: Clone> Retained<T> {
    pub fn new() -> (retained: Self)
        ensures
            retained.last() is None,
            retained.failure() is None,
    {
        Self { last_valid: None, cause: None }
    }

    /// Fold one reading in, stamped with the time it was sampled.
    pub fn observe(&mut self, reading: &Reading<T>, at_unix_ms: u64)
        ensures
            match *reading {
                Reading::Valid { value } => {
                    &&& final(self).last() matches Some((copy, at))
                    &&& cloned(value, copy)
                    &&& at == at_unix_ms
                    &&& final(self).failure() is None
                },
                Reading::Unavailable { cause } => {
                    &&& final(self).last() == old(self).last()
                    &&& final(self).failure() == Some(cause)
                },
            },
    {
        match reading {
            Reading::Valid { value } => {
                self.last_valid = Some((value.clone(), at_unix_ms));
                self.cause = None;
            },
            Reading::Unavailable { cause } => {
                self.cause = Some(cause.clone());
            },
        }
    }

    /// How the metric presents at `now_unix_ms`.
    pub fn view(&self, now_unix_ms: u64) -> (shown: MetricView<T>)
        ensures
            presents(self.last(), self.failure(), now_unix_ms, shown),
    {
        match &self.last_valid {
            None => MetricView::Unavailable { cause: self.cause.clone() },
            Some((value, at)) => {
                let age_ms: u64 = elapsed_since(now_unix_ms, *at);
                if age_ms >= DROP_AFTER_MS {
                    MetricView::Unavailable { cause: self.cause.clone() }
                } else if age_ms >= STALE_AFTER_MS {
                    MetricView::Stale { value: value.clone(), age_ms }
                } else {
                    MetricView::Fresh { value: value.clone() }
                }
            },
        }
    }
}

/// A retained value is shown while it is young enough and never afterwards,
/// whatever failures came since; once it is gone, the failure is what explains
/// it.
pub proof fn a_retained_value_ages_out<T: Clone>(
    value: T,
    at: u64,
    failure: Option<Unavailable>,
    now: u64,
    shown: MetricView<T>,
)
    requires
        presents(Some((value, at)), failure, now, shown),
    ensures
        shown is Fresh <==> super::elapsed(now, at) < STALE_AFTER_MS,
        shown is Stale <==> STALE_AFTER_MS <= super::elapsed(now, at) < DROP_AFTER_MS,
        shown is Unavailable <==> super::elapsed(now, at) >= DROP_AFTER_MS,
        shown is Unavailable ==> shown == (MetricView::<T>::Unavailable { cause: failure }),
{
}

/// One charted point. `None` marks a gap the chart must draw as a gap.
#[derive(Debug, Clone, Copy, PartialEq)]
pub struct HistoryPoint {
    pub at_unix_ms: u64,
    pub value: Option<Measured>,
}

/// A bounded in-memory series.
///
/// The series is pruned by timestamp, so a sampler that stalls cannot leave a
/// series longer than the window either.
#[derive(Debug)]
pub struct History {
    points: VecDeque<HistoryPoint>,
    window_ms: u64,
}

/// A series without the points at its start that are older than `cutoff`.
pub open spec fn without_older(points: Seq<HistoryPoint>, cutoff: u64) -> Seq<HistoryPoint>
    decreases points.len(),
{
    if points.len() > 0 && points[0].at_unix_ms < cutoff {
        without_older(points.drop_first(), cutoff)
    } else {
        points
    }
}

/// A series after one point arrived: ignored when it is older than the newest
/// one, appended otherwise, and then held to the window.
pub open spec fn appended(
    points: Seq<HistoryPoint>,
    window_ms: u64,
    point: HistoryPoint,
) -> Seq<HistoryPoint> {
    if points.len() > 0 && point.at_unix_ms < points.last().at_unix_ms {
        points
    } else {
        without_older(points.push(point), super::elapsed(point.at_unix_ms, window_ms))
    }
}

/// Whether a series is in time order and nothing in it is older than the window
/// allows at its newest point.
pub open spec fn is_bounded_series(points: Seq<HistoryPoint>, window_ms: u64) -> bool {
    &&& forall|i: int, j: int|
        0 <= i <= j < points.len() ==> points[i].at_unix_ms <= points[j].at_unix_ms
    &&& forall|i: int|
        0 <= i < points.len() ==> #[trigger] points[i].at_unix_ms + window_ms
            >= points.last().at_unix_ms
}

impl History {
    /// The points held, oldest first.
    pub closed spec fn series(self) -> Seq<HistoryPoint> {
        self.points@
    }

    /// How far back the series reaches.
    pub closed spec fn window(self) -> u64 {
        self.window_ms
    }

    /// In every state the series is in time order and inside its window.
    #[verifier::type_invariant]
    spec fn bounded(self) -> bool {
        is_bounded_series(self.points@, self.window_ms)
    }

    pub fn new(window_ms: u64) -> (history: Self)
        ensures
            history.series() == Seq::<HistoryPoint>::empty(),
            history.window() == if window_ms == 0 {
                1
            } else {
                window_ms
            },
            is_bounded_series(history.series(), history.window()),
    {
        Self {
            points: VecDeque::new(),
            window_ms: if window_ms == 0 {
                1
            } else {
                window_ms
            },
        }
    }

    pub fn window_ms(&self) -> (window_ms: u64)
        ensures
            window_ms == self.window(),
    {
        self.window_ms
    }

    /// Append a point and drop everything outside the window.
    ///
    /// A point older than the newest one is ignored: a clock that jumps
    /// backwards must not reorder the series.
    pub fn push(&mut self, at_unix_ms: u64, value: Option<Measured>)
        ensures
            final(self).window() == old(self).window(),
            final(self).series() == appended(
                old(self).series(),
                old(self).window(),
                HistoryPoint { at_unix_ms, value },
            ),
            is_bounded_series(final(self).series(), final(self).window()),
    {
        proof {
            use_type_invariant(&*self);
            appending_keeps_the_series_bounded(
                self.points@,
                self.window_ms,
                HistoryPoint { at_unix_ms, value },
            );
        }
        let count: usize = self.points.len();
        if count > 0 && at_unix_ms < self.points[count - 1].at_unix_ms {
            return;
        }
        let mut points: VecDeque<HistoryPoint> = VecDeque::new();
        std::mem::swap(&mut points, &mut self.points);
        points.push_back(HistoryPoint { at_unix_ms, value });
        let cutoff: u64 = elapsed_since(at_unix_ms, self.window_ms);
        let ghost whole = points@;
        while points.len() > 0 && points[0].at_unix_ms < cutoff
            invariant
                without_older(points@, cutoff) == without_older(whole, cutoff),
            decreases points@.len(),
        {
            let ghost before = points@;
            let _ = points.pop_front();
            assert(points@ =~= before.drop_first());
        }
        self.points = points;
    }

    /// The points held, oldest first.
    pub fn points(&self) -> (points: Vec<HistoryPoint>)
        ensures
            points@ == self.series(),
            is_bounded_series(points@, self.window()),
    {
        proof {
            use_type_invariant(self);
        }
        let mut points: Vec<HistoryPoint> = Vec::new();
        let mut index: usize = 0;
        while index < self.points.len()
            invariant
                index <= self.points@.len(),
                points@ == self.points@.take(index as int),
            decreases self.points@.len() - index,
        {
            points.push(self.points[index]);
            index = index + 1;
            assert(points@ =~= self.points@.take(index as int));
        }
        assert(self.points@.take(index as int) =~= self.points@);
        points
    }

    pub fn len(&self) -> (len: usize)
        ensures
            len == self.series().len(),
    {
        self.points.len()
    }

    pub fn is_empty(&self) -> (empty: bool)
        ensures
            empty == (self.series().len() == 0),
    {
        self.points.len() == 0
    }
}

impl Clone for History {
    fn clone(&self) -> (history: Self)
        ensures
            history.series() == self.series(),
            history.window() == self.window(),
    {
        proof {
            use_type_invariant(self);
        }
        let points: VecDeque<HistoryPoint> = self.points.clone();
        assert(points@ =~= self.points@);
        Self { points, window_ms: self.window_ms }
    }
}

impl Default for History {
    fn default() -> (history: Self)
        ensures
            history.series() == Seq::<HistoryPoint>::empty(),
            history.window() == HISTORY_WINDOW_MS,
    {
        Self::new(HISTORY_WINDOW_MS)
    }
}

proof fn lemma_without_older(points: Seq<HistoryPoint>, cutoff: u64)
    requires
        forall|i: int, j: int|
            0 <= i <= j < points.len() ==> points[i].at_unix_ms <= points[j].at_unix_ms,
    ensures
        without_older(points, cutoff).len() <= points.len(),
        without_older(points, cutoff) == points.skip(
            points.len() - without_older(points, cutoff).len(),
        ),
        forall|i: int|
            0 <= i < without_older(points, cutoff).len() ==> #[trigger] without_older(
                points,
                cutoff,
            )[i].at_unix_ms >= cutoff,
        points.len() > 0 && points.last().at_unix_ms >= cutoff ==> without_older(
            points,
            cutoff,
        ).len() > 0,
    decreases points.len(),
{
    if points.len() > 0 && points[0].at_unix_ms < cutoff {
        let rest = points.drop_first();
        lemma_without_older(rest, cutoff);
        assert(without_older(points, cutoff) =~= points.skip(
            points.len() - without_older(points, cutoff).len(),
        ));
    } else {
        assert(points.skip(0) =~= points);
    }
}

/// Every point that arrives leaves the series in time order and inside its
/// window, and a point that is not older than the newest one is its last.
pub proof fn appending_keeps_the_series_bounded(
    points: Seq<HistoryPoint>,
    window_ms: u64,
    point: HistoryPoint,
)
    requires
        is_bounded_series(points, window_ms),
    ensures
        is_bounded_series(appended(points, window_ms, point), window_ms),
        points.len() > 0 && point.at_unix_ms < points.last().at_unix_ms ==> appended(
            points,
            window_ms,
            point,
        ) == points,
        points.len() == 0 || point.at_unix_ms >= points.last().at_unix_ms ==> appended(
            points,
            window_ms,
            point,
        ).len() > 0 && appended(points, window_ms, point).last() == point,
{
    if points.len() == 0 || point.at_unix_ms >= points.last().at_unix_ms {
        let whole = points.push(point);
        let cutoff = super::elapsed(point.at_unix_ms, window_ms);
        assert forall|i: int, j: int| 0 <= i <= j < whole.len() implies whole[i].at_unix_ms
            <= whole[j].at_unix_ms by {
            if j == whole.len() - 1 && i < j {
                assert(points[i].at_unix_ms <= points[points.len() - 1].at_unix_ms);
            }
        }
        lemma_without_older(whole, cutoff);
        let kept = appended(points, window_ms, point);
        assert(kept.last() == whole.last());
    }
}

/// Format a temperature with exactly one decimal place.
pub fn format_temperature(value: Measured) -> (words: String)
    ensures
        words@ == value.one_decimal_text(),
{
    value.one_decimal()
}

/// The step of the double-precision value nearest to a byte count: one up to
/// fifty-three bits, then the smallest power of two that leaves that many.
pub open spec fn double_unit(bytes: nat, unit: nat) -> nat
    decreases bytes - unit,
{
    if unit == 0 || bytes < 0x20_0000_0000_0000 * unit {
        unit
    } else {
        double_unit(bytes, 2 * unit)
    }
}

/// A byte count as the nearest double-precision value.
pub open spec fn double_bytes(bytes: nat) -> int {
    let unit = double_unit(bytes, 1);
    crate::measure::half_even(bytes as int, unit as int) * unit
}

/// A byte count in words, with an explicit binary unit.
pub open spec fn binary_bytes_text(bytes: nat) -> Seq<char> {
    if bytes >= 0x4000_0000 {
        crate::measure::tenths_text(
            crate::measure::half_even(10 * double_bytes(bytes), 0x4000_0000) as nat,
        ) + " GiB"@
    } else if bytes >= 0x10_0000 {
        text::decimal(crate::measure::half_even(bytes as int, 0x10_0000) as nat) + " MiB"@
    } else if bytes >= 0x400 {
        text::decimal(crate::measure::half_even(bytes as int, 0x400) as nat) + " KiB"@
    } else {
        text::decimal(bytes) + " B"@
    }
}

/// A byte count as the nearest double-precision value.
fn to_double_bytes(bytes: u64) -> (value: u128)
    ensures
        value == double_bytes(bytes as nat),
        value <= 0x1_0000_0000_0001_0000,
{
    let wide: u128 = bytes as u128;
    let mut unit: u128 = 1;
    while wide >= 0x20_0000_0000_0000 * unit
        invariant
            wide == bytes,
            1 <= unit <= 0x1000,
            unit == 1 || wide >= 0x10_0000_0000_0000 * unit,
            double_unit(wide as nat, unit as nat) == double_unit(wide as nat, 1),
        decreases 0x1000 - unit,
    {
        unit = 2 * unit;
    }
    let significand: u128 = round_half_even(wide, unit);
    assert(significand * unit <= wide + unit) by (nonlinear_arith)
        requires
            significand <= wide / unit + 1,
            unit >= 1,
    ;
    significand * unit
}

/// Format a byte count with an explicit binary unit.
///
/// Binary rather than decimal, and spelled out, so `GiB` can never be read as
/// `GB`.
pub fn format_binary_bytes(bytes: u64) -> (words: String)
    ensures
        words@ == binary_bytes_text(bytes as nat),
{
    let mut words: String = String::new();
    if bytes >= 0x4000_0000 {
        let value: u128 = to_double_bytes(bytes);
        let tenths: u128 = round_half_even(10 * value, 0x4000_0000);
        push_tenths(&mut words, tenths as u64);
        words.append(" GiB");
    } else if bytes >= 0x10_0000 {
        text::push_decimal(&mut words, round_half_even(bytes as u128, 0x10_0000) as u64);
        words.append(" MiB");
    } else if bytes >= 0x400 {
        text::push_decimal(&mut words, round_half_even(bytes as u128, 0x400) as u64);
        words.append(" KiB");
    } else {
        text::push_decimal(&mut words, bytes);
        words.append(" B");
    }
    assert(words@ =~= binary_bytes_text(bytes as nat));
    words
}

/// A value counts as current for two seconds, is shown with its age up to ten,
/// and is gone from then on; while it is shown, it is the value that was
/// sampled.
pub proof fn a_value_is_current_for_two_seconds_and_gone_after_ten<T: Clone>(
    value: T,
    at: u64,
    failure: Option<Unavailable>,
    now: u64,
    shown: MetricView<T>,
)
    requires
        presents(Some((value, at)), failure, now, shown),
    ensures
        shown is Fresh <==> now < at + 2_000,
        shown is Stale <==> at + 2_000 <= now < at + 10_000,
        shown is Unavailable <==> now >= at + 10_000,
        shown matches MetricView::Fresh { value: copy } ==> cloned(value, copy),
        shown matches MetricView::Stale { value: copy, age_ms } ==> cloned(value, copy) && at
            + age_ms == now,
        shown matches MetricView::Unavailable { cause } ==> cause == failure,
{
}

/// Without a valid value there is nothing to show but the failure.
pub proof fn without_a_value_the_failure_is_shown<T: Clone>(
    failure: Option<Unavailable>,
    now: u64,
    shown: MetricView<T>,
)
    requires
        presents(None, failure, now, shown),
    ensures
        shown matches MetricView::Unavailable { cause } && cause == failure,
{
}

proof fn lemma_only_older_ones_go(points: Seq<HistoryPoint>, cutoff: u64) -> (dropped: int)
    ensures
        0 <= dropped <= points.len(),
        without_older(points, cutoff) == points.skip(dropped),
        forall|i: int| 0 <= i < dropped ==> (#[trigger] points[i]).at_unix_ms < cutoff,
        dropped < points.len() ==> points[dropped].at_unix_ms >= cutoff,
    decreases points.len(),
{
    if points.len() > 0 && points[0].at_unix_ms < cutoff {
        let rest = points.drop_first();
        let later = lemma_only_older_ones_go(rest, cutoff);
        assert(rest.skip(later) =~= points.skip(later + 1));
        assert forall|i: int| 0 <= i < later + 1 implies (#[trigger] points[i]).at_unix_ms
            < cutoff by {
            if i > 0 {
                assert(points[i] == rest[i - 1]);
            }
        }
        later + 1
    } else {
        assert(points.skip(0) =~= points);
        0
    }
}

/// A point that arrives in time drops exactly the points that lie further back
/// from it than the window reaches, and keeps all the others in their order.
pub proof fn only_points_outside_the_window_are_dropped(
    points: Seq<HistoryPoint>,
    window_ms: u64,
    point: HistoryPoint,
) -> (dropped: int)
    requires
        is_bounded_series(points, window_ms),
        points.len() == 0 || point.at_unix_ms >= points.last().at_unix_ms,
    ensures
        0 <= dropped <= points.len(),
        appended(points, window_ms, point) == points.skip(dropped).push(point),
        forall|i: int|
            0 <= i < points.len() ==> (i < dropped <==> (#[trigger] points[i]).at_unix_ms
                + window_ms < point.at_unix_ms),
{
    let all = points.push(point);
    let cutoff = super::elapsed(point.at_unix_ms, window_ms);
    let dropped = lemma_only_older_ones_go(all, cutoff);
    assert(dropped <= points.len()) by {
        if dropped > points.len() {
            assert(all[points.len() as int] == point);
        }
    }
    assert(all.skip(dropped) =~= points.skip(dropped).push(point));
    assert forall|i: int| 0 <= i < points.len() implies (i < dropped <==> (
    #[trigger] points[i]).at_unix_ms + window_ms < point.at_unix_ms) by {
        assert(all[i] == points[i]);
        if i >= dropped {
            assert(all[dropped] == points[dropped]);
        }
    }
    dropped
}

proof fn lemma_double_unit(bytes: nat, unit: nat)
    requires
        unit > 0,
        unit == 1 || bytes >= 0x10_0000_0000_0000 * unit,
    ensures
        ({
            let last = double_unit(bytes, unit);
            &&& last >= unit
            &&& bytes < 0x20_0000_0000_0000 * last
            &&& last == 1 || bytes >= 0x10_0000_0000_0000 * last
        }),
    decreases bytes - unit,
{
    if bytes >= 0x20_0000_0000_0000 * unit {
        lemma_double_unit(bytes, 2 * unit);
    }
}

/// A byte count below a kibibyte is written as it is; a larger one is rounded to
/// the nearest number of the largest unit that fits into it, from the middle to
/// the even one.
pub proof fn bytes_are_written_in_the_largest_unit_that_fits(bytes: nat) -> (count: nat)
    ensures
        bytes < 1024 ==> binary_bytes_text(bytes) == text::decimal(bytes) + " B"@,
        1024 <= bytes < 1024 * 1024 ==> {
            &&& binary_bytes_text(bytes) == text::decimal(count) + " KiB"@
            &&& -512 <= 1024 * count - bytes <= 512
            &&& 1024 * count - bytes == 512 || 1024 * count - bytes == -512 ==> count % 2 == 0
        },
        1024 * 1024 <= bytes < 1024 * 1024 * 1024 ==> {
            let off = 1024 * 1024 * count - bytes;
            &&& binary_bytes_text(bytes) == text::decimal(count) + " MiB"@
            &&& -524_288 <= off <= 524_288
            &&& off == 524_288 || off == -524_288 ==> count % 2 == 0
        },
{
    if bytes >= 1024 * 1024 * 1024 {
        0
    } else if bytes >= 1024 * 1024 {
        crate::measure::rounding_goes_to_the_nearest(bytes as int, 0x10_0000);
        crate::measure::half_even(bytes as int, 0x10_0000) as nat
    } else if bytes >= 1024 {
        crate::measure::rounding_goes_to_the_nearest(bytes as int, 0x400);
        crate::measure::half_even(bytes as int, 0x400) as nat
    } else {
        bytes
    }
}

/// From a gibibyte on a byte count is rounded to the nearest tenth of one, from
/// the middle to the even one, as long as it fits fifty-three bits; beyond that
/// it is first rounded by less than one part in 2^53.
pub proof fn large_byte_counts_are_written_in_tenths(bytes: nat) -> (tenths: nat)
    requires
        bytes >= 1024 * 1024 * 1024,
    ensures
        binary_bytes_text(bytes) == text::decimal(tenths / 10) + "."@ + text::decimal(tenths % 10)
            + " GiB"@,
        bytes < 0x20_0000_0000_0000 ==> {
            let off = 1024 * 1024 * 1024 * tenths - 10 * bytes;
            &&& -536_870_912 <= off <= 536_870_912
            &&& off == 536_870_912 || off == -536_870_912 ==> tenths % 2 == 0
        },
        -0x20_0000_0000_0000 * 536_870_912 - 10 * bytes <= 0x20_0000_0000_0000 * (1024 * 1024
            * 1024 * tenths - 10 * bytes) <= 0x20_0000_0000_0000 * 536_870_912 + 10 * bytes,
{
    let unit = double_unit(bytes, 1);
    lemma_double_unit(bytes, 1);
    crate::measure::rounding_goes_to_the_nearest(bytes as int, unit as int);
    let value = double_bytes(bytes);
    let held = crate::measure::half_even(bytes as int, unit as int);
    assert(unit == 1 ==> held * unit == held);
    assert(-(unit as int) <= 2 * (value - bytes) <= unit);
    assert(unit == 1 ==> value == bytes) by {
        assert(unit == 1 ==> crate::measure::half_even(bytes as int, 1) == bytes);
    }
    assert(value >= 0);
    crate::measure::rounding_goes_to_the_nearest(10 * value, 0x4000_0000);
    let tenths = crate::measure::half_even(10 * value, 0x4000_0000);
    assert(tenths >= 0);
    assert(0x20_0000_0000_0000 * (value - bytes) <= bytes && -(bytes as int)
        <= 0x20_0000_0000_0000 * (value - bytes));
    tenths as nat
}

} // verus!
