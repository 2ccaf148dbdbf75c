//! The two forms of a cooling curve, and the translation between them.
//!
//! [`TemperatureCurve`] is what the kernel takes: forty duties, one per degree.
//! [`CurveNodes`] is what an operator edits: nine nodes, five degrees apart over
//! the same range. A node set becomes a curve through
//! [`CurveNodes::interpolate`], and that curve passes the same gate as any
//! other, in [`super::validate_curve`].

use vstd::prelude::*;

use super::{duty_from_percent, ValidationError, CURVE_FIRST_TEMP_C, CURVE_POINT_COUNT};
use crate::measure::Measured;

verus! {

/// Degrees between two adjacent editor nodes.
pub const CURVE_NODE_STEP_C: usize = 5;

/// Control nodes the editor exposes, fewer than the ABI's points.
pub const CURVE_NODE_COUNT: usize = 9;

/// Whether a list of duties never decreases.
pub open spec fn non_decreasing(duties: Seq<u8>) -> bool {
    forall|i: int, j: int| 0 <= i <= j < duties.len() ==> duties[i] <= duties[j]
}

/// The ABI point a node sits on: one every five points, the last node on the
/// last point the ABI has.
pub open spec fn node_point(index: int) -> int {
    if index * CURVE_NODE_STEP_C < CURVE_POINT_COUNT - 1 {
        index * CURVE_NODE_STEP_C
    } else {
        CURVE_POINT_COUNT - 1
    }
}

/// The node at the lower end of the segment a point lies on.
pub open spec fn segment_of(point: int) -> int {
    if point / CURVE_NODE_STEP_C as int <= CURVE_NODE_COUNT - 2 {
        point / CURVE_NODE_STEP_C as int
    } else {
        CURVE_NODE_COUNT - 2
    }
}

/// `numerator / denominator` rounded to the nearest integer, halves upwards.
pub open spec fn rounded(numerator: int, denominator: int) -> int {
    (2 * numerator + denominator) / (2 * denominator)
}

/// The duty at `point` on the straight line between its two nodes, rounded.
pub open spec fn duty_on_segment(duty: Seq<u8>, point: int) -> int {
    let lower = segment_of(point);
    let width = node_point(lower + 1) - node_point(lower);
    let along = point - node_point(lower);
    rounded(duty[lower] * (width - along) + duty[lower + 1] * along, width)
}

/// Every ABI point of the curve that nine node duties describe.
pub open spec fn expanded(duty: Seq<u8>) -> Seq<u8> {
    Seq::new(CURVE_POINT_COUNT as nat, |point: int| duty_on_segment(duty, point) as u8)
}

/// The duties a curve holds under the nine node positions.
pub open spec fn sampled(points: Seq<u8>) -> Seq<u8> {
    Seq::new(CURVE_NODE_COUNT as nat, |index: int| points[node_point(index)])
}

/// Whether a point lies between two adjacent nodes, or on one of them: the
/// nodes sit on every fifth point, but for the last, which sits on the last.
pub open spec fn lies_on(segment: int, point: int) -> bool {
    &&& 0 <= segment < 8
    &&& 5 * segment <= point <= 5 * segment + 5
    &&& point < 40
}

/// Exactly one PWM value per kernel curve point.
///
/// The point count is a property of the type. A list of unknown length enters
/// through [`TemperatureCurve::new`] and is refused there when it does not
/// carry the ABI's count.
#[derive(Debug, Clone, Copy, PartialEq, Eq)]
pub struct TemperatureCurve {
    points: [u8; CURVE_POINT_COUNT],
}

impl View for TemperatureCurve {
    type V = Seq<u8>;

    closed spec fn view(&self) -> Seq<u8> {
        self.points@
    }
}

impl TemperatureCurve {
    /// A curve from a list whose length is not known yet.
    pub fn new(points: Vec<u8>) -> (result: Result<Self, ValidationError>)
        ensures
            points@.len() == CURVE_POINT_COUNT <==> result is Ok,
            result matches Ok(curve) ==> curve@ == points@,
            result matches Err(error) ==> error == (ValidationError::CurvePointCount {
                expected: CURVE_POINT_COUNT,
                actual: points@.len() as usize,
            }),
    {
        if points.len() != CURVE_POINT_COUNT {
            return Err(ValidationError::CurvePointCount {
                expected: CURVE_POINT_COUNT,
                actual: points.len(),
            });
        }
        let mut held: [u8; CURVE_POINT_COUNT] = [0u8; CURVE_POINT_COUNT];
        let mut index: usize = 0;
        while index < CURVE_POINT_COUNT
            invariant
                index <= CURVE_POINT_COUNT,
                points@.len() == CURVE_POINT_COUNT,
                forall|i: int| 0 <= i < index ==> held@[i] == points@[i],
            decreases CURVE_POINT_COUNT - index,
        {
            held[index] = points[index];
            index = index + 1;
        }
        assert(held@ =~= points@);
        Ok(Self { points: held })
    }

    /// A curve from an array that already carries the ABI's count.
    pub fn from_points(points: [u8; CURVE_POINT_COUNT]) -> (curve: Self)
        ensures
            curve@ == points@,
    {
        Self { points }
    }

    /// The duty commanded at each ABI point, in ascending temperature order.
    pub fn points(&self) -> (points: &[u8; CURVE_POINT_COUNT])
        ensures
            points@ == self@,
    {
        &self.points
    }

    /// The same, for a caller editing a point in place.
    pub fn points_mut(&mut self) -> (points: &mut [u8; CURVE_POINT_COUNT])
        ensures
            points@ == old(self)@,
            final(self)@ == final(points)@,
    {
        &mut self.points
    }

    /// A flat curve at `duty`, used as a starting point in the editor.
    pub fn flat(duty: u8) -> (curve: Self)
        ensures
            curve@ == Seq::new(CURVE_POINT_COUNT as nat, |point: int| duty),
    {
        let points: [u8; CURVE_POINT_COUNT] = [duty; CURVE_POINT_COUNT];
        assert(points@ =~= Seq::new(CURVE_POINT_COUNT as nat, |point: int| duty));
        Self { points }
    }

    /// Temperature in degrees Celsius of the point at `index`.
    ///
    /// The index is taken as a byte, and the sum must fit one.
    pub fn temperature_at(index: usize) -> (temperature_c: u8)
        requires
            CURVE_FIRST_TEMP_C + index % 256 <= u8::MAX,
        ensures
            temperature_c == CURVE_FIRST_TEMP_C + index % 256,
    {
        CURVE_FIRST_TEMP_C + (index % 256) as u8
    }

    /// Index of the point that governs a temperature, in degrees Celsius.
    ///
    /// Clamped at both ends: the firmware runs the last point above 59 C, so a
    /// reading outside the range still names the point that is in force. A
    /// temperature that is not a number names no point.
    pub fn point_index_for(temperature_c: Measured) -> (index: Option<usize>)
        ensures
            index == governing_point(temperature_c),
    {
        match temperature_c {
            Measured::Finite { thousandths } => {
                let offset: i64 = thousandths as i64 - 20_000;
                if offset <= 0 {
                    assert(rounded(offset as int, 1000) <= 0);
                    return Some(0);
                }
                let nearest: i64 = (offset + 500) / 1000;
                if nearest < 39 {
                    Some(nearest as usize)
                } else {
                    Some(CURVE_POINT_COUNT - 1)
                }
            },
            Measured::Binary { .. } | Measured::Whole { .. } => {
                let nearest: i32 = temperature_c.rounded();
                if nearest <= 20 {
                    Some(0)
                } else if nearest < 59 {
                    Some((nearest - 20) as usize)
                } else {
                    Some(CURVE_POINT_COUNT - 1)
                }
            },
            _ => None,
        }
    }

    /// The duty this curve commands at a temperature, in degrees Celsius.
    pub fn duty_at(&self, temperature_c: Measured) -> (duty: Option<u8>)
        ensures
            duty == match governing_point(temperature_c) {
                Some(point) => Some(self@[point as int]),
                None => None,
            },
    {
        match Self::point_index_for(temperature_c) {
            Some(point) => Some(self.points[point]),
            None => None,
        }
    }

    /// The duty of the last point, which is the highest duty a validated curve
    /// ever commands (see [`highest_duty_is_the_maximum`]).
    pub fn highest_duty(&self) -> (duty: u8)
        ensures
            duty == self@[CURVE_POINT_COUNT - 1],
    {
        self.points[CURVE_POINT_COUNT - 1]
    }

    /// Whether two curves command the same duty at every point.
    pub fn same(&self, other: &Self) -> (same: bool)
        ensures
            same == (self@ == other@),
    {
        let mut index: usize = 0;
        while index < CURVE_POINT_COUNT
            invariant
                index <= CURVE_POINT_COUNT,
                forall|i: int| 0 <= i < index ==> self@[i] == other@[i],
            decreases CURVE_POINT_COUNT - index,
        {
            if self.points[index] != other.points[index] {
                return false;
            }
            index = index + 1;
        }
        assert(self@ =~= other@);
        true
    }
}

/// The nearest whole degree to a temperature, halves away from the first one of
/// the curve.
pub open spec fn nearest_degree(temperature_c: Measured) -> int {
    match temperature_c {
        Measured::Finite { thousandths } => CURVE_FIRST_TEMP_C + rounded(
            thousandths as int - CURVE_FIRST_TEMP_C * 1000,
            1000,
        ),
        _ => temperature_c.nearest(),
    }
}

/// The point in force at a temperature: the nearest whole degree, held inside
/// the ABI's range.
pub open spec fn governing_point(temperature_c: Measured) -> Option<usize> {
    if temperature_c.finite() {
        let nearest = nearest_degree(temperature_c) - CURVE_FIRST_TEMP_C;
        Some(
            (if nearest < 0 {
                0
            } else if nearest > CURVE_POINT_COUNT - 1 {
                CURVE_POINT_COUNT - 1
            } else {
                nearest
            }) as usize,
        )
    } else {
        None
    }
}

/// The editable form of a curve: one duty per node over the fixed kernel range.
#[derive(Debug, Clone, Copy, PartialEq, Eq)]
pub struct CurveNodes {
    /// Duty of each node, 0-255, in ascending temperature order.
    pub duty: [u8; CURVE_NODE_COUNT],
}

/// What nine nodes hold after one of them was set: nodes above are lifted to
/// it, nodes below are pulled down to it.
pub open spec fn with_node_set(before: Seq<u8>, index: int, duty: u8) -> Seq<u8> {
    Seq::new(
        before.len(),
        |i: int|
            if i == index {
                duty
            } else if i > index && before[i] < duty {
                duty
            } else if i < index && before[i] > duty {
                duty
            } else {
                before[i]
            },
    )
}

/// The percentage the starting ramp asks for at a node: 40% to 100% in equal
/// steps, halves upwards.
pub open spec fn ramp_percent(index: int) -> int {
    rounded(40 * 8 + index * 60, 8)
}

impl CurveNodes {
    /// Whether two sets of nodes hold the same duties.
    pub fn same(&self, other: &Self) -> (same: bool)
        ensures
            same == (self.duty@ == other.duty@),
    {
        let mut index: usize = 0;
        while index < CURVE_NODE_COUNT
            invariant
                index <= CURVE_NODE_COUNT,
                forall|i: int| 0 <= i < index ==> self.duty@[i] == other.duty@[i],
            decreases CURVE_NODE_COUNT - index,
        {
            if self.duty[index] != other.duty[index] {
                return false;
            }
            index = index + 1;
        }
        assert(self.duty@ =~= other.duty@);
        true
    }

    /// ABI point index a node sits on.
    ///
    /// One point per whole [`CURVE_NODE_STEP_C`] degrees, so every node names a
    /// round temperature. The last node sits on the last point the kernel has,
    /// which makes the final segment four degrees wide where the others are
    /// five.
    pub fn point_index(index: usize) -> (point: usize)
        requires
            index * CURVE_NODE_STEP_C <= usize::MAX,
        ensures
            point == node_point(index as int),
            index < 8 ==> point == 5 * index,
            index >= 8 ==> point == 39,
    {
        let spaced: usize = index * CURVE_NODE_STEP_C;
        if spaced < CURVE_POINT_COUNT - 1 {
            spaced
        } else {
            CURVE_POINT_COUNT - 1
        }
    }

    /// Temperature of the node at `index`, in whole degrees Celsius.
    pub fn temperature_at(index: usize) -> (temperature_c: u8)
        requires
            index * CURVE_NODE_STEP_C <= usize::MAX,
        ensures
            temperature_c == CURVE_FIRST_TEMP_C + node_point(index as int),
    {
        CURVE_FIRST_TEMP_C + Self::point_index(index) as u8
    }

    /// Every node at the same duty.
    pub fn flat(duty: u8) -> (nodes: Self)
        ensures
            nodes.duty@ == Seq::new(CURVE_NODE_COUNT as nat, |index: int| duty),
    {
        let nodes: [u8; CURVE_NODE_COUNT] = [duty; CURVE_NODE_COUNT];
        assert(nodes@ =~= Seq::new(CURVE_NODE_COUNT as nat, |index: int| duty));
        Self { duty: nodes }
    }

    /// Set one node, keeping the whole set monotonically non-decreasing.
    ///
    /// Raising a node lifts every node above it and lowering one pulls every
    /// node below it. An index outside the set changes nothing.
    pub fn set(&mut self, index: usize, duty: u8)
        ensures
            index >= CURVE_NODE_COUNT ==> final(self).duty@ == old(self).duty@,
            index < CURVE_NODE_COUNT ==> final(self).duty@ == with_node_set(
                old(self).duty@,
                index as int,
                duty,
            ),
    {
        if index >= CURVE_NODE_COUNT {
            return;
        }
        let ghost before = self.duty@;
        self.duty[index] = duty;
        let mut higher: usize = index + 1;
        while higher < CURVE_NODE_COUNT
            invariant
                index < higher <= CURVE_NODE_COUNT,
                before.len() == CURVE_NODE_COUNT,
                forall|i: int|
                    0 <= i < CURVE_NODE_COUNT ==> self.duty@[i] == (if i < index || i >= higher {
                        before[i]
                    } else {
                        with_node_set(before, index as int, duty)[i]
                    }),
            decreases CURVE_NODE_COUNT - higher,
        {
            if self.duty[higher] < duty {
                self.duty[higher] = duty;
            }
            higher = higher + 1;
        }
        let mut lower: usize = index;
        while lower > 0
            invariant
                lower <= index < CURVE_NODE_COUNT,
                before.len() == CURVE_NODE_COUNT,
                forall|i: int|
                    0 <= i < CURVE_NODE_COUNT ==> self.duty@[i] == (if i < lower {
                        before[i]
                    } else {
                        with_node_set(before, index as int, duty)[i]
                    }),
            decreases lower,
        {
            lower = lower - 1;
            if self.duty[lower] > duty {
                self.duty[lower] = duty;
            }
        }
        assert(self.duty@ =~= with_node_set(before, index as int, duty));
    }

    /// Expand the nodes into exactly [`CURVE_POINT_COUNT`] integer duties.
    ///
    /// Linear between nodes, rounded to the nearest integer.
    pub fn interpolate(&self) -> (curve: TemperatureCurve)
        ensures
            curve@ == expanded(self.duty@),
            curve@.len() == 40,
            forall|segment: int, point: int|
                #![trigger self.duty@[segment], curve@[point]]
                lies_on(segment, point) ==> {
                    let width = if segment == 7 {
                        4int
                    } else {
                        5int
                    };
                    let along = point - 5 * segment;
                    let line = self.duty@[segment] * (width - along) + self.duty@[segment + 1]
                        * along;
                    -width < 2 * (width * curve@[point] - line) <= width
                },
    {
        let mut points: [u8; CURVE_POINT_COUNT] = [0u8; CURVE_POINT_COUNT];
        let mut point: usize = 0;
        while point < CURVE_POINT_COUNT
            invariant
                point <= CURVE_POINT_COUNT,
                forall|i: int| 0 <= i < point ==> points@[i] == expanded(self.duty@)[i],
            decreases CURVE_POINT_COUNT - point,
        {
            let spaced: usize = point / CURVE_NODE_STEP_C;
            let lower: usize = if spaced < CURVE_NODE_COUNT - 2 {
                spaced
            } else {
                CURVE_NODE_COUNT - 2
            };
            let low_point: usize = Self::point_index(lower);
            let high_point: usize = Self::point_index(lower + 1);
            let width: u32 = (high_point - low_point) as u32;
            let along: u32 = (point - low_point) as u32;
            let low: u32 = self.duty[lower] as u32;
            let high: u32 = self.duty[lower + 1] as u32;
            proof {
                lemma_duty_fits(self.duty@, point as int);
                assert(0 <= low * (width - along) <= 255 * 5) by (nonlinear_arith)
                    requires
                        0 <= low <= 255,
                        0 <= width - along <= 5,
                ;
                assert(0 <= high * along <= 255 * 5) by (nonlinear_arith)
                    requires
                        0 <= high <= 255,
                        0 <= along <= 5,
                ;
            }
            points[point] = ((2 * (low * (width - along) + high * along) + width) / (2 * width)) as u8;
            point = point + 1;
        }
        assert(points@ =~= expanded(self.duty@));
        proof {
            assert forall|segment: int, point: int|
                #![trigger self.duty@[segment], points@[point]]
                lies_on(segment, point) implies {
                let width = if segment == 7 {
                    4int
                } else {
                    5int
                };
                let along = point - 5 * segment;
                let line = self.duty@[segment] * (width - along) + self.duty@[segment + 1] * along;
                -width < 2 * (width * points@[point] - line) <= width
            } by {
                a_curve_is_the_line_between_its_nodes(self.duty@, segment, point);
            }
        }
        TemperatureCurve::from_points(points)
    }

    /// The curve the editor starts from when no profile defines one: a linear
    /// ramp from 40% to 100%, built in whole percent so that it sits on the
    /// grid a drag produces.
    pub fn starting_ramp() -> (nodes: Self)
        ensures
            forall|index: int|
                0 <= index < CURVE_NODE_COUNT ==> #[trigger] nodes.duty@[index] == super::duty_of_percent(
                    ramp_percent(index),
                ),
    {
        let mut duty: [u8; CURVE_NODE_COUNT] = [0u8; CURVE_NODE_COUNT];
        let mut index: usize = 0;
        while index < CURVE_NODE_COUNT
            invariant
                index <= CURVE_NODE_COUNT,
                forall|i: int|
                    0 <= i < index ==> #[trigger] duty@[i] == super::duty_of_percent(ramp_percent(i)),
            decreases CURVE_NODE_COUNT - index,
        {
            let percent: usize = (2 * (320 + index * 60) + 8) / 16;
            duty[index] = duty_from_percent(percent as u8);
            index = index + 1;
        }
        Self { duty }
    }

    /// Read nodes back out of a stored curve, for the editor to load.
    ///
    /// `None` when the curve is not one this editor could have drawn: the nodes
    /// are sampled, expanded again, and compared against what was passed in.
    pub fn from_curve(curve: &TemperatureCurve) -> (nodes: Option<Self>)
        ensures
            nodes is Some <==> expanded(sampled(curve@)) == curve@,
            nodes matches Some(nodes) ==> nodes.duty@ == sampled(curve@),
    {
        let mut duty: [u8; CURVE_NODE_COUNT] = [0u8; CURVE_NODE_COUNT];
        let mut index: usize = 0;
        while index < CURVE_NODE_COUNT
            invariant
                index <= CURVE_NODE_COUNT,
                forall|i: int| 0 <= i < index ==> duty@[i] == sampled(curve@)[i],
            decreases CURVE_NODE_COUNT - index,
        {
            duty[index] = curve.points()[Self::point_index(index)];
            index = index + 1;
        }
        assert(duty@ =~= sampled(curve@));
        let nodes = Self { duty };
        if nodes.interpolate().same(curve) {
            Some(nodes)
        } else {
            None
        }
    }
}

/// A duty on a segment lies between the duties at its two ends, and so is a
/// duty itself.
proof fn lemma_duty_fits(duty: Seq<u8>, point: int)
    requires
        duty.len() == CURVE_NODE_COUNT,
        0 <= point < CURVE_POINT_COUNT,
    ensures
        0 <= segment_of(point) < CURVE_NODE_COUNT - 1,
        4 <= node_point(segment_of(point) + 1) - node_point(segment_of(point)) <= 5,
        0 <= point - node_point(segment_of(point)) <= node_point(segment_of(point) + 1) - node_point(
            segment_of(point),
        ),
        0 <= duty_on_segment(duty, point) <= 255,
        duty[segment_of(point)] <= duty[segment_of(point) + 1] ==> duty[segment_of(point)]
            <= duty_on_segment(duty, point) <= duty[segment_of(point) + 1],
        duty[segment_of(point)] >= duty[segment_of(point) + 1] ==> duty[segment_of(point)]
            >= duty_on_segment(duty, point) >= duty[segment_of(point) + 1],
{
    let lower = segment_of(point);
    let width = node_point(lower + 1) - node_point(lower);
    let along = point - node_point(lower);
    let low = duty[lower] as int;
    let high = duty[lower + 1] as int;
    assert(0 <= along <= width);
    lemma_between(low, high, along, width);
}

/// A weighted mean of two numbers, rounded, lies between them.
proof fn lemma_between(low: int, high: int, along: int, width: int)
    requires
        0 < width,
        0 <= along <= width,
    ensures
        low <= high ==> low <= rounded(low * (width - along) + high * along, width) <= high,
        low >= high ==> low >= rounded(low * (width - along) + high * along, width) >= high,
{
    let sum = low * (width - along) + high * along;
    assert(low <= high ==> low * width <= sum <= high * width) by (nonlinear_arith)
        requires
            0 <= along <= width,
            sum == low * (width - along) + high * along,
    ;
    assert(low >= high ==> low * width >= sum >= high * width) by (nonlinear_arith)
        requires
            0 <= along <= width,
            sum == low * (width - along) + high * along,
    ;
    lemma_rounded_bounds(sum, width, low);
    lemma_rounded_bounds(sum, width, high);
}

/// Rounding keeps a quotient on its side of an integer.
proof fn lemma_rounded_bounds(numerator: int, denominator: int, bound: int)
    requires
        denominator > 0,
    ensures
        numerator <= bound * denominator ==> rounded(numerator, denominator) <= bound,
        numerator >= bound * denominator ==> rounded(numerator, denominator) >= bound,
        numerator == bound * denominator ==> rounded(numerator, denominator) == bound,
{
    let quotient = rounded(numerator, denominator);
    let top = 2 * numerator + denominator;
    vstd::arithmetic::div_mod::lemma_fundamental_div_mod(top, 2 * denominator);
    vstd::arithmetic::div_mod::lemma_mod_bound(top, 2 * denominator);
    assert(numerator <= bound * denominator ==> quotient <= bound) by (nonlinear_arith)
        requires
            denominator > 0,
            top == 2 * numerator + denominator,
            top == (2 * denominator) * quotient + top % (2 * denominator),
            0 <= top % (2 * denominator) < 2 * denominator,
    ;
    assert(numerator >= bound * denominator ==> quotient >= bound) by (nonlinear_arith)
        requires
            denominator > 0,
            top == 2 * numerator + denominator,
            top == (2 * denominator) * quotient + top % (2 * denominator),
            0 <= top % (2 * denominator) < 2 * denominator,
    ;
}

/// Rounding never reverses an order.
proof fn lemma_rounded_monotone(a: int, b: int, denominator: int)
    requires
        denominator > 0,
        a <= b,
    ensures
        rounded(a, denominator) <= rounded(b, denominator),
{
    vstd::arithmetic::div_mod::lemma_div_is_ordered(
        2 * a + denominator,
        2 * b + denominator,
        2 * denominator,
    );
}

/// Every point of an expanded node set lies on the segment its own two nodes
/// define.
pub proof fn expanded_stays_between_its_nodes(duty: Seq<u8>, point: int)
    requires
        duty.len() == CURVE_NODE_COUNT,
        0 <= point < CURVE_POINT_COUNT,
    ensures
        expanded(duty)[point] == duty_on_segment(duty, point),
        duty[segment_of(point)] <= duty[segment_of(point) + 1] ==> duty[segment_of(point)]
            <= expanded(duty)[point] <= duty[segment_of(point) + 1],
        duty[segment_of(point)] >= duty[segment_of(point) + 1] ==> duty[segment_of(point)]
            >= expanded(duty)[point] >= duty[segment_of(point) + 1],
{
    lemma_duty_fits(duty, point);
}

/// Between two nodes a curve is the straight line from the one to the other, to
/// the nearest duty, halves upwards: every point is within one half of it.
pub proof fn a_curve_is_the_line_between_its_nodes(duty: Seq<u8>, segment: int, point: int)
    requires
        duty.len() == 9,
        lies_on(segment, point),
    ensures
        ({
            let width = if segment == 7 {
                4int
            } else {
                5int
            };
            let along = point - 5 * segment;
            let line = duty[segment] * (width - along) + duty[segment + 1] * along;
            -width < 2 * (width * expanded(duty)[point] - line) <= width
        }),
{
    let width = if segment == 7 {
        4int
    } else {
        5int
    };
    let along = point - 5 * segment;
    let line = duty[segment] * (width - along) + duty[segment + 1] * along;
    lemma_duty_fits(duty, point);
    assert(segment_of(point) == segment || (along == width && segment_of(point) == segment + 1));
    if segment_of(point) == segment {
        lemma_rounded_near(line, width);
    } else {
        expanded_passes_through_its_nodes(duty, segment + 1);
        assert(node_point(segment + 1) == point);
        assert(line == duty[segment + 1] * width) by (nonlinear_arith)
            requires
                along == width,
                line == duty[segment] * (width - along) + duty[segment + 1] * along,
        ;
        assert(width * duty[segment + 1] == duty[segment + 1] * width) by (nonlinear_arith);
    }
}

/// Rounding moves a quotient by no more than a half.
proof fn lemma_rounded_near(numerator: int, denominator: int)
    requires
        denominator > 0,
    ensures
        -denominator < 2 * (denominator * rounded(numerator, denominator) - numerator)
            <= denominator,
{
    let top = 2 * numerator + denominator;
    let quotient = rounded(numerator, denominator);
    vstd::arithmetic::div_mod::lemma_fundamental_div_mod(top, 2 * denominator);
    vstd::arithmetic::div_mod::lemma_mod_bound(top, 2 * denominator);
    assert((2 * denominator) * quotient == 2 * (denominator * quotient)) by (nonlinear_arith);
}

/// A node lies on the curve it describes: the point under a node carries that
/// node's duty exactly.
pub proof fn expanded_passes_through_its_nodes(duty: Seq<u8>, index: int)
    requires
        duty.len() == CURVE_NODE_COUNT,
        0 <= index < CURVE_NODE_COUNT,
    ensures
        expanded(duty)[node_point(index)] == duty[index],
{
    let point = node_point(index);
    lemma_duty_fits(duty, point);
    if index < CURVE_NODE_COUNT - 1 {
        assert(segment_of(point) == index);
        let width = node_point(index + 1) - node_point(index);
        assert(duty[index] * (width - 0) + duty[index + 1] * 0 == duty[index] * width)
            by (nonlinear_arith);
        lemma_rounded_bounds(duty[index] * width, width, duty[index] as int);
    } else {
        assert(segment_of(point) == index - 1);
        let width = node_point(index) - node_point(index - 1);
        assert(duty[index - 1] * (width - width) + duty[index] * width == duty[index] * width)
            by (nonlinear_arith);
        lemma_rounded_bounds(duty[index] * width, width, duty[index] as int);
    }
}

/// A non-decreasing node set always produces a non-decreasing curve.
pub proof fn expanded_keeps_the_order(duty: Seq<u8>)
    requires
        duty.len() == CURVE_NODE_COUNT,
        non_decreasing(duty),
    ensures
        non_decreasing(expanded(duty)),
{
    assert forall|i: int, j: int| 0 <= i <= j < expanded(duty).len() implies expanded(duty)[i]
        <= expanded(duty)[j] by {
        lemma_duty_fits(duty, i);
        lemma_duty_fits(duty, j);
        let lower = segment_of(i);
        let upper = segment_of(j);
        if lower < upper {
            assert(duty[lower + 1] <= duty[upper]);
        } else {
            let width = node_point(lower + 1) - node_point(lower);
            let low = duty[lower] as int;
            let high = duty[lower + 1] as int;
            let a = i - node_point(lower);
            let b = j - node_point(lower);
            assert(low * (width - a) + high * a <= low * (width - b) + high * b)
                by (nonlinear_arith)
                requires
                    low <= high,
                    a <= b,
            ;
            lemma_rounded_monotone(
                low * (width - a) + high * a,
                low * (width - b) + high * b,
                width,
            );
        }
    }
}

/// Sampling undoes expanding: nodes read back off the curve they drew are the
/// nodes that drew it.
pub proof fn sampling_undoes_expanding(duty: Seq<u8>)
    requires
        duty.len() == CURVE_NODE_COUNT,
    ensures
        sampled(expanded(duty)) == duty,
{
    assert forall|index: int| 0 <= index < CURVE_NODE_COUNT implies #[trigger] sampled(
        expanded(duty),
    )[index] == duty[index] by {
        expanded_passes_through_its_nodes(duty, index);
    }
    assert(sampled(expanded(duty)) =~= duty);
}

/// Reading nodes back looks at every fifth point, and at the last.
pub proof fn nodes_are_read_off_their_own_points(points: Seq<u8>, index: int)
    requires
        points.len() == 40,
        0 <= index < 9,
    ensures
        sampled(points).len() == 9,
        sampled(points)[index] == points[if index == 8 {
            39
        } else {
            5 * index
        }],
{
}

/// Setting a node moves the others only as far as the order asks: a node above
/// that is lower is lifted to it, a node below that is higher is pulled down to
/// it, and every other node stays where it was.
pub proof fn setting_a_node_moves_only_what_is_in_the_way(
    before: Seq<u8>,
    index: int,
    duty: u8,
    other: int,
)
    requires
        0 <= index < before.len(),
        0 <= other < before.len(),
    ensures
        ({
            let after = with_node_set(before, index, duty);
            &&& after.len() == before.len()
            &&& after[index] == duty
            &&& other > index ==> after[other] >= duty && after[other] >= before[other] && (
            after[other] == before[other] || after[other] == duty)
            &&& other < index ==> after[other] <= duty && after[other] <= before[other] && (
            after[other] == before[other] || after[other] == duty)
        }),
{
}

/// The starting ramp climbs from 40% to 100% in equal steps: at each node its
/// percentage is within one half of the straight line.
pub proof fn the_starting_ramp_is_a_line(index: int)
    requires
        0 <= index < 9,
    ensures
        -1 < 2 * ramp_percent(index) - (80 + 15 * index) <= 1,
        ramp_percent(0) == 40,
        ramp_percent(8) == 100,
        super::duty_of_percent(ramp_percent(0)) == 102,
        super::duty_of_percent(ramp_percent(8)) == 255,
{
    lemma_rounded_near(40 * 8 + index * 60, 8);
}

/// The point in force is the one whose temperature is nearest: inside the range
/// it is off by no more than half a degree, and outside it is the end.
pub proof fn the_nearest_point_is_in_force(thousandths: i32)
    ensures
        ({
            let point = governing_point(Measured::Finite { thousandths });
            &&& point is Some
            &&& 0 <= point->0 <= 39
            &&& 20_000 <= thousandths <= 59_000 ==> -500 < 1000 * (20 + point->0) - thousandths
                <= 500
            &&& thousandths < 20_000 ==> point->0 == 0
            &&& thousandths > 59_000 ==> point->0 == 39
        }),
{
    lemma_rounded_near(thousandths - 20_000, 1000);
}

/// The same of a temperature that is a significand over a power of two.
pub proof fn the_nearest_point_is_in_force_of_a_fraction(significand: i32, shift: u8)
    requires
        significand >= 0,
    ensures
        ({
            let point = governing_point(Measured::Binary { significand, shift });
            let unit = crate::measure::power(shift as nat);
            &&& point is Some
            &&& 0 <= point->0 <= 39
            &&& 20 * unit <= significand <= 59 * unit ==> -unit < 2 * ((20 + point->0) * unit
                - significand) <= unit
            &&& significand < 20 * unit ==> point->0 == 0
            &&& significand > 59 * unit ==> point->0 == 39
        }),
{
    let unit = crate::measure::power(shift as nat) as int;
    vstd::arithmetic::power2::lemma_pow2_pos(shift as nat);
    let nearest = crate::measure::half_up(significand as int, shift as nat);
    lemma_rounded_near(significand as int, unit);
    assert(nearest == rounded(significand as int, unit));
    assert(unit * nearest == nearest * unit) by (nonlinear_arith);
    assert(20 * unit <= significand <= 59 * unit ==> 20 <= nearest <= 59) by (nonlinear_arith)
        requires
            -unit < 2 * (nearest * unit - significand) <= unit,
            unit > 0,
    ;
    assert(significand < 20 * unit ==> nearest <= 20) by (nonlinear_arith)
        requires
            -unit < 2 * (nearest * unit - significand) <= unit,
            unit > 0,
    ;
    assert(significand > 59 * unit ==> nearest >= 59) by (nonlinear_arith)
        requires
            -unit < 2 * (nearest * unit - significand) <= unit,
            unit > 0,
    ;
}

/// A temperature that is no finite number names no point.
pub proof fn no_number_names_no_point()
    ensures
        governing_point(Measured::NotANumber) is None,
        governing_point(Measured::PositiveInfinity) is None,
        governing_point(Measured::NegativeInfinity) is None,
{
}

/// Editing one node keeps the whole set non-decreasing.
pub proof fn setting_a_node_keeps_the_order(before: Seq<u8>, index: int, duty: u8)
    requires
        non_decreasing(before),
        0 <= index < before.len(),
    ensures
        non_decreasing(with_node_set(before, index, duty)),
        with_node_set(before, index, duty)[index] == duty,
{
}

/// On a curve that never decreases, the last point is the highest duty of all.
pub proof fn highest_duty_is_the_maximum(points: Seq<u8>)
    requires
        points.len() == CURVE_POINT_COUNT,
        non_decreasing(points),
    ensures
        forall|i: int|
            0 <= i < points.len() ==> #[trigger] points[i] <= points[CURVE_POINT_COUNT - 1],
{
}

} // verus!
