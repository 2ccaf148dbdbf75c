//! When a pending edit leaves the process.
//!
//! No screen has an Apply button: an edit reaches the hardware once the
//! operator stops moving it. The quiet period is not cosmetic. The daemon
//! refuses a command arriving inside its cadence floor rather than queueing it,
//! and it keeps no last-value-wins.

use vstd::laws_eq::obeys_concrete_eq;
use vstd::prelude::*;

use super::drag::Drag;
use super::keyed::Keyed;
use super::row::LightingRow;

verus! {

/// How still the Cooling screen has to be before an edit is written, in
/// milliseconds.
///
/// Long enough that a drag, a burst of arrow keys or a few stepper presses
/// count as one change, and short enough that letting go feels like the value
/// took.
pub const COOLING_QUIET: u64 = 400;

/// How still one Lighting row has to be before its edit is written, in
/// milliseconds.
///
/// Shorter than [`COOLING_QUIET`] on purpose: the floor of the lighting path is
/// four times lower, and a color that takes four tenths of a second to appear
/// reads as a control that did not take.
pub const LIGHTING_QUIET: u64 = 150;

/// Something the screen writes on its own once the operator stops moving it.
#[derive(Debug, Clone, Copy, Eq)]
pub enum WriteTarget {
    Cooling,
    Lighting(LightingRow),
}

impl PartialEq for WriteTarget {
    fn eq(&self, other: &Self) -> (same: bool) {
        match (self, other) {
            (Self::Cooling, Self::Cooling) => true,
            (Self::Lighting(own), Self::Lighting(their)) => *own == *their,
            _ => false,
        }
    }
}

impl vstd::std_specs::cmp::PartialEqSpecImpl for WriteTarget {
    open spec fn obeys_eq_spec() -> bool {
        true
    }

    open spec fn eq_spec(&self, other: &Self) -> bool {
        *self == *other
    }
}

impl WriteTarget {
    pub open spec fn quiet_ms(self) -> u64 {
        match self {
            Self::Cooling => COOLING_QUIET,
            Self::Lighting(_) => LIGHTING_QUIET,
        }
    }

    /// How still this target has to be before its edit leaves the process.
    pub fn quiet(self) -> (quiet: u64)
        ensures
            quiet == self.quiet_ms(),
            self is Cooling ==> quiet == 400,
            self is Lighting ==> quiet == 150,
    {
        match self {
            Self::Cooling => COOLING_QUIET,
            Self::Lighting(_) => LIGHTING_QUIET,
        }
    }

    /// The floor the daemon enforces on this target's path.
    pub open spec fn floor_ms(self) -> u64 {
        match self {
            Self::Cooling => crate::profile::MIN_PROGRAM_INTERVAL_MS,
            Self::Lighting(_) => crate::lighting::MIN_COMMAND_INTERVAL_MS,
        }
    }
}

/// A settled edit never arrives inside the floor the daemon enforces, so it is
/// never refused for coming too soon.
pub proof fn the_quiet_period_clears_the_floor(target: WriteTarget)
    ensures
        target.quiet_ms() > target.floor_ms(),
{
}

/// Whether a write whose deadline has passed must still wait.
pub open spec fn held_back(target: WriteTarget, drag: Option<Drag>, in_flight: bool) -> bool {
    match target {
        WriteTarget::Cooling => (drag matches Some(drag) && drag.edits_cooling()) || in_flight,
        WriteTarget::Lighting(row) => drag matches Some(Drag::Brightness { row: held, .. }) && held
            == row,
    }
}

/// Whether a write whose deadline has passed must still wait.
///
/// A gesture the pointer has not released names a value the operator never
/// chose, and a cooling write whose outcome has not come back would have the
/// next outcome land against the wrong program. The lighting side needs no
/// in-flight guard: the rows are independent, so one row's reply is not
/// something another row is waiting on.
pub fn write_is_held_back(target: WriteTarget, drag: Option<Drag>, in_flight: bool) -> (held: bool)
    ensures
        held == held_back(target, drag, in_flight),
        target is Cooling ==> (held <==> in_flight || drag matches Some(Drag::Duty { .. }) || drag
            matches Some(Drag::Curve { .. })),
        target matches WriteTarget::Lighting(row) ==> (held <==> (drag matches Some(
            Drag::Brightness { row: moved, .. },
        ) && moved == row)),
{
    match target {
        WriteTarget::Cooling => {
            let dragging: bool = match drag {
                Some(drag) => drag.is_cooling(),
                None => false,
            };
            dragging || in_flight
        },
        WriteTarget::Lighting(row) => match drag {
            Some(Drag::Brightness { row: held, .. }) => held == row,
            _ => false,
        },
    }
}

/// When each pending edit should leave the process.
///
/// One deadline per target rather than one for the window: two rows edited in
/// the same breath are two independent writes. A target edited again before its
/// deadline pushes that deadline out, which is how a drag or a held arrow key
/// resolves to one command.
///
/// Instants are milliseconds on a clock that never runs backwards.
#[derive(Debug)]
pub struct WriteSchedule {
    due: Keyed<WriteTarget, u64>,
}

/// The targets whose deadline has passed, in the order they were first touched.
pub open spec fn due_targets(book: Seq<(WriteTarget, u64)>, now: u64) -> Seq<WriteTarget> {
    super::keyed::keys(
        super::keyed::chosen(
            book,
            book.map_values(|entry: (WriteTarget, u64)| entry.1 <= now),
            true,
        ),
    )
}

/// The deadlines that have not passed.
pub open spec fn not_due(book: Seq<(WriteTarget, u64)>, now: u64) -> Seq<(WriteTarget, u64)> {
    super::keyed::chosen(
        book,
        book.map_values(|entry: (WriteTarget, u64)| entry.1 <= now),
        false,
    )
}

impl View for WriteSchedule {
    type V = Seq<(WriteTarget, u64)>;

    closed spec fn view(&self) -> Seq<(WriteTarget, u64)> {
        self.due@
    }
}

impl Default for WriteSchedule {
    fn default() -> (schedule: Self)
        ensures
            schedule@ == Seq::<(WriteTarget, u64)>::empty(),
    {
        Self { due: Keyed::default() }
    }
}

impl WriteSchedule {
    /// Arrange for `target` to be written once it has been still until `at`.
    pub fn touch(&mut self, target: WriteTarget, at: u64)
        ensures
            final(self)@ == super::keyed::with(old(self)@, target, at),
    {
        proof {
            reveal(obeys_concrete_eq);
        }
        self.due.set(target, at);
    }

    /// Every target whose deadline has passed, removed from the schedule.
    pub fn take_due(&mut self, now: u64) -> (due: Vec<WriteTarget>)
        ensures
            due@ == due_targets(old(self)@, now),
            final(self)@ == not_due(old(self)@, now),
    {
        let ghost book = self@;
        let has_passed = |deadline: &u64| -> (passed: bool)
            ensures
                passed == (*deadline <= now),
        {
            *deadline <= now
        };
        let due: Vec<WriteTarget> = self.due.take(has_passed);
        proof {
            let passed = book.map_values(|entry: (WriteTarget, u64)| entry.1 <= now);
            assert forall|marks: Seq<bool>|
                marks.len() == book.len() && (forall|i: int|
                    0 <= i < book.len() ==> marks[i] == ((#[trigger] book[i]).1 <= now))
            implies marks == passed by {
                assert(marks =~= passed);
            }
        }
        due
    }

    /// Whether anything is waiting to be written for `target`.
    pub fn is_pending(&self, target: WriteTarget) -> (pending: bool)
        ensures
            pending == super::keyed::keeps(self@, target),
    {
        proof {
            reveal(obeys_concrete_eq);
        }
        self.due.contains(target)
    }
}

/// An edit is written once, at its last deadline: touching a target again
/// replaces the deadline it had, and no other target's moves.
pub proof fn the_last_touch_decides(
    book: Seq<(WriteTarget, u64)>,
    target: WriteTarget,
    at: u64,
    other: WriteTarget,
)
    requires
        super::keyed::unique(book),
    ensures
        ({
            let after = super::keyed::with(book, target, at);
            &&& super::keyed::unique(after)
            &&& super::keyed::held(after, target) == Some(at)
            &&& other != target ==> super::keyed::held(after, other) == super::keyed::held(
                book,
                other,
            )
        }),
{
    super::keyed::setting_keeps_keys_unique(book, target, at);
    super::keyed::what_is_set_is_held(book, target, at, other);
}

/// Draining the schedule takes exactly what has come due: nothing before its
/// own deadline, and nothing left behind that has passed it.
pub proof fn draining_takes_exactly_what_is_due(book: Seq<(WriteTarget, u64)>, now: u64)
    ensures
        forall|i: int|
            0 <= i < book.len() ==> if (#[trigger] book[i]).1 <= now {
                due_targets(book, now).contains(book[i].0)
            } else {
                not_due(book, now).contains(book[i])
            },
        forall|entry: (WriteTarget, u64)| #[trigger]
            not_due(book, now).contains(entry) ==> entry.1 > now,
        due_targets(book, now).len() + not_due(book, now).len() == book.len(),
        super::keyed::unique(book) ==> super::keyed::unique(not_due(book, now)),
{
    let marks = book.map_values(|entry: (WriteTarget, u64)| entry.1 <= now);
    super::keyed::taking_leaves_the_rest(book, marks, true);
    super::keyed::taking_leaves_the_rest(book, marks, false);
    let taken = super::keyed::chosen(book, marks, true);
    assert forall|i: int| 0 <= i < book.len() && (#[trigger] book[i]).1
        <= now implies due_targets(book, now).contains(book[i].0) by {
        assert(marks[i]);
        assert(taken.contains(book[i]));
        let at = choose|at: int| 0 <= at < taken.len() && taken[at] == book[i];
        assert(due_targets(book, now)[at] == book[i].0);
    }
    assert forall|i: int| 0 <= i < book.len() && (#[trigger] book[i]).1 > now implies not_due(
        book,
        now,
    ).contains(book[i]) by {
        assert(!marks[i]);
    }
    assert forall|entry: (WriteTarget, u64)| #[trigger]
        not_due(book, now).contains(entry) implies entry.1 > now by {
        let i = choose|i: int|
            0 <= i < book.len() && marks[i] == false && #[trigger] book[i] == entry;
        assert(!(book[i].1 <= now));
    }
}

/// A cooling write waits for a running cooling gesture and for the outcome of
/// the last one; a lighting write only for a gesture on its own row.
pub proof fn a_write_waits_for_its_own_gesture(
    target: WriteTarget,
    drag: Option<Drag>,
    in_flight: bool,
)
    ensures
        target is Cooling && in_flight ==> held_back(target, drag, in_flight),
        target is Cooling && !in_flight ==> (held_back(target, drag, in_flight) <==> drag matches Some(
            Drag::Duty { .. },
        ) || drag matches Some(Drag::Curve { .. })),
        target matches WriteTarget::Lighting(row) ==> (held_back(target, drag, in_flight) <==> (
        drag matches Some(Drag::Brightness { row: moved, .. }) && moved == row)),
{
}

/// A cooling edit settles for four tenths of a second, a lighting edit for
/// fifteen hundredths.
pub proof fn how_long_an_edit_settles(target: WriteTarget)
    ensures
        target is Cooling ==> target.quiet_ms() == 400,
        target is Lighting ==> target.quiet_ms() == 150,
{
}

/// What is due is taken in the order it stands in, and what is not due stays in
/// that order: each entry goes by its own deadline.
pub proof fn draining_goes_entry_by_entry(
    book: Seq<(WriteTarget, u64)>,
    target: WriteTarget,
    at: u64,
    now: u64,
)
    ensures
        at <= now ==> due_targets(book.push((target, at)), now) == due_targets(book, now).push(
            target,
        ) && not_due(book.push((target, at)), now) == not_due(book, now),
        at > now ==> due_targets(book.push((target, at)), now) == due_targets(book, now) && not_due(
            book.push((target, at)),
            now,
        ) == not_due(book, now).push((target, at)),
        due_targets(Seq::empty(), now) == Seq::<WriteTarget>::empty(),
        not_due(Seq::empty(), now) == Seq::<(WriteTarget, u64)>::empty(),
{
    let due = |entry: (WriteTarget, u64)| entry.1 <= now;
    let all = book.push((target, at));
    assert(all.drop_last() =~= book);
    assert(all.map_values(due).drop_last() =~= book.map_values(due));
    assert(all.map_values(due).last() == (at <= now));
    let before = super::keyed::chosen(book, book.map_values(due), true);
    assert(super::keyed::keys(before.push((target, at))) =~= super::keyed::keys(before).push(
        target,
    ));
}

} // verus!
