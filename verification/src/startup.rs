//! Launch preflight and startup instrumentation.
//!
//! An unusable environment is diagnosed before a graphics stack is entered. The
//! alternative is a panic inside it, which tells an operator nothing about what
//! to fix.

use vstd::prelude::*;

use crate::measure;
use crate::text;

verus! {

/// Environment variable that makes the process report its startup timing.
///
/// Set to `1` to print the milliseconds from process start to the first
/// painted frame, which is how the cold-start budget is measured.
pub const STARTUP_TRACE_ENV: &'static str = "KORI_STARTUP_TRACE";

/// Environment variable that closes the window after the first frame.
///
/// Used by the cold-start measurement so a launch can be timed without a human
/// closing the window.
pub const EXIT_AFTER_FIRST_FRAME_ENV: &'static str = "KORI_EXIT_AFTER_FIRST_FRAME";

/// A display backend the process can run against.
#[derive(Debug, Clone, Copy, PartialEq, Eq, Structural)]
pub enum Backend {
    Wayland,
    X11,
}

impl Backend {
    pub open spec fn name_text(self) -> Seq<char> {
        match self {
            Self::Wayland => "Wayland"@,
            Self::X11 => "X11"@,
        }
    }

    pub fn name(self) -> (name: &'static str)
        ensures
            name@ == self.name_text(),
            self is Wayland ==> name@ == "Wayland"@,
            self is X11 ==> name@ == "X11"@,
    {
        match self {
            Self::Wayland => "Wayland",
            Self::X11 => "X11",
        }
    }
}

/// Why the process cannot open a window, and what to do about it.
#[derive(Debug, Clone, PartialEq, Eq)]
pub struct BackendUnavailable {
    pub attempted: &'static str,
    pub next_action: String,
}

impl BackendUnavailable {
    pub open spec fn text(self) -> Seq<char> {
        self.attempted@ + " unavailable. "@ + self.next_action@
    }

    /// The backend that was attempted, then the next diagnostic step.
    pub fn to_text(&self) -> (message: String)
        ensures
            message@ == self.text(),
    {
        let mut message: String = self.attempted.to_owned();
        message.append(" unavailable. ");
        message.append(self.next_action.as_str());
        message
    }
}

/// Whether a variable names a display. An empty one counts as absent.
pub open spec fn names_a_display(value: Option<&str>) -> bool {
    value matches Some(value) && value@.len() > 0
}

fn is_display(value: Option<&str>) -> (named: bool)
    ensures
        named == names_a_display(value),
{
    match value {
        Some(value) => !value.is_empty(),
        None => false,
    }
}

/// Decide which backend to use from the values of `WAYLAND_DISPLAY` and
/// `DISPLAY`.
///
/// Wayland wins when both are present. The error names the backends that were
/// attempted and the next diagnostic step, rather than reporting a generic
/// initialization failure.
pub fn detect_backend(wayland_display: Option<&str>, x11_display: Option<&str>) -> (result: Result<
    Backend,
    BackendUnavailable,
>)
    ensures
        match result {
            Ok(Backend::Wayland) => names_a_display(wayland_display),
            Ok(Backend::X11) => !names_a_display(wayland_display) && names_a_display(x11_display),
            Err(error) => {
                &&& !names_a_display(wayland_display)
                &&& !names_a_display(x11_display)
                &&& error.attempted@ == "Wayland and X11"@
                &&& error.next_action@
                    == "Neither WAYLAND_DISPLAY nor DISPLAY is set. Run this from a graphical session, or set DISPLAY to a reachable X server."@
            },
        },
{
    if is_display(wayland_display) {
        return Ok(Backend::Wayland);
    }
    if is_display(x11_display) {
        return Ok(Backend::X11);
    }
    Err(
        BackendUnavailable {
            attempted: "Wayland and X11",
            next_action: "Neither WAYLAND_DISPLAY nor DISPLAY is set. Run this from a graphical session, or set DISPLAY to a reachable X server.".to_owned(),
        },
    )
}

/// Whether the value of a boolean environment variable is truthy.
pub open spec fn truthy(value: Option<&str>) -> bool {
    value matches Some(value) && {
        let word = text::trimmed(value@);
        word == "1"@ || word == "true"@ || word == "yes"@ || word == "on"@
    }
}

/// Whether a boolean environment variable is set to something truthy.
///
/// Takes the variable's value, `None` when it is not set.
pub fn is_enabled(value: Option<&str>) -> (enabled: bool)
    ensures
        enabled == truthy(value),
{
    match value {
        Some(value) => {
            let word: String = text::trim(value);
            text::same(word.as_str(), "1") || text::same(word.as_str(), "true") || text::same(
                word.as_str(),
                "yes",
            ) || text::same(word.as_str(), "on")
        },
        None => false,
    }
}

/// Measures time from process start to first painted frame.
///
/// Instants are nanoseconds on a clock that never runs backwards.
#[derive(Debug, Clone, PartialEq, Eq)]
pub struct StartupTrace {
    started_ns: u64,
    enabled: bool,
    reported: bool,
}

impl StartupTrace {
    pub closed spec fn started_at(self) -> u64 {
        self.started_ns
    }

    pub closed spec fn traces(self) -> bool {
        self.enabled
    }

    pub closed spec fn done(self) -> bool {
        self.reported
    }

    /// The line that reports the first frame, in milliseconds with one decimal
    /// place.
    pub open spec fn line(self, now_ns: u64, backend: Backend) -> Seq<char> {
        let elapsed: nat = if now_ns >= self.started_at() {
            (now_ns - self.started_at()) as nat
        } else {
            0
        };
        "startup: first frame after "@ + measure::tenths_text(
            measure::elapsed_tenths(elapsed) as nat,
        ) + " ms on "@ + backend.name_text()
    }

    /// Start the clock, honoring the value of [`STARTUP_TRACE_ENV`].
    pub fn start(now_ns: u64, flag: Option<&str>) -> (trace: Self)
        ensures
            trace.started_at() == now_ns,
            trace.traces() == truthy(flag),
            !trace.done(),
    {
        Self { started_ns: now_ns, enabled: is_enabled(flag), reported: false }
    }

    pub fn is_enabled(&self) -> (enabled: bool)
        ensures
            enabled == self.traces(),
    {
        self.enabled
    }

    /// Report the first frame: the line to print, when one is wanted. Later
    /// calls report nothing.
    pub fn first_frame(&mut self, now_ns: u64, backend: Backend) -> (line: Option<String>)
        ensures
            final(self).done(),
            final(self).started_at() == old(self).started_at(),
            final(self).traces() == old(self).traces(),
            line is Some <==> !old(self).done() && old(self).traces(),
            line matches Some(line) ==> line@ == old(self).line(now_ns, backend),
    {
        if self.reported {
            return None;
        }
        self.reported = true;
        if !self.enabled {
            return None;
        }
        let elapsed: u64 = now_ns.saturating_sub(self.started_ns);
        let mut line: String = "startup: first frame after ".to_owned();
        measure::push_tenths(&mut line, measure::to_elapsed_tenths(elapsed));
        line.append(" ms on ");
        line.append(backend.name());
        assert(line@ =~= old(self).line(now_ns, backend));
        Some(line)
    }

    pub fn has_reported(&self) -> (reported: bool)
        ensures
            reported == self.done(),
    {
        self.reported
    }
}

/// A variable names a display when it is set to something.
pub proof fn an_empty_variable_names_no_display(value: Option<&str>)
    ensures
        value is None ==> !names_a_display(value),
        value matches Some(value) ==> (names_a_display(Some(value)) <==> value@.len() >= 1),
{
}

/// A flag is set by one of four words, with or without white space around it,
/// and by nothing else.
pub proof fn a_flag_is_set_by_one_of_four_words(value: &str)
    ensures
        truthy(Some(value)) ==> text::trimmed(value@).len() <= 4,
        text::trimmed(value@) == seq!['1'] ==> truthy(Some(value)),
        text::trimmed(value@) == seq!['o', 'n'] ==> truthy(Some(value)),
        text::trimmed(value@) == seq!['y', 'e', 's'] ==> truthy(Some(value)),
        text::trimmed(value@) == seq!['t', 'r', 'u', 'e'] ==> truthy(Some(value)),
        truthy(Some(value)) ==> text::trimmed(value@) == seq!['1'] || text::trimmed(value@)
            == seq!['o', 'n'] || text::trimmed(value@) == seq!['y', 'e', 's'] || text::trimmed(
            value@,
        ) == seq!['t', 'r', 'u', 'e'],
        !truthy(None),
{
    reveal_strlit("1");
    reveal_strlit("on");
    reveal_strlit("yes");
    reveal_strlit("true");
    assert("1"@ =~= seq!['1']);
    assert("on"@ =~= seq!['o', 'n']);
    assert("yes"@ =~= seq!['y', 'e', 's']);
    assert("true"@ =~= seq!['t', 'r', 'u', 'e']);
}

/// The line tells the time since the start in milliseconds with one decimal,
/// rounded, and no time at all for a clock that ran backwards.
pub proof fn the_line_tells_the_time_since_the_start(
    trace: StartupTrace,
    now_ns: u64,
    backend: Backend,
) -> (tenths: nat)
    ensures
        trace.line(now_ns, backend) == "startup: first frame after "@ + text::decimal(tenths / 10)
            + "."@ + text::decimal(tenths % 10) + " ms on "@ + backend.name_text(),
        now_ns >= trace.started_at() ==> -63_000 <= 100_000 * tenths - (now_ns
            - trace.started_at()) <= 63_000,
        now_ns < trace.started_at() ==> tenths == 0,
{
    let elapsed: nat = if now_ns >= trace.started_at() {
        (now_ns - trace.started_at()) as nat
    } else {
        0
    };
    measure::a_duration_is_told_in_tenths_of_a_millisecond(elapsed as u64);
    let tenths = measure::elapsed_tenths(elapsed) as nat;
    let lead = "startup: first frame after "@;
    assert(trace.line(now_ns, backend) =~= lead + text::decimal(tenths / 10) + "."@
        + text::decimal(tenths % 10) + " ms on "@ + backend.name_text());
    tenths
}

} // verus!
