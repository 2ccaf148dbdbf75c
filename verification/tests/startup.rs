//! Launch preflight and startup instrumentation.

use kori::startup::{
    detect_backend, is_enabled, Backend, StartupTrace, EXIT_AFTER_FIRST_FRAME_ENV,
    STARTUP_TRACE_ENV,
};

#[test]
fn wayland_wins_when_both_backends_are_present() {
    assert_eq!(detect_backend(Some("wayland-0"), Some(":0")), Ok(Backend::Wayland));
}

#[test]
fn x11_is_used_when_wayland_is_absent() {
    assert_eq!(detect_backend(None, Some(":0")), Ok(Backend::X11));
    assert_eq!(detect_backend(Some(""), Some(":0")), Ok(Backend::X11));
}

#[test]
fn no_backend_reports_what_was_attempted_and_the_next_action() {
    let error = detect_backend(None, None).unwrap_err();
    assert_eq!(error.attempted, "Wayland and X11");
    assert!(error.next_action.contains("WAYLAND_DISPLAY"), "{error:?}");
    assert!(error.next_action.contains("DISPLAY"), "{error:?}");
    assert!(error.to_text().starts_with("Wayland and X11 unavailable"));
    assert_eq!(
        error.to_text(),
        "Wayland and X11 unavailable. Neither WAYLAND_DISPLAY nor DISPLAY is set. Run this from a \
         graphical session, or set DISPLAY to a reachable X server."
    );
}

#[test]
fn empty_variables_count_as_absent() {
    assert!(detect_backend(Some(""), Some("")).is_err());
    assert!(detect_backend(Some(""), None).is_err());
}

#[test]
fn the_first_frame_is_reported_once() {
    let mut trace = StartupTrace::start(0, None);
    assert!(!trace.has_reported());
    trace.first_frame(10, Backend::Wayland);
    assert!(trace.has_reported());
    trace.first_frame(20, Backend::X11);
    assert!(trace.has_reported());
}

#[test]
fn a_traced_start_prints_one_line() {
    let mut trace = StartupTrace::start(1_000_000, Some("yes"));
    assert!(trace.is_enabled());
    assert_eq!(
        trace.first_frame(126_000_000, Backend::Wayland).as_deref(),
        Some("startup: first frame after 125.0 ms on Wayland")
    );
    assert_eq!(trace.first_frame(130_000_000, Backend::X11), None);

    let mut late = StartupTrace::start(0, Some("1"));
    assert_eq!(
        late.first_frame(87_649_999, Backend::X11).as_deref(),
        Some("startup: first frame after 87.6 ms on X11")
    );
    assert_eq!(Backend::X11.name(), "X11");
}

#[test]
fn a_start_is_timed_as_double_precision_seconds_are_worded() {
    for nanoseconds in [
        0u64,
        49_999,
        50_000,
        50_001,
        150_000,
        250_000,
        350_000,
        87_650_000,
        125_050_000,
        999_950_000,
        1_000_050_000,
        3_600_000_149_999,
    ] {
        let seconds = std::time::Duration::from_nanos(nanoseconds).as_secs_f64();
        let mut trace = StartupTrace::start(0, Some("1"));
        assert_eq!(
            trace.first_frame(nanoseconds, Backend::Wayland),
            Some(format!("startup: first frame after {:.1} ms on Wayland", seconds * 1000.0)),
            "{nanoseconds}"
        );
    }
    let mut tie = StartupTrace::start(0, Some("1"));
    assert_eq!(
        tie.first_frame(50_000, Backend::X11).as_deref(),
        Some("startup: first frame after 0.1 ms on X11")
    );
}

#[test]
fn truthy_environment_values_are_recognized() {
    for value in ["1", "true", "yes", "on", " 1 "] {
        assert!(is_enabled(Some(value)), "{value:?} should be truthy");
    }
    for value in ["0", "false", "", "no"] {
        assert!(!is_enabled(Some(value)), "{value:?} should be falsy");
    }
    assert!(!is_enabled(None));
}

#[test]
fn the_variables_carry_the_products_own_name() {
    assert_eq!(STARTUP_TRACE_ENV, "KORI_STARTUP_TRACE");
    assert_eq!(EXIT_AFTER_FIRST_FRAME_ENV, "KORI_EXIT_AFTER_FIRST_FRAME");
}
