//! The protocol, its frames and the place of its socket.

use kori::capability::{CapabilityRecord, Evidenced, ProbeContext, CAPABILITY_SCHEMA_VERSION};
use kori::diagnostics::DiagnosticsLog;
use kori::display::DisplayPreset;
use kori::ipc::{
    read_frame, read_line, runtime_dir, runtime_dir_from_env, socket_path_from_env, write_frame,
    AccessMode, ActivationOutcome, ApplyOutcome, ConfigState, DaemonStatus, DisplayOutcome,
    DisplayState, FrameError, HardwareState, IpcError, LightingOutcome, Response, MAX_FRAME_BYTES,
    PROTOCOL_VERSION, SOCKET_FILE_NAME,
};
use kori::lighting::LightingProgram;
use kori::telemetry::{TelemetrySnapshot, Unavailable};

#[test]
fn every_response_kind_is_the_tag_it_travels_under() {
    let status = DaemonStatus {
        daemon_version: "0.1.0".to_string(),
        protocol_version: PROTOCOL_VERSION,
        access: AccessMode::ReadWrite,
        devices: Vec::new(),
        active_profile: "Onboard safe".to_string(),
        config: ConfigState::Defaults,
        cooling: None,
        lighting: Vec::new(),
        display: DisplayState {
            panel: None,
            committed: None,
            streaming: false,
            faulted: None,
            dropped_frames: 0,
        },
        socket_path: "/run/user/1000/kori/kori.sock".to_string(),
    };
    let record = CapabilityRecord {
        schema_version: CAPABILITY_SCHEMA_VERSION,
        context: ProbeContext {
            kernel_release: Evidenced::unknown("not read", "test"),
            probed_at_unix_ms: 0,
        },
        devices: Vec::new(),
        rejected: Vec::new(),
    };
    let preset = DisplayPreset::default_infographic();

    let responses = vec![
        (
            Response::Hello {
                protocol_version: PROTOCOL_VERSION,
                daemon_version: "0.1.0".to_string(),
            },
            "hello",
        ),
        (Response::Status(Box::new(status)), "status"),
        (Response::Capabilities(Box::new(record)), "capabilities"),
        (
            Response::Profiles { active: "Onboard safe".to_string(), profiles: Vec::new() },
            "profiles",
        ),
        (
            Response::Activated(ActivationOutcome {
                name: "Onboard safe".to_string(),
                hardware: HardwareState::Onboard,
                applied: None,
            }),
            "activated",
        ),
        (Response::Saved { name: "Silent".to_string() }, "saved"),
        (
            Response::Deleted { name: "Silent".to_string(), activated_instead: None },
            "deleted",
        ),
        (
            Response::Telemetry(Box::new(TelemetrySnapshot::unavailable(
                0,
                Unavailable::absent("no hwmon"),
            ))),
            "telemetry",
        ),
        (
            Response::Applied(Box::new(ApplyOutcome::untouched(HardwareState::Onboard))),
            "applied",
        ),
        (
            Response::Lit(LightingOutcome {
                channel: 1,
                program: LightingProgram::Off,
                hardware: HardwareState::Confirmed,
                writes: 1,
                deduplicated: false,
            }),
            "lit",
        ),
        (
            Response::Shown(Box::new(DisplayOutcome {
                preset,
                hardware: HardwareState::Confirmed,
                frames: 1,
                deduplicated: false,
                brightness_sent: true,
            })),
            "shown",
        ),
        (
            Response::Diagnostics(DiagnosticsLog::default().export(0, "0.1.0", None)),
            "diagnostics",
        ),
        (Response::Error(IpcError::NoDevice), "error"),
    ];

    let mut seen: Vec<&'static str> = Vec::with_capacity(responses.len());
    for (response, tag) in &responses {
        assert_eq!(
            response.kind(),
            *tag,
            "{} does not travel under its own kind",
            response.kind()
        );
        assert!(
            !seen.contains(&response.kind()),
            "{} is claimed by two variants",
            response.kind()
        );
        seen.push(response.kind());
    }
}

#[test]
fn config_recovery_message_names_the_preserved_file() {
    let state = ConfigState::Recovered {
        detail: "expected schema 1, found 9".to_string(),
        preserved_path: "/home/a/.config/kori/config.toml.corrupt".to_string(),
        recovery_action: "Re-save a profile to replace it.".to_string(),
    };
    let message = state.recovery_message().unwrap();
    assert!(message.contains(".corrupt"), "{message}");
    assert!(message.contains("Safe defaults are active"), "{message}");
    assert!(ConfigState::Loaded.recovery_message().is_none());
}

#[test]
fn frames_round_trip() {
    let request = format!("{{\"request\":\"hello\",\"protocol_version\":{PROTOCOL_VERSION}}}");
    let buffer = write_frame(request.clone().into_bytes()).unwrap();
    assert_eq!(buffer.last(), Some(&b'\n'));

    let line = read_line(&buffer);
    let decoded = read_frame(line).unwrap();
    assert_eq!(decoded, request.into_bytes());
}

#[test]
fn frames_are_read_back_in_the_order_written() {
    let written: [&[u8]; 4] = [b"{\"a\":1}", b"", b"{\"b\":[2,3]}", b"null"];
    let mut stream: Vec<u8> = Vec::new();
    for encoded in written {
        stream.extend(write_frame(encoded.to_vec()).unwrap());
    }
    let mut at = 0;
    for encoded in written {
        let line = read_line(&stream[at..]);
        at += line.len();
        assert_eq!(read_frame(line).unwrap(), encoded);
    }
    assert_eq!(at, stream.len());
    assert_eq!(read_frame(read_line(&stream[at..])), Err(FrameError::Closed));
}

#[test]
fn oversized_frame_is_refused_without_buffering_it_all() {
    let mut line = vec![b'x'; MAX_FRAME_BYTES + 4096];
    line.push(b'\n');
    let read = read_line(&line);
    assert_eq!(read.len(), MAX_FRAME_BYTES, "no more than the ceiling is taken");
    match read_frame(read) {
        Err(FrameError::TooLarge { max_bytes }) => assert_eq!(max_bytes, MAX_FRAME_BYTES),
        other => panic!("expected TooLarge, got {other:?}"),
    }
}

#[test]
fn closed_connection_is_distinguished_from_a_bad_frame() {
    let result = read_frame(read_line(b""));
    assert!(matches!(result, Err(FrameError::Closed)));
    assert!(result.unwrap_err().as_ipc_error().is_none());
}

#[test]
fn a_frame_is_cut_at_its_newline_and_refused_at_the_ceiling() {
    assert_eq!(read_line(b"one\ntwo\n"), b"one\n".to_vec());
    assert!(write_frame(vec![b'x'; MAX_FRAME_BYTES - 1]).is_ok());
    assert_eq!(
        write_frame(vec![b'x'; MAX_FRAME_BYTES]),
        Err(FrameError::TooLarge { max_bytes: MAX_FRAME_BYTES })
    );
    // A line the peer closed on halfway is not a frame.
    assert_eq!(read_frame(b"{\"request\":".to_vec()), Err(FrameError::Closed));
}

#[test]
fn a_framing_failure_becomes_a_typed_answer() {
    assert_eq!(
        FrameError::Decode("expected value".to_string()).as_ipc_error(),
        Some(IpcError::Malformed { detail: "expected value".to_string() })
    );
    assert_eq!(
        FrameError::TooLarge { max_bytes: 5 }.as_ipc_error(),
        Some(IpcError::FrameTooLarge { max_bytes: 5 })
    );
    assert_eq!(
        FrameError::Io("broken pipe".to_string()).as_ipc_error(),
        Some(IpcError::Io { detail: "broken pipe".to_string() })
    );
    assert_eq!(FrameError::TooLarge { max_bytes: 262144 }.to_text(), "frame exceeds 262144 bytes");
    assert_eq!(
        FrameError::Decode("x".to_string()).to_text(),
        "frame is not valid JSON: x"
    );
}

#[test]
fn the_runtime_directory_never_falls_back_to_a_world_writable_place() {
    let home = "/home/a";
    let resolved = runtime_dir(None, None, Some(home));
    assert!(resolved.starts_with(home), "{resolved:?}");
    assert!(!resolved.starts_with("/tmp"), "{resolved:?}");
    assert!(!resolved.starts_with("/var/tmp"), "{resolved:?}");
}

#[test]
fn the_runtime_directory_prefers_the_override_then_xdg() {
    assert_eq!(
        runtime_dir(Some("/explicit"), Some("/run/user/1000"), Some("/home/a")),
        "/explicit"
    );
    assert_eq!(
        runtime_dir(None, Some("/run/user/1000"), Some("/home/a")),
        "/run/user/1000/kori"
    );
}

#[test]
fn the_socket_sits_inside_the_runtime_directory() {
    let directory = runtime_dir(None, Some("/run/user/1000"), None);
    assert_eq!(
        kori::ipc::paths::join(&directory, SOCKET_FILE_NAME),
        "/run/user/1000/kori/kori.sock"
    );
}

#[test]
fn an_empty_variable_counts_as_unset() {
    assert_eq!(
        runtime_dir_from_env(Some(""), Some("/run/user/7"), Some("/home/a")),
        "/run/user/7/kori"
    );
    assert_eq!(
        socket_path_from_env(Some(""), None, None, Some("/home/a")),
        "/home/a/.cache/kori/kori.sock"
    );
    assert_eq!(socket_path_from_env(Some("/s"), Some("/d"), None, None), "/s");
    assert_eq!(socket_path_from_env(None, None, None, None), "./.cache/kori/kori.sock");
}

#[test]
fn every_refusal_has_its_own_sentence() {
    let cases = vec![
        (
            IpcError::UnsupportedProtocol { requested: 7, supported: 8 },
            "Client protocol 7 is not supported. This daemon speaks 8.",
        ),
        (
            IpcError::Malformed { detail: "x".to_string() },
            "Request could not be parsed: x",
        ),
        (
            IpcError::FrameTooLarge { max_bytes: 12 },
            "Request exceeds the 12 byte frame limit.",
        ),
        (
            IpcError::HandshakeRequired,
            "Request rejected before the protocol handshake completed.",
        ),
        (
            IpcError::PeerRejected { reason: "uid".to_string() },
            "Local peer rejected: uid",
        ),
        (
            IpcError::ReadOnly { reason: "locked".to_string() },
            "Controls are read-only: locked",
        ),
        (
            IpcError::Incompatible { details: Vec::new() },
            "Profile is incompatible with the connected hardware.",
        ),
        (
            IpcError::ProfileNotFound { name: "Q".to_string() },
            "No profile named Q.",
        ),
        (
            IpcError::ProfileNameUnavailable { name: "Q".to_string() },
            "The name Q is reserved for the built-in safe profile.",
        ),
        (IpcError::NoDevice, "No supported device is present."),
        (
            IpcError::Io { detail: "disk".to_string() },
            "Local operation failed: disk",
        ),
    ];
    for (error, words) in cases {
        assert_eq!(error.to_text(), words);
    }
}

#[test]
fn an_outcome_finds_the_readback_of_its_channel() {
    let outcome = ApplyOutcome::untouched(HardwareState::Onboard);
    assert!(outcome.readback_for(kori::profile::Channel::Pump).is_none());
    assert!(AccessMode::ReadOnly { conflicts: Vec::new() }.is_read_only());
    assert!(!AccessMode::ReadWrite.is_read_only());
}
