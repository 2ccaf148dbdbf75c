//! How an exchange with the daemon is judged.

use kori::client::{Client, ClientError, Exchange};
use kori::display::DisplayPreset;
use kori::ipc::{FrameError, IpcError, Request, Response, MAX_FRAME_BYTES, PROTOCOL_VERSION};
use kori::lighting::{LightingCommand, LightingProgram};
use kori::profile::CoolingProgram;
use kori::telemetry::{TelemetrySnapshot, Unavailable};

#[test]
fn an_unexpected_answer_names_what_arrived_and_what_was_wanted() {
    let error = ClientError::Unexpected {
        expected: "status",
        actual: Response::Saved { name: "Silent".to_string() }.kind(),
    };
    let message = error.to_text();
    assert!(message.contains("saved"), "{message}");
    assert!(message.contains("status"), "{message}");
    assert_eq!(error.operator_message(), message);
}

#[test]
fn an_oversized_request_is_a_refusal_rather_than_a_disconnection() {
    let refused = ClientError::from_write(FrameError::TooLarge { max_bytes: MAX_FRAME_BYTES });
    match refused {
        ClientError::Refused(IpcError::FrameTooLarge { max_bytes }) => {
            assert_eq!(max_bytes, MAX_FRAME_BYTES);
        }
        other => panic!("expected a typed refusal, got {other:?}"),
    }

    // A genuine transport failure still reads as a lost connection.
    let lost = ClientError::from_write(FrameError::Closed);
    assert!(matches!(lost, ClientError::Disconnected(FrameError::Closed)));
}

#[test]
fn an_unreachable_daemon_is_explained_in_operator_language() {
    let error = ClientError::Unreachable {
        path: "/run/user/1000/kori/kori.sock".to_string(),
        source: std::io::Error::from(std::io::ErrorKind::NotFound).to_string(),
    };
    let message = error.operator_message();
    assert!(message.contains("korid"), "{message}");
    assert!(!message.contains("/run/user"), "{message}");
}

#[test]
fn a_failure_is_worded_for_each_way_it_can_happen() {
    let unreachable = ClientError::Unreachable {
        path: "/run/k.sock".to_string(),
        source: "entity not found".to_string(),
    };
    assert_eq!(
        unreachable.to_text(),
        "the daemon is not running, or its socket is not reachable at /run/k.sock: entity not found"
    );
    assert_eq!(
        ClientError::Disconnected(FrameError::Closed).operator_message(),
        "the connection to the daemon was lost: connection closed"
    );
    assert_eq!(
        ClientError::Refused(IpcError::NoDevice).to_text(),
        "No supported device is present."
    );
    assert_eq!(
        ClientError::Unexpected { expected: "lit", actual: "shown" }.to_text(),
        "the daemon answered shown where lit was expected"
    );
}

#[test]
fn the_handshake_keeps_the_version_the_daemon_reported() {
    assert_eq!(Client::hello(), Request::Hello { protocol_version: PROTOCOL_VERSION });

    let client = Client::connect(Exchange::Answered(Response::Hello {
        protocol_version: PROTOCOL_VERSION,
        daemon_version: "0.4.2".to_string(),
    }))
    .unwrap();
    assert_eq!(client.daemon_version(), "0.4.2");

    let refused = Client::connect(Exchange::Answered(Response::Error(
        IpcError::UnsupportedProtocol { requested: 7, supported: 8 },
    )));
    assert_eq!(
        refused,
        Err(ClientError::Refused(IpcError::UnsupportedProtocol { requested: 7, supported: 8 }))
    );
    let odd = Client::connect(Exchange::Answered(Response::Saved { name: "x".to_string() }));
    assert_eq!(odd, Err(ClientError::Unexpected { expected: "hello", actual: "saved" }));
}

#[test]
fn every_request_takes_the_one_answer_it_accepts() {
    assert_eq!(Client::status_request(), Request::Status);
    assert_eq!(Client::capabilities_request(), Request::Capabilities);
    assert_eq!(Client::telemetry_request(), Request::Telemetry);
    assert_eq!(Client::profiles_request(), Request::Profiles);
    assert_eq!(
        Client::apply_request(CoolingProgram::Onboard),
        Request::ApplyProgram { program: CoolingProgram::Onboard }
    );
    let command = LightingCommand { channel: 2, program: LightingProgram::Off };
    assert_eq!(
        Client::apply_lighting_request(command.clone()),
        Request::ApplyLighting { command }
    );
    let preset = DisplayPreset::default_infographic();
    assert_eq!(
        Client::apply_display_request(preset.clone()),
        Request::ApplyDisplay { preset }
    );

    let snapshot = TelemetrySnapshot::unavailable(5, Unavailable::absent("no hwmon"));
    let taken = Client::telemetry(Exchange::Answered(Response::Telemetry(Box::new(
        snapshot.clone(),
    ))));
    assert_eq!(taken, Ok(snapshot));

    let profiles = Client::profiles(Exchange::Answered(Response::Profiles {
        active: "Silent".to_string(),
        profiles: Vec::new(),
    }));
    assert_eq!(profiles, Ok(("Silent".to_string(), Vec::new())));

    let error = || Exchange::Answered(Response::Error(IpcError::HandshakeRequired));
    assert_eq!(
        Client::status(error()),
        Err(ClientError::Refused(IpcError::HandshakeRequired))
    );
    assert_eq!(
        Client::capabilities(Exchange::NotRead(FrameError::Closed)),
        Err(ClientError::Disconnected(FrameError::Closed))
    );
    assert_eq!(
        Client::apply(Exchange::NotWritten(FrameError::TooLarge { max_bytes: 10 })),
        Err(ClientError::Refused(IpcError::FrameTooLarge { max_bytes: 10 }))
    );
    assert_eq!(
        Client::apply_lighting(Exchange::Answered(Response::Saved { name: "x".to_string() })),
        Err(ClientError::Unexpected { expected: "lit", actual: "saved" })
    );
    assert_eq!(
        Client::apply_display(error()),
        Err(ClientError::Refused(IpcError::HandshakeRequired))
    );
}
