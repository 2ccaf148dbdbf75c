//! The client side of the local socket.
//!
//! The socket itself is not here. What is: how each exchange over it is judged,
//! and the words a failure is explained in.

use vstd::prelude::*;

use crate::capability::CapabilityRecord;
use crate::display::DisplayPreset;
use crate::ipc::{
    ApplyOutcome, DaemonStatus, DisplayOutcome, FrameError, IpcError, LightingOutcome, Request,
    Response, PROTOCOL_VERSION,
};
use crate::lighting::LightingCommand;
use crate::profile::{CoolingProgram, Profile};
use crate::telemetry::TelemetrySnapshot;

verus! {

/// Why talking to the daemon failed.
#[derive(Debug, Clone, PartialEq, Eq)]
pub enum ClientError {
    /// Nothing answers at the socket's path. `source` is the system's own
    /// explanation.
    Unreachable { path: String, source: String },
    Disconnected(FrameError),
    Refused(IpcError),
    Unexpected { expected: &'static str, actual: &'static str },
}

/// The sentence shown when no daemon answers.
pub const UNREACHABLE_MESSAGE: &'static str =
    "The background service is not running. Start korid to enable controls.";

impl ClientError {
    /// The words this failure is reported in.
    pub open spec fn text(self) -> Seq<char> {
        match self {
            Self::Unreachable { path, source } =>
                "the daemon is not running, or its socket is not reachable at "@ + path@ + ": "@
                + source@,
            Self::Disconnected(error) => "the connection to the daemon was lost: "@ + error.text(),
            Self::Refused(error) => error.text(),
            Self::Unexpected { expected, actual } => "the daemon answered "@ + actual@ + " where "@
                + expected@ + " was expected"@,
        }
    }

    /// The words this failure is reported in.
    pub fn to_text(&self) -> (message: String)
        ensures
            message@ == self.text(),
    {
        let mut message: String = String::new();
        match self {
            Self::Unreachable { path, source } => {
                message.append("the daemon is not running, or its socket is not reachable at ");
                message.append(path.as_str());
                message.append(": ");
                message.append(source.as_str());
            },
            Self::Disconnected(error) => {
                message.append("the connection to the daemon was lost: ");
                message.append(error.to_text().as_str());
            },
            Self::Refused(error) => {
                message.append(error.to_text().as_str());
            },
            Self::Unexpected { expected, actual } => {
                message.append("the daemon answered ");
                message.append(actual);
                message.append(" where ");
                message.append(expected);
                message.append(" was expected");
            },
        }
        assert(message@ =~= self.text());
        message
    }

    /// One sentence a control surface can display verbatim.
    pub fn operator_message(&self) -> (message: String)
        ensures
            message@ == if *self is Unreachable {
                UNREACHABLE_MESSAGE@
            } else {
                self.text()
            },
    {
        match self {
            Self::Unreachable { .. } => UNREACHABLE_MESSAGE.to_owned(),
            other => other.to_text(),
        }
    }

    /// What a framing failure on the way out means.
    pub open spec fn of_write(error: FrameError) -> Self {
        match error {
            FrameError::TooLarge { max_bytes } => Self::Refused(
                IpcError::FrameTooLarge { max_bytes },
            ),
            other => Self::Disconnected(other),
        }
    }

    /// A framing failure on the way out.
    ///
    /// A request refused for its size never left this process, so it is a typed
    /// refusal and not a lost connection. Reporting it as a disconnection would
    /// send the operator looking for a daemon that is still there.
    pub fn from_write(error: FrameError) -> (failure: Self)
        ensures
            failure == Self::of_write(error),
    {
        match error {
            FrameError::TooLarge { max_bytes } => Self::Refused(
                IpcError::FrameTooLarge { max_bytes },
            ),
            other => Self::Disconnected(other),
        }
    }
}

/// How one request and its answer went over the socket.
#[derive(Debug, Clone, PartialEq)]
pub enum Exchange {
    /// The request could not be framed or sent.
    NotWritten(FrameError),
    /// The request left, and no answer could be read.
    NotRead(FrameError),
    /// This came back.
    Answered(Response),
}

impl Exchange {
    /// Why this exchange yields no answer of the kind `expected` names, for one
    /// that does not.
    pub open spec fn fails_as(self, expected: Seq<char>, failure: ClientError) -> bool {
        match self {
            Self::NotWritten(error) => failure == ClientError::of_write(error),
            Self::NotRead(error) => failure == ClientError::Disconnected(error),
            Self::Answered(Response::Error(error)) => failure == ClientError::Refused(error),
            Self::Answered(response) => failure matches ClientError::Unexpected {
                expected: wanted,
                actual,
            } && wanted@ == expected && actual@ == response.kind_text(),
        }
    }
}

/// A client that has completed the version handshake.
#[derive(Debug, Clone, PartialEq, Eq)]
pub struct Client {
    daemon_version: String,
}

impl Client {
    /// What the daemon said it is.
    pub closed spec fn version(self) -> Seq<char> {
        self.daemon_version@
    }

    /// The request a connection opens with.
    pub fn hello() -> (request: Request)
        ensures
            request == (Request::Hello { protocol_version: PROTOCOL_VERSION }),
    {
        Request::Hello { protocol_version: PROTOCOL_VERSION }
    }

    /// Judge the handshake.
    ///
    /// A client exists only around a daemon version somebody has read.
    pub fn connect(exchange: Exchange) -> (result: Result<Self, ClientError>)
        ensures
            match exchange {
                Exchange::Answered(Response::Hello { daemon_version, .. }) => result matches Ok(
                    client,
                ) && client.version() == daemon_version@,
                _ => result matches Err(failure) && exchange.fails_as("hello"@, failure),
            },
    {
        match Self::request(exchange)? {
            Response::Hello { daemon_version, .. } => Ok(Self { daemon_version }),
            other => Err(Self::not("hello", other)),
        }
    }

    pub fn daemon_version(&self) -> (version: &str)
        ensures
            version@ == self.version(),
    {
        self.daemon_version.as_str()
    }

    /// Judge the transport of one exchange, whatever came back.
    pub fn request(exchange: Exchange) -> (result: Result<Response, ClientError>)
        ensures
            result == match exchange {
                Exchange::NotWritten(error) => Err(ClientError::of_write(error)),
                Exchange::NotRead(error) => Err(ClientError::Disconnected(error)),
                Exchange::Answered(response) => Ok(response),
            },
    {
        match exchange {
            Exchange::NotWritten(error) => Err(ClientError::from_write(error)),
            Exchange::NotRead(error) => Err(ClientError::Disconnected(error)),
            Exchange::Answered(response) => Ok(response),
        }
    }

    /// The failure of an answer that is not of the kind `expected` names.
    ///
    /// A typed refusal comes back as one. Anything else names both what was
    /// expected and what arrived.
    fn not(expected: &'static str, response: Response) -> (failure: ClientError)
        ensures
            Exchange::Answered(response).fails_as(expected@, failure),
    {
        let actual: &'static str = response.kind();
        match response {
            Response::Error(error) => ClientError::Refused(error),
            _ => ClientError::Unexpected { expected, actual },
        }
    }

    /// Asks for the daemon status.
    pub fn status_request() -> (request: Request)
        ensures
            request == (Request::Status),
    {
        Request::Status
    }

    /// Current daemon status.
    pub fn status(exchange: Exchange) -> (result: Result<DaemonStatus, ClientError>)
        ensures
            match exchange {
                Exchange::Answered(Response::Status(status)) => result == Ok::<DaemonStatus, ClientError>(*status),
                _ => result matches Err(failure) && exchange.fails_as("status"@, failure),
            },
    {
        match Self::request(exchange)? {
            Response::Status(status) => Ok(*status),
            other => Err(Self::not("status", other)),
        }
    }

    /// Asks for the capability record.
    pub fn capabilities_request() -> (request: Request)
        ensures
            request == (Request::Capabilities),
    {
        Request::Capabilities
    }

    /// The versioned capability record.
    pub fn capabilities(exchange: Exchange) -> (result: Result<CapabilityRecord, ClientError>)
        ensures
            match exchange {
                Exchange::Answered(Response::Capabilities(record)) => result == Ok::<CapabilityRecord, ClientError>(*record),
                _ => result matches Err(failure) && exchange.fails_as("capabilities"@, failure),
            },
    {
        match Self::request(exchange)? {
            Response::Capabilities(record) => Ok(*record),
            other => Err(Self::not("capabilities", other)),
        }
    }

    /// Asks for the most recent sampling pass.
    pub fn telemetry_request() -> (request: Request)
        ensures
            request == (Request::Telemetry),
    {
        Request::Telemetry
    }

    /// The most recent sampling pass.
    pub fn telemetry(exchange: Exchange) -> (result: Result<TelemetrySnapshot, ClientError>)
        ensures
            match exchange {
                Exchange::Answered(Response::Telemetry(snapshot)) => result == Ok::<TelemetrySnapshot, ClientError>(*snapshot),
                _ => result matches Err(failure) && exchange.fails_as("telemetry"@, failure),
            },
    {
        match Self::request(exchange)? {
            Response::Telemetry(snapshot) => Ok(*snapshot),
            other => Err(Self::not("telemetry", other)),
        }
    }

    /// Applies a cooling program.
    pub fn apply_request(program: CoolingProgram) -> (request: Request)
        ensures
            request == (Request::ApplyProgram { program }),
    {
        Request::ApplyProgram { program }
    }

    /// What the hardware confirmed of a cooling program.
    pub fn apply(exchange: Exchange) -> (result: Result<ApplyOutcome, ClientError>)
        ensures
            match exchange {
                Exchange::Answered(Response::Applied(outcome)) => result == Ok::<ApplyOutcome, ClientError>(*outcome),
                _ => result matches Err(failure) && exchange.fails_as("applied"@, failure),
            },
    {
        match Self::request(exchange)? {
            Response::Applied(outcome) => Ok(*outcome),
            other => Err(Self::not("applied", other)),
        }
    }

    /// Applies a lighting program to one channel.
    pub fn apply_lighting_request(command: LightingCommand) -> (request: Request)
        ensures
            request == (Request::ApplyLighting { command }),
    {
        Request::ApplyLighting { command }
    }

    /// What became of a lighting program.
    pub fn apply_lighting(exchange: Exchange) -> (result: Result<LightingOutcome, ClientError>)
        ensures
            match exchange {
                Exchange::Answered(Response::Lit(outcome)) => result == Ok::<LightingOutcome, ClientError>(outcome),
                _ => result matches Err(failure) && exchange.fails_as("lit"@, failure),
            },
    {
        match Self::request(exchange)? {
            Response::Lit(outcome) => Ok(outcome),
            other => Err(Self::not("lit", other)),
        }
    }

    /// Shows a preset on the Kraken's panel.
    pub fn apply_display_request(preset: DisplayPreset) -> (request: Request)
        ensures
            request == (Request::ApplyDisplay { preset }),
    {
        Request::ApplyDisplay { preset }
    }

    /// What became of a panel preset.
    pub fn apply_display(exchange: Exchange) -> (result: Result<DisplayOutcome, ClientError>)
        ensures
            match exchange {
                Exchange::Answered(Response::Shown(outcome)) => result == Ok::<DisplayOutcome, ClientError>(*outcome),
                _ => result matches Err(failure) && exchange.fails_as("shown"@, failure),
            },
    {
        match Self::request(exchange)? {
            Response::Shown(outcome) => Ok(*outcome),
            other => Err(Self::not("shown", other)),
        }
    }

    /// Asks for every stored profile.
    pub fn profiles_request() -> (request: Request)
        ensures
            request == (Request::Profiles),
    {
        Request::Profiles
    }

    /// Every stored profile, after the name of the active one.
    pub fn profiles(exchange: Exchange) -> (result: Result<(String, Vec<Profile>), ClientError>)
        ensures
            match exchange {
                Exchange::Answered(Response::Profiles { active, profiles }) => result == Ok::<(String, Vec<Profile>), ClientError>((active, profiles)),
                _ => result matches Err(failure) && exchange.fails_as("profiles"@, failure),
            },
    {
        match Self::request(exchange)? {
            Response::Profiles { active, profiles } => Ok((active, profiles)),
            other => Err(Self::not("profiles", other)),
        }
    }
}

/// An answer is never reported as something other than what was wanted under
/// the very name that was wanted: two responses that travel under one name are
/// of one kind.
pub proof fn response_kinds_are_distinct(a: Response, b: Response)
    requires
        a.kind_text() == b.kind_text(),
    ensures
        a is Hello == b is Hello,
        a is Status == b is Status,
        a is Capabilities == b is Capabilities,
        a is Profiles == b is Profiles,
        a is Activated == b is Activated,
        a is Saved == b is Saved,
        a is Deleted == b is Deleted,
        a is Telemetry == b is Telemetry,
        a is Applied == b is Applied,
        a is Lit == b is Lit,
        a is Shown == b is Shown,
        a is Diagnostics == b is Diagnostics,
        a is Error == b is Error,
{
    reveal_strlit("hello");
    reveal_strlit("status");
    reveal_strlit("capabilities");
    reveal_strlit("profiles");
    reveal_strlit("activated");
    reveal_strlit("saved");
    reveal_strlit("deleted");
    reveal_strlit("telemetry");
    reveal_strlit("applied");
    reveal_strlit("lit");
    reveal_strlit("shown");
    reveal_strlit("diagnostics");
    reveal_strlit("error");
    assert("hello"@.len() == 5 && "saved"@.len() == 5 && "shown"@.len() == 5 && "error"@.len()
        == 5);
    assert("deleted"@.len() == 7 && "applied"@.len() == 7);
    assert("activated"@.len() == 9 && "telemetry"@.len() == 9);
    assert("status"@.len() == 6 && "capabilities"@.len() == 12 && "profiles"@.len() == 8);
    assert("lit"@.len() == 3 && "diagnostics"@.len() == 11);
    assert("hello"@[0] == 'h' && "saved"@[0] == 's' && "shown"@[0] == 's' && "error"@[0] == 'e');
    assert("saved"@[1] == 'a' && "shown"@[1] == 'h');
    assert("deleted"@[0] == 'd' && "applied"@[0] == 'a');
    assert("activated"@[0] == 'a' && "telemetry"@[0] == 't');
}

/// A request that was too large never left, so it is refused and not lost;
/// every other failure on the way out loses the connection.
pub proof fn a_request_too_large_is_refused(error: FrameError)
    ensures
        match error {
            FrameError::TooLarge { max_bytes } => ClientError::of_write(error)
                == ClientError::Refused(IpcError::FrameTooLarge { max_bytes }),
            _ => ClientError::of_write(error) == ClientError::Disconnected(error),
        },
{
}

/// What goes wrong with an exchange is reported as what it is: a failure to send,
/// a lost connection, the daemon's own refusal, or an answer of another kind,
/// named by what was wanted and what came.
pub proof fn a_failed_exchange_says_what_happened(
    exchange: Exchange,
    expected: Seq<char>,
    failure: ClientError,
)
    requires
        exchange.fails_as(expected, failure),
    ensures
        exchange matches Exchange::NotRead(error) ==> failure == ClientError::Disconnected(error),
        exchange matches Exchange::Answered(Response::Error(error)) ==> failure
            == ClientError::Refused(error),
        exchange matches Exchange::NotWritten(error) ==> failure is Refused || failure
            is Disconnected,
        exchange matches Exchange::Answered(response) ==> (!(response is Error) ==> (failure
            matches ClientError::Unexpected { expected: wanted, actual } && wanted@ == expected
            && actual@ == response.kind_text())),
{
}

/// A failure names every value it carries, each in its own place.
pub proof fn a_failure_names_what_it_carries(failure: ClientError)
    ensures
        match failure {
            ClientError::Unreachable { path, source } => crate::text::tells(
                failure.text(),
                seq![path@, source@],
            ),
            ClientError::Disconnected(error) => crate::text::tells(
                failure.text(),
                seq![error.text()],
            ),
            ClientError::Refused(error) => crate::text::tells(
                failure.text(),
                seq![error.text()],
            ),
            ClientError::Unexpected { expected, actual } => crate::text::tells(
                failure.text(),
                seq![actual@, expected@],
            ),
        },
{
    match failure {
        ClientError::Unreachable { path, source } => {
            let rest = Seq::<char>::empty();
            let parts = Seq::<Seq<char>>::empty();
            crate::text::lemma_tells(": "@, source@, rest, parts);
            let rest = ": "@ + source@ + rest;
            let parts = seq![source@] + parts;
            crate::text::lemma_tells("the daemon is not running, or its socket is not reachable at "@, path@, rest, parts);
            let rest = "the daemon is not running, or its socket is not reachable at "@ + path@ + rest;
            let parts = seq![path@] + parts;
            assert(failure.text() =~= rest);
            assert(parts =~= seq![path@, source@]);
        },
        ClientError::Disconnected(error) => {
            let rest = Seq::<char>::empty();
            let parts = Seq::<Seq<char>>::empty();
            crate::text::lemma_tells("the connection to the daemon was lost: "@, error.text(), rest, parts);
            let rest = "the connection to the daemon was lost: "@ + error.text() + rest;
            let parts = seq![error.text()] + parts;
            assert(failure.text() =~= rest);
            assert(parts =~= seq![error.text()]);
        },
        ClientError::Refused(error) => {
            let rest = Seq::<char>::empty();
            let parts = Seq::<Seq<char>>::empty();
            crate::text::lemma_tells(Seq::<char>::empty(), error.text(), rest, parts);
            let rest = Seq::<char>::empty() + error.text() + rest;
            let parts = seq![error.text()] + parts;
            assert(failure.text() =~= rest);
            assert(parts =~= seq![error.text()]);
        },
        ClientError::Unexpected { expected, actual } => {
            let rest = " was expected"@;
            let parts = Seq::<Seq<char>>::empty();
            crate::text::lemma_tells(" where "@, expected@, rest, parts);
            let rest = " where "@ + expected@ + rest;
            let parts = seq![expected@] + parts;
            crate::text::lemma_tells("the daemon answered "@, actual@, rest, parts);
            let rest = "the daemon answered "@ + actual@ + rest;
            let parts = seq![actual@] + parts;
            assert(failure.text() =~= rest);
            assert(parts =~= seq![actual@, expected@]);
        },
    }
}

} // verus!
