//! Error kinds reported by the session and the transfer engine.
//!
//! Errors are returned as values; expected failures never panic. `Io` wraps
//! the operating system's error, `InvalidTransition` reports state-machine
//! misuse, `Protocol` covers SSH transport and SFTP request failures, `Auth`
//! covers rejected or unsupported credentials, and `Sftp` is reserved for
//! higher-level SFTP semantic errors.

use vstd::prelude::*;
use vstd::string::*;
use crate::state::ConnectionState;

verus! {

/// Declares `std::io::Error` so it can be carried opaquely inside [`Error`].
#[verifier::external_type_specification]
#[verifier::external_body]
pub struct ExIoError(std::io::Error);

#[derive(Debug)]
pub enum Error {
    Io(std::io::Error),
    InvalidTransition { from: ConnectionState, to: ConnectionState },
    Protocol(String),
    Auth(String),
    Sftp(String),
}

/// Relies on the `Display` impl of `std::io::Error` to render the OS error
/// as text; nothing is assumed about the message itself.
#[verifier::external_body]
fn io_error_message(e: &std::io::Error) -> (r: String) {
    e.to_string()
}

impl Error {
    /// The constant head of the message text of each kind.
    pub open spec fn spec_message_prefix(self) -> Seq<char> {
        match self {
            Error::Io(_) => "IO error: "@,
            Error::InvalidTransition { .. } => "Invalid state transition: "@,
            Error::Protocol(_) => "Protocol error: "@,
            Error::Auth(_) => "Auth failed: "@,
            Error::Sftp(_) => "SFTP error: "@,
        }
    }

    /// One error line for display. The text opens with the kind's fixed
    /// prefix; the carried text follows it, except for `Io`, whose OS text
    /// is opaque here.
    pub fn message(&self) -> (r: String)
        ensures
            r@.len() >= self.spec_message_prefix().len(),
            r@.subrange(0, self.spec_message_prefix().len() as int) == self.spec_message_prefix(),
            self matches Error::InvalidTransition { from, to } ==> r@ == self.spec_message_prefix()
                + from.spec_name() + " -> "@ + to.spec_name(),
            self matches Error::Protocol(s) ==> r@ == self.spec_message_prefix() + s@,
            self matches Error::Auth(s) ==> r@ == self.spec_message_prefix() + s@,
            self matches Error::Sftp(s) ==> r@ == self.spec_message_prefix() + s@,
    {
        let r = match self {
            Error::Io(e) => {
                let m = io_error_message(e);
                String::from_str("IO error: ").concat(m.as_str())
            },
            Error::InvalidTransition { from, to } => {
                let mut s = String::from_str("Invalid state transition: ");
                s.append(from.name());
                s.append(" -> ");
                s.append(to.name());
                proof {
                    assert(s@ =~= "Invalid state transition: "@ + from.spec_name() + " -> "@
                        + to.spec_name());
                }
                s
            },
            Error::Protocol(m) => String::from_str("Protocol error: ").concat(m.as_str()),
            Error::Auth(m) => String::from_str("Auth failed: ").concat(m.as_str()),
            Error::Sftp(m) => String::from_str("SFTP error: ").concat(m.as_str()),
        };
        proof {
            assert(r@.subrange(0, self.spec_message_prefix().len() as int)
                =~= self.spec_message_prefix());
        }
        r
    }
}

impl ConnectionState {
    /// The bare name of the lifecycle phase, for diagnostics.
    pub open spec fn spec_name(self) -> Seq<char> {
        match self {
            ConnectionState::Idle => "Idle"@,
            ConnectionState::TcpConnecting => "TcpConnecting"@,
            ConnectionState::VersionExchange => "VersionExchange"@,
            ConnectionState::KeyExchange => "KeyExchange"@,
            ConnectionState::Encrypted => "Encrypted"@,
            ConnectionState::Authenticating => "Authenticating"@,
            ConnectionState::Authenticated => "Authenticated"@,
            ConnectionState::ChannelOpening => "ChannelOpening"@,
            ConnectionState::SftpReady => "SftpReady"@,
            ConnectionState::Disconnecting => "Disconnecting"@,
            ConnectionState::Disconnected => "Disconnected"@,
            ConnectionState::Error { .. } => "Error"@,
        }
    }

    pub fn name(&self) -> (r: &'static str)
        ensures
            r@ == self.spec_name(),
    {
        match self {
            ConnectionState::Idle => "Idle",
            ConnectionState::TcpConnecting => "TcpConnecting",
            ConnectionState::VersionExchange => "VersionExchange",
            ConnectionState::KeyExchange => "KeyExchange",
            ConnectionState::Encrypted => "Encrypted",
            ConnectionState::Authenticating => "Authenticating",
            ConnectionState::Authenticated => "Authenticated",
            ConnectionState::ChannelOpening => "ChannelOpening",
            ConnectionState::SftpReady => "SftpReady",
            ConnectionState::Disconnecting => "Disconnecting",
            ConnectionState::Disconnected => "Disconnected",
            ConnectionState::Error { .. } => "Error",
        }
    }
}

impl From<std::io::Error> for Error {
    fn from(e: std::io::Error) -> (r: Self) {
        Error::Io(e)
    }
}

impl vstd::std_specs::convert::FromSpecImpl<std::io::Error> for Error {
    open spec fn obeys_from_spec() -> bool {
        true
    }

    open spec fn from_spec(e: std::io::Error) -> Self {
        Error::Io(e)
    }
}
} // verus!
