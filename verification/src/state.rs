//! Connection lifecycle state machine and observer contract.
//!
//! The SSH/SFTP handshake is a pipeline with no loops:
//!
//! ```text
//! Idle -> TcpConnecting -> VersionExchange -> KeyExchange
//!   -> Encrypted -> Authenticating -> Authenticated
//!   -> ChannelOpening -> SftpReady -> Disconnecting -> Disconnected
//! ```
//!
//! From any state a transition into `Disconnecting` or `Error` is allowed.
//! `can_transition_to` is the single source of truth for this relation.

use vstd::prelude::*;

verus! {

/// One phase of the connection lifecycle. `Error` records the state that
/// was current at the moment of failure together with a diagnostic message.
#[derive(Debug)]
pub enum ConnectionState {
    Idle,
    TcpConnecting,
    VersionExchange,
    KeyExchange,
    Encrypted,
    Authenticating,
    Authenticated,
    ChannelOpening,
    SftpReady,
    Disconnecting,
    Disconnected,
    Error { state: Box<ConnectionState>, message: String },
}

impl ConnectionState {
    /// The legal-transition relation: the handshake pipeline in order, plus
    /// `any -> Disconnecting` and `any -> Error`.
    pub open spec fn spec_can_transition_to(self, next: ConnectionState) -> bool {
        ||| (self is Idle && next is TcpConnecting)
        ||| (self is TcpConnecting && next is VersionExchange)
        ||| (self is VersionExchange && next is KeyExchange)
        ||| (self is KeyExchange && next is Encrypted)
        ||| (self is Encrypted && next is Authenticating)
        ||| (self is Authenticating && next is Authenticated)
        ||| (self is Authenticated && next is ChannelOpening)
        ||| (self is ChannelOpening && next is SftpReady)
        ||| next is Disconnecting
        ||| (self is Disconnecting && next is Disconnected)
        ||| next is Error
    }

    /// Decides whether `next` is a legal successor of `self`.
    pub fn can_transition_to(&self, next: &ConnectionState) -> (r: bool)
        ensures
            r == self.spec_can_transition_to(*next),
    {
        matches!(
            (self, next),
            (ConnectionState::Idle, ConnectionState::TcpConnecting)
            | (ConnectionState::TcpConnecting, ConnectionState::VersionExchange)
            | (ConnectionState::VersionExchange, ConnectionState::KeyExchange)
            | (ConnectionState::KeyExchange, ConnectionState::Encrypted)
            | (ConnectionState::Encrypted, ConnectionState::Authenticating)
            | (ConnectionState::Authenticating, ConnectionState::Authenticated)
            | (ConnectionState::Authenticated, ConnectionState::ChannelOpening)
            | (ConnectionState::ChannelOpening, ConnectionState::SftpReady)
            | (_, ConnectionState::Disconnecting)
            | (ConnectionState::Disconnecting, ConnectionState::Disconnected)
            | (_, ConnectionState::Error { .. })
        )
    }
}

impl Clone for ConnectionState {
    fn clone(&self) -> (r: Self)
        ensures
            r == *self,
        decreases *self,
    {
        match self {
            ConnectionState::Idle => ConnectionState::Idle,
            ConnectionState::TcpConnecting => ConnectionState::TcpConnecting,
            ConnectionState::VersionExchange => ConnectionState::VersionExchange,
            ConnectionState::KeyExchange => ConnectionState::KeyExchange,
            ConnectionState::Encrypted => ConnectionState::Encrypted,
            ConnectionState::Authenticating => ConnectionState::Authenticating,
            ConnectionState::Authenticated => ConnectionState::Authenticated,
            ConnectionState::ChannelOpening => ConnectionState::ChannelOpening,
            ConnectionState::SftpReady => ConnectionState::SftpReady,
            ConnectionState::Disconnecting => ConnectionState::Disconnecting,
            ConnectionState::Disconnected => ConnectionState::Disconnected,
            ConnectionState::Error { state, message } => ConnectionState::Error {
                state: Box::new((&**state).clone()),
                message: message.clone(),
            },
        }
    }
}

/// Notification sink invoked synchronously once per accepted transition,
/// after the state has been updated. Delivery order equals transition order.
///
/// The precondition records that every delivered pair is a legal transition:
/// an implementation may assume it, and the session proves it at every call.
pub trait ConnectionObserver: Send + Sync {
    fn on_state_changed(&self, prev: &ConnectionState, next: &ConnectionState)
        requires
            prev.spec_can_transition_to(*next),
    ;
}

} // verus!
