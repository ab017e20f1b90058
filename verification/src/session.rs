//! Session orchestration state: holds the lifecycle state machine and the
//! observer, validates every transition, and records the notification
//! history.
//!
//! The network side of the handshake (TCP connect, key exchange,
//! authentication, channel and subsystem requests) suspends between steps
//! and is driven by the surrounding application; between the steps it calls
//! [`SftpSession::transition`] and [`SftpSession::transition_to_error`],
//! which are the only ways the state ever changes.

use vstd::prelude::*;
use crate::error::Error;
use crate::state::{ConnectionObserver, ConnectionState};

verus! {

/// Every pair of `log` is a legal transition.
pub open spec fn all_transitions_legal(log: Seq<(ConnectionState, ConnectionState)>) -> bool {
    forall|i: int|
        0 <= i < log.len() ==> (#[trigger] log[i]).0.spec_can_transition_to(log[i].1)
}

/// Lifecycle state machine plus observer. The observer is the notification
/// sink the session was built with; it is told of every accepted
/// transition, in order, after the state is updated.
pub struct SftpSession {
    state: ConnectionState,
    observer: Box<dyn ConnectionObserver>,
    notified: Ghost<Seq<(ConnectionState, ConnectionState)>>,
}

impl SftpSession {
    /// The current lifecycle state.
    pub closed spec fn spec_state(&self) -> ConnectionState {
        self.state
    }

    /// Every `(prev, next)` pair the observer has been notified of, in
    /// delivery order.
    pub closed spec fn notifications(&self) -> Seq<(ConnectionState, ConnectionState)> {
        self.notified@
    }

    #[verifier::type_invariant]
    spec fn inv(&self) -> bool {
        all_transitions_legal(self.notified@)
    }

    pub fn new(observer: Box<dyn ConnectionObserver>) -> (s: Self)
        ensures
            s.spec_state() is Idle,
            s.notifications() == Seq::<(ConnectionState, ConnectionState)>::empty(),
    {
        SftpSession {
            state: ConnectionState::Idle,
            observer,
            notified: Ghost(Seq::empty()),
        }
    }

    pub fn state(&self) -> (r: &ConnectionState)
        ensures
            *r == self.spec_state(),
    {
        &self.state
    }

    /// Advances to `next` if the move is legal, notifying the observer after
    /// the update; a rejected move leaves the session untouched — no state
    /// change, no notification — and reports the offending pair.
    pub fn transition(&mut self, next: ConnectionState) -> (r: Result<(), Error>)
        ensures
            all_transitions_legal(final(self).notifications()),
            old(self).spec_state().spec_can_transition_to(next) ==> {
                &&& r is Ok
                &&& final(self).spec_state() == next
                &&& final(self).notifications() == old(self).notifications().push(
                    (old(self).spec_state(), next),
                )
            },
            !old(self).spec_state().spec_can_transition_to(next) ==> {
                &&& r matches Err(Error::InvalidTransition { from, to })
                    && from == old(self).spec_state() && to == next
                &&& final(self).spec_state() == old(self).spec_state()
                &&& final(self).notifications() == old(self).notifications()
            },
    {
        proof {
            use_type_invariant(&*self);
        }
        if !self.state.can_transition_to(&next) {
            return Err(Error::InvalidTransition { from: self.state.clone(), to: next });
        }
        let mut prev = next;
        core::mem::swap(&mut self.state, &mut prev);
        proof {
            lemma_legal_log_push(self.notified@, (prev, self.state));
        }
        self.notified = Ghost(self.notified@.push((prev, self.state)));
        self.observer.on_state_changed(&prev, &self.state);
        Ok(())
    }

    /// Captures the current state into `Error { prior, message }` and moves
    /// there; legal from every state, so it never fails and always notifies.
    pub fn transition_to_error(&mut self, message: String)
        ensures
            all_transitions_legal(final(self).notifications()),
            final(self).spec_state() matches ConnectionState::Error { state, message: m }
                && *state == old(self).spec_state() && m == message,
            final(self).notifications() == old(self).notifications().push(
                (old(self).spec_state(), final(self).spec_state()),
            ),
    {
        proof {
            use_type_invariant(&*self);
        }
        let prior = self.state.clone();
        let mut prev = ConnectionState::Error { state: Box::new(prior), message };
        core::mem::swap(&mut self.state, &mut prev);
        proof {
            lemma_legal_log_push(self.notified@, (prev, self.state));
        }
        self.notified = Ghost(self.notified@.push((prev, self.state)));
        self.observer.on_state_changed(&prev, &self.state);
    }
}

/// Appending one more legal pair keeps the whole log legal.
proof fn lemma_legal_log_push(
    log: Seq<(ConnectionState, ConnectionState)>,
    pair: (ConnectionState, ConnectionState),
)
    requires
        all_transitions_legal(log),
        pair.0.spec_can_transition_to(pair.1),
    ensures
        all_transitions_legal(log.push(pair)),
{
    let log2 = log.push(pair);
    assert forall|i: int|
        0 <= i < log2.len() implies (#[trigger] log2[i]).0.spec_can_transition_to(
        log2[i].1,
    ) by {
        if i < log.len() {
            assert(log2[i] == log[i]);
        } else {
            assert(log2[i] == pair);
        }
    }
}

} // verus!
