//! The phase tracker's values and the transitions allowed between them.

use crate::protocol::{BackendResponse, BackendResponseView};
use vstd::prelude::*;

verus! {

/// Coarse state of the greeter as the user interface sees it.
#[derive(Clone, Copy, Debug, PartialEq, Eq, Structural)]
pub enum Phase {
    Idle,
    Auth,
    Waiting,
    Success,
    Error,
}

impl Phase {
    /// The phase as it is written on the wire.
    pub open spec fn name(self) -> Seq<char> {
        match self {
            Phase::Idle => "idle"@,
            Phase::Auth => "auth"@,
            Phase::Waiting => "waiting"@,
            Phase::Success => "success"@,
            Phase::Error => "error"@,
        }
    }

    pub fn as_str(self) -> (s: &'static str)
        ensures
            s@ == self.name(),
    {
        match self {
            Phase::Idle => "idle",
            Phase::Auth => "auth",
            Phase::Waiting => "waiting",
            Phase::Success => "success",
            Phase::Error => "error",
        }
    }

    /// The transitions that are legal: `idle` to `auth`; `auth` to `waiting`,
    /// `error` or back to `idle`; `waiting` to `success` or `error`; `error`
    /// to `idle`. Nothing follows `success`.
    pub open spec fn may_become(self, next: Phase) -> bool {
        match (self, next) {
            (Phase::Idle, Phase::Auth) => true,
            (Phase::Auth, Phase::Waiting) => true,
            (Phase::Auth, Phase::Error) => true,
            (Phase::Auth, Phase::Idle) => true,
            (Phase::Waiting, Phase::Success) => true,
            (Phase::Waiting, Phase::Error) => true,
            (Phase::Error, Phase::Idle) => true,
            _ => false,
        }
    }

    /// Whether `next` may directly follow `self`.
    pub fn can_become(self, next: Phase) -> (b: bool)
        ensures
            b == self.may_become(next),
    {
        match (self, next) {
            (Phase::Idle, Phase::Auth) => true,
            (Phase::Auth, Phase::Waiting) => true,
            (Phase::Auth, Phase::Error) => true,
            (Phase::Auth, Phase::Idle) => true,
            (Phase::Waiting, Phase::Success) => true,
            (Phase::Waiting, Phase::Error) => true,
            (Phase::Error, Phase::Idle) => true,
            _ => false,
        }
    }

    /// How far a phase is into a conversation. Every legal transition but the
    /// return to `idle` goes to a higher rank.
    pub open spec fn rank(self) -> nat {
        match self {
            Phase::Idle => 0,
            Phase::Auth => 1,
            Phase::Waiting => 2,
            Phase::Error => 3,
            Phase::Success => 4,
        }
    }
}

/// Holds the current phase.
#[derive(Debug)]
pub struct PhaseTracker {
    current: Phase,
}

impl View for PhaseTracker {
    type V = Phase;

    closed spec fn view(&self) -> Phase {
        self.current
    }
}

impl PhaseTracker {
    /// A tracker in the initial phase, `idle`.
    pub fn new() -> (t: Self)
        ensures
            t@ == Phase::Idle,
    {
        PhaseTracker { current: Phase::Idle }
    }

    /// The current phase.
    pub fn get(&self) -> (phase: Phase)
        ensures
            phase == self@,
    {
        self.current
    }

    /// Stores the new phase and returns the response that announces it.
    pub fn set_phase(&mut self, phase: Phase) -> (said: BackendResponse)
        ensures
            final(self)@ == phase,
            said@ == (BackendResponseView::State { phase }),
    {
        self.current = phase;
        BackendResponse::State { phase }
    }
}

/// No legal transition goes backwards: each one either returns to `idle`,
/// which ends the conversation, or moves to a phase of higher rank. So the
/// phases of one conversation never repeat.
pub proof fn lemma_transitions_go_forward(from: Phase, to: Phase)
    requires
        from.may_become(to),
    ensures
        to == Phase::Idle || from.rank() < to.rank(),
        from != to,
        from != Phase::Success,
{
}

} // verus!
