//! Lifecycle states of a snapshot and the edges between them.

use vstd::prelude::*;

verus! {

/// Which end of a transfer an entry belongs to.
#[derive(Clone, Copy, Debug, PartialEq, Eq, Structural)]
pub enum Role {
    /// The node that generates the snapshot and sends it.
    Sender,
    /// The node that receives the snapshot and applies it.
    Receiver,
}

/// Lifecycle tag of a snapshot.
///
/// On the sending node a snapshot moves through
/// `Generating -> Generated -> Sending -> Sent | SendFailed`; on the target it
/// moves through `Receiving -> Received -> Applying -> Applied | ApplyFailed`.
#[derive(Clone, Copy, Debug, PartialEq, Eq, Structural)]
pub enum SnapshotState {
    Generating,
    Generated,
    Sending,
    Sent,
    SendFailed,
    Receiving,
    Received,
    Applying,
    Applied,
    ApplyFailed,
}

impl SnapshotState {
    /// The end of the transfer on which this state occurs.
    pub open spec fn spec_role(self) -> Role {
        match self {
            SnapshotState::Generating
            | SnapshotState::Generated
            | SnapshotState::Sending
            | SnapshotState::Sent
            | SnapshotState::SendFailed => Role::Sender,
            _ => Role::Receiver,
        }
    }

    /// A state that no further step of the same attempt leaves.
    pub open spec fn spec_is_terminal(self) -> bool {
        self == SnapshotState::Sent || self == SnapshotState::SendFailed || self
            == SnapshotState::Applied || self == SnapshotState::ApplyFailed
    }

    /// How far a state lies along its half of the lifecycle.
    pub open spec fn spec_rank(self) -> nat {
        match self {
            SnapshotState::Generating | SnapshotState::Receiving => 0,
            SnapshotState::Generated | SnapshotState::Received => 1,
            SnapshotState::Sending | SnapshotState::Applying => 2,
            _ => 3,
        }
    }

    /// The single forward steps of the lifecycle.
    pub open spec fn spec_can_step_to(self, to: SnapshotState) -> bool {
        match (self, to) {
            (SnapshotState::Generating, SnapshotState::Generated) => true,
            (SnapshotState::Generated, SnapshotState::Sending) => true,
            (SnapshotState::Sending, SnapshotState::Sent) => true,
            (SnapshotState::Sending, SnapshotState::SendFailed) => true,
            (SnapshotState::Receiving, SnapshotState::Received) => true,
            (SnapshotState::Received, SnapshotState::Applying) => true,
            (SnapshotState::Applying, SnapshotState::Applied) => true,
            (SnapshotState::Applying, SnapshotState::ApplyFailed) => true,
            _ => false,
        }
    }

    #[verifier::when_used_as_spec(spec_role)]
    pub fn role(self) -> (r: Role)
        ensures
            r == self.spec_role(),
    {
        match self {
            SnapshotState::Generating
            | SnapshotState::Generated
            | SnapshotState::Sending
            | SnapshotState::Sent
            | SnapshotState::SendFailed => Role::Sender,
            _ => Role::Receiver,
        }
    }

    #[verifier::when_used_as_spec(spec_is_terminal)]
    pub fn is_terminal(self) -> (b: bool)
        ensures
            b == self.spec_is_terminal(),
    {
        match self {
            SnapshotState::Sent
            | SnapshotState::SendFailed
            | SnapshotState::Applied
            | SnapshotState::ApplyFailed => true,
            _ => false,
        }
    }

    /// Whether the lifecycle has an edge from `self` to `to`.
    #[verifier::when_used_as_spec(spec_can_step_to)]
    pub fn can_step_to(self, to: SnapshotState) -> (b: bool)
        ensures
            b == self.spec_can_step_to(to),
    {
        match (self, to) {
            (SnapshotState::Generating, SnapshotState::Generated) => true,
            (SnapshotState::Generated, SnapshotState::Sending) => true,
            (SnapshotState::Sending, SnapshotState::Sent) => true,
            (SnapshotState::Sending, SnapshotState::SendFailed) => true,
            (SnapshotState::Receiving, SnapshotState::Received) => true,
            (SnapshotState::Received, SnapshotState::Applying) => true,
            (SnapshotState::Applying, SnapshotState::Applied) => true,
            (SnapshotState::Applying, SnapshotState::ApplyFailed) => true,
            _ => false,
        }
    }
}

/// A snapshot moves through its half of the lifecycle in one direction
/// only: every edge stays on one end of the transfer, moves strictly
/// forward, and leaves no terminal state.
pub proof fn law_steps_are_monotone(from: SnapshotState, to: SnapshotState)
    requires
        from.spec_can_step_to(to),
    ensures
        from.spec_role() == to.spec_role(),
        from.spec_rank() < to.spec_rank(),
        !from.spec_is_terminal(),
{
}

} // verus!
