//! Sending of a generated snapshot, as a task that the caller drives.
//!
//! The caller owns the transport. The task holds the snapshot while it is
//! being sent, counts the attempts, watches the deadline, and lets go of the
//! snapshot when the sending ends, however it ends. It never deletes a file:
//! that is left to garbage collection.

use vstd::prelude::*;
use crate::snap::error::SnapError;
use crate::snap::fault::{FaultAction, FaultPolicy, Hook};
use crate::snap::key::SnapKey;
use crate::snap::registry::{Entry, Registry, RegistryView};
use crate::snap::registry_laws::lemma_with_entry_wf;
use crate::snap::state::SnapshotState;

verus! {

/// What the transport reports of a transfer.
#[derive(Clone, Copy, Debug, PartialEq, Eq, Structural)]
pub enum SendEvent {
    /// The target has the whole snapshot.
    Delivered,
    /// The connection failed, or the target is busy.
    TransportError,
    /// Time passed and nothing else happened.
    Tick,
}

/// What the caller is to do next.
#[derive(Clone, Copy, Debug, PartialEq, Eq, Structural)]
pub enum SendStep {
    /// Open a stream and transmit the files, after waiting `delay`.
    Transmit { delay: u64 },
    /// Keep the transfer running.
    Continue,
    /// The snapshot was sent: report success.
    Succeed,
    /// Abort the stream and report the failure.
    GiveUp { error: SnapError },
    /// The task is over; nothing to do.
    Idle,
}

/// Where a sending stands.
#[derive(Clone, Copy, Debug, PartialEq, Eq, Structural)]
pub enum SendPhase {
    Sending,
    Sent,
    Failed,
}

/// The mathematical content of a sending.
pub struct SendTaskView {
    pub key: SnapKey,
    /// The time after which the transfer counts as timed out.
    pub deadline: u64,
    /// How many more times a failed transfer is tried again.
    pub retries_left: u32,
    pub phase: SendPhase,
}

/// A snapshot on its way out.
pub struct SendTask {
    key: SnapKey,
    deadline: u64,
    retries_left: u32,
    phase: SendPhase,
}

impl View for SendTask {
    type V = SendTaskView;

    closed spec fn view(&self) -> SendTaskView {
        SendTaskView {
            key: self.key,
            deadline: self.deadline,
            retries_left: self.retries_left,
            phase: self.phase,
        }
    }
}

/// The registry after a sending of `key` ended in state `end`: the entry
/// is in that state and the sender no longer holds it.
pub open spec fn after_exit(r: RegistryView, key: SnapKey, end: SnapshotState, now: u64) -> RegistryView {
    r.after_transition(key, SnapshotState::Sending, end, now).after_release(key, now)
}

/// The registry after a sending of `key` started: the sender holds the
/// entry, and the entry is `Sending`.
pub open spec fn after_start(r: RegistryView, key: SnapKey, now: u64) -> RegistryView {
    r.after_acquire(key, now).after_transition(
        key,
        SnapshotState::Generated,
        SnapshotState::Sending,
        now,
    )
}

/// How a sending of `key` starts: only a generated snapshot that can take
/// one more holder is sent.
pub open spec fn start_outcome(r: RegistryView, key: SnapKey) -> Result<(), SnapError> {
    match r.transition_outcome(key, SnapshotState::Generated, SnapshotState::Sending) {
        Ok(()) => r.acquire_outcome(key),
        Err(e) => Err(e),
    }
}

/// The error with which a sending that has started ends at once, if it
/// does: the policy fails it, or the deadline is already behind.
pub open spec fn early_failure(fault: FaultAction, deadline: u64, now: u64) -> Option<SnapError> {
    if fault == FaultAction::Fail {
        Some(SnapError::SendFailed)
    } else if now > deadline {
        Some(SnapError::SendTimeout)
    } else {
        None
    }
}

impl SendTaskView {
    /// What follows from `event` at time `now`.
    ///
    /// Past the deadline the sending has timed out, whatever the event. A
    /// delivery ends it well. A transport error is answered by another
    /// attempt while retries are left, and ends the sending when none is.
    pub open spec fn react(self, event: SendEvent, now: u64) -> (SendTaskView, SendStep) {
        if self.phase != SendPhase::Sending {
            (self, SendStep::Idle)
        } else if now > self.deadline {
            (
                SendTaskView { phase: SendPhase::Failed, ..self },
                SendStep::GiveUp { error: SnapError::SendTimeout },
            )
        } else {
            match event {
                SendEvent::Delivered => (
                    SendTaskView { phase: SendPhase::Sent, ..self },
                    SendStep::Succeed,
                ),
                SendEvent::TransportError => if self.retries_left > 0 {
                    (
                        SendTaskView { retries_left: (self.retries_left - 1) as u32, ..self },
                        SendStep::Transmit { delay: 0 },
                    )
                } else {
                    (
                        SendTaskView { phase: SendPhase::Failed, ..self },
                        SendStep::GiveUp { error: SnapError::SendFailed },
                    )
                },
                SendEvent::Tick => (self, SendStep::Continue),
            }
        }
    }
}

/// The registry after the sender of `key` acted on `step`.
pub open spec fn after_step(r: RegistryView, key: SnapKey, step: SendStep, now: u64) -> RegistryView {
    match step {
        SendStep::Succeed => after_exit(r, key, SnapshotState::Sent, now),
        SendStep::GiveUp { .. } => after_exit(r, key, SnapshotState::SendFailed, now),
        _ => r,
    }
}

impl SendTask {
    /// Starts the sending of the generated snapshot `key`, to be over by
    /// `deadline`, with `retries` further attempts after a transport error.
    ///
    /// The sender becomes a holder of the entry and the entry moves from
    /// `Generated` to `Sending`. If the policy fails the sending, or the
    /// deadline is already behind, the sending ends at once: the entry is
    /// `SendFailed`, the sender has let go of it, and the step says why.
    pub fn start(
        registry: &mut Registry,
        key: SnapKey,
        deadline: u64,
        retries: u32,
        policy: FaultPolicy,
        now: u64,
    ) -> (res: Result<(SendTask, SendStep), SnapError>)
        ensures
            final(registry)@.wf(),
            match start_outcome(old(registry)@, key) {
                Ok(()) => {
                    &&& res matches Ok((task, step))
                    &&& match early_failure(policy.spec_at(Hook::BeforeSend), deadline, now) {
                        Some(error) => {
                            &&& step == (SendStep::GiveUp { error })
                            &&& task@ == (SendTaskView {
                                key,
                                deadline,
                                retries_left: retries,
                                phase: SendPhase::Failed,
                            })
                            &&& final(registry)@ == after_exit(
                                after_start(old(registry)@, key, now),
                                key,
                                SnapshotState::SendFailed,
                                now,
                            )
                        },
                        None => {
                            &&& step == (SendStep::Transmit {
                                delay: policy.spec_at(Hook::BeforeSend).spec_delay(),
                            })
                            &&& task@ == (SendTaskView {
                                key,
                                deadline,
                                retries_left: retries,
                                phase: SendPhase::Sending,
                            })
                            &&& final(registry)@ == after_start(old(registry)@, key, now)
                        },
                    }
                },
                Err(e) => res matches Err(got) && got == e && final(registry)@ == old(registry)@,
            },
    {
        registry.check();
        match registry.get(key) {
            Some(e) => {
                if e.state != SnapshotState::Generated {
                    return Err(SnapError::InvalidTransition);
                }
            },
            None => {
                return Err(SnapError::InvalidTransition);
            },
        }
        match registry.acquire(key, now) {
            Ok(()) => {},
            Err(e) => {
                return Err(e);
            },
        }
        let moved = registry.transition(
            key,
            SnapshotState::Generated,
            SnapshotState::Sending,
            now,
        );
        assert(moved is Ok) by {
            let e = old(registry)@.get(key)->0;
            lemma_with_entry_wf(
                old(registry)@,
                Entry { ref_count: (e.ref_count + 1) as u64, touched: now, ..e },
            );
        }
        let mut task = SendTask { key, deadline, retries_left: retries, phase: SendPhase::Sending };
        let fault = policy.at(Hook::BeforeSend);
        if fault == FaultAction::Fail {
            task.exit(registry, SnapshotState::SendFailed, now);
            task.phase = SendPhase::Failed;
            Ok((task, SendStep::GiveUp { error: SnapError::SendFailed }))
        } else if now > deadline {
            task.exit(registry, SnapshotState::SendFailed, now);
            task.phase = SendPhase::Failed;
            Ok((task, SendStep::GiveUp { error: SnapError::SendTimeout }))
        } else {
            Ok((task, SendStep::Transmit { delay: fault.delay() }))
        }
    }

    fn exit(&self, registry: &mut Registry, end: SnapshotState, now: u64)
        ensures
            final(registry)@ == after_exit(old(registry)@, self@.key, end, now),
            final(registry)@.wf(),
    {
        let _ = registry.transition(self.key, SnapshotState::Sending, end, now);
        let _ = registry.release(self.key, now);
    }

    pub fn key(&self) -> (key: SnapKey)
        ensures
            key == self@.key,
    {
        self.key
    }

    pub fn phase(&self) -> (phase: SendPhase)
        ensures
            phase == self@.phase,
    {
        self.phase
    }

    pub fn retries_left(&self) -> (n: u32)
        ensures
            n == self@.retries_left,
    {
        self.retries_left
    }

    pub fn deadline(&self) -> (t: u64)
        ensures
            t == self@.deadline,
    {
        self.deadline
    }

    /// Takes an event of the transport at time `now` and decides what
    /// follows. Whenever the sending ends here, well or not, the entry is
    /// moved to its final state and the sender lets go of it.
    pub fn on_event(&mut self, registry: &mut Registry, event: SendEvent, now: u64) -> (step:
        SendStep)
        ensures
            (final(self)@, step) == old(self)@.react(event, now),
            final(registry)@ == after_step(old(registry)@, old(self)@.key, step, now),
            final(registry)@.wf(),
    {
        registry.check();
        if self.phase != SendPhase::Sending {
            return SendStep::Idle;
        }
        if now > self.deadline {
            self.exit(registry, SnapshotState::SendFailed, now);
            self.phase = SendPhase::Failed;
            return SendStep::GiveUp { error: SnapError::SendTimeout };
        }
        match event {
            SendEvent::Delivered => {
                self.exit(registry, SnapshotState::Sent, now);
                self.phase = SendPhase::Sent;
                SendStep::Succeed
            },
            SendEvent::TransportError => {
                if self.retries_left > 0 {
                    self.retries_left = self.retries_left - 1;
                    SendStep::Transmit { delay: 0 }
                } else {
                    self.exit(registry, SnapshotState::SendFailed, now);
                    self.phase = SendPhase::Failed;
                    SendStep::GiveUp { error: SnapError::SendFailed }
                }
            },
            SendEvent::Tick => SendStep::Continue,
        }
    }
}

/// A sending that starts and then ends, well or not, leaves the entry with
/// as many holders as it had before the sending: the sender always lets go
/// of what it took. The entry is then in the final state of the sending.
pub proof fn law_sender_releases(r: RegistryView, key: SnapKey, end: SnapshotState, t0: u64, t1: u64)
    requires
        r.wf(),
        start_outcome(r, key) is Ok,
        end == SnapshotState::Sent || end == SnapshotState::SendFailed,
    ensures
        after_exit(after_start(r, key, t0), key, end, t1).wf(),
        after_exit(after_start(r, key, t0), key, end, t1).get(key) == Some(
            Entry { state: end, touched: t1, ..r.get(key)->0 },
        ),
{
    let e = r.get(key)->0;
    let held = Entry { ref_count: (e.ref_count + 1) as u64, touched: t0, ..e };
    lemma_with_entry_wf(r, held);
    let r1 = r.after_acquire(key, t0);
    assert(r1 == r.with_entry(held));
    let sending = Entry { state: SnapshotState::Sending, ..held };
    lemma_with_entry_wf(r1, sending);
    let r2 = after_start(r, key, t0);
    assert(r2 == r1.with_entry(sending));
    let ended = Entry { state: end, touched: t1, ..sending };
    lemma_with_entry_wf(r2, ended);
    let r3 = r2.after_transition(key, SnapshotState::Sending, end, t1);
    assert(r3 == r2.with_entry(ended));
    lemma_with_entry_wf(r3, Entry { ref_count: e.ref_count, ..ended });
}

/// The attempts of a sending are bounded: every transport error that is
/// answered by another attempt uses up one retry, and with none left the
/// sending ends.
pub proof fn law_retries_are_bounded(t: SendTaskView, now: u64)
    requires
        t.phase == SendPhase::Sending,
        now <= t.deadline,
    ensures
        t.retries_left > 0 ==> t.react(SendEvent::TransportError, now).0.retries_left + 1
            == t.retries_left,
        t.retries_left == 0 ==> t.react(SendEvent::TransportError, now).1 == (SendStep::GiveUp {
            error: SnapError::SendFailed,
        }),
{
}

} // verus!
