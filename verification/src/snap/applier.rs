//! Application of a received snapshot, in two phases that a crash between
//! them cannot tear apart.
//!
//! Phase one loads the ranges into the storage engine, replacing each range
//! as a whole, so that doing it again changes nothing. Phase two records in
//! the log engine that the region is applied up to the snapshot's index and
//! truncates the log below it. The caller does the writes; what is written
//! next, after a start or after a restart, is decided here.

use vstd::prelude::*;
use crate::snap::error::SnapError;
use crate::snap::fault::{FaultAction, FaultPolicy, Hook};
use crate::snap::key::SnapKey;
use crate::snap::registry::{Entry, Registry, RegistryView};
use crate::snap::registry_laws::lemma_with_entry_wf;
use crate::snap::state::SnapshotState;

verus! {

/// What the storage engine holds of a region.
#[derive(Clone, Copy, Debug, PartialEq, Eq, Structural)]
pub enum RegionData {
    /// What the log up to this index produced.
    UpTo(u64),
    /// The ranges of a snapshot, some loaded and some not.
    Torn,
}

/// A peer as the applier sees it: its data and what its log engine records.
#[derive(Clone, Copy, Debug, PartialEq, Eq, Structural)]
pub struct PeerDisk {
    pub data: RegionData,
    pub applied_index: u64,
    pub truncated_index: u64,
}

/// What is read from the two engines before an apply goes on.
#[derive(Clone, Copy, Debug, PartialEq, Eq, Structural)]
pub struct Observed {
    /// The storage engine holds all ranges of the snapshot.
    pub ingested: bool,
    /// The applied index that the log engine records.
    pub applied_index: u64,
}

/// The write that comes next.
#[derive(Clone, Copy, Debug, PartialEq, Eq, Structural)]
pub enum ApplyStep {
    /// Load the ranges into the storage engine; then record.
    Ingest,
    /// Record `index` as applied and truncate the log below it, after
    /// waiting `delay`.
    Record { index: u64, delay: u64 },
    /// Nothing is left to write: the snapshot is applied.
    Finish,
    /// The apply failed; nothing more is written.
    Stop,
}

/// Where an apply stands.
#[derive(Clone, Copy, Debug, PartialEq, Eq, Structural)]
pub enum ApplyPhase {
    Ingesting,
    Recording,
    Applied,
    Failed,
}

impl PeerDisk {
    /// Phase one: every range is replaced by the snapshot's.
    pub open spec fn ingest(self, key: SnapKey) -> PeerDisk {
        PeerDisk { data: RegionData::UpTo(key.idx), ..self }
    }

    /// Phase one, cut short by a crash.
    pub open spec fn ingest_torn(self) -> PeerDisk {
        PeerDisk { data: RegionData::Torn, ..self }
    }

    /// Phase two: the log engine records the snapshot's index and drops
    /// what lies below.
    pub open spec fn record(self, key: SnapKey) -> PeerDisk {
        PeerDisk { applied_index: key.idx, truncated_index: key.idx, ..self }
    }

    /// The whole apply, undisturbed.
    pub open spec fn apply(self, key: SnapKey) -> PeerDisk {
        self.ingest(key).record(key)
    }

    /// What a restart reads from the two engines.
    pub open spec fn observe(self, key: SnapKey) -> Observed {
        Observed {
            ingested: self.data == RegionData::UpTo(key.idx),
            applied_index: self.applied_index,
        }
    }

    /// The disk after the writes that `step` stands for are done.
    pub open spec fn run(self, key: SnapKey, step: ApplyStep) -> PeerDisk {
        match step {
            ApplyStep::Ingest => self.ingest(key).record(key),
            ApplyStep::Record { .. } => self.record(key),
            _ => self,
        }
    }

    /// The states in which a crash during the apply of `key` can leave a
    /// disk that stood at `self`.
    pub open spec fn may_crash_into(self, key: SnapKey, crashed: PeerDisk) -> bool {
        ||| crashed == self
        ||| crashed == self.ingest_torn()
        ||| crashed == self.ingest(key)
        ||| crashed == self.apply(key)
    }
}

/// What is written first when the apply of `key` goes on from what was
/// observed: nothing if the log engine already records the snapshot, phase
/// two if only the storage engine holds it, both phases otherwise.
pub open spec fn spec_recovery_step(key: SnapKey, seen: Observed) -> ApplyStep {
    if seen.applied_index >= key.idx {
        ApplyStep::Finish
    } else if seen.ingested {
        ApplyStep::Record { index: key.idx, delay: 0 }
    } else {
        ApplyStep::Ingest
    }
}

#[verifier::when_used_as_spec(spec_recovery_step)]
pub fn recovery_step(key: SnapKey, seen: Observed) -> (step: ApplyStep)
    ensures
        step == spec_recovery_step(key, seen),
{
    if seen.applied_index >= key.idx {
        ApplyStep::Finish
    } else if seen.ingested {
        ApplyStep::Record { index: key.idx, delay: 0 }
    } else {
        ApplyStep::Ingest
    }
}

/// Wherever a crash cuts the apply of a snapshot that is ahead of the log,
/// going on from what the restart observes ends in the same disk as the
/// undisturbed apply: the snapshot's data, its index applied, the log
/// truncated. No crash leaves a half-applied region behind.
pub proof fn law_recovery_completes_apply(disk: PeerDisk, key: SnapKey, crashed: PeerDisk)
    requires
        disk.applied_index < key.idx,
        disk.may_crash_into(key, crashed),
    ensures
        crashed.run(key, spec_recovery_step(key, crashed.observe(key))) == disk.apply(key),
{
}

/// Phase one can be done again without effect, and recovery done twice is
/// recovery done once.
pub proof fn law_apply_is_idempotent(disk: PeerDisk, key: SnapKey)
    ensures
        disk.ingest(key).ingest(key) == disk.ingest(key),
        disk.apply(key).apply(key) == disk.apply(key),
        spec_recovery_step(key, disk.apply(key).observe(key)) == ApplyStep::Finish,
{
}

/// The mathematical content of an apply.
pub struct ApplyTaskView {
    pub key: SnapKey,
    pub phase: ApplyPhase,
}

/// A snapshot being applied.
pub struct ApplyTask {
    key: SnapKey,
    phase: ApplyPhase,
}

impl View for ApplyTask {
    type V = ApplyTaskView;

    closed spec fn view(&self) -> ApplyTaskView {
        ApplyTaskView { key: self.key, phase: self.phase }
    }
}

/// How the apply of `key` starts: a stale snapshot is canceled, and only a
/// received one can be applied.
pub open spec fn start_outcome(r: RegistryView, key: SnapKey, truncated_index: u64) -> Result<
    (),
    SnapError,
> {
    if key.idx <= truncated_index {
        Err(SnapError::Canceled)
    } else {
        r.transition_outcome(key, SnapshotState::Received, SnapshotState::Applying)
    }
}

/// The phase in which an apply is after `step` was handed out.
pub open spec fn phase_of(step: ApplyStep) -> ApplyPhase {
    match step {
        ApplyStep::Ingest => ApplyPhase::Ingesting,
        ApplyStep::Record { .. } => ApplyPhase::Recording,
        ApplyStep::Finish => ApplyPhase::Applied,
        ApplyStep::Stop => ApplyPhase::Failed,
    }
}

/// The registry after an apply of `key` ended well: the entry is `Applied`
/// and the applier no longer holds it.
pub open spec fn after_success(r: RegistryView, key: SnapKey, now: u64) -> RegistryView {
    r.after_transition(key, SnapshotState::Applying, SnapshotState::Applied, now).after_release(
        key,
        now,
    )
}

/// The registry after an apply of `key` failed: the entry is `ApplyFailed`
/// and stays held.
pub open spec fn after_failure(r: RegistryView, key: SnapKey, now: u64) -> RegistryView {
    r.after_transition(key, SnapshotState::Applying, SnapshotState::ApplyFailed, now)
}

impl ApplyTask {
    /// Starts the apply of the received snapshot `key` on a region whose
    /// log is truncated up to `truncated_index`.
    ///
    /// A snapshot at or below the truncated index is stale and is never
    /// applied: its entry is canceled and the caller deletes its files and
    /// asks for a fresher snapshot. Otherwise the entry moves from
    /// `Received` to `Applying` and phase one is to be written.
    pub fn start(registry: &mut Registry, key: SnapKey, truncated_index: u64, now: u64) -> (res:
        Result<ApplyTask, SnapError>)
        ensures
            final(registry)@.wf(),
            match start_outcome(old(registry)@, key, truncated_index) {
                Ok(()) => res matches Ok(task) && task@ == (ApplyTaskView {
                    key,
                    phase: ApplyPhase::Ingesting,
                }) && final(registry)@ == old(registry)@.after_transition(
                    key,
                    SnapshotState::Received,
                    SnapshotState::Applying,
                    now,
                ),
                Err(e) => res matches Err(got) && got == e && final(registry)@ == if e
                    == SnapError::Canceled {
                    old(registry)@.without(key)
                } else {
                    old(registry)@
                },
            },
    {
        registry.check();
        if key.idx <= truncated_index {
            registry.cancel(key);
            return Err(SnapError::Canceled);
        }
        match registry.transition(key, SnapshotState::Received, SnapshotState::Applying, now) {
            Ok(()) => Ok(ApplyTask { key, phase: ApplyPhase::Ingesting }),
            Err(e) => Err(e),
        }
    }

    /// Takes up, after a restart, the apply of a snapshot that was being
    /// applied when the process stopped.
    ///
    /// The key is registered as `Applying`, held once. What was observed
    /// of the two engines decides whether both phases are written again,
    /// phase two only, or nothing; where nothing is left the entry becomes
    /// `Applied` and is released at once.
    pub fn recover(registry: &mut Registry, key: SnapKey, seen: Observed, now: u64) -> (res: Result<
        (ApplyTask, ApplyStep),
        SnapError,
    >)
        ensures
            final(registry)@.wf(),
            match old(registry)@.register_outcome(key, SnapshotState::Applying) {
                Ok(()) => {
                    &&& res matches Ok((task, step))
                    &&& step == spec_recovery_step(key, seen)
                    &&& task@ == (ApplyTaskView { key, phase: phase_of(step) })
                    &&& final(registry)@ == if step is Finish {
                        after_success(
                            old(registry)@.after_register(key, SnapshotState::Applying, now),
                            key,
                            now,
                        )
                    } else {
                        old(registry)@.after_register(key, SnapshotState::Applying, now)
                    }
                },
                Err(e) => res matches Err(got) && got == e && final(registry)@ == old(registry)@,
            },
    {
        registry.check();
        match registry.register(key, SnapshotState::Applying, now) {
            Ok(()) => {
                let step = recovery_step(key, seen);
                let mut task = ApplyTask { key, phase: ApplyPhase::Ingesting };
                match step {
                    ApplyStep::Ingest => {},
                    ApplyStep::Record { .. } => {
                        task.phase = ApplyPhase::Recording;
                    },
                    _ => {
                        task.succeed(registry, now);
                    },
                }
                Ok((task, step))
            },
            Err(e) => Err(e),
        }
    }

    fn succeed(&mut self, registry: &mut Registry, now: u64)
        ensures
            final(self)@ == (ApplyTaskView { phase: ApplyPhase::Applied, ..old(self)@ }),
            final(registry)@ == after_success(old(registry)@, old(self)@.key, now),
            final(registry)@.wf(),
    {
        let _ = registry.transition(
            self.key,
            SnapshotState::Applying,
            SnapshotState::Applied,
            now,
        );
        let _ = registry.release(self.key, now);
        self.phase = ApplyPhase::Applied;
    }

    fn fail(&mut self, registry: &mut Registry, now: u64)
        ensures
            final(self)@ == (ApplyTaskView { phase: ApplyPhase::Failed, ..old(self)@ }),
            final(registry)@ == after_failure(old(registry)@, old(self)@.key, now),
            final(registry)@.wf(),
    {
        let _ = registry.transition(
            self.key,
            SnapshotState::Applying,
            SnapshotState::ApplyFailed,
            now,
        );
        self.phase = ApplyPhase::Failed;
    }

    pub fn key(&self) -> (key: SnapKey)
        ensures
            key == self@.key,
    {
        self.key
    }

    pub fn phase(&self) -> (phase: ApplyPhase)
        ensures
            phase == self@.phase,
    {
        self.phase
    }

    /// Whether the region may serve requests: only once the snapshot is
    /// applied in both engines.
    pub fn may_serve(&self) -> (b: bool)
        ensures
            b == (self@.phase == ApplyPhase::Applied),
    {
        self.phase == ApplyPhase::Applied
    }

    /// Reports how phase one ended.
    ///
    /// After a good ingestion phase two is next, unless the policy fails
    /// it. A failed ingestion, or a failed hook, makes the entry
    /// `ApplyFailed`; the entry stays held. Outside phase one the call does
    /// nothing.
    pub fn ingested(&mut self, registry: &mut Registry, ok: bool, policy: FaultPolicy, now: u64) -> (step:
        ApplyStep)
        ensures
            final(registry)@.wf(),
            old(self)@.phase != ApplyPhase::Ingesting ==> step == ApplyStep::Stop && final(self)@
                == old(self)@ && final(registry)@ == old(registry)@,
            old(self)@.phase == ApplyPhase::Ingesting ==> if ok && policy.spec_at(
                Hook::BeforeApplyPhase2,
            ) != FaultAction::Fail {
                &&& step == (ApplyStep::Record {
                    index: old(self)@.key.idx,
                    delay: policy.spec_at(Hook::BeforeApplyPhase2).spec_delay(),
                })
                &&& final(self)@ == (ApplyTaskView { phase: ApplyPhase::Recording, ..old(self)@ })
                &&& final(registry)@ == old(registry)@
            } else {
                &&& step == ApplyStep::Stop
                &&& final(self)@ == (ApplyTaskView { phase: ApplyPhase::Failed, ..old(self)@ })
                &&& final(registry)@ == after_failure(old(registry)@, old(self)@.key, now)
            },
    {
        registry.check();
        if self.phase != ApplyPhase::Ingesting {
            return ApplyStep::Stop;
        }
        let fault = policy.at(Hook::BeforeApplyPhase2);
        if ok && fault != FaultAction::Fail {
            self.phase = ApplyPhase::Recording;
            ApplyStep::Record { index: self.key.idx, delay: fault.delay() }
        } else {
            self.fail(registry, now);
            ApplyStep::Stop
        }
    }

    /// Reports how phase two ended.
    ///
    /// After a good record the entry becomes `Applied` and the applier
    /// lets go of it. After a failed one the entry becomes `ApplyFailed`
    /// and stays held. Outside phase two the call fails with
    /// `InvalidTransition` and does nothing.
    pub fn recorded(&mut self, registry: &mut Registry, ok: bool, now: u64) -> (res: Result<
        (),
        SnapError,
    >)
        ensures
            final(registry)@.wf(),
            old(self)@.phase != ApplyPhase::Recording ==> res == Err::<(), SnapError>(
                SnapError::InvalidTransition,
            ) && final(self)@ == old(self)@ && final(registry)@ == old(registry)@,
            old(self)@.phase == ApplyPhase::Recording ==> if ok {
                &&& res == Ok::<(), SnapError>(())
                &&& final(self)@ == (ApplyTaskView { phase: ApplyPhase::Applied, ..old(self)@ })
                &&& final(registry)@ == after_success(old(registry)@, old(self)@.key, now)
            } else {
                &&& res == Err::<(), SnapError>(SnapError::ApplyFailed)
                &&& final(self)@ == (ApplyTaskView { phase: ApplyPhase::Failed, ..old(self)@ })
                &&& final(registry)@ == after_failure(old(registry)@, old(self)@.key, now)
            },
    {
        registry.check();
        if self.phase != ApplyPhase::Recording {
            return Err(SnapError::InvalidTransition);
        }
        if ok {
            self.succeed(registry, now);
            Ok(())
        } else {
            self.fail(registry, now);
            Err(SnapError::ApplyFailed)
        }
    }
}

/// An apply that ends well leaves the entry `Applied` with one holder
/// fewer; one that fails leaves it `ApplyFailed` with its holders.
pub proof fn law_apply_settles_entry(r: RegistryView, key: SnapKey, now: u64)
    requires
        r.wf(),
        r.get(key) matches Some(e) && e.state == SnapshotState::Applying && e.ref_count > 0,
    ensures
        after_success(r, key, now).get(key) == Some(
            Entry {
                state: SnapshotState::Applied,
                ref_count: (r.get(key)->0.ref_count - 1) as u64,
                touched: now,
                ..r.get(key)->0
            },
        ),
        after_failure(r, key, now).get(key) == Some(
            Entry { state: SnapshotState::ApplyFailed, touched: now, ..r.get(key)->0 },
        ),
        after_success(r, key, now).wf(),
        after_failure(r, key, now).wf(),
{
    let e = r.get(key)->0;
    let applied = Entry { state: SnapshotState::Applied, touched: now, ..e };
    lemma_with_entry_wf(r, applied);
    let mid = r.after_transition(key, SnapshotState::Applying, SnapshotState::Applied, now);
    assert(mid == r.with_entry(applied));
    lemma_with_entry_wf(mid, Entry { ref_count: (e.ref_count - 1) as u64, ..applied });
    lemma_with_entry_wf(r, Entry { state: SnapshotState::ApplyFailed, touched: now, ..e });
}

} // verus!
