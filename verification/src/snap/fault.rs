//! Fault injection: a policy that the components consult at fixed hook
//! points, so that delays and failures can be forced at will.

use vstd::prelude::*;

verus! {

/// The points at which a component asks the policy what to do.
#[derive(Clone, Copy, Debug, PartialEq, Eq, Structural)]
pub enum Hook {
    BeforeGenerate,
    BeforeSend,
    BeforeReceiveAdmit,
    BeforeApplyPhase2,
}

/// What the policy orders at a hook.
#[derive(Clone, Copy, Debug, PartialEq, Eq, Structural)]
pub enum FaultAction {
    /// Go on as if there were no hook.
    Proceed,
    /// Wait this long, then go on.
    Delay(u64),
    /// Fail the step.
    Fail,
}

/// One order per hook.
#[derive(Clone, Copy, Debug, PartialEq, Eq, Structural)]
pub struct FaultPolicy {
    pub before_generate: FaultAction,
    pub before_send: FaultAction,
    pub before_receive_admit: FaultAction,
    pub before_apply_phase2: FaultAction,
}

impl FaultPolicy {
    pub open spec fn spec_at(self, hook: Hook) -> FaultAction {
        match hook {
            Hook::BeforeGenerate => self.before_generate,
            Hook::BeforeSend => self.before_send,
            Hook::BeforeReceiveAdmit => self.before_receive_admit,
            Hook::BeforeApplyPhase2 => self.before_apply_phase2,
        }
    }

    pub open spec fn spec_with(self, hook: Hook, action: FaultAction) -> FaultPolicy {
        match hook {
            Hook::BeforeGenerate => FaultPolicy { before_generate: action, ..self },
            Hook::BeforeSend => FaultPolicy { before_send: action, ..self },
            Hook::BeforeReceiveAdmit => FaultPolicy { before_receive_admit: action, ..self },
            Hook::BeforeApplyPhase2 => FaultPolicy { before_apply_phase2: action, ..self },
        }
    }

    /// The policy that injects nothing.
    pub fn none() -> (p: FaultPolicy)
        ensures
            forall|h: Hook| p.spec_at(h) == FaultAction::Proceed,
    {
        FaultPolicy {
            before_generate: FaultAction::Proceed,
            before_send: FaultAction::Proceed,
            before_receive_admit: FaultAction::Proceed,
            before_apply_phase2: FaultAction::Proceed,
        }
    }

    /// The order for `hook`.
    #[verifier::when_used_as_spec(spec_at)]
    pub fn at(self, hook: Hook) -> (a: FaultAction)
        ensures
            a == self.spec_at(hook),
    {
        match hook {
            Hook::BeforeGenerate => self.before_generate,
            Hook::BeforeSend => self.before_send,
            Hook::BeforeReceiveAdmit => self.before_receive_admit,
            Hook::BeforeApplyPhase2 => self.before_apply_phase2,
        }
    }

    /// This policy with `action` ordered at `hook`.
    #[verifier::when_used_as_spec(spec_with)]
    pub fn with(self, hook: Hook, action: FaultAction) -> (p: FaultPolicy)
        ensures
            p == self.spec_with(hook, action),
            p.spec_at(hook) == action,
            forall|h: Hook| h != hook ==> p.spec_at(h) == self.spec_at(h),
    {
        match hook {
            Hook::BeforeGenerate => FaultPolicy { before_generate: action, ..self },
            Hook::BeforeSend => FaultPolicy { before_send: action, ..self },
            Hook::BeforeReceiveAdmit => FaultPolicy { before_receive_admit: action, ..self },
            Hook::BeforeApplyPhase2 => FaultPolicy { before_apply_phase2: action, ..self },
        }
    }
}

impl FaultAction {
    /// The time to wait before going on: zero unless a delay is ordered.
    pub open spec fn spec_delay(self) -> u64 {
        match self {
            FaultAction::Delay(d) => d,
            _ => 0,
        }
    }

    #[verifier::when_used_as_spec(spec_delay)]
    pub fn delay(self) -> (d: u64)
        ensures
            d == self.spec_delay(),
    {
        match self {
            FaultAction::Delay(d) => d,
            _ => 0,
        }
    }
}

} // verus!
