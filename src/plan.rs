use vstd::prelude::*;

verus! {

/// What one step of a scenario does on the ledger. Program identities are
/// named by the index of the step whose deploy created them; buffers by the
/// index under which they were staged.
#[derive(Clone, Copy, PartialEq, Eq, Structural, Debug)]
pub enum Operation {
    /// Stage the program bytes in a fresh buffer account.
    Stage { buffer: usize },
    /// Deploy a new program identity from a staged buffer.
    Deploy { buffer: usize },
    /// Call the program deployed by step `target`, with a fresh run account.
    Invoke { target: usize },
    /// Replace the code of the program of step `target` with a staged buffer.
    Upgrade { buffer: usize, target: usize },
    /// Close the program of step `target`; this is terminal for that program.
    Close { target: usize },
    /// Deploy again under the identity that step `target` already used.
    Redeploy { buffer: usize, target: usize },
}

/// How a transaction is handed to the ledger.
#[derive(Clone, Copy, PartialEq, Eq, Structural, Debug)]
pub enum SubmitMode {
    /// Preflight checks, then wait for confirmation.
    Confirm,
    /// No preflight, no wait: return once the transport accepted it.
    NoPreflight,
}

/// Which outcomes of a step let the scenario go on.
#[derive(Clone, Copy, PartialEq, Eq, Structural, Debug)]
pub enum Expectation {
    MustSucceed,
    MayFail,
    MustFail,
}

/// The key that signs a step's transaction beside the fee payer.
#[derive(Clone, Copy, PartialEq, Eq, Structural, Debug)]
pub enum CoSigner {
    NoCoSigner,
    ProgramIdentity,
    RunAccount,
}

/// One step of a scenario: the operation, the slots to wait before it is
/// submitted, how it is submitted, and which outcomes are acceptable.
#[derive(Clone, Copy, PartialEq, Eq, Structural, Debug)]
pub struct Step {
    pub op: Operation,
    pub wait_slots: u64,
    pub mode: SubmitMode,
    pub expect: Expectation,
}

pub open spec fn co_signer_of(op: Operation) -> CoSigner {
    match op {
        Operation::Deploy { .. } => CoSigner::ProgramIdentity,
        Operation::Redeploy { .. } => CoSigner::ProgramIdentity,
        Operation::Invoke { .. } => CoSigner::RunAccount,
        _ => CoSigner::NoCoSigner,
    }
}

/// The buffer that an operation installs as program code, if any.
pub open spec fn buffer_used(op: Operation) -> Option<usize> {
    match op {
        Operation::Deploy { buffer } => Some(buffer),
        Operation::Upgrade { buffer, .. } => Some(buffer),
        Operation::Redeploy { buffer, .. } => Some(buffer),
        _ => None,
    }
}

/// A step that must succeed and installs a buffer uses that buffer up.
pub open spec fn consumes_buffer(s: Step) -> bool {
    s.expect == Expectation::MustSucceed && buffer_used(s.op).is_some()
}

/// No buffer used up by one step is named by any other install step.
pub open spec fn buffers_single_use(plan: Seq<Step>) -> bool {
    forall|i: int, j: int|
        0 <= i < plan.len() && 0 <= j < plan.len() && i != j && #[trigger] consumes_buffer(plan[i])
            ==> buffer_used(#[trigger] plan[j].op) != buffer_used(plan[i].op)
}

pub open spec fn step(op: Operation, wait_slots: u64, mode: SubmitMode, expect: Expectation) -> Step {
    Step { op, wait_slots, mode, expect }
}

/// The full lifecycle: stage three buffers, deploy, invoke, upgrade, invoke,
/// close, then an upgrade and a redeploy of the closed program that the
/// ledger must reject. Every step after staging waits one slot.
pub open spec fn full_lifecycle_step(i: int) -> Step {
    if i == 0 {
        step(Operation::Stage { buffer: 0 }, 0, SubmitMode::Confirm, Expectation::MustSucceed)
    } else if i == 1 {
        step(Operation::Stage { buffer: 1 }, 0, SubmitMode::Confirm, Expectation::MustSucceed)
    } else if i == 2 {
        step(Operation::Stage { buffer: 2 }, 0, SubmitMode::Confirm, Expectation::MustSucceed)
    } else if i == 3 {
        step(Operation::Deploy { buffer: 0 }, 1, SubmitMode::Confirm, Expectation::MustSucceed)
    } else if i == 4 {
        step(Operation::Invoke { target: 3 }, 1, SubmitMode::NoPreflight, Expectation::MayFail)
    } else if i == 5 {
        step(
            Operation::Upgrade { buffer: 1, target: 3 },
            1,
            SubmitMode::Confirm,
            Expectation::MustSucceed,
        )
    } else if i == 6 {
        step(Operation::Invoke { target: 3 }, 1, SubmitMode::NoPreflight, Expectation::MayFail)
    } else if i == 7 {
        step(Operation::Close { target: 3 }, 1, SubmitMode::Confirm, Expectation::MustSucceed)
    } else if i == 8 {
        step(
            Operation::Upgrade { buffer: 2, target: 3 },
            1,
            SubmitMode::NoPreflight,
            Expectation::MustFail,
        )
    } else {
        step(
            Operation::Redeploy { buffer: 2, target: 3 },
            1,
            SubmitMode::NoPreflight,
            Expectation::MustFail,
        )
    }
}

pub open spec fn full_lifecycle_plan() -> Seq<Step> {
    Seq::new(10, |i: int| full_lifecycle_step(i))
}

/// Stage one buffer, deploy after one slot, and invoke the new program at
/// once, both without preflight.
pub open spec fn same_slot_step(i: int) -> Step {
    if i == 0 {
        step(Operation::Stage { buffer: 0 }, 0, SubmitMode::Confirm, Expectation::MustSucceed)
    } else if i == 1 {
        step(Operation::Deploy { buffer: 0 }, 1, SubmitMode::NoPreflight, Expectation::MayFail)
    } else {
        step(Operation::Invoke { target: 1 }, 0, SubmitMode::NoPreflight, Expectation::MayFail)
    }
}

pub open spec fn same_slot_plan() -> Seq<Step> {
    Seq::new(3, |i: int| same_slot_step(i))
}

impl Step {
    /// The key that signs beside the fee payer.
    pub fn co_signer(&self) -> (r: CoSigner)
        ensures
            r == co_signer_of(self.op),
    {
        match self.op {
            Operation::Deploy { .. } => CoSigner::ProgramIdentity,
            Operation::Redeploy { .. } => CoSigner::ProgramIdentity,
            Operation::Invoke { .. } => CoSigner::RunAccount,
            _ => CoSigner::NoCoSigner,
        }
    }
}

fn mk(op: Operation, wait_slots: u64, mode: SubmitMode, expect: Expectation) -> (r: Step)
    ensures
        r == step(op, wait_slots, mode, expect),
{
    Step { op, wait_slots, mode, expect }
}

/// The steps of the full lifecycle scenario.
pub fn example_ledger() -> (r: Vec<Step>)
    ensures
        r@ == full_lifecycle_plan(),
{
    let mut r: Vec<Step> = Vec::new();
    r.push(mk(Operation::Stage { buffer: 0 }, 0, SubmitMode::Confirm, Expectation::MustSucceed));
    r.push(mk(Operation::Stage { buffer: 1 }, 0, SubmitMode::Confirm, Expectation::MustSucceed));
    r.push(mk(Operation::Stage { buffer: 2 }, 0, SubmitMode::Confirm, Expectation::MustSucceed));
    r.push(mk(Operation::Deploy { buffer: 0 }, 1, SubmitMode::Confirm, Expectation::MustSucceed));
    r.push(mk(Operation::Invoke { target: 3 }, 1, SubmitMode::NoPreflight, Expectation::MayFail));
    r.push(
        mk(Operation::Upgrade { buffer: 1, target: 3 }, 1, SubmitMode::Confirm, Expectation::MustSucceed),
    );
    r.push(mk(Operation::Invoke { target: 3 }, 1, SubmitMode::NoPreflight, Expectation::MayFail));
    r.push(mk(Operation::Close { target: 3 }, 1, SubmitMode::Confirm, Expectation::MustSucceed));
    r.push(
        mk(Operation::Upgrade { buffer: 2, target: 3 }, 1, SubmitMode::NoPreflight, Expectation::MustFail),
    );
    r.push(
        mk(Operation::Redeploy { buffer: 2, target: 3 }, 1, SubmitMode::NoPreflight, Expectation::MustFail),
    );
    assert(r@ =~= full_lifecycle_plan());
    r
}

/// The steps of the same-slot deploy and invoke scenario.
pub fn deploy_invoke_same_slot() -> (r: Vec<Step>)
    ensures
        r@ == same_slot_plan(),
{
    let mut r: Vec<Step> = Vec::new();
    r.push(mk(Operation::Stage { buffer: 0 }, 0, SubmitMode::Confirm, Expectation::MustSucceed));
    r.push(mk(Operation::Deploy { buffer: 0 }, 1, SubmitMode::NoPreflight, Expectation::MayFail));
    r.push(mk(Operation::Invoke { target: 1 }, 0, SubmitMode::NoPreflight, Expectation::MayFail));
    assert(r@ =~= same_slot_plan());
    r
}

/// A buffer that one install step uses up is named by no other install step,
/// in either scenario. The upgrade and redeploy of the closed program share a
/// buffer, but both are expected to be rejected, so neither uses it up.
pub proof fn buffers_are_single_use()
    ensures
        buffers_single_use(full_lifecycle_plan()),
        buffers_single_use(same_slot_plan()),
{
}

/// In the full lifecycle every step after staging waits at least one slot
/// after the step before it.
pub proof fn dependent_steps_wait_a_slot()
    ensures
        forall|i: int|
            3 <= i < full_lifecycle_plan().len() ==> #[trigger] full_lifecycle_plan()[i].wait_slots >= 1,
{
}

/// In the same-slot scenario every invocation targets the program deployed
/// by the step right before it, and is submitted without waiting.
pub proof fn same_slot_invoke_follows_deploy()
    ensures
        forall|i: int|
            0 <= i < same_slot_plan().len() && (#[trigger] same_slot_plan()[i]).op is Invoke ==> {
                &&& i >= 1
                &&& same_slot_plan()[i].op->Invoke_target == i - 1
                &&& same_slot_plan()[i - 1].op is Deploy
                &&& same_slot_plan()[i].wait_slots == 0
            },
{
}

} // verus!
