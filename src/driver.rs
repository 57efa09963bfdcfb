use vstd::prelude::*;
use crate::plan::{Expectation, Step, full_lifecycle_plan};

verus! {

/// What the ledger made of a submitted step.
#[derive(Clone, Copy, PartialEq, Eq, Structural, Debug)]
pub enum Outcome {
    /// Committed and confirmed.
    Committed,
    /// Accepted by the transport; its fate on the ledger is not known.
    Sent,
    /// Rejected on chain.
    Rejected,
    /// The submission never reached the ledger.
    TransportError,
}

/// Why a scenario stopped before its end.
#[derive(Clone, Copy, PartialEq, Eq, Structural, Debug)]
pub enum ScenarioError {
    /// The gateway failed on this step.
    Transport { step: usize },
    /// A step that must succeed was not committed.
    NotCommitted { step: usize },
    /// A step that the ledger must reject was committed.
    UnexpectedSuccess { step: usize },
    /// The slot observed after this step is lower than an earlier one, or
    /// than the slot its wait reached.
    SlotRegressed { step: usize },
    /// The wait before this step ended fewer slots after the previous step
    /// than the step asks for.
    WaitTooShort { step: usize },
    /// An event came that the driver was not waiting for.
    OutOfOrder,
}

/// What the runner reports back to the driver.
#[derive(Clone, Copy, PartialEq, Eq, Structural, Debug)]
pub enum Event {
    Start,
    /// The slot wait that the driver asked for is over, at this slot.
    Waited { slot: u64 },
    /// The step that the driver asked for was submitted.
    Submitted { outcome: Outcome, slot: u64 },
}

/// What the driver asks the runner to do next.
#[derive(Clone, Copy, PartialEq, Eq, Structural, Debug)]
pub enum Action {
    /// Wait until the ledger advanced `slots` slots, then report `Waited`.
    Wait { step: usize, slots: u64 },
    /// Build, sign and submit step `step`, then report `Submitted`.
    Run { step: usize },
    Finish,
    Abort { error: ScenarioError },
}

#[derive(Clone, Copy, PartialEq, Eq, Structural, Debug)]
pub enum Phase {
    Ready,
    Waiting { step: usize },
    /// Submitting a step; the slot observed after it may not be below
    /// `floor`.
    Running { step: usize, floor: u64 },
    Finished,
    Aborted,
}

/// The record of one submitted step: its outcome and the slot observed
/// right after its submission.
#[derive(Clone, Copy, PartialEq, Eq, Structural, Debug)]
pub struct Report {
    pub step: usize,
    pub outcome: Outcome,
    pub slot: u64,
}

/// The error that an outcome raises on a step with this expectation, if
/// any. A transport error is always fatal; a rejection only where the step
/// must succeed; a commit only where the ledger must reject the step.
pub open spec fn rejection(step: usize, expect: Expectation, outcome: Outcome) -> Option<ScenarioError> {
    if outcome == Outcome::TransportError {
        Some(ScenarioError::Transport { step })
    } else {
        match expect {
            Expectation::MustSucceed => if outcome == Outcome::Committed {
                None
            } else {
                Some(ScenarioError::NotCommitted { step })
            },
            Expectation::MayFail => None,
            Expectation::MustFail => if outcome == Outcome::Committed {
                Some(ScenarioError::UnexpectedSuccess { step })
            } else {
                None
            },
        }
    }
}

/// The phase and action on moving to step `i`: wait first where the step
/// asks for it, finish past the last step.
pub open spec fn enter(plan: Seq<Step>, i: int) -> (Phase, Action) {
    if i >= plan.len() {
        (Phase::Finished, Action::Finish)
    } else if plan[i].wait_slots > 0 {
        (Phase::Waiting { step: i as usize }, Action::Wait { step: i as usize, slots: plan[i].wait_slots })
    } else {
        (Phase::Running { step: i as usize, floor: 0 }, Action::Run { step: i as usize })
    }
}

/// One move of the driver: the new phase, the reports, and the action.
pub open spec fn transition(plan: Seq<Step>, phase: Phase, reports: Seq<Report>, ev: Event) -> (
    Phase,
    Seq<Report>,
    Action,
) {
    if phase is Ready && ev is Start {
        (enter(plan, 0).0, reports, enter(plan, 0).1)
    } else if phase is Waiting && ev is Waited {
        let i = phase->Waiting_step;
        let slot = ev->Waited_slot;
        if reports.len() > 0 && slot < reports.last().slot + plan[i as int].wait_slots {
            (Phase::Aborted, reports, Action::Abort { error: ScenarioError::WaitTooShort { step: i } })
        } else {
            (Phase::Running { step: i, floor: slot }, reports, Action::Run { step: i })
        }
    } else if phase is Running && ev is Submitted {
        let i = phase->Running_step;
        let floor = phase->Running_floor;
        let outcome = ev->Submitted_outcome;
        let slot = ev->Submitted_slot;
        match rejection(i, plan[i as int].expect, outcome) {
            Some(e) => (Phase::Aborted, reports, Action::Abort { error: e }),
            None => if (reports.len() > 0 && slot < reports.last().slot) || slot < floor {
                (Phase::Aborted, reports, Action::Abort { error: ScenarioError::SlotRegressed { step: i } })
            } else {
                let next = enter(plan, i + 1);
                (next.0, reports.push(Report { step: i, outcome, slot }), next.1)
            },
        }
    } else {
        (Phase::Aborted, reports, Action::Abort { error: ScenarioError::OutOfOrder })
    }
}

/// Report `k` lands at least step `k`'s wait after report `k - 1`.
pub open spec fn waited_enough(plan: Seq<Step>, reports: Seq<Report>, k: int) -> bool {
    reports[k].slot >= reports[k - 1].slot + plan[k].wait_slots
}

/// The reports follow the plan from its first step, each with an outcome
/// that the step accepts; their slots never decrease, and each step that
/// waits lands at least its wait after the step before it.
pub open spec fn driver_wf(plan: Seq<Step>, phase: Phase, reports: Seq<Report>) -> bool {
    &&& reports.len() <= plan.len() <= usize::MAX
    &&& forall|k: int|
        0 <= k < reports.len() ==> (#[trigger] reports[k]).step == k && rejection(
            k as usize,
            plan[k].expect,
            reports[k].outcome,
        ) is None
    &&& forall|k1: int, k2: int|
        0 <= k1 <= k2 < reports.len() ==> (#[trigger] reports[k1]).slot <= (#[trigger] reports[k2]).slot
    &&& forall|k: int| 1 <= k < reports.len() ==> #[trigger] waited_enough(plan, reports, k)
    &&& match phase {
        Phase::Ready => reports.len() == 0,
        Phase::Waiting { step } => step == reports.len() && reports.len() < plan.len(),
        Phase::Running { step, floor } => {
            &&& step == reports.len() && reports.len() < plan.len()
            &&& reports.len() > 0 && plan[step as int].wait_slots > 0 ==> floor >= reports.last().slot
                + plan[step as int].wait_slots
        },
        Phase::Finished => reports.len() == plan.len(),
        Phase::Aborted => true,
    }
}

/// Runs a scenario plan step by step. The runner performs each action and
/// reports back an event; the driver decides what comes next.
pub struct Driver {
    pub plan: Vec<Step>,
    pub phase: Phase,
    pub reports: Vec<Report>,
}

proof fn lemma_enter_wf(plan: Seq<Step>, reports: Seq<Report>)
    requires
        driver_wf(plan, Phase::Aborted, reports),
        reports.len() <= plan.len(),
    ensures
        driver_wf(plan, enter(plan, reports.len() as int).0, reports),
{
}

/// Every move of the driver keeps its reports consistent with the plan.
proof fn lemma_transition_wf(plan: Seq<Step>, phase: Phase, reports: Seq<Report>, ev: Event)
    requires
        driver_wf(plan, phase, reports),
    ensures
        driver_wf(
            plan,
            transition(plan, phase, reports, ev).0,
            transition(plan, phase, reports, ev).1,
        ),
        transition(plan, phase, reports, ev).1.len() >= reports.len(),
        transition(plan, phase, reports, ev).1.subrange(0, reports.len() as int) == reports,
{
    let t = transition(plan, phase, reports, ev);
    if phase is Ready && ev is Start {
        lemma_enter_wf(plan, reports);
    } else if phase is Running && ev is Submitted {
        let i = phase->Running_step;
        let outcome = ev->Submitted_outcome;
        let slot = ev->Submitted_slot;
        let floor = phase->Running_floor;
        if rejection(i, plan[i as int].expect, outcome) is None && !((reports.len() > 0 && slot
            < reports.last().slot) || slot < floor) {
            let rs = reports.push(Report { step: i, outcome, slot });
            assert forall|k: int| 1 <= k < rs.len() implies #[trigger] waited_enough(plan, rs, k) by {
                if k < reports.len() {
                    assert(waited_enough(plan, reports, k));
                }
            }
            assert forall|k1: int, k2: int| 0 <= k1 <= k2 < rs.len() implies (#[trigger] rs[k1]).slot
                <= (#[trigger] rs[k2]).slot by {
                if k2 == rs.len() - 1 && k1 < k2 {
                    assert(reports[k1].slot <= reports[reports.len() - 1].slot);
                }
            }
            lemma_enter_wf(plan, rs);
        }
    }
    assert(t.1.subrange(0, reports.len() as int) =~= reports);
}

impl Driver {
    pub open spec fn wf(&self) -> bool {
        driver_wf(self.plan@, self.phase, self.reports@)
    }

    /// A driver for a plan, before its first step.
    pub fn new(plan: Vec<Step>) -> (r: Driver)
        ensures
            r.wf(),
            r.plan@ == plan@,
            r.phase == Phase::Ready,
            r.reports@.len() == 0,
    {
        let len: usize = plan.len();
        assert(plan@.len() == len);
        Driver { plan, phase: Phase::Ready, reports: Vec::new() }
    }

    fn enter_step(&mut self, i: usize) -> (r: Action)
        requires
            i <= old(self).plan@.len(),
        ensures
            final(self).plan@ == old(self).plan@,
            final(self).reports@ == old(self).reports@,
            (final(self).phase, r) == enter(old(self).plan@, i as int),
    {
        if i >= self.plan.len() {
            self.phase = Phase::Finished;
            Action::Finish
        } else if self.plan[i].wait_slots > 0 {
            self.phase = Phase::Waiting { step: i };
            Action::Wait { step: i, slots: self.plan[i].wait_slots }
        } else {
            self.phase = Phase::Running { step: i, floor: 0 };
            Action::Run { step: i }
        }
    }

    fn on_submitted(&mut self, i: usize, floor: u64, outcome: Outcome, slot: u64) -> (r: Action)
        requires
            old(self).wf(),
            old(self).phase == (Phase::Running { step: i, floor }),
        ensures
            final(self).plan@ == old(self).plan@,
            (final(self).phase, final(self).reports@, r) == transition(
                old(self).plan@,
                old(self).phase,
                old(self).reports@,
                Event::Submitted { outcome, slot },
            ),
    {
        match judge(i, self.plan[i].expect, outcome) {
            Some(e) => {
                self.phase = Phase::Aborted;
                Action::Abort { error: e }
            },
            None => {
                let n = self.reports.len();
                if (n > 0 && slot < self.reports[n - 1].slot) || slot < floor {
                    self.phase = Phase::Aborted;
                    Action::Abort { error: ScenarioError::SlotRegressed { step: i } }
                } else {
                    assert(i < self.plan.len());
                    self.reports.push(Report { step: i, outcome, slot });
                    self.enter_step(i + 1)
                }
            },
        }
    }

    /// Takes the runner's event and returns the next action.
    pub fn on_event(&mut self, ev: Event) -> (r: Action)
        requires
            old(self).wf(),
        ensures
            final(self).wf(),
            final(self).plan@ == old(self).plan@,
            (final(self).phase, final(self).reports@, r) == transition(
                old(self).plan@,
                old(self).phase,
                old(self).reports@,
                ev,
            ),
    {
        proof {
            lemma_transition_wf(self.plan@, self.phase, self.reports@, ev);
        }
        match self.phase {
            Phase::Ready => {
                if let Event::Start = ev {
                    return self.enter_step(0);
                }
            },
            Phase::Waiting { step } => {
                if let Event::Waited { slot } = ev {
                    let n = self.reports.len();
                    if n > 0 {
                        let last = self.reports[n - 1].slot;
                        if slot < last || slot - last < self.plan[step].wait_slots {
                            self.phase = Phase::Aborted;
                            return Action::Abort { error: ScenarioError::WaitTooShort { step } };
                        }
                    }
                    self.phase = Phase::Running { step, floor: slot };
                    return Action::Run { step };
                }
            },
            Phase::Running { step, floor } => {
                if let Event::Submitted { outcome, slot } = ev {
                    return self.on_submitted(step, floor, outcome, slot);
                }
            },
            _ => {},
        }
        self.phase = Phase::Aborted;
        Action::Abort { error: ScenarioError::OutOfOrder }
    }
}

/// The error that an outcome raises on a step with this expectation, if any.
pub fn judge(step: usize, expect: Expectation, outcome: Outcome) -> (r: Option<ScenarioError>)
    ensures
        r == rejection(step, expect, outcome),
{
    if let Outcome::TransportError = outcome {
        return Some(ScenarioError::Transport { step });
    }
    match expect {
        Expectation::MustSucceed => if let Outcome::Committed = outcome {
            None
        } else {
            Some(ScenarioError::NotCommitted { step })
        },
        Expectation::MayFail => None,
        Expectation::MustFail => if let Outcome::Committed = outcome {
            Some(ScenarioError::UnexpectedSuccess { step })
        } else {
            None
        },
    }
}

/// The slots recorded by the driver never go down: whatever event comes, a
/// report added to the record carries a slot no lower than any before it,
/// and the earlier reports stay as they were.
pub proof fn observed_slots_never_decrease(plan: Seq<Step>, phase: Phase, reports: Seq<Report>, ev: Event)
    requires
        driver_wf(plan, phase, reports),
    ensures
        ({
            let after = transition(plan, phase, reports, ev).1;
            &&& after.subrange(0, reports.len() as int) == reports
            &&& forall|k1: int, k2: int|
                0 <= k1 <= k2 < after.len() ==> (#[trigger] after[k1]).slot <= (#[trigger] after[k2]).slot
        }),
{
    lemma_transition_wf(plan, phase, reports, ev);
}

/// A finished run of the full lifecycle has the deploy, the upgrade and the
/// close committed, both invocations accepted by the transport, and neither
/// the upgrade nor the redeploy of the closed program committed.
pub proof fn full_lifecycle_outcomes(reports: Seq<Report>)
    requires
        driver_wf(full_lifecycle_plan(), Phase::Finished, reports),
    ensures
        reports.len() == 10,
        reports[3].outcome == Outcome::Committed,
        reports[4].outcome != Outcome::TransportError,
        reports[5].outcome == Outcome::Committed,
        reports[6].outcome != Outcome::TransportError,
        reports[7].outcome == Outcome::Committed,
        reports[8].outcome != Outcome::Committed,
        reports[9].outcome != Outcome::Committed,
{
    assert(reports[3].step == 3);
    assert(reports[4].step == 4);
    assert(reports[5].step == 5);
    assert(reports[6].step == 6);
    assert(reports[7].step == 7);
    assert(reports[8].step == 8);
    assert(reports[9].step == 9);
}

/// Each recorded step that waits lands at least its wait after the step
/// before it; so in the full lifecycle every step after staging lands in a
/// later slot than the one before it.
pub proof fn waited_steps_land_later(plan: Seq<Step>, phase: Phase, reports: Seq<Report>)
    requires
        driver_wf(plan, phase, reports),
    ensures
        forall|k: int| 1 <= k < reports.len() ==> #[trigger] waited_enough(plan, reports, k),
        plan == full_lifecycle_plan() ==> forall|k: int|
            3 <= k < reports.len() ==> #[trigger] reports[k].slot > reports[k - 1].slot,
{
    if plan == full_lifecycle_plan() {
        assert forall|k: int| 3 <= k < reports.len() implies #[trigger] reports[k].slot > reports[k - 1].slot by {
            assert(waited_enough(plan, reports, k));
            assert(plan[k].wait_slots >= 1);
        }
    }
}

} // verus!
