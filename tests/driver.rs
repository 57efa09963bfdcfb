use ledger_gen::driver::{judge, Action, Driver, Event, Outcome, Phase, ScenarioError};
use ledger_gen::plan::{deploy_invoke_same_slot, example_ledger, Expectation};

fn submit(d: &mut Driver, outcome: Outcome, slot: u64) -> Action {
    d.on_event(Event::Submitted { outcome, slot })
}

#[test]
fn full_lifecycle_runs_to_the_end() {
    let mut d = Driver::new(example_ledger());
    assert_eq!(d.on_event(Event::Start), Action::Run { step: 0 });
    assert_eq!(submit(&mut d, Outcome::Committed, 10), Action::Run { step: 1 });
    assert_eq!(submit(&mut d, Outcome::Committed, 10), Action::Run { step: 2 });
    assert_eq!(submit(&mut d, Outcome::Committed, 11), Action::Wait { step: 3, slots: 1 });
    let outcomes = [
        Outcome::Committed,
        Outcome::Sent,
        Outcome::Committed,
        Outcome::Rejected,
        Outcome::Committed,
        Outcome::Rejected,
    ];
    let mut slot = 12;
    for (k, o) in outcomes.iter().enumerate() {
        let step = 3 + k;
        assert_eq!(d.on_event(Event::Waited { slot }), Action::Run { step });
        assert_eq!(submit(&mut d, *o, slot), Action::Wait { step: step + 1, slots: 1 });
        slot += 1;
    }
    assert_eq!(d.on_event(Event::Waited { slot }), Action::Run { step: 9 });
    assert_eq!(submit(&mut d, Outcome::Rejected, slot), Action::Finish);
    assert_eq!(d.phase, Phase::Finished);
    assert_eq!(d.reports.len(), 10);
    for k in 1..10 {
        assert!(d.reports[k - 1].slot <= d.reports[k].slot);
        if k >= 3 {
            assert!(d.reports[k - 1].slot < d.reports[k].slot);
        }
        assert_eq!(d.reports[k].step, k);
    }
    assert_eq!(d.reports[3].outcome, Outcome::Committed);
    assert_eq!(d.reports[9].outcome, Outcome::Rejected);
}

fn run_to_step(d: &mut Driver, upto: usize) {
    d.on_event(Event::Start);
    for i in 0..upto {
        if let Action::Wait { .. } = submit(d, Outcome::Committed, 20 + i as u64) {
            d.on_event(Event::Waited { slot: 21 + i as u64 });
        }
    }
}

#[test]
fn failed_deploy_aborts() {
    let mut d = Driver::new(example_ledger());
    run_to_step(&mut d, 3);
    assert_eq!(submit(&mut d, Outcome::Rejected, 30), Action::Abort { error: ScenarioError::NotCommitted { step: 3 } });
    assert_eq!(d.phase, Phase::Aborted);
    assert_eq!(d.reports.len(), 3);
}

#[test]
fn committed_upgrade_after_close_aborts() {
    let mut d = Driver::new(example_ledger());
    run_to_step(&mut d, 8);
    assert_eq!(
        submit(&mut d, Outcome::Committed, 40),
        Action::Abort { error: ScenarioError::UnexpectedSuccess { step: 8 } }
    );
}

#[test]
fn transport_error_on_invoke_aborts() {
    let mut d = Driver::new(example_ledger());
    run_to_step(&mut d, 4);
    assert_eq!(
        submit(&mut d, Outcome::TransportError, 40),
        Action::Abort { error: ScenarioError::Transport { step: 4 } }
    );
}

#[test]
fn rejected_invoke_goes_on() {
    let mut d = Driver::new(example_ledger());
    run_to_step(&mut d, 4);
    assert_eq!(submit(&mut d, Outcome::Rejected, 40), Action::Wait { step: 5, slots: 1 });
}

#[test]
fn slot_going_back_aborts() {
    let mut d = Driver::new(example_ledger());
    d.on_event(Event::Start);
    submit(&mut d, Outcome::Committed, 50);
    assert_eq!(
        submit(&mut d, Outcome::Committed, 49),
        Action::Abort { error: ScenarioError::SlotRegressed { step: 1 } }
    );
    assert_eq!(d.reports.len(), 1);
}

#[test]
fn equal_slots_are_accepted() {
    let mut d = Driver::new(example_ledger());
    d.on_event(Event::Start);
    submit(&mut d, Outcome::Committed, 50);
    assert_eq!(submit(&mut d, Outcome::Committed, 50), Action::Run { step: 2 });
}

#[test]
fn event_out_of_order_aborts() {
    let mut d = Driver::new(example_ledger());
    assert_eq!(d.on_event(Event::Waited { slot: 1 }), Action::Abort { error: ScenarioError::OutOfOrder });
    assert_eq!(d.phase, Phase::Aborted);
}

#[test]
fn same_slot_invoke_runs_right_after_deploy() {
    let mut d = Driver::new(deploy_invoke_same_slot());
    assert_eq!(d.on_event(Event::Start), Action::Run { step: 0 });
    assert_eq!(submit(&mut d, Outcome::Committed, 5), Action::Wait { step: 1, slots: 1 });
    assert_eq!(d.on_event(Event::Waited { slot: 6 }), Action::Run { step: 1 });
    assert_eq!(submit(&mut d, Outcome::Sent, 6), Action::Run { step: 2 });
    assert_eq!(submit(&mut d, Outcome::Sent, 6), Action::Finish);
}

#[test]
fn empty_plan_finishes_at_once() {
    let mut d = Driver::new(Vec::new());
    assert_eq!(d.on_event(Event::Start), Action::Finish);
}

#[test]
fn judge_outcomes() {
    assert_eq!(judge(2, Expectation::MustSucceed, Outcome::Committed), None);
    assert_eq!(judge(2, Expectation::MustSucceed, Outcome::Sent), Some(ScenarioError::NotCommitted { step: 2 }));
    assert_eq!(judge(2, Expectation::MayFail, Outcome::Rejected), None);
    assert_eq!(judge(2, Expectation::MustFail, Outcome::Rejected), None);
    assert_eq!(judge(2, Expectation::MustFail, Outcome::Committed), Some(ScenarioError::UnexpectedSuccess { step: 2 }));
    assert_eq!(judge(2, Expectation::MayFail, Outcome::TransportError), Some(ScenarioError::Transport { step: 2 }));
}

#[test]
fn wait_ending_in_same_slot_aborts() {
    let last = 10;
    let mut e = Driver::new(example_ledger());
    e.on_event(Event::Start);
    for _ in 0..3 {
        submit(&mut e, Outcome::Committed, last);
    }
    assert_eq!(e.on_event(Event::Waited { slot: last }), Action::Abort { error: ScenarioError::WaitTooShort { step: 3 } });
    assert_eq!(e.phase, Phase::Aborted);
}

#[test]
fn submission_below_waited_slot_aborts() {
    let mut d = Driver::new(example_ledger());
    d.on_event(Event::Start);
    for _ in 0..3 {
        submit(&mut d, Outcome::Committed, 10);
    }
    assert_eq!(d.on_event(Event::Waited { slot: 15 }), Action::Run { step: 3 });
    assert_eq!(submit(&mut d, Outcome::Committed, 14), Action::Abort { error: ScenarioError::SlotRegressed { step: 3 } });
}
