use ledger_gen::plan::{
    deploy_invoke_same_slot, example_ledger, CoSigner, Expectation, Operation, SubmitMode,
};

#[test]
fn full_lifecycle_has_ten_steps_in_order() {
    let p = example_ledger();
    assert_eq!(p.len(), 10);
    assert_eq!(p[0].op, Operation::Stage { buffer: 0 });
    assert_eq!(p[1].op, Operation::Stage { buffer: 1 });
    assert_eq!(p[2].op, Operation::Stage { buffer: 2 });
    assert_eq!(p[3].op, Operation::Deploy { buffer: 0 });
    assert_eq!(p[4].op, Operation::Invoke { target: 3 });
    assert_eq!(p[5].op, Operation::Upgrade { buffer: 1, target: 3 });
    assert_eq!(p[6].op, Operation::Invoke { target: 3 });
    assert_eq!(p[7].op, Operation::Close { target: 3 });
    assert_eq!(p[8].op, Operation::Upgrade { buffer: 2, target: 3 });
    assert_eq!(p[9].op, Operation::Redeploy { buffer: 2, target: 3 });
}

#[test]
fn full_lifecycle_modes_and_expectations() {
    let p = example_ledger();
    for s in &p[0..3] {
        assert_eq!(s.wait_slots, 0);
    }
    for s in &p[3..] {
        assert_eq!(s.wait_slots, 1);
    }
    for i in [3usize, 5, 7] {
        assert_eq!(p[i].mode, SubmitMode::Confirm);
        assert_eq!(p[i].expect, Expectation::MustSucceed);
    }
    for i in [4usize, 6] {
        assert_eq!(p[i].mode, SubmitMode::NoPreflight);
        assert_eq!(p[i].expect, Expectation::MayFail);
    }
    for i in [8usize, 9] {
        assert_eq!(p[i].mode, SubmitMode::NoPreflight);
        assert_eq!(p[i].expect, Expectation::MustFail);
    }
}

#[test]
fn consumed_buffers_are_not_reused() {
    let p = example_ledger();
    let mut used = Vec::new();
    for s in &p {
        let b = match s.op {
            Operation::Deploy { buffer } => Some(buffer),
            Operation::Upgrade { buffer, .. } => Some(buffer),
            Operation::Redeploy { buffer, .. } => Some(buffer),
            _ => None,
        };
        if let (Some(b), Expectation::MustSucceed) = (b, s.expect) {
            used.push(b);
        }
    }
    assert_eq!(used, vec![0, 1]);
}

#[test]
fn same_slot_plan_invokes_without_wait() {
    let p = deploy_invoke_same_slot();
    assert_eq!(p.len(), 3);
    assert_eq!(p[1].op, Operation::Deploy { buffer: 0 });
    assert_eq!(p[1].mode, SubmitMode::NoPreflight);
    assert_eq!(p[2].op, Operation::Invoke { target: 1 });
    assert_eq!(p[2].wait_slots, 0);
    assert_eq!(p[2].mode, SubmitMode::NoPreflight);
}

#[test]
fn co_signers_follow_operation() {
    let p = example_ledger();
    assert_eq!(p[0].co_signer(), CoSigner::NoCoSigner);
    assert_eq!(p[3].co_signer(), CoSigner::ProgramIdentity);
    assert_eq!(p[4].co_signer(), CoSigner::RunAccount);
    assert_eq!(p[5].co_signer(), CoSigner::NoCoSigner);
    assert_eq!(p[7].co_signer(), CoSigner::NoCoSigner);
    assert_eq!(p[9].co_signer(), CoSigner::ProgramIdentity);
}
