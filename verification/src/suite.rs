//! The test suite evaluator: compare what flows yielded against what was
//! expected, and report every instance.
//!
//! An instance passes exactly when its flow yielded a value equal to the
//! expectation, by exact string equality.  A flow that aborted is a
//! failure carrying the abort reason; it never stops the evaluation of
//! the other instances.

use vstd::prelude::*;
use crate::dto::TestSuiteInstance;
use crate::encode::clone_string;

verus! {

/// One instance passes when its flow yielded exactly the expected value.
pub open spec fn instance_passes(inst: TestSuiteInstance, outcome: Result<String, String>) -> bool {
    outcome matches Ok(v) && v@ == inst.expect@
}

/// The flow names of the instances that pass, in order.
pub open spec fn spec_passed(
    insts: Seq<TestSuiteInstance>,
    outs: Seq<Result<String, String>>,
) -> Seq<String>
    decreases insts.len(),
{
    if insts.len() == 0 || insts.len() != outs.len() {
        Seq::empty()
    } else {
        let prev = spec_passed(insts.drop_last(), outs.drop_last());
        if instance_passes(insts.last(), outs.last()) {
            prev.push(insts.last().flow_name)
        } else {
            prev
        }
    }
}

/// The flow names of the instances that fail, each with what its flow
/// yielded or why it aborted, in order.
pub open spec fn spec_failed(
    insts: Seq<TestSuiteInstance>,
    outs: Seq<Result<String, String>>,
) -> Seq<(String, String)>
    decreases insts.len(),
{
    if insts.len() == 0 || insts.len() != outs.len() {
        Seq::empty()
    } else {
        let prev = spec_failed(insts.drop_last(), outs.drop_last());
        if instance_passes(insts.last(), outs.last()) {
            prev
        } else {
            prev.push(
                (
                    insts.last().flow_name,
                    match outs.last() {
                        Ok(v) => v,
                        Err(m) => m,
                    },
                ),
            )
        }
    }
}

/// A complete pass/fail report over a suite's instances.
pub struct SuiteReport {
    pub passed: Vec<String>,
    pub failed: Vec<(String, String)>,
}

/// Evaluate every instance against what its flow yielded; nothing is
/// skipped, and exactly the instances whose flow yielded the expected
/// value pass.
pub fn evaluate_suite(
    instances: &Vec<TestSuiteInstance>,
    outcomes: &Vec<Result<String, String>>,
) -> (r: SuiteReport)
    requires
        instances@.len() == outcomes@.len(),
    ensures
        r.passed@ == spec_passed(instances@, outcomes@),
        r.failed@ == spec_failed(instances@, outcomes@),
        r.passed@.len() + r.failed@.len() == instances@.len(),
{
    let mut passed: Vec<String> = Vec::new();
    let mut failed: Vec<(String, String)> = Vec::new();
    let n = instances.len();
    let mut i: usize = 0;
    while i < n
        invariant
            i <= n,
            n == instances@.len(),
            n == outcomes@.len(),
            passed@ == spec_passed(instances@.take(i as int), outcomes@.take(i as int)),
            failed@ == spec_failed(instances@.take(i as int), outcomes@.take(i as int)),
            passed@.len() + failed@.len() == i,
        decreases n - i,
    {
        let inst = &instances[i];
        let ok: bool = match &outcomes[i] {
            Ok(v) => v.eq(&inst.expect),
            Err(_) => false,
        };
        if ok {
            passed.push(clone_string(&inst.flow_name));
        } else {
            let got = match &outcomes[i] {
                Ok(v) => clone_string(v),
                Err(m) => clone_string(m),
            };
            failed.push((clone_string(&inst.flow_name), got));
        }
        proof {
            assert(instances@.take(i + 1 as int).drop_last() =~= instances@.take(i as int));
            assert(outcomes@.take(i + 1 as int).drop_last() =~= outcomes@.take(i as int));
            assert(instances@.take(i + 1 as int).last() == instances@[i as int]);
            assert(outcomes@.take(i + 1 as int).last() == outcomes@[i as int]);
        }
        i += 1;
    }
    proof {
        assert(instances@.take(n as int) =~= instances@);
        assert(outcomes@.take(n as int) =~= outcomes@);
    }
    SuiteReport { passed, failed }
}

} // verus!
