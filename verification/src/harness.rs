//! The inline test harness: runs one declared test against a fresh
//! interpreter over a shared memory image, with a queue-backed input
//! source and a capturing output sink, and classifies the outcome.

use vstd::prelude::*;

use crate::interpreter::{
    initial_state, lemma_genuine_run_destruct, run_image, run_trace, step_rel, Input, Log,
    MachineState, Output, RunEnd, StepError,
};
use crate::parse::{LNCTest, SpecLNCTest};
use crate::vec_io::{QueueInput, StackOutput};
use crate::{MEMORY_SIZE, WORD_BOUND};

verus! {

/// Why a declared test failed.
#[derive(Debug, PartialEq, Eq, Clone)]
pub enum TestFailure {
    /// A step failed; carries the step's error.
    Step(StepError),
    /// The machine halted with queued inputs never consumed; carries
    /// them.
    UnusedInputs(Vec<usize>),
    /// The captured outputs differ from the declared expectation.
    IncorrectOutputs,
    /// The program counter ran past the end of memory without halting.
    PcOutOfRange,
    /// The step counter reached its maximum.
    StepLimit,
}

/// A declared test's outcome.
#[derive(Debug, PartialEq, Eq, Clone)]
pub enum TestResult {
    /// The machine halted, consumed every input, and produced exactly
    /// the expected outputs.
    Passed,
    /// Anything else.
    Failed(TestFailure),
}

/// One declared test's report: the declaration, what actually came
/// out, how many steps ran, and the outcome.
#[derive(Debug)]
pub struct LNCTestInfo {
    /// The test's name.
    pub name: String,
    /// The declared inputs.
    pub input: Vec<usize>,
    /// The declared expected outputs.
    pub expected_output: Vec<usize>,
    /// The outputs actually captured.
    pub actual_output: Vec<usize>,
    /// How many steps ran.
    pub ins_count: usize,
    /// The outcome.
    pub result: TestResult,
}

/// Whether two value sequences are equal, element for element.
fn vec_eq(a: &Vec<usize>, b: &Vec<usize>) -> (r: bool)
    ensures
        r == (a@ == b@),
{
    if a.len() != b.len() {
        return false;
    }
    let mut i: usize = 0;
    while i < a.len()
        invariant
            a@.len() == b@.len(),
            i <= a@.len(),
            forall|k: int| 0 <= k < i ==> a@[k] == b@[k],
        decreases a@.len() - i,
    {
        if a[i] != b[i] {
            return false;
        }
        i = i + 1;
    }
    proof {
        assert(a@ =~= b@);
    }
    true
}

/// Copy a value slice into a fresh vector.
fn copy_values(src: &[usize]) -> (r: Vec<usize>)
    ensures
        r@ == src@,
{
    let mut r: Vec<usize> = Vec::new();
    let mut i: usize = 0;
    while i < src.len()
        invariant
            i <= src@.len(),
            r@.len() == i,
            forall|k: int| 0 <= k < i ==> r@[k] == src@[k],
        decreases src@.len() - i,
    {
        r.push(src[i]);
        i = i + 1;
    }
    proof {
        assert(r@ =~= src@);
    }
    r
}

impl LNCTestInfo {
    /// A report for one test: its declaration, the captured outputs,
    /// the step count and the outcome.
    pub fn new(test: &LNCTest, actual_output: &[usize], ins_count: usize, result: TestResult) -> (r:
        LNCTestInfo)
        ensures
            r.name@ == test@.name,
            r.input@ == test@.inputs,
            r.expected_output@ == test@.outputs,
            r.actual_output@ == actual_output@,
            r.ins_count == ins_count,
            r.result == result,
    {
        LNCTestInfo {
            name: test.name.clone(),
            input: copy_values(test.inputs.as_slice()),
            expected_output: copy_values(test.outputs.as_slice()),
            actual_output: copy_values(actual_output),
            ins_count,
            result,
        }
    }
}

/// Evidence that a test report reflects a genuine run: some
/// [`run_trace`] of exactly `info.ins_count` steps leads from a fresh
/// machine over `mem`, fed the test's declared inputs and capturing
/// into an empty sink, to a final state classified as the report says —
/// by the priority of a failed step first, then inputs left unconsumed
/// after the halt, then captured outputs differing from the declared
/// expectation, and a pass only for a halt with every input consumed
/// and exactly the expected outputs, which the report carries verbatim.
pub open spec fn test_run_evidence(mem: Seq<usize>, test: SpecLNCTest, info: LNCTestInfo) -> bool {
    exists|states: Seq<MachineState>, ins: Seq<Seq<usize>>, outs: Seq<Seq<usize>>|
        {
            &&& #[trigger] run_trace(states, ins, outs, info.ins_count as int)
            &&& states[0] == initial_state(mem)
            &&& ins[0] == test.inputs
            &&& outs[0] == Seq::<usize>::empty()
            &&& info.actual_output@ == outs.last()
            &&& match info.result {
                TestResult::Passed => states.last().halted && ins.last().len() == 0
                    && outs.last() == test.outputs,
                TestResult::Failed(f) => match f {
                    TestFailure::Step(e) => (exists|post: MachineState|
                        step_rel(
                            states.last(),
                            post,
                            ins.last(),
                            ins.last(),
                            outs.last(),
                            outs.last(),
                            Err(e),
                        )) && (e matches StepError::Input(m) ==> ins.last().len() == 0 && m@
                        == "error: input queue is empty!"@),
                    TestFailure::UnusedInputs(u) => states.last().halted && u@ == ins.last()
                        && u@.len() > 0,
                    TestFailure::IncorrectOutputs => states.last().halted && ins.last().len() == 0
                        && outs.last() != test.outputs,
                    TestFailure::PcOutOfRange => !states.last().halted && states.last().pc
                        == MEMORY_SIZE,
                    TestFailure::StepLimit => info.ins_count == usize::MAX,
                },
            }
        }
}

/// A concrete trace witnesses a test report.
proof fn lemma_test_run_evidence_witness(
    states: Seq<MachineState>,
    ins: Seq<Seq<usize>>,
    outs: Seq<Seq<usize>>,
    mem: Seq<usize>,
    test: SpecLNCTest,
    info: LNCTestInfo,
    step_post: MachineState,
)
    requires
        run_trace(states, ins, outs, info.ins_count as int),
        states[0] == initial_state(mem),
        ins[0] == test.inputs,
        outs[0] == Seq::<usize>::empty(),
        info.actual_output@ == outs.last(),
        match info.result {
            TestResult::Passed => states.last().halted && ins.last().len() == 0 && outs.last()
                == test.outputs,
            TestResult::Failed(f) => match f {
                TestFailure::Step(e) => step_rel(
                    states.last(),
                    step_post,
                    ins.last(),
                    ins.last(),
                    outs.last(),
                    outs.last(),
                    Err(e),
                ) && (e matches StepError::Input(m) ==> ins.last().len() == 0 && m@
                    == "error: input queue is empty!"@),
                TestFailure::UnusedInputs(u) => states.last().halted && u@ == ins.last()
                    && u@.len() > 0,
                TestFailure::IncorrectOutputs => states.last().halted && ins.last().len() == 0
                    && outs.last() != test.outputs,
                TestFailure::PcOutOfRange => !states.last().halted && states.last().pc
                    == MEMORY_SIZE,
                TestFailure::StepLimit => info.ins_count == usize::MAX,
            },
        },
    ensures
        test_run_evidence(mem, test, info),
{
}

/// Run one declared test against a fresh interpreter over the given
/// image, to halt or failure, and classify the outcome: a step error
/// fails the test with that error; inputs left over after the halt fail
/// it; captured outputs different from the declared expectation fail
/// it; otherwise it passes.  Failing one test never stops another — each
/// run builds its own interpreter and ports.
///
/// The report is tied to a genuine run by [`test_run_evidence`]: its
/// step count, captured outputs and classification are those of an
/// actual step-by-step execution of the image against the declared
/// inputs.  The call itself fails only when a declared input does not
/// fit the machine's word bound.
pub fn run_test<L: Log>(mem: [usize; MEMORY_SIZE], test: &LNCTest, logger: &mut L) -> (r: Result<
    LNCTestInfo,
    String,
>)
    requires
        forall|i: int| 0 <= i < MEMORY_SIZE ==> mem@[i] < WORD_BOUND,
    ensures
        r is Ok <==> (forall|i: int| 0 <= i < test@.inputs.len() ==> test@.inputs[i] < WORD_BOUND),
        r matches Ok(info) ==> {
            &&& info.name@ == test@.name
            &&& info.input@ == test@.inputs
            &&& info.expected_output@ == test@.outputs
            &&& (info.result is Passed ==> info.actual_output@ == test@.outputs)
            &&& (info.result == TestResult::Failed(TestFailure::IncorrectOutputs)
                ==> info.actual_output@ != test@.outputs)
            &&& (info.result matches TestResult::Failed(f) ==> (f matches
                TestFailure::UnusedInputs(u) ==> u@.len() > 0))
            &&& test_run_evidence(mem@, test@, info)
        },
{
    let inputs_slice = test.inputs.as_slice();
    let mut input = match QueueInput::new(inputs_slice) {
        Ok(q) => q,
        Err(m) => {
            proof {
                let w = choose|i: int| 0 <= i < inputs_slice@.len() && inputs_slice@[i]
                    >= WORD_BOUND;
                assert(test@.inputs[w] >= WORD_BOUND);
            }
            return Err(m);
        }
    };
    proof {
        assert forall|i: int| 0 <= i < test@.inputs.len() implies test@.inputs[i]
            < WORD_BOUND by {
            assert(test@.inputs[i] == inputs_slice@[i]);
        };
    }
    let mut output = StackOutput::new();
    let ghost in0 = input.pending();
    let ghost out0 = output.captured();
    let outcome = run_image(mem, &mut input, &mut output, logger);
    let ins_count = outcome.steps;
    let ghost machine_end = outcome.machine@;
    let ghost end_snap = outcome.end;
    let ghost in1 = input.pending();
    let ghost out1 = output.captured();
    proof {
        assert(in0 == test@.inputs);
        assert(out0 =~= Seq::<usize>::empty());
    }

    match outcome.end {
        RunEnd::Halted => {}
        RunEnd::Step(e) => {
            let ghost e_snap = e;
            let info = LNCTestInfo::new(
                test,
                output.stack.as_slice(),
                ins_count,
                TestResult::Failed(TestFailure::Step(e)),
            );
            proof {
                let tr = lemma_genuine_run_destruct(
                    mem@,
                    in0,
                    out0,
                    machine_end,
                    in1,
                    out1,
                    ins_count as int,
                    end_snap,
                );
                assert(step_rel(
                    tr.0.last(),
                    machine_end,
                    tr.1.last(),
                    in1,
                    tr.2.last(),
                    out1,
                    Err(e_snap),
                ));
                assert(in1 == tr.1.last() && out1 == tr.2.last());
                assert(step_rel(
                    tr.0.last(),
                    machine_end,
                    tr.1.last(),
                    tr.1.last(),
                    tr.2.last(),
                    tr.2.last(),
                    Err(e_snap),
                ));
                lemma_test_run_evidence_witness(tr.0, tr.1, tr.2, mem@, test@, info, machine_end);
            }
            return Ok(info);
        }
        RunEnd::PcOutOfRange => {
            let info = LNCTestInfo::new(
                test,
                output.stack.as_slice(),
                ins_count,
                TestResult::Failed(TestFailure::PcOutOfRange),
            );
            proof {
                let tr = lemma_genuine_run_destruct(
                    mem@,
                    in0,
                    out0,
                    machine_end,
                    in1,
                    out1,
                    ins_count as int,
                    end_snap,
                );
                lemma_test_run_evidence_witness(tr.0, tr.1, tr.2, mem@, test@, info, tr.0.last());
            }
            return Ok(info);
        }
        RunEnd::StepLimit => {
            let info = LNCTestInfo::new(
                test,
                output.stack.as_slice(),
                ins_count,
                TestResult::Failed(TestFailure::StepLimit),
            );
            proof {
                let tr = lemma_genuine_run_destruct(
                    mem@,
                    in0,
                    out0,
                    machine_end,
                    in1,
                    out1,
                    ins_count as int,
                    end_snap,
                );
                lemma_test_run_evidence_witness(tr.0, tr.1, tr.2, mem@, test@, info, tr.0.last());
            }
            return Ok(info);
        }
    }

    if !input.is_empty() {
        let unused = input.remaining();
        let info = LNCTestInfo::new(
            test,
            output.stack.as_slice(),
            ins_count,
            TestResult::Failed(TestFailure::UnusedInputs(unused)),
        );
        proof {
            let tr = lemma_genuine_run_destruct(
                mem@,
                in0,
                out0,
                machine_end,
                in1,
                out1,
                ins_count as int,
                end_snap,
            );
            lemma_test_run_evidence_witness(tr.0, tr.1, tr.2, mem@, test@, info, tr.0.last());
        }
        return Ok(info);
    }

    if !vec_eq(&output.stack, &test.outputs) {
        let info = LNCTestInfo::new(
            test,
            output.stack.as_slice(),
            ins_count,
            TestResult::Failed(TestFailure::IncorrectOutputs),
        );
        proof {
            let tr = lemma_genuine_run_destruct(
                mem@,
                in0,
                out0,
                machine_end,
                in1,
                out1,
                ins_count as int,
                end_snap,
            );
            lemma_test_run_evidence_witness(tr.0, tr.1, tr.2, mem@, test@, info, tr.0.last());
        }
        return Ok(info);
    }

    let info = LNCTestInfo::new(test, output.stack.as_slice(), ins_count, TestResult::Passed);
    proof {
        let tr = lemma_genuine_run_destruct(
            mem@,
            in0,
            out0,
            machine_end,
            in1,
            out1,
            ins_count as int,
            end_snap,
        );
        lemma_test_run_evidence_witness(tr.0, tr.1, tr.2, mem@, test@, info, tr.0.last());
    }
    Ok(info)
}

} // verus!
