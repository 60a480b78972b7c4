use lnc::harness::{run_test, TestFailure, TestResult};
use lnc::interpreter::{Interpreter, StepError};
use lnc::make_program;
use lnc::parse::LNCTest;
use lnc::text::decimal_string;
use lnc::vec_io::{QueueInput, SilentLog, StackOutput};

const COUNTDOWN: &str = "inp
loop: out
sub one
sto count
brp loop
hlt
one: dat 1
count: dat 0";

fn run_to_halt(
    mem: [usize; 100],
    inputs: &[usize],
) -> Result<(Interpreter, QueueInput, StackOutput), StepError> {
    let mut input = QueueInput::new(inputs).unwrap();
    let mut output = StackOutput::new();
    let mut logger = SilentLog;
    let mut interpreter = Interpreter::new(mem);
    let mut steps = 0usize;
    while !interpreter.is_halted() {
        assert!(interpreter.pc() < 100, "program ran off the end of memory");
        assert!(steps < 1_000_000, "program did not halt");
        interpreter.step(&mut input, &mut output, &mut logger)?;
        steps += 1;
    }
    Ok((interpreter, input, output))
}

#[test]
fn countdown_image() {
    // The image holds each instruction's encoding at its own address
    // and zeros everywhere past the program.
    let program = make_program(COUNTDOWN).unwrap();
    let expected_start = [901, 902, 206, 307, 801, 0, 1, 0];
    assert_eq!(&program.mem[..8], &expected_start);
    for cell in program.mem.iter().skip(8) {
        assert_eq!(*cell, 0);
    }
    assert_eq!(program.parse_info.label_map.get("loop"), Some(1));
    assert_eq!(program.parse_info.label_map.get("one"), Some(6));
    assert_eq!(program.parse_info.label_map.get("count"), Some(7));
}

#[test]
fn countdown_runs() {
    // Given input 3 the countdown program emits 3, 2, 1, 0 and halts.
    let program = make_program(COUNTDOWN).unwrap();
    let (interpreter, input, output) = run_to_halt(program.mem, &[3]).unwrap();
    assert_eq!(output.stack, vec![3, 2, 1, 0]);
    assert!(interpreter.is_halted());
    assert!(input.is_empty());
}

#[test]
fn halting_is_sticky() {
    // Once halted, further steps change nothing and consume no input.
    let program = make_program("hlt").unwrap();
    let mut input = QueueInput::new(&[7]).unwrap();
    let mut output = StackOutput::new();
    let mut logger = SilentLog;
    let mut interpreter = Interpreter::new(program.mem);
    interpreter.step(&mut input, &mut output, &mut logger).unwrap();
    assert!(interpreter.is_halted());
    let (pc, acc, neg) = (interpreter.pc(), interpreter.acc(), interpreter.neg_flag());
    let mem = interpreter.memory();
    for _ in 0..5 {
        interpreter.step(&mut input, &mut output, &mut logger).unwrap();
        assert!(interpreter.is_halted());
        assert_eq!(interpreter.pc(), pc);
        assert_eq!(interpreter.acc(), acc);
        assert_eq!(interpreter.neg_flag(), neg);
        assert_eq!(interpreter.memory(), mem);
    }
    assert_eq!(input.len(), 1);
    assert!(output.stack.is_empty());
}

#[test]
fn add_wraps_and_clears_neg_flag() {
    // 999 + 2 wraps to 1; the accumulator never reaches 1000, and an
    // addition clears the negative flag a subtraction had set.
    let source = "lda big
sub one
lda big
add two
out
hlt
big: dat 999
one: dat 1
two: dat 2";
    let program = make_program(source).unwrap();
    let mut input = QueueInput::new(&[]).unwrap();
    let mut output = StackOutput::new();
    let mut logger = SilentLog;
    let mut interpreter = Interpreter::new(program.mem);
    // lda big; sub one: 999 - 1, not negative.
    interpreter.step(&mut input, &mut output, &mut logger).unwrap();
    interpreter.step(&mut input, &mut output, &mut logger).unwrap();
    assert_eq!(interpreter.acc(), 998);
    assert!(!interpreter.neg_flag());
    // lda big; add two: wraps to 1.
    interpreter.step(&mut input, &mut output, &mut logger).unwrap();
    interpreter.step(&mut input, &mut output, &mut logger).unwrap();
    assert_eq!(interpreter.acc(), 1);
    assert!(interpreter.acc() < 1000);
    assert!(!interpreter.neg_flag());
}

#[test]
fn sub_wraps_and_sets_neg_flag() {
    // 5 - 7 wraps to 998 and sets the negative flag.
    let source = "lda five
sub seven
hlt
five: dat 5
seven: dat 7";
    let program = make_program(source).unwrap();
    let (interpreter, _, _) = run_to_halt(program.mem, &[]).unwrap();
    assert_eq!(interpreter.acc(), 998);
    assert!(interpreter.neg_flag());
}

#[test]
fn brp_taken_on_zero() {
    // After a subtraction that lands exactly on zero the negative flag
    // is clear, so branch-positive is taken.
    let source = "lda one
sub one
brp taken
out
hlt
taken: hlt
one: dat 1";
    let program = make_program(source).unwrap();
    let (interpreter, _, output) = run_to_halt(program.mem, &[]).unwrap();
    assert_eq!(interpreter.acc(), 0);
    assert!(!interpreter.neg_flag());
    // The branch skipped the out instruction.
    assert!(output.stack.is_empty());
    assert_eq!(interpreter.pc(), 6);
}

#[test]
fn brp_not_taken_when_negative() {
    let source = "lda one
sub two
brp skipped
out
hlt
skipped: hlt
one: dat 1
two: dat 2";
    let program = make_program(source).unwrap();
    let (_, _, output) = run_to_halt(program.mem, &[]).unwrap();
    // The branch fell through, so the wrapped value was printed.
    assert_eq!(output.stack, vec![999]);
}

#[test]
fn brz_taken_only_on_zero() {
    // Branch-if-zero reads the accumulator alone.
    let source = "lda one
sub one
brz end
out
end: hlt
one: dat 1";
    let program = make_program(source).unwrap();
    let (_, _, output) = run_to_halt(program.mem, &[]).unwrap();
    assert!(output.stack.is_empty());

    let source = "lda one
brz end
out
end: hlt
one: dat 1";
    let program = make_program(source).unwrap();
    let (_, _, output) = run_to_halt(program.mem, &[]).unwrap();
    assert_eq!(output.stack, vec![1]);
}

#[test]
fn undefined_instruction_fails_step() {
    // Executing a data word whose class/operand pair names no
    // operation fails the step without halting the machine.
    let program = make_program("dat 403").unwrap();
    let err = run_to_halt(program.mem, &[]).unwrap_err();
    assert_eq!(
        err,
        StepError::Undefined {
            class: 4,
            operand: 3
        }
    );
}

#[test]
fn input_exhaustion_fails_step() {
    let program = make_program("inp\nhlt").unwrap();
    let err = run_to_halt(program.mem, &[]).unwrap_err();
    assert_eq!(err, StepError::Input("error: input queue is empty!".into()));
}

#[test]
fn inline_test_passes() {
    // Scenario: the countdown program with the declared test
    // `.t1 [5] [5,4,3,2,1,0]` passes.
    let source = format!(".t1 [5] [5,4,3,2,1,0]\n{COUNTDOWN}");
    let program = make_program(&source).unwrap();
    let tests = &program.parse_info.tests;
    assert_eq!(tests.len(), 1);
    assert_eq!(tests[0].name, "t1");
    let mut logger = SilentLog;
    let info = run_test(program.mem, &tests[0], &mut logger).unwrap();
    assert_eq!(info.result, TestResult::Passed);
    assert_eq!(info.actual_output, vec![5, 4, 3, 2, 1, 0]);
    assert_eq!(info.name, "t1");
}

#[test]
fn trailing_comma_parses_identically() {
    // Scenario: `.t2 [2] [2,1,0,]` parses exactly as `[2,1,0]` would.
    let with_comma = make_program(&format!(".t2 [2] [2,1,0,]\n{COUNTDOWN}")).unwrap();
    let without_comma = make_program(&format!(".t2 [2] [2,1,0]\n{COUNTDOWN}")).unwrap();
    assert_eq!(
        with_comma.parse_info.tests[0],
        without_comma.parse_info.tests[0]
    );
    assert_eq!(with_comma.parse_info.tests[0].outputs, vec![2, 1, 0]);
}

#[test]
fn inline_test_failures_are_classified() {
    let mut logger = SilentLog;

    // Unused inputs remain queued after the halt.
    let source = format!(".t [5, 6] [5, 4, 3, 2, 1, 0]\n{COUNTDOWN}");
    let program = make_program(&source).unwrap();
    let info = run_test(program.mem, &program.parse_info.tests[0], &mut logger).unwrap();
    assert_eq!(
        info.result,
        TestResult::Failed(TestFailure::UnusedInputs(vec![6]))
    );

    // The captured outputs differ from the declared expectation.
    let source = format!(".t [2] [9, 9]\n{COUNTDOWN}");
    let program = make_program(&source).unwrap();
    let info = run_test(program.mem, &program.parse_info.tests[0], &mut logger).unwrap();
    assert_eq!(info.result, TestResult::Failed(TestFailure::IncorrectOutputs));
    assert_eq!(info.actual_output, vec![2, 1, 0]);

    // A step failure carries the step's error.
    let program = make_program("dat 403").unwrap();
    let test = LNCTest {
        name: "t".into(),
        inputs: vec![],
        outputs: vec![],
    };
    let info = run_test(program.mem, &test, &mut logger).unwrap();
    assert_eq!(
        info.result,
        TestResult::Failed(TestFailure::Step(StepError::Undefined {
            class: 4,
            operand: 3
        }))
    );

    // A declared input past the word bound fails the run itself.
    let test = LNCTest {
        name: "t".into(),
        inputs: vec![1000],
        outputs: vec![],
    };
    let err = run_test(program.mem, &test, &mut logger).unwrap_err();
    assert_eq!(err, "error: input number (1000) is too large");
}

#[test]
fn running_off_memory_is_reported() {
    // A store can plant an instruction in the last cell; executing it
    // drives the program counter past the end of memory without a
    // halt, which the harness reports as a failure.
    let source = "lda code
sto 99
bra 99
code: dat 501";
    let program = make_program(source).unwrap();
    let test = LNCTest {
        name: "t".into(),
        inputs: vec![],
        outputs: vec![],
    };
    let mut logger = SilentLog;
    let info = run_test(program.mem, &test, &mut logger).unwrap();
    assert_eq!(info.result, TestResult::Failed(TestFailure::PcOutOfRange));
}

#[test]
fn undefined_label_fails_assembly() {
    // Scenario: `lda undefined_label` fails with an undefined-label
    // diagnostic and no image is produced.
    let errs = make_program("lda undefined_label").unwrap_err();
    assert!(errs.lex.is_empty());
    assert!(errs.parse.is_empty());
    assert_eq!(
        errs.assembly,
        Some(lnc::assembler::AsmError::UndefinedLabel(
            "undefined_label".into()
        ))
    );
    assert_eq!(errs.message(), "Label 'undefined_label' is not defined");
}

#[test]
fn instruction_count_ceiling() {
    // Scenario: a 100th instruction fails assembly with an explicit
    // over-capacity diagnostic, while 99 instructions succeed.
    let too_many = "hlt\n".repeat(100);
    let errs = make_program(&too_many).unwrap_err();
    assert_eq!(
        errs.assembly,
        Some(lnc::assembler::AsmError::TooManyInstructions(100))
    );
    assert_eq!(errs.message(), "Too many instructions: 100 > 100");

    let just_fits = "hlt\n".repeat(99);
    let program = make_program(&just_fits).unwrap();
    assert_eq!(program.mem, [0; 100]);
}

#[test]
fn aggregate_diagnostics() {
    // Scenario: a keyword used as a label and a number at statement
    // start each produce one line-scoped diagnostic, and a file with
    // both reports both in one aggregate message.
    let errs = make_program("add:").unwrap_err();
    assert_eq!(errs.lex.len(), 1);
    assert!(errs.parse.is_empty());

    let errs = make_program("99 99").unwrap_err();
    assert!(errs.lex.is_empty());
    assert_eq!(errs.parse.len(), 1);

    let errs = make_program("add:\n99 99").unwrap_err();
    assert_eq!(errs.lex.len(), 1);
    assert_eq!(errs.parse.len(), 1);
    assert_eq!(errs.lex[0].line, 0);
    assert_eq!(errs.parse[0].line, 1);
    assert_eq!(
        errs.message(),
        "error @ line 0: cannot use keyword \"add\" as label name\n\
         error @ line 1: found number (99) instead of instruction/label def"
    );
}

#[test]
fn decimal_rendering() {
    assert_eq!(decimal_string(0), "0");
    assert_eq!(decimal_string(7), "7");
    assert_eq!(decimal_string(42), "42");
    assert_eq!(decimal_string(907), "907");
    assert_eq!(decimal_string(1000), "1000");
    assert_eq!(decimal_string(usize::MAX), usize::MAX.to_string());
}

#[test]
fn store_writes_memory() {
    // A store writes exactly one cell, read back after the run.
    let source = "lda five
sto 50
hlt
five: dat 5";
    let program = make_program(source).unwrap();
    let (interpreter, _, _) = run_to_halt(program.mem, &[]).unwrap();
    let mem = interpreter.memory();
    assert_eq!(mem[50], 5);
    assert_eq!(mem[3], 5);
    // Cells the program neither holds nor stored to stay zero.
    assert_eq!(mem[4], 0);
    assert_eq!(mem[99], 0);
}
