//! The stored-program interpreter: a fetch-decode-execute step over a
//! 100-word memory image, with a program counter, an accumulator, a
//! negative flag and a halted flag.  Input, output and tracing go through
//! injected ports.

use vstd::prelude::*;

use crate::{MEMORY_SIZE, WORD_BOUND};

verus! {

/// A structured trace event, emitted through the injected [`Log`] port
/// before and after each operation's effect.  Trace events carry no
/// control-flow significance.
#[derive(Clone, Copy, Debug)]
pub enum TraceEvent {
    /// A `step` call on an already-halted machine (a benign no-op).
    HaltedStep,
    /// An instruction word was fetched from the given address.
    Fetch { code: usize, addr: usize },
    /// The accumulator is loaded from memory.
    Load { addr: usize },
    /// The accumulator is stored to memory.
    Store { addr: usize },
    /// The accumulator is increased by a memory cell, modulo 1000.
    Add { addr: usize },
    /// An addition wrapped past the word bound.
    Overflow { acc: usize, operand_value: usize },
    /// The accumulator is decreased by a memory cell, wrapping into range.
    Subtract { addr: usize },
    /// A subtraction went below zero.
    Underflow { acc: usize, operand_value: usize },
    /// The negative flag was set by a subtraction.
    NegFlagSet,
    /// A value is requested from the input port.
    Input,
    /// The value obtained from the input port.
    InputValue { value: usize },
    /// The accumulator is pushed to the output port.
    Output,
    /// The value pushed to the output port.
    OutputValue { value: usize },
    /// The machine halts.
    Halt,
    /// Branch if the accumulator is zero.
    BranchZero { addr: usize },
    /// Branch if the negative flag is clear.
    BranchPositive { addr: usize },
    /// Branch unconditionally.
    BranchAlways { addr: usize },
}

/// Why a `step` call failed.  A failed step never sets the halted flag;
/// the caller decides whether the failure ends the run.
#[derive(Clone, Debug, PartialEq, Eq)]
pub enum StepError {
    /// The fetched word's class/operand pair names no operation.
    Undefined { class: usize, operand: usize },
    /// The input port failed; its message is carried through.
    Input(String),
}

/// A value admitted through the input port: always below [`WORD_BOUND`].
#[derive(Debug)]
pub struct LNCInput {
    value: usize,
}

impl LNCInput {
    #[verifier::type_invariant]
    spec fn type_inv(self) -> bool {
        self.value < WORD_BOUND
    }

    /// The value carried.
    pub closed spec fn spec_value(&self) -> usize {
        self.value
    }

    /// Admit a value, refusing anything at or above [`WORD_BOUND`].
    pub fn new(num: usize) -> (r: Option<LNCInput>)
        ensures
            num < WORD_BOUND ==> (r matches Some(v) && v.spec_value() == num),
            num >= WORD_BOUND ==> r is None,
    {
        if num < WORD_BOUND {
            Some(LNCInput { value: num })
        } else {
            None
        }
    }

    /// Read the value back out.
    pub fn value(&self) -> (n: usize)
        ensures
            n == self.spec_value(),
            n < WORD_BOUND,
    {
        proof {
            use_type_invariant(self);
        }
        self.value
    }
}

/// The input port: a capability that yields one admitted value per call,
/// or fails with a descriptive message.  `pending` is the queue of values
/// the source will yield, oldest first; a successful `take` yields and
/// removes the oldest.
pub trait Input {
    /// The values this source has left to yield, oldest first.
    ///
    /// The default is the empty queue, under which the contract below
    /// never admits a successful `take`: a source whose values cannot
    /// be known ahead of time — an interactive reader, say — keeps the
    /// default only to satisfy the trait for unverified callers, and
    /// nothing is then proved about runs that use it.
    open spec fn pending(&self) -> Seq<usize> {
        Seq::empty()
    }

    /// Whether this source is exhausted-fail-only: it succeeds whenever
    /// values are pending, fails with its one fixed message otherwise,
    /// and stays that way.  A pre-seeded queue is; an interactive
    /// reader, which can fail for reasons of its own, keeps the
    /// default.
    open spec fn reliable(&self) -> bool {
        false
    }

    /// The one message an exhausted-fail-only source fails with.
    open spec fn failure_message(&self) -> Seq<char> {
        Seq::empty()
    }

    /// Yield the next value, or fail with a descriptive message.
    fn take(&mut self) -> (r: Result<LNCInput, String>)
        ensures
            r matches Ok(v) ==> old(self).pending().len() > 0
                && v.spec_value() == old(self).pending()[0]
                && final(self).pending() == old(self).pending().drop_first(),
            r is Err ==> final(self).pending() == old(self).pending(),
            final(self).reliable() == old(self).reliable(),
            final(self).failure_message() == old(self).failure_message(),
            old(self).reliable() ==> (old(self).pending().len() > 0 ==> r is Ok),
            old(self).reliable() ==> (r matches Err(m) ==> m@ == old(self).failure_message()),
    ;
}

/// The output port: a capability that accepts one in-range value per call.
pub trait Output {
    /// The values accepted so far, in order.  A sink that does not
    /// record them — a printing sink, say — may leave this at its
    /// default; nothing is then known of what it received.
    open spec fn captured(&self) -> Seq<usize> {
        Seq::empty()
    }

    /// Accept one value.
    fn send(&mut self, val: usize)
        requires
            val < WORD_BOUND,
        ensures
            final(self).captured() == old(self).captured().push(val),
    ;
}

/// The logger port: accepts trace events.  Logging has no effect on the
/// machine, so no contract is stated.
pub trait Log {
    /// Accept one trace event.
    fn log(&mut self, event: TraceEvent);
}

/// The interpreter's visible state, as one mathematical value.
pub ghost struct MachineState {
    /// The 100 memory cells.
    pub mem: Seq<usize>,
    /// The program counter.
    pub pc: usize,
    /// The accumulator.
    pub acc: usize,
    /// Set by a subtraction whose true signed result was negative;
    /// cleared by an addition; read by the branch-positive operation.
    pub neg_flag: bool,
    /// Once set, never cleared.
    pub halted: bool,
}

impl MachineState {
    /// The machine's invariant: memory has exactly [`MEMORY_SIZE`] cells,
    /// every stored value and the accumulator are below [`WORD_BOUND`],
    /// and the program counter never passes the end of memory.
    pub open spec fn wf(self) -> bool {
        &&& self.mem.len() == MEMORY_SIZE
        &&& forall|i: int| 0 <= i < self.mem.len() ==> self.mem[i] < WORD_BOUND
        &&& self.acc < WORD_BOUND
        &&& self.pc <= MEMORY_SIZE
    }
}

/// The class of an encoded instruction: its hundreds digit group.
pub open spec fn instruction_class(code: usize) -> usize {
    code / 100
}

/// The operand of an encoded instruction: its last two digits.
pub open spec fn instruction_operand(code: usize) -> usize {
    code % 100
}

/// The accumulator after an addition: wraps modulo [`WORD_BOUND`].
pub open spec fn add_result(acc: usize, operand_value: usize) -> usize {
    ((acc + operand_value) % (WORD_BOUND as int)) as usize
}

/// The accumulator after a subtraction: the true signed difference,
/// wrapped into `[0, WORD_BOUND)`.
pub open spec fn sub_result(acc: usize, operand_value: usize) -> usize {
    ((acc - operand_value + WORD_BOUND) % (WORD_BOUND as int)) as usize
}

/// Whether a subtraction sets the negative flag: exactly when the true
/// signed difference is negative.
pub open spec fn sub_negative(acc: usize, operand_value: usize) -> bool {
    acc < operand_value
}

/// An addition never produces an accumulator at or above
/// [`WORD_BOUND`], whatever in-range values it starts from.
pub proof fn lemma_add_result_in_range(acc: usize, operand_value: usize)
    ensures
        add_result(acc, operand_value) < WORD_BOUND,
{
}

/// A subtraction always leaves the accumulator in range, and reports a
/// negative exactly when the true signed difference is below zero.
pub proof fn lemma_sub_result_in_range(acc: usize, operand_value: usize)
    requires
        acc < WORD_BOUND,
        operand_value < WORD_BOUND,
    ensures
        sub_result(acc, operand_value) < WORD_BOUND,
        sub_negative(acc, operand_value) == (acc - operand_value < 0),
{
}

/// The full fetch-decode-execute relation of one `step` call, between the
/// machine states and port contents before and after.
///
/// On a halted machine a step changes nothing and consults no port.  An
/// addition never leaves the accumulator at or above [`WORD_BOUND`] and
/// always clears the negative flag; a subtraction leaves it in range and
/// sets the flag exactly when the true difference was negative; the
/// branch-positive operation is taken exactly when the negative flag is
/// clear, which includes an accumulator equal to zero.
pub open spec fn step_rel(
    pre: MachineState,
    post: MachineState,
    in_pre: Seq<usize>,
    in_post: Seq<usize>,
    out_pre: Seq<usize>,
    out_post: Seq<usize>,
    r: Result<(), StepError>,
) -> bool {
    if pre.halted {
        post == pre && in_post == in_pre && out_post == out_pre && r is Ok
    } else {
        let code = pre.mem[pre.pc as int];
        let class = instruction_class(code);
        let operand = instruction_operand(code);
        let next_pc = (pre.pc + 1) as usize;
        let fetched = MachineState { pc: next_pc, ..pre };
        if class == 5 {
            r is Ok && post == (MachineState { acc: pre.mem[operand as int], ..fetched })
                && in_post == in_pre && out_post == out_pre
        } else if class == 3 {
            r is Ok && post == (MachineState { mem: pre.mem.update(operand as int, pre.acc), ..fetched })
                && in_post == in_pre && out_post == out_pre
        } else if class == 1 {
            r is Ok && post == (MachineState {
                acc: add_result(pre.acc, pre.mem[operand as int]),
                neg_flag: false,
                ..fetched
            }) && in_post == in_pre && out_post == out_pre
        } else if class == 2 {
            r is Ok && post == (MachineState {
                acc: sub_result(pre.acc, pre.mem[operand as int]),
                neg_flag: sub_negative(pre.acc, pre.mem[operand as int]),
                ..fetched
            }) && in_post == in_pre && out_post == out_pre
        } else if class == 9 && operand == 1 {
            out_post == out_pre && match r {
                Ok(u) => in_pre.len() > 0
                    && post == (MachineState { acc: in_pre[0], ..fetched })
                    && in_post == in_pre.drop_first(),
                Err(e) => e is Input && post == fetched && in_post == in_pre,
            }
        } else if class == 9 && operand == 2 {
            r is Ok && post == fetched && in_post == in_pre
                && out_post == out_pre.push(pre.acc)
        } else if class == 0 && operand == 0 {
            r is Ok && post == (MachineState { halted: true, ..fetched })
                && in_post == in_pre && out_post == out_pre
        } else if class == 7 {
            r is Ok && post == (MachineState {
                pc: if pre.acc == 0 { operand } else { next_pc },
                ..pre
            }) && in_post == in_pre && out_post == out_pre
        } else if class == 8 {
            r is Ok && post == (MachineState {
                pc: if !pre.neg_flag { operand } else { next_pc },
                ..pre
            }) && in_post == in_pre && out_post == out_pre
        } else if class == 6 {
            r is Ok && post == (MachineState { pc: operand, ..pre })
                && in_post == in_pre && out_post == out_pre
        } else {
            r == Result::<(), StepError>::Err(StepError::Undefined { class, operand })
                && post == fetched && in_post == in_pre && out_post == out_pre
        }
    }
}

/// How a run over a memory image ended.
#[derive(Debug, PartialEq, Eq, Clone)]
pub enum RunEnd {
    /// The machine halted.
    Halted,
    /// A step failed; carries the step's error.  A failed step is fatal
    /// to the run: there is no retry.
    Step(StepError),
    /// The program counter ran past the end of memory without halting;
    /// such a machine cannot be stepped.
    PcOutOfRange,
    /// The step counter reached its maximum.
    StepLimit,
}

/// A completed run: the machine as it ended, how many steps ran, and
/// how it ended.
pub struct RunOutcome {
    /// The machine as the run left it, for state introspection.
    pub machine: Interpreter,
    /// How many steps ran.
    pub steps: usize,
    /// How the run ended.
    pub end: RunEnd,
}

/// Halting is sticky: a step of a halted machine succeeds, changes no
/// part of the state, and consults no port.
pub proof fn lemma_halted_step_is_noop(
    pre: MachineState,
    post: MachineState,
    in_pre: Seq<usize>,
    in_post: Seq<usize>,
    out_pre: Seq<usize>,
    out_post: Seq<usize>,
    r: Result<(), StepError>,
)
    requires
        pre.halted,
        step_rel(pre, post, in_pre, in_post, out_pre, out_post, r),
    ensures
        post == pre,
        in_post == in_pre,
        out_post == out_pre,
        r is Ok,
{
}

/// An addition step never leaves the accumulator at or above
/// [`WORD_BOUND`], and always clears the negative flag.
pub proof fn lemma_add_step(
    pre: MachineState,
    post: MachineState,
    in_pre: Seq<usize>,
    in_post: Seq<usize>,
    out_pre: Seq<usize>,
    out_post: Seq<usize>,
    r: Result<(), StepError>,
)
    requires
        !pre.halted,
        instruction_class(pre.mem[pre.pc as int]) == 1,
        step_rel(pre, post, in_pre, in_post, out_pre, out_post, r),
    ensures
        post.acc < WORD_BOUND,
        !post.neg_flag,
{
}

/// A subtraction step always leaves the accumulator in range, and sets
/// the negative flag exactly when the true signed difference was
/// negative.
pub proof fn lemma_sub_step(
    pre: MachineState,
    post: MachineState,
    in_pre: Seq<usize>,
    in_post: Seq<usize>,
    out_pre: Seq<usize>,
    out_post: Seq<usize>,
    r: Result<(), StepError>,
)
    requires
        !pre.halted,
        instruction_class(pre.mem[pre.pc as int]) == 2,
        step_rel(pre, post, in_pre, in_post, out_pre, out_post, r),
    ensures
        post.acc < WORD_BOUND,
        post.neg_flag == (pre.acc - pre.mem[instruction_operand(pre.mem[pre.pc as int]) as int]
            < 0),
{
}

/// A branch-positive step is taken exactly when the negative flag is
/// clear: only the flag is read, so an accumulator equal to zero
/// branches like any other non-negative state.
pub proof fn lemma_brp_taken_iff_flag_clear(
    pre: MachineState,
    post: MachineState,
    in_pre: Seq<usize>,
    in_post: Seq<usize>,
    out_pre: Seq<usize>,
    out_post: Seq<usize>,
    r: Result<(), StepError>,
)
    requires
        !pre.halted,
        instruction_class(pre.mem[pre.pc as int]) == 8,
        step_rel(pre, post, in_pre, in_post, out_pre, out_post, r),
    ensures
        r is Ok,
        post.pc == if !pre.neg_flag {
            instruction_operand(pre.mem[pre.pc as int])
        } else {
            (pre.pc + 1) as usize
        },
{
}

/// Only a store step writes memory: any other step leaves every cell
/// as it was.
pub proof fn lemma_only_store_writes(
    pre: MachineState,
    post: MachineState,
    in_pre: Seq<usize>,
    in_post: Seq<usize>,
    out_pre: Seq<usize>,
    out_post: Seq<usize>,
    r: Result<(), StepError>,
)
    requires
        step_rel(pre, post, in_pre, in_post, out_pre, out_post, r),
        pre.halted || instruction_class(pre.mem[pre.pc as int]) != 3,
    ensures
        post.mem == pre.mem,
{
}

/// A store step writes exactly its operand's cell, with the
/// accumulator's value, and leaves every other cell as it was.
pub proof fn lemma_store_writes_one_cell(
    pre: MachineState,
    post: MachineState,
    in_pre: Seq<usize>,
    in_post: Seq<usize>,
    out_pre: Seq<usize>,
    out_post: Seq<usize>,
    r: Result<(), StepError>,
)
    requires
        pre.wf(),
        !pre.halted,
        instruction_class(pre.mem[pre.pc as int]) == 3,
        step_rel(pre, post, in_pre, in_post, out_pre, out_post, r),
    ensures
        post.mem[instruction_operand(pre.mem[pre.pc as int]) as int] == pre.acc,
        forall|i: int| 0 <= i < pre.mem.len() && i != instruction_operand(
            pre.mem[pre.pc as int],
        ) as int ==> post.mem[i] == pre.mem[i],
{
}

/// The interpreter: the machine's state, stepped over a memory image.
/// The ports are injected anew at each step; the state is mutated
/// exclusively by [`Interpreter::step`].
#[derive(Debug)]
pub struct Interpreter {
    mem: [usize; MEMORY_SIZE],
    pc: usize,
    acc: usize,
    neg_flag: bool,
    halted: bool,
}

impl View for Interpreter {
    type V = MachineState;

    closed spec fn view(&self) -> MachineState {
        MachineState {
            mem: self.mem@,
            pc: self.pc,
            acc: self.acc,
            neg_flag: self.neg_flag,
            halted: self.halted,
        }
    }
}

impl Interpreter {
    /// A fresh machine over the given image: program counter and
    /// accumulator at zero, both flags clear.
    pub fn new(mem: [usize; MEMORY_SIZE]) -> (r: Interpreter)
        requires
            forall|i: int| 0 <= i < MEMORY_SIZE ==> mem@[i] < WORD_BOUND,
        ensures
            r@ == (MachineState { mem: mem@, pc: 0, acc: 0, neg_flag: false, halted: false }),
            r@.wf(),
    {
        Interpreter { mem, pc: 0, acc: 0, neg_flag: false, halted: false }
    }

    /// Whether the machine has halted.
    pub fn is_halted(&self) -> (b: bool)
        ensures
            b == self@.halted,
    {
        self.halted
    }

    /// The program counter.
    pub fn pc(&self) -> (n: usize)
        ensures
            n == self@.pc,
    {
        self.pc
    }

    /// The accumulator.
    pub fn acc(&self) -> (n: usize)
        ensures
            n == self@.acc,
    {
        self.acc
    }

    /// The negative flag.
    pub fn neg_flag(&self) -> (b: bool)
        ensures
            b == self@.neg_flag,
    {
        self.neg_flag
    }

    /// A copy of the full memory, for state introspection.
    pub fn memory(&self) -> (m: [usize; MEMORY_SIZE])
        ensures
            m@ == self@.mem,
    {
        self.mem
    }

    /// One fetch-decode-execute step, related to the prior state by
    /// [`step_rel`].  A step on a halted machine is a benign no-op; a
    /// failed step leaves the halted flag unchanged.
    pub fn step<I: Input, O: Output, L: Log>(
        &mut self,
        input: &mut I,
        output: &mut O,
        logger: &mut L,
    ) -> (r: Result<(), StepError>)
        requires
            old(self)@.wf(),
            !old(self)@.halted ==> old(self)@.pc < MEMORY_SIZE,
        ensures
            final(self)@.wf(),
            step_rel(
                old(self)@,
                final(self)@,
                old(input).pending(),
                final(input).pending(),
                old(output).captured(),
                final(output).captured(),
                r,
            ),
            final(input).reliable() == old(input).reliable(),
            final(input).failure_message() == old(input).failure_message(),
            old(input).reliable() ==> (r matches Err(e) ==> (e matches StepError::Input(m)
                ==> old(input).pending().len() == 0 && m@ == old(input).failure_message())),
    {
        if self.halted {
            logger.log(TraceEvent::HaltedStep);
            return Ok(());
        }

        let code = self.mem[self.pc];
        logger.log(TraceEvent::Fetch { code, addr: self.pc });
        self.pc = self.pc + 1;

        let class = code / 100;
        let operand = code % 100;

        match class {
            5 => {
                self.lda(operand, logger);
                Ok(())
            }
            3 => {
                self.sto(operand, logger);
                Ok(())
            }
            1 => {
                self.add(operand, logger);
                Ok(())
            }
            2 => {
                self.sub(operand, logger);
                Ok(())
            }
            9 => {
                if operand == 1 {
                    self.inp(input, logger)
                } else if operand == 2 {
                    self.out(output, logger);
                    Ok(())
                } else {
                    Err(StepError::Undefined { class, operand })
                }
            }
            0 => {
                if operand == 0 {
                    self.hlt(logger);
                    Ok(())
                } else {
                    Err(StepError::Undefined { class, operand })
                }
            }
            7 => {
                self.brz(operand, logger);
                Ok(())
            }
            8 => {
                self.brp(operand, logger);
                Ok(())
            }
            6 => {
                self.bra(operand, logger);
                Ok(())
            }
            _ => Err(StepError::Undefined { class, operand }),
        }
    }

    /// Load: the accumulator takes the addressed cell's value.
    fn lda<L: Log>(&mut self, addr: usize, logger: &mut L)
        requires
            old(self)@.wf(),
            addr < MEMORY_SIZE,
        ensures
            final(self)@ == (MachineState { acc: old(self)@.mem[addr as int], ..old(self)@ }),
    {
        logger.log(TraceEvent::Load { addr });
        self.acc = self.mem[addr];
    }

    /// Store: the addressed cell takes the accumulator's value.
    fn sto<L: Log>(&mut self, addr: usize, logger: &mut L)
        requires
            old(self)@.wf(),
            addr < MEMORY_SIZE,
        ensures
            final(self)@ == (MachineState {
                mem: old(self)@.mem.update(addr as int, old(self)@.acc),
                ..old(self)@
            }),
    {
        logger.log(TraceEvent::Store { addr });
        self.mem[addr] = self.acc;
    }

    /// Input: the accumulator takes the next value from the input port;
    /// the port's failure is propagated and changes no machine state.
    fn inp<I: Input, L: Log>(&mut self, input: &mut I, logger: &mut L) -> (r: Result<
        (),
        StepError,
    >)
        ensures
            match r {
                Ok(u) => old(input).pending().len() > 0
                    && final(self)@ == (MachineState {
                        acc: old(input).pending()[0],
                        ..old(self)@
                    })
                    && final(self)@.acc < WORD_BOUND
                    && final(input).pending() == old(input).pending().drop_first(),
                Err(e) => e is Input && *final(self) == *old(self)
                    && final(input).pending() == old(input).pending(),
            },
            final(input).reliable() == old(input).reliable(),
            final(input).failure_message() == old(input).failure_message(),
            old(input).reliable() ==> (r matches Err(e) ==> (e matches StepError::Input(m)
                ==> old(input).pending().len() == 0 && m@ == old(input).failure_message())),
    {
        logger.log(TraceEvent::Input);
        match input.take() {
            Ok(v) => {
                let value = v.value();
                logger.log(TraceEvent::InputValue { value });
                self.acc = value;
                Ok(())
            }
            Err(m) => Err(StepError::Input(m)),
        }
    }

    /// Output: the accumulator's value is pushed to the output port.
    fn out<O: Output, L: Log>(&mut self, output: &mut O, logger: &mut L)
        requires
            old(self)@.wf(),
        ensures
            *final(self) == *old(self),
            final(output).captured() == old(output).captured().push(old(self)@.acc),
    {
        logger.log(TraceEvent::Output);
        logger.log(TraceEvent::OutputValue { value: self.acc });
        output.send(self.acc);
    }

    /// Halt: sets the halted flag, which is never cleared again.
    fn hlt<L: Log>(&mut self, logger: &mut L)
        ensures
            final(self)@ == (MachineState { halted: true, ..old(self)@ }),
    {
        logger.log(TraceEvent::Halt);
        self.halted = true;
    }

    /// Add: the accumulator takes the sum modulo [`WORD_BOUND`], and the
    /// negative flag is cleared.  The result is always in range.
    fn add<L: Log>(&mut self, addr: usize, logger: &mut L)
        requires
            old(self)@.wf(),
            addr < MEMORY_SIZE,
        ensures
            final(self)@ == (MachineState {
                acc: add_result(old(self)@.acc, old(self)@.mem[addr as int]),
                neg_flag: false,
                ..old(self)@
            }),
            final(self)@.acc < WORD_BOUND,
    {
        logger.log(TraceEvent::Add { addr });
        let operand_value = self.mem[addr];
        let new_val = self.acc + operand_value;
        if new_val >= WORD_BOUND {
            logger.log(TraceEvent::Overflow { acc: self.acc, operand_value });
        }
        self.acc = new_val % WORD_BOUND;
        self.neg_flag = false;
    }

    /// Subtract: the accumulator takes the difference wrapped into range,
    /// and the negative flag records whether the true signed difference
    /// was negative.
    fn sub<L: Log>(&mut self, addr: usize, logger: &mut L)
        requires
            old(self)@.wf(),
            addr < MEMORY_SIZE,
        ensures
            final(self)@ == (MachineState {
                acc: sub_result(old(self)@.acc, old(self)@.mem[addr as int]),
                neg_flag: sub_negative(old(self)@.acc, old(self)@.mem[addr as int]),
                ..old(self)@
            }),
            final(self)@.acc < WORD_BOUND,
    {
        logger.log(TraceEvent::Subtract { addr });
        let operand_value = self.mem[addr];
        let is_negative = self.acc < operand_value;
        self.neg_flag = is_negative;
        if is_negative {
            logger.log(TraceEvent::Underflow { acc: self.acc, operand_value });
            logger.log(TraceEvent::NegFlagSet);
        }
        self.acc = if self.acc >= operand_value {
            self.acc - operand_value
        } else {
            WORD_BOUND - (operand_value - self.acc)
        };
    }

    /// Branch if zero: the program counter takes the operand exactly when
    /// the accumulator is zero.
    fn brz<L: Log>(&mut self, addr: usize, logger: &mut L)
        requires
            addr < MEMORY_SIZE,
        ensures
            final(self)@ == (MachineState {
                pc: if old(self)@.acc == 0 { addr } else { old(self)@.pc },
                ..old(self)@
            }),
    {
        logger.log(TraceEvent::BranchZero { addr });
        if self.acc == 0 {
            self.pc = addr;
        }
    }

    /// Branch if positive: the program counter takes the operand exactly
    /// when the negative flag is clear — an accumulator equal to zero
    /// counts as not negative.
    fn brp<L: Log>(&mut self, addr: usize, logger: &mut L)
        requires
            addr < MEMORY_SIZE,
        ensures
            final(self)@ == (MachineState {
                pc: if !old(self)@.neg_flag { addr } else { old(self)@.pc },
                ..old(self)@
            }),
    {
        logger.log(TraceEvent::BranchPositive { addr });
        if !self.neg_flag {
            self.pc = addr;
        }
    }

    /// Branch always: the program counter takes the operand.
    fn bra<L: Log>(&mut self, addr: usize, logger: &mut L)
        requires
            addr < MEMORY_SIZE,
        ensures
            final(self)@ == (MachineState { pc: addr, ..old(self)@ }),
    {
        logger.log(TraceEvent::BranchAlways { addr });
        self.pc = addr;
    }
}


/// The machine a run starts from: the given image, program counter and
/// accumulator at zero, both flags clear.
pub open spec fn initial_state(mem: Seq<usize>) -> MachineState {
    MachineState { mem, pc: 0, acc: 0, neg_flag: false, halted: false }
}

/// A genuine trace of `steps` successful steps: machine states and port
/// contents before and after each, every step related to the next by
/// [`step_rel`], and no step taken from a halted machine.
#[verifier::opaque]
pub open spec fn run_trace(
    states: Seq<MachineState>,
    ins: Seq<Seq<usize>>,
    outs: Seq<Seq<usize>>,
    steps: int,
) -> bool {
    &&& steps >= 0
    &&& states.len() == steps + 1
    &&& ins.len() == steps + 1
    &&& outs.len() == steps + 1
    &&& forall|i: int| 0 <= i < steps ==> !(#[trigger] states[i]).halted
    &&& forall|i: int| 0 <= i < steps ==> step_rel(
        #[trigger] states[i],
        states[i + 1],
        ins[i],
        ins[i + 1],
        outs[i],
        outs[i + 1],
        Ok(()),
    )
}

/// The empty trace, from any starting point.
proof fn lemma_run_trace_empty(state: MachineState, inp: Seq<usize>, out: Seq<usize>)
    ensures
        run_trace(seq![state], seq![inp], seq![out], 0),
{
    reveal(run_trace);
}

/// A trace of one more successful step from a live last state.
proof fn lemma_run_trace_extend(
    states: Seq<MachineState>,
    ins: Seq<Seq<usize>>,
    outs: Seq<Seq<usize>>,
    steps: int,
    s2: MachineState,
    i2: Seq<usize>,
    o2: Seq<usize>,
)
    requires
        run_trace(states, ins, outs, steps),
        !states.last().halted,
        step_rel(states.last(), s2, ins.last(), i2, outs.last(), o2, Ok(())),
    ensures
        run_trace(states.push(s2), ins.push(i2), outs.push(o2), steps + 1),
{
    reveal(run_trace);
    let states2 = states.push(s2);
    let ins2 = ins.push(i2);
    let outs2 = outs.push(o2);
    assert forall|i: int| 0 <= i < steps + 1 implies !(#[trigger] states2[i]).halted by {
        if i < steps {
            assert(!states[i].halted);
        } else {
            assert(states2[i] == states.last());
        }
    };
    assert forall|i: int| 0 <= i < steps + 1 implies step_rel(
        #[trigger] states2[i],
        states2[i + 1],
        ins2[i],
        ins2[i + 1],
        outs2[i],
        outs2[i + 1],
        Ok(()),
    ) by {
        if i < steps {
            assert(step_rel(states[i], states[i + 1], ins[i], ins[i + 1], outs[i], outs[i + 1], Ok(())));
            assert(states2[i] == states[i] && states2[i + 1] == states[i + 1]);
            assert(ins2[i] == ins[i] && ins2[i + 1] == ins[i + 1]);
            assert(outs2[i] == outs[i] && outs2[i + 1] == outs[i + 1]);
        } else {
            assert(states2[i] == states.last() && states2[i + 1] == s2);
            assert(ins2[i] == ins.last() && ins2[i + 1] == i2);
            assert(outs2[i] == outs.last() && outs2[i + 1] == o2);
        }
    };
}

/// Evidence that a reported outcome is a genuine run: some
/// [`run_trace`] of exactly `steps` steps leads from a fresh machine
/// over `mem` and the ports' initial contents to the reported machine
/// and the ports' final contents — with, for a step failure, one
/// further step from the trace's last state failing with exactly the
/// reported error.
pub open spec fn genuine_run(
    mem: Seq<usize>,
    in0: Seq<usize>,
    out0: Seq<usize>,
    machine: MachineState,
    in1: Seq<usize>,
    out1: Seq<usize>,
    steps: int,
    end: RunEnd,
) -> bool {
    exists|states: Seq<MachineState>, ins: Seq<Seq<usize>>, outs: Seq<Seq<usize>>|
        {
            &&& #[trigger] run_trace(states, ins, outs, steps)
            &&& states[0] == initial_state(mem)
            &&& ins[0] == in0
            &&& outs[0] == out0
            &&& match end {
                RunEnd::Step(e) => step_rel(
                    states.last(),
                    machine,
                    ins.last(),
                    in1,
                    outs.last(),
                    out1,
                    Err(e),
                ),
                _ => machine == states.last() && in1 == ins.last() && out1 == outs.last(),
            }
        }
}

/// A concrete trace witnesses a genuine run.
proof fn lemma_genuine_run_witness(
    states: Seq<MachineState>,
    ins: Seq<Seq<usize>>,
    outs: Seq<Seq<usize>>,
    mem: Seq<usize>,
    in0: Seq<usize>,
    out0: Seq<usize>,
    machine: MachineState,
    in1: Seq<usize>,
    out1: Seq<usize>,
    steps: int,
    end: RunEnd,
)
    requires
        run_trace(states, ins, outs, steps),
        states[0] == initial_state(mem),
        ins[0] == in0,
        outs[0] == out0,
        match end {
            RunEnd::Step(e) => step_rel(
                states.last(),
                machine,
                ins.last(),
                in1,
                outs.last(),
                out1,
                Err(e),
            ),
            _ => machine == states.last() && in1 == ins.last() && out1 == outs.last(),
        },
    ensures
        genuine_run(mem, in0, out0, machine, in1, out1, steps, end),
{
}

/// Extract one witnessing trace from [`genuine_run`] evidence.
pub proof fn lemma_genuine_run_destruct(
    mem: Seq<usize>,
    in0: Seq<usize>,
    out0: Seq<usize>,
    machine: MachineState,
    in1: Seq<usize>,
    out1: Seq<usize>,
    steps: int,
    end: RunEnd,
) -> (tr: (Seq<MachineState>, Seq<Seq<usize>>, Seq<Seq<usize>>))
    requires
        genuine_run(mem, in0, out0, machine, in1, out1, steps, end),
    ensures
        run_trace(tr.0, tr.1, tr.2, steps),
        tr.0[0] == initial_state(mem),
        tr.1[0] == in0,
        tr.2[0] == out0,
        match end {
            RunEnd::Step(e) => step_rel(tr.0.last(), machine, tr.1.last(), in1, tr.2.last(), out1, Err(e)),
            _ => machine == tr.0.last() && in1 == tr.1.last() && out1 == tr.2.last(),
        },
{
    let (states, ins, outs) = choose|states: Seq<MachineState>, ins: Seq<Seq<usize>>, outs: Seq<
        Seq<usize>,
    >|
        {
            &&& #[trigger] run_trace(states, ins, outs, steps)
            &&& states[0] == initial_state(mem)
            &&& ins[0] == in0
            &&& outs[0] == out0
            &&& match end {
                RunEnd::Step(e) => step_rel(
                    states.last(),
                    machine,
                    ins.last(),
                    in1,
                    outs.last(),
                    out1,
                    Err(e),
                ),
                _ => machine == states.last() && in1 == ins.last() && out1 == outs.last(),
            }
        };
    (states, ins, outs)
}

/// Execute a fresh machine over the given image to completion against
/// the given ports: step until the machine halts, counting steps.  A
/// failed step ends the run with its error, and a program counter past
/// the end of memory ends it too, since such a machine cannot be
/// stepped.  A run that never halts does not return.
///
/// The outcome is a genuine run, as [`genuine_run`] states: a
/// [`run_trace`] of exactly `r.steps` steps leads from the fresh
/// machine and the ports' initial contents to the returned machine and
/// the ports' final contents, with a step failure witnessed by one
/// further failing step.
/// The end marker is exact where exactness holds: the run ends
/// [`RunEnd::Halted`] exactly when the returned machine is halted; the
/// out-of-range and step-limit markers imply their conditions (a failed
/// step can also leave the counter at the end of memory, so the
/// converse direction belongs to the halted marker alone).
#[verifier::spinoff_prover]
#[verifier::rlimit(100)]
pub fn run_image<I: Input, O: Output, L: Log>(
    mem: [usize; MEMORY_SIZE],
    input: &mut I,
    output: &mut O,
    logger: &mut L,
) -> (r: RunOutcome)
    requires
        forall|i: int| 0 <= i < MEMORY_SIZE ==> mem@[i] < WORD_BOUND,
    ensures
        r.machine@.wf(),
        r.end == RunEnd::Halted <==> r.machine@.halted,
        r.end == RunEnd::PcOutOfRange ==> (!r.machine@.halted && r.machine@.pc == MEMORY_SIZE),
        r.end == RunEnd::StepLimit ==> r.steps == usize::MAX,
        genuine_run(
            mem@,
            old(input).pending(),
            old(output).captured(),
            r.machine@,
            final(input).pending(),
            final(output).captured(),
            r.steps as int,
            r.end,
        ),
        final(input).reliable() == old(input).reliable(),
        old(input).reliable() ==> (r.end matches RunEnd::Step(e) ==> (e
            matches StepError::Input(m) ==> final(input).pending().len() == 0 && m@ == old(
            input,
        ).failure_message())),
{
    let mut interpreter = Interpreter::new(mem);
    let mut steps: usize = 0;

    let ghost mut states: Seq<MachineState> = seq![interpreter@];
    let ghost mut ins: Seq<Seq<usize>> = seq![input.pending()];
    let ghost mut outs: Seq<Seq<usize>> = seq![output.captured()];
    proof {
        lemma_run_trace_empty(interpreter@, input.pending(), output.captured());
    }

    let mut halted = interpreter.is_halted();
    while !halted
        invariant
            interpreter@.wf(),
            halted == interpreter@.halted,
            run_trace(states, ins, outs, steps as int),
            states.len() == steps + 1,
            ins.len() == steps + 1,
            outs.len() == steps + 1,
            states[0] == initial_state(mem@),
            ins[0] == old(input).pending(),
            outs[0] == old(output).captured(),
            states.last() == interpreter@,
            ins.last() == input.pending(),
            outs.last() == output.captured(),
            input.reliable() == old(input).reliable(),
            input.failure_message() == old(input).failure_message(),
        decreases usize::MAX - steps,
    {
        if interpreter.pc() >= MEMORY_SIZE {
            proof {
                lemma_genuine_run_witness(
                    states,
                    ins,
                    outs,
                    mem@,
                    old(input).pending(),
                    old(output).captured(),
                    interpreter@,
                    input.pending(),
                    output.captured(),
                    steps as int,
                    RunEnd::PcOutOfRange,
                );
            }
            return RunOutcome { machine: interpreter, steps, end: RunEnd::PcOutOfRange };
        }
        if steps == usize::MAX {
            proof {
                lemma_genuine_run_witness(
                    states,
                    ins,
                    outs,
                    mem@,
                    old(input).pending(),
                    old(output).captured(),
                    interpreter@,
                    input.pending(),
                    output.captured(),
                    steps as int,
                    RunEnd::StepLimit,
                );
            }
            return RunOutcome { machine: interpreter, steps, end: RunEnd::StepLimit };
        }
        match interpreter.step(input, output, logger) {
            Ok(u) => {}
            Err(e) => {
                proof {
                    lemma_genuine_run_witness(
                        states,
                        ins,
                        outs,
                        mem@,
                        old(input).pending(),
                        old(output).captured(),
                        interpreter@,
                        input.pending(),
                        output.captured(),
                        steps as int,
                        RunEnd::Step(e),
                    );
                }
                return RunOutcome { machine: interpreter, steps, end: RunEnd::Step(e) };
            }
        }
        proof {
            lemma_run_trace_extend(
                states,
                ins,
                outs,
                steps as int,
                interpreter@,
                input.pending(),
                output.captured(),
            );
            states = states.push(interpreter@);
            ins = ins.push(input.pending());
            outs = outs.push(output.captured());
            assert(states[0] == initial_state(mem@));
            assert(ins[0] == old(input).pending());
            assert(outs[0] == old(output).captured());
        }
        steps = steps + 1;
        halted = interpreter.is_halted();
    }

    proof {
        lemma_genuine_run_witness(
            states,
            ins,
            outs,
            mem@,
            old(input).pending(),
            old(output).captured(),
            interpreter@,
            input.pending(),
            output.captured(),
            steps as int,
            RunEnd::Halted,
        );
    }
    RunOutcome { machine: interpreter, steps, end: RunEnd::Halted }
}

} // verus!
