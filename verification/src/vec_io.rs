//! Queue-backed ports for the inline test harness: an input source
//! pre-seeded with a sequence of values, a capturing output sink, and a
//! logger that discards its events.

use std::collections::VecDeque;

use vstd::prelude::*;

use crate::interpreter::{Input, LNCInput, Log, Output, TraceEvent};
use crate::text::push_decimal;
use crate::WORD_BOUND;

verus! {

/// An input source backed by a pre-seeded queue; it fails once the queue
/// is exhausted.
#[derive(Debug)]
pub struct QueueInput {
    queue: VecDeque<LNCInput>,
}

impl QueueInput {
    /// Seed a queue with the given values, oldest first, refusing any
    /// value at or above [`WORD_BOUND`].
    pub fn new(nums: &[usize]) -> (r: Result<QueueInput, String>)
        ensures
            r matches Ok(q) ==> q.pending() == nums@ && (forall|i: int|
                0 <= i < nums@.len() ==> nums@[i] < WORD_BOUND),
            r is Err ==> exists|i: int| 0 <= i < nums@.len() && nums@[i] >= WORD_BOUND,
    {
        let mut queue: VecDeque<LNCInput> = VecDeque::new();
        let mut k: usize = 0;
        while k < nums.len()
            invariant
                k <= nums@.len(),
                queue@.len() == k,
                forall|i: int| 0 <= i < k ==> queue@[i].spec_value() == nums@[i],
                forall|i: int| 0 <= i < k ==> nums@[i] < WORD_BOUND,
            decreases nums@.len() - k,
        {
            let num = nums[k];
            match LNCInput::new(num) {
                Some(value) => {
                    queue.push_back(value);
                }
                None => {
                    let mut msg = String::new();
                    msg.append("error: input number (");
                    push_decimal(&mut msg, num);
                    msg.append(") is too large");
                    return Err(msg);
                }
            }
            k = k + 1;
        }
        let q = QueueInput { queue };
        proof {
            assert(q.pending() =~= nums@);
        }
        Ok(q)
    }

    /// How many values are left to yield.
    pub fn len(&self) -> (n: usize)
        ensures
            n == self.pending().len(),
    {
        self.queue.len()
    }

    /// Whether any values are left to yield.
    pub fn is_empty(&self) -> (b: bool)
        ensures
            b == (self.pending().len() == 0),
    {
        self.queue.len() == 0
    }

    /// The values left to yield, oldest first, as plain numbers.
    pub fn remaining(&self) -> (r: Vec<usize>)
        ensures
            r@ == self.pending(),
    {
        let mut r: Vec<usize> = Vec::new();
        let mut k: usize = 0;
        while k < self.queue.len()
            invariant
                k <= self.queue@.len(),
                r@.len() == k,
                forall|i: int| 0 <= i < k ==> r@[i] == self.pending()[i],
            decreases self.queue@.len() - k,
        {
            r.push(self.queue[k].value());
            k = k + 1;
        }
        proof {
            assert(r@ =~= self.pending());
        }
        r
    }
}

impl Input for QueueInput {
    closed spec fn pending(&self) -> Seq<usize> {
        self.queue@.map_values(|v: LNCInput| v.spec_value())
    }

    open spec fn reliable(&self) -> bool {
        true
    }

    open spec fn failure_message(&self) -> Seq<char> {
        "error: input queue is empty!"@
    }

    fn take(&mut self) -> (r: Result<LNCInput, String>) {
        match self.queue.pop_front() {
            Some(value) => {
                proof {
                    assert(final(self).pending() =~= old(self).pending().drop_first());
                }
                Ok(value)
            }
            None => Err("error: input queue is empty!".to_owned()),
        }
    }
}

/// An output sink that captures every value it is sent, in order.
#[derive(Debug)]
pub struct StackOutput {
    /// The captured values, oldest first.
    pub stack: Vec<usize>,
}

impl StackOutput {
    /// An empty sink.
    pub fn new() -> (r: StackOutput)
        ensures
            r.captured() == Seq::<usize>::empty(),
    {
        StackOutput { stack: Vec::new() }
    }
}

impl Output for StackOutput {
    open spec fn captured(&self) -> Seq<usize> {
        self.stack@
    }

    fn send(&mut self, val: usize) {
        self.stack.push(val);
    }
}

/// A logger that discards every event.
pub struct SilentLog;

impl Log for SilentLog {
    fn log(&mut self, event: TraceEvent) {
    }
}

} // verus!
