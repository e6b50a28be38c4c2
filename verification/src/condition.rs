//! The atom of the predicate algebra: load a value, then compare it with an
//! immediate.
use crate::cbpf::{jump, jump_instruction, Comparison, Instruction, MAX_JUMP};
use vstd::prelude::*;

verus! {

/// What a [`Condition`] holds, as mathematical values.
pub struct ConditionView {
    /// Instructions that leave the value of interest in the accumulator.
    pub computation: Seq<Instruction>,
    /// How the accumulator is compared.
    pub comparison: Comparison,
    /// What the accumulator is compared with.
    pub operand: u32,
}

impl ConditionView {
    /// The condition's instructions in execution order: the computation,
    /// then the jump that goes `jt` instructions forward where the
    /// comparison holds and `jf` where it does not.
    pub open spec fn code(self, jt: u8, jf: u8) -> Seq<Instruction> {
        self.computation.push(jump_instruction(self.comparison, self.operand, jt, jf))
    }
}

/// A computation that loads a value into the accumulator, a comparison and
/// the immediate the value is compared with.
#[derive(Debug, PartialEq, Eq, Hash)]
pub struct Condition {
    computation: Vec<Instruction>,
    comparison: Comparison,
    operand: u32,
}

impl View for Condition {
    type V = ConditionView;

    closed spec fn view(&self) -> ConditionView {
        ConditionView {
            computation: self.computation@,
            comparison: self.comparison,
            operand: self.operand,
        }
    }
}

impl Clone for Condition {
    fn clone(&self) -> (copy: Self)
        ensures
            copy@ == self@,
    {
        let computation = self.computation.clone();
        assert(computation@ =~= self.computation@);
        Self { computation, comparison: self.comparison, operand: self.operand }
    }
}

/// `s` back to front.
pub fn reversed(s: &Vec<Instruction>) -> (r: Vec<Instruction>)
    ensures
        r@ == s@.reverse(),
{
    let mut r: Vec<Instruction> = Vec::new();
    let mut i: usize = s.len();
    while i > 0
        invariant
            i <= s@.len(),
            r@.len() == s@.len() - i,
            forall|j: int| 0 <= j < r@.len() ==> r@[j] == s@[s@.len() - 1 - j],
        decreases i,
    {
        i = i - 1;
        r.push(s[i]);
    }
    assert(r@ =~= s@.reverse());
    r
}

impl Condition {
    /// A condition that runs `computation` and compares the accumulator
    /// with `operand`.
    pub fn new(computation: Vec<Instruction>, comparison: Comparison, operand: u32) -> (condition:
        Self)
        ensures
            condition@ == (ConditionView { computation: computation@, comparison, operand }),
    {
        Self { computation, comparison, operand }
    }

    /// The instructions that load the value.
    pub fn computation(&self) -> (computation: &Vec<Instruction>)
        ensures
            computation@ == self@.computation,
    {
        &self.computation
    }

    /// How the value is compared.
    pub fn comparison(&self) -> (comparison: Comparison)
        ensures
            comparison == self@.comparison,
    {
        self.comparison
    }

    /// What the value is compared with.
    pub fn operand(&self) -> (operand: u32)
        ensures
            operand == self@.operand,
    {
        self.operand
    }

    /// The condition's instructions, last one first: the jump, then the
    /// computation back to front.
    pub fn build(&self, jt: usize, jf: usize) -> (seq: Vec<Instruction>)
        requires
            jt <= MAX_JUMP,
            jf <= MAX_JUMP,
        ensures
            seq@ == self@.code(jt as u8, jf as u8).reverse(),
            seq@.len() == self@.computation.len() + 1,
    {
        let mut seq = jump(self.comparison, self.operand, jt, jf);
        let mut tail = reversed(&self.computation);
        seq.append(&mut tail);
        assert(seq@ =~= self@.code(jt as u8, jf as u8).reverse());
        seq
    }

    /// Whether the two conditions hold the same instructions, comparison
    /// and operand.
    pub fn same(&self, other: &Condition) -> (same: bool)
        ensures
            same == (self@ == other@),
    {
        if self.comparison != other.comparison || self.operand != other.operand {
            return false;
        }
        if self.computation.len() != other.computation.len() {
            return false;
        }
        let mut i: usize = 0;
        while i < self.computation.len()
            invariant
                i <= self.computation@.len(),
                self.computation@.len() == other.computation@.len(),
                forall|j: int| 0 <= j < i ==> self.computation@[j] == other.computation@[j],
            decreases self.computation@.len() - i,
        {
            if self.computation[i] != other.computation[i] {
                return false;
            }
            i = i + 1;
        }
        assert(self.computation@ =~= other.computation@);
        true
    }
}

} // verus!
