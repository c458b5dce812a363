//! The machine itself.

use crate::compile::compile;
use crate::control::{
    bind_word, find, locked, pending_view, put_in_front, skip_conditional, skip_loop,
    snapshots_view, take_definition, take_next, words_view,
};
pub use crate::control::Word;
use crate::diagnostics::{dump_text, render_dump};
pub use crate::error::ForestError;
use crate::instruction::{clone_instrs, instrs_view, InstrModel};
pub use crate::instruction::ForestInstruction;
use crate::machine::{
    define_effect, division_faults, if_effect, include_model, initial, invoke_effect,
    loop_end_effect, outcome_view, set_effect, step_model, RuntimeModel,
};
pub use crate::machine::{Loaded, StepAction};
use crate::stack_ops::{apply, pop_value};
use crate::value::values_view;
pub use crate::value::{ForestValue, TablePair};
use vstd::prelude::*;

verus! {

/// The machine: a value stack, the instructions still to run, what was pending at the entry
/// of each loop that is open, and the words defined so far.
pub struct ForestRuntime {
    stack: Vec<ForestValue>,
    program: Vec<ForestInstruction>,
    jumplist: Vec<Vec<ForestInstruction>>,
    wordlist: Vec<Word>,
}

/// Why the state could not be dumped.
#[derive(Clone, Copy, Debug, PartialEq, Eq, Structural)]
pub enum ForestDumpError {
    /// No instruction is pending, so there is none to show as the current one.
    ProgramidxOOB,
}

impl View for ForestRuntime {
    type V = RuntimeModel;

    closed spec fn view(&self) -> RuntimeModel {
        RuntimeModel {
            stack: values_view(self.stack@),
            pending: pending_view(self.program@),
            loops: snapshots_view(self.jumplist@),
            words: words_view(self.wordlist@),
        }
    }
}

impl ForestRuntime {
    /// A machine that is about to run `inptprogram`.
    pub fn new(inptprogram: &[ForestInstruction]) -> (r: Self)
        ensures
            r@ == initial(instrs_view(inptprogram@)),
    {
        let mut program: Vec<ForestInstruction> = Vec::new();
        put_in_front(&mut program, inptprogram);
        ForestRuntime { stack: Vec::new(), program, jumplist: Vec::new(), wordlist: Vec::new() }
    }

    /// Puts `instrs` in front of the instructions that are pending.
    pub fn push_instrs(&mut self, instrs: &[ForestInstruction])
        ensures
            final(self)@ == (RuntimeModel {
                pending: instrs_view(instrs@) + old(self)@.pending,
                ..old(self)@
            }),
    {
        put_in_front(&mut self.program, instrs);
    }

    /// Whether the next step would divide by zero, or divide with a quotient that does not
    /// fit in 64 bits.
    pub fn division_pending(&self) -> (r: bool)
        ensures
            r == division_faults(self@),
    {
        let n = self.program.len();
        let depth = self.stack.len();
        if n == 0 || depth < 2 {
            return false;
        }
        match (&self.program[n - 1], &self.stack[depth - 1], &self.stack[depth - 2]) {
            (ForestInstruction::Divide, ForestValue::Int(a), ForestValue::Int(b)) => *a == 0 || (*b
                == i64::MIN && *a == -1),
            _ => false,
        }
    }

    /// Runs the next instruction.
    ///
    /// The step must not divide by zero, nor divide with a quotient that does not fit in 64
    /// bits: `division_pending` tells.
    pub fn step(&mut self) -> (r: Result<StepAction, ForestError>)
        requires
            !division_faults(old(self)@),
        ensures
            final(self)@ == step_model(old(self)@).next,
            outcome_view(r) == step_model(old(self)@).outcome,
    {
        let inst = match take_next(&mut self.program) {
            Some(inst) => inst,
            None => {
                return Err(ForestError::EndedWithoutHalting);
            },
        };
        match inst {
            ForestInstruction::If => self.enter_conditional(),
            ForestInstruction::IfEnd | ForestInstruction::EndWord => Ok(StepAction::Continue),
            ForestInstruction::Loop => {
                let snapshot = clone_instrs(&self.program);
                proof {
                    lemma_pending_of_clone(self.program@, snapshot@);
                }
                self.jumplist.push(snapshot);
                Ok(StepAction::Continue)
            },
            ForestInstruction::LoopEnd => self.close_loop(),
            ForestInstruction::Break => {
                if skip_loop(&mut self.program) {
                    Ok(StepAction::Continue)
                } else {
                    Err(ForestError::UnbalancedLoopEnd)
                }
            },
            ForestInstruction::MakeWord(name) => self.define(name, true),
            ForestInstruction::MakeWordVar(name) => self.define(name, false),
            ForestInstruction::InvokeWord(name) => self.invoke(name),
            ForestInstruction::SetWord(name) => self.set(name, true),
            ForestInstruction::SetVar(name) => self.set(name, false),
            ForestInstruction::Exit => Err(ForestError::Halt),
            other => apply(&mut self.stack, other),
        }
    }

    /// Goes on after an `Include`, with what the host found for the file that the step
    /// named: the program in the file runs next.
    pub fn finish_include(&mut self, loaded: Loaded) -> (r: Result<StepAction, ForestError>)
        ensures
            final(self)@ == include_model(old(self)@, loaded@).next,
            outcome_view(r) == include_model(old(self)@, loaded@).outcome,
    {
        match loaded {
            Loaded::NotFound => Err(ForestError::FileNotFound),
            Loaded::Unreadable => Err(ForestError::ErrorReadingFile),
            Loaded::Text(text) => match compile(text.as_str()) {
                Ok(program) => {
                    put_in_front(&mut self.program, program.as_slice());
                    Ok(StepAction::Continue)
                },
                Err(e) => Err(ForestError::IncludeCompileError(e)),
            },
        }
    }

    /// Renders the state for diagnosis: the stack, the instruction that runs next, the
    /// number of loops that are open, and the words. Fails where no instruction is pending.
    pub fn dump(&self) -> (r: Result<String, ForestDumpError>)
        ensures
            match r {
                Ok(text) => self@.pending.len() > 0 && text@ == dump_text(self@),
                Err(e) => self@.pending.len() == 0 && e == ForestDumpError::ProgramidxOOB,
            },
    {
        let n = self.program.len();
        if n == 0 {
            return Err(ForestDumpError::ProgramidxOOB);
        }
        Ok(render_dump(&self.stack, &self.program[n - 1], self.jumplist.len(), &self.wordlist))
    }

    /// The value stack; its last element is the top.
    pub fn stack(&self) -> (r: &Vec<ForestValue>)
        ensures
            values_view(r@) == self@.stack,
    {
        &self.stack
    }

    /// The number of instructions that are pending.
    pub fn pending_len(&self) -> (r: usize)
        ensures
            r == self@.pending.len(),
    {
        self.program.len()
    }

    /// The instruction that runs next, if one is pending.
    pub fn next_instruction(&self) -> (r: Option<&ForestInstruction>)
        ensures
            match r {
                Some(i) => self@.pending.len() > 0 && i@ == self@.pending[0],
                None => self@.pending.len() == 0,
            },
    {
        let n = self.program.len();
        if n == 0 {
            None
        } else {
            Some(&self.program[n - 1])
        }
    }

    /// The number of loops that are open.
    pub fn loop_depth(&self) -> (r: usize)
        ensures
            r == self@.loops.len(),
    {
        self.jumplist.len()
    }

    /// The words that have been defined.
    pub fn words(&self) -> (r: &Vec<Word>)
        ensures
            words_view(r@) == self@.words,
    {
        &self.wordlist
    }

    /// Runs `If`, which has been taken from the pending instructions.
    fn enter_conditional(&mut self) -> (r: Result<StepAction, ForestError>)
        ensures
            final(self)@ == if_effect(old(self)@).next,
            outcome_view(r) == if_effect(old(self)@).outcome,
    {
        let depth = self.stack.len();
        if depth == 0 {
            return Err(ForestError::Underflow);
        }
        if self.stack[depth - 1].is_nil() {
            if skip_conditional(&mut self.program) {
                Ok(StepAction::Continue)
            } else {
                Err(ForestError::UnbalancedIfEnd)
            }
        } else {
            Ok(StepAction::Continue)
        }
    }

    /// Runs `LoopEnd`, which has been taken from the pending instructions.
    fn close_loop(&mut self) -> (r: Result<StepAction, ForestError>)
        ensures
            final(self)@ == loop_end_effect(old(self)@).next,
            outcome_view(r) == loop_end_effect(old(self)@).outcome,
    {
        match self.jumplist.pop() {
            Some(snapshot) => {
                let mut program = snapshot;
                program.push(ForestInstruction::Loop);
                self.program = program;
                Ok(StepAction::Continue)
            },
            None => {
                Err(ForestError::UnbalancedLoopEnd)
            },
        }
    }

    /// Runs `MakeWord` or `MakeWordVar`, which has been taken from the pending instructions.
    fn define(&mut self, name: String, is_constant: bool) -> (r: Result<StepAction, ForestError>)
        ensures
            final(self)@ == define_effect(old(self)@, name@, is_constant).next,
            outcome_view(r) == define_effect(
                old(self)@,
                name@,
                is_constant,
            ).outcome,
    {
        match take_definition(&mut self.program) {
            None => {
                Err(ForestError::UnbalancedWordEnd)
            },
            Some(body) => {
                if locked(&self.wordlist, &name) {
                    Err(ForestError::ReassigningConstant(name))
                } else {
                    bind_word(&mut self.wordlist, name, body, is_constant);
                    Ok(StepAction::Continue)
                }
            },
        }
    }

    /// Runs `InvokeWord`, which has been taken from the pending instructions.
    fn invoke(&mut self, name: String) -> (r: Result<StepAction, ForestError>)
        ensures
            final(self)@ == invoke_effect(old(self)@, name@).next,
            outcome_view(r) == invoke_effect(old(self)@, name@).outcome,
    {
        match find(&self.wordlist, &name) {
            Some(i) => {
                let body = clone_instrs(&self.wordlist[i].instructions);
                put_in_front(&mut self.program, body.as_slice());
                Ok(StepAction::Continue)
            },
            None => Err(ForestError::UseOfUndeclaredWord(name)),
        }
    }

    /// Runs `SetWord` or `SetVar`, which has been taken from the pending instructions.
    fn set(&mut self, name: String, is_constant: bool) -> (r: Result<StepAction, ForestError>)
        ensures
            final(self)@ == set_effect(old(self)@, name@, is_constant).next,
            outcome_view(r) == set_effect(old(self)@, name@, is_constant).outcome,
    {
        if self.stack.len() == 0 {
            return Err(ForestError::Underflow);
        }
        if locked(&self.wordlist, &name) {
            return Err(ForestError::ReassigningConstant(name));
        }
        let v = pop_value(&mut self.stack);
        let mut body: Vec<ForestInstruction> = Vec::new();
        body.push(ForestInstruction::Push(v));
        assert(instrs_view(body@) =~= seq![InstrModel::Push(v@)]);
        bind_word(&mut self.wordlist, name, body, is_constant);
        Ok(StepAction::Continue)
    }
}

/// A copy of a store holds the same instructions.
pub proof fn lemma_pending_of_clone(a: Seq<ForestInstruction>, b: Seq<ForestInstruction>)
    requires
        instrs_view(a) == instrs_view(b),
    ensures
        pending_view(a) == pending_view(b),
{
    assert(b.len() == instrs_view(b).len());
    assert forall|i: int| 0 <= i < a.len() implies pending_view(a)[i] == pending_view(b)[i] by {
        assert(instrs_view(a)[a.len() - 1 - i] == instrs_view(b)[a.len() - 1 - i]);
    }
}

} // verus!
