//! The model of the machine: its state, and what one step makes of it.

use crate::compile::compiled;
use crate::error::{ErrorModel, ForestError};
use crate::instruction::InstrModel;
use crate::render::value_text;
use crate::table::{associate, keys_of, lookup, values_of, Entries};
use crate::value::ValueModel;
use vstd::prelude::*;

verus! {

/// A word: a name bound to a sequence of instructions, as a constant or not.
#[verifier::ext_equal]
pub struct WordModel {
    pub name: Seq<char>,
    pub body: Seq<InstrModel>,
    pub is_constant: bool,
}

/// The state of the machine.
#[verifier::ext_equal]
pub struct RuntimeModel {
    /// The value stack; its last element is the top.
    pub stack: Seq<ValueModel>,
    /// The instructions still to run; the first one runs next.
    pub pending: Seq<InstrModel>,
    /// For each loop that has been entered, what was pending when it was; the innermost loop
    /// comes last.
    pub loops: Seq<Seq<InstrModel>>,
    /// The words that have been defined, in the order in which their names were first bound.
    pub words: Seq<WordModel>,
}

/// What the host has to do after a step.
#[verifier::ext_equal]
pub enum ActionModel {
    /// Nothing.
    Continue,
    /// Emit the text on the output channel.
    Print(Seq<char>),
    /// Load the file of that name and hand the outcome to the machine.
    Include(Seq<char>),
}

/// What the host has to do after a step of the machine.
#[derive(Debug)]
pub enum StepAction {
    /// Nothing.
    Continue,
    /// Emit the text on the output channel.
    Print(String),
    /// Load the file of that name and hand the outcome to the machine.
    Include(String),
}

impl View for StepAction {
    type V = ActionModel;

    open spec fn view(&self) -> ActionModel {
        match self {
            StepAction::Continue => ActionModel::Continue,
            StepAction::Print(text) => ActionModel::Print(text@),
            StepAction::Include(name) => ActionModel::Include(name@),
        }
    }
}

/// How a step ended, taken by its view.
pub open spec fn outcome_view(r: Result<StepAction, ForestError>) -> Outcome {
    match r {
        Ok(a) => Ok(a@),
        Err(e) => Err(e@),
    }
}

/// How a step ended: with something for the host to do, or with the reason for stopping.
pub type Outcome = Result<ActionModel, ErrorModel>;

/// The state after a step, and how the step ended.
#[verifier::ext_equal]
pub struct Transition {
    pub next: RuntimeModel,
    pub outcome: Outcome,
}

/// A stack after an operation on it, and how the operation ended.
#[verifier::ext_equal]
pub struct StackResult {
    pub stack: Seq<ValueModel>,
    pub outcome: Outcome,
}

/// The state in which a run of `program` starts.
pub open spec fn initial(program: Seq<InstrModel>) -> RuntimeModel {
    RuntimeModel {
        stack: Seq::empty(),
        pending: program,
        loops: Seq::empty(),
        words: Seq::empty(),
    }
}

/// The value that stands for a truth value: `Int(1)` for true, `Nil` for false.
pub open spec fn truth(b: bool) -> ValueModel {
    if b {
        ValueModel::Int(1)
    } else {
        ValueModel::Nil
    }
}

/// Whether a value counts as true: every value but `Nil` does.
pub open spec fn is_true(v: ValueModel) -> bool {
    !(v is Nil)
}

/// The quotient of `b` by `a`, rounded toward zero.
pub open spec fn quotient(b: int, a: int) -> int
    recommends
        a != 0,
{
    let q = (if b < 0 {
        -b
    } else {
        b
    }) / (if a < 0 {
        -a
    } else {
        a
    });
    if (b < 0) != (a < 0) {
        -q
    } else {
        q
    }
}

/// Whether dividing `b` by `a` is a fault: `a` is zero, or the quotient does not fit in 64
/// bits.
pub open spec fn division_fault(b: i64, a: i64) -> bool {
    a == 0 || (b == i64::MIN && a == -1)
}

/// What an arithmetic instruction makes of `b`, the lower operand, and `a`, the top one.
/// Sums, differences and products wrap around at 64 bits.
pub open spec fn arithmetic(i: InstrModel, b: i64, a: i64) -> i64 {
    match i {
        InstrModel::Add => b.wrapping_add(a),
        InstrModel::Subtract => b.wrapping_sub(a),
        InstrModel::Multiply => b.wrapping_mul(a),
        _ => quotient(b as int, a as int) as i64,
    }
}

/// The stack with its `n` top values removed.
pub open spec fn popped(st: Seq<ValueModel>, n: int) -> Seq<ValueModel> {
    st.take(st.len() - n)
}

/// The value `n` places below the top of the stack; the top itself is at 0.
pub open spec fn peek(st: Seq<ValueModel>, n: int) -> ValueModel {
    st[st.len() - 1 - n]
}

/// An operation that went well and leaves nothing for the host to do.
pub open spec fn done(st: Seq<ValueModel>) -> StackResult {
    StackResult { stack: st, outcome: Ok(ActionModel::Continue) }
}

/// An operation that failed.
pub open spec fn failed(st: Seq<ValueModel>, e: ErrorModel) -> StackResult {
    StackResult { stack: st, outcome: Err(e) }
}

/// How many values an instruction needs on the stack.
pub open spec fn operands(i: InstrModel) -> nat {
    match i {
        InstrModel::Duplicate | InstrModel::Drop | InstrModel::Stringify | InstrModel::Print
        | InstrModel::Keys | InstrModel::Values | InstrModel::Not | InstrModel::Splat
        | InstrModel::If | InstrModel::SetWord(_) | InstrModel::SetVar(_)
        | InstrModel::Include => 1,
        InstrModel::Add | InstrModel::Subtract | InstrModel::Multiply | InstrModel::Divide
        | InstrModel::Concatenate | InstrModel::Get | InstrModel::And | InstrModel::Or
        | InstrModel::Eq | InstrModel::GreaterThan | InstrModel::LessThan
        | InstrModel::Swap => 2,
        InstrModel::Associate | InstrModel::Rotate => 3,
        _ => 0,
    }
}

/// The values of a table, in the order of its entries.
pub open spec fn entry_values(t: Entries) -> Seq<ValueModel> {
    Seq::new(t.len(), |i: int| t[i].1)
}

/// What `Add`, `Subtract`, `Multiply` and `Divide` do to a stack of two values or more. The
/// top operand is taken and tested first.
pub open spec fn arithmetic_effect(st: Seq<ValueModel>, i: InstrModel) -> StackResult {
    let a = peek(st, 0);
    let b = peek(st, 1);
    match a {
        ValueModel::Int(x) => match b {
            ValueModel::Int(y) => done(popped(st, 2).push(ValueModel::Int(arithmetic(i, y, x)))),
            _ => failed(popped(st, 2), ErrorModel::TypeMismatch(b, ValueModel::Int(0))),
        },
        _ => failed(popped(st, 1), ErrorModel::TypeMismatch(a, ValueModel::Int(0))),
    }
}

/// What `GreaterThan` and `LessThan` do to a stack of two values or more. Both operands are
/// taken before either is tested.
pub open spec fn comparison_effect(st: Seq<ValueModel>, i: InstrModel) -> StackResult {
    let a = peek(st, 0);
    let b = peek(st, 1);
    match a {
        ValueModel::Int(x) => match b {
            ValueModel::Int(y) => done(
                popped(st, 2).push(
                    truth(
                        if i is GreaterThan {
                            y > x
                        } else {
                            y < x
                        },
                    ),
                ),
            ),
            _ => failed(popped(st, 2), ErrorModel::TypeMismatch(b, ValueModel::Int(1))),
        },
        _ => failed(popped(st, 2), ErrorModel::TypeMismatch(a, ValueModel::Int(1))),
    }
}

/// What `Concatenate` does to a stack of two values or more.
pub open spec fn concatenate_effect(st: Seq<ValueModel>) -> StackResult {
    let a = peek(st, 0);
    let b = peek(st, 1);
    match a {
        ValueModel::Str(x) => match b {
            ValueModel::Str(y) => done(popped(st, 2).push(ValueModel::Str(y + x))),
            _ => failed(popped(st, 2), ErrorModel::TypeMismatch(b, ValueModel::Str(Seq::empty()))),
        },
        _ => failed(popped(st, 1), ErrorModel::TypeMismatch(a, ValueModel::Str(Seq::empty()))),
    }
}

/// What `Get` does to a stack of two values or more: the key leaves, the table stays, and
/// what the table holds for the key comes on top.
pub open spec fn get_effect(st: Seq<ValueModel>) -> StackResult {
    let key = peek(st, 0);
    let table = peek(st, 1);
    if key is Nil {
        failed(popped(st, 1), ErrorModel::TypeMismatch(key, ValueModel::Nil))
    } else {
        match table {
            ValueModel::Table(t) => done(popped(st, 1).push(lookup(t, key))),
            _ => failed(
                popped(st, 1),
                ErrorModel::TypeMismatch(table, ValueModel::Table(Seq::empty())),
            ),
        }
    }
}

/// What `Associate` does to a stack of three values or more.
pub open spec fn associate_effect(st: Seq<ValueModel>) -> StackResult {
    let value = peek(st, 0);
    let key = peek(st, 1);
    let table = peek(st, 2);
    if key is Nil {
        failed(popped(st, 2), ErrorModel::TypeMismatch(key, ValueModel::Nil))
    } else {
        match table {
            ValueModel::Table(t) => done(
                popped(st, 3).push(ValueModel::Table(associate(t, key, value))),
            ),
            _ => failed(
                popped(st, 3),
                ErrorModel::TypeMismatch(table, ValueModel::Table(Seq::empty())),
            ),
        }
    }
}

/// What `Keys`, `Values` and `Splat` do to a stack of one value or more.
pub open spec fn table_effect(st: Seq<ValueModel>, i: InstrModel) -> StackResult {
    let table = peek(st, 0);
    match table {
        ValueModel::Table(t) => done(
            match i {
                InstrModel::Keys => popped(st, 1).push(ValueModel::Table(keys_of(t))),
                InstrModel::Values => popped(st, 1).push(ValueModel::Table(values_of(t))),
                _ => popped(st, 1) + entry_values(t),
            },
        ),
        _ => failed(popped(st, 1), ErrorModel::TypeMismatch(table, ValueModel::Table(Seq::empty()))),
    }
}

/// What `Include` does to a stack of one value or more: the name of the file leaves the
/// stack, and the host is asked to load the file.
pub open spec fn include_effect(st: Seq<ValueModel>) -> StackResult {
    let name = peek(st, 0);
    match name {
        ValueModel::Str(s) => StackResult {
            stack: popped(st, 1),
            outcome: Ok(ActionModel::Include(s)),
        },
        _ => failed(popped(st, 1), ErrorModel::TypeMismatch(name, ValueModel::Str(Seq::empty()))),
    }
}

/// What is emitted for a value: the contents of a string as they are, and the structural
/// display of any other value.
pub open spec fn printed(v: ValueModel) -> Seq<char> {
    match v {
        ValueModel::Str(s) => s,
        _ => value_text(v),
    }
}

/// What an instruction that works on the stack alone does to it. An instruction that finds
/// fewer values than it needs fails with `Underflow` and leaves the stack as it is.
pub open spec fn stack_effect(st: Seq<ValueModel>, i: InstrModel) -> StackResult {
    if st.len() < operands(i) {
        failed(st, ErrorModel::Underflow)
    } else {
        match i {
            InstrModel::Push(v) => done(st.push(v)),
            InstrModel::Duplicate => done(st.push(peek(st, 0))),
            InstrModel::Drop => done(popped(st, 1)),
            InstrModel::Add | InstrModel::Subtract | InstrModel::Multiply
            | InstrModel::Divide => arithmetic_effect(st, i),
            InstrModel::Stringify => done(
                popped(st, 1).push(ValueModel::Str(value_text(peek(st, 0)))),
            ),
            InstrModel::Concatenate => concatenate_effect(st),
            InstrModel::Print => StackResult {
                stack: popped(st, 1),
                outcome: Ok(ActionModel::Print(printed(peek(st, 0)))),
            },
            InstrModel::Get => get_effect(st),
            InstrModel::Associate => associate_effect(st),
            InstrModel::Keys | InstrModel::Values | InstrModel::Splat => table_effect(st, i),
            InstrModel::And => done(
                popped(st, 2).push(truth(is_true(peek(st, 0)) && is_true(peek(st, 1)))),
            ),
            InstrModel::Or => done(
                popped(st, 2).push(truth(is_true(peek(st, 0)) || is_true(peek(st, 1)))),
            ),
            InstrModel::Not => done(popped(st, 1).push(truth(!is_true(peek(st, 0))))),
            InstrModel::Eq => done(popped(st, 2).push(truth(peek(st, 0) == peek(st, 1)))),
            InstrModel::GreaterThan | InstrModel::LessThan => comparison_effect(st, i),
            InstrModel::Swap => done(popped(st, 2).push(peek(st, 0)).push(peek(st, 1))),
            InstrModel::Rotate => done(
                popped(st, 3).push(peek(st, 0)).push(peek(st, 1)).push(peek(st, 2)),
            ),
            InstrModel::Include => include_effect(st),
            _ => done(st),
        }
    }
}

/// Whether an instruction works on the stack alone.
pub open spec fn on_stack_alone(i: InstrModel) -> bool {
    match i {
        InstrModel::If | InstrModel::IfEnd | InstrModel::Loop | InstrModel::LoopEnd
        | InstrModel::Break | InstrModel::MakeWord(_) | InstrModel::MakeWordVar(_)
        | InstrModel::EndWord | InstrModel::InvokeWord(_) | InstrModel::SetWord(_)
        | InstrModel::SetVar(_) | InstrModel::Exit => false,
        _ => true,
    }
}

/// What is pending once a conditional has been skipped: the instructions after the `IfEnd`
/// that closes it, where `depth` conditionals are open at the start of `p`. `None` where
/// the instructions run out first.
pub open spec fn after_conditional(p: Seq<InstrModel>, depth: nat) -> Option<Seq<InstrModel>>
    decreases p.len(),
{
    if depth == 0 {
        Some(p)
    } else if p.len() == 0 {
        None
    } else {
        match p[0] {
            InstrModel::If => after_conditional(p.skip(1), depth + 1),
            InstrModel::IfEnd => after_conditional(p.skip(1), (depth - 1) as nat),
            _ => after_conditional(p.skip(1), depth),
        }
    }
}

/// What is pending once a loop has been left: the instructions after the `LoopEnd` that
/// closes it, where `depth` loops are open at the start of `p`. `None` where the
/// instructions run out first.
pub open spec fn after_loop(p: Seq<InstrModel>, depth: nat) -> Option<Seq<InstrModel>>
    decreases p.len(),
{
    if depth == 0 {
        Some(p)
    } else if p.len() == 0 {
        None
    } else {
        match p[0] {
            InstrModel::Loop => after_loop(p.skip(1), depth + 1),
            InstrModel::LoopEnd => after_loop(p.skip(1), (depth - 1) as nat),
            _ => after_loop(p.skip(1), depth),
        }
    }
}

/// The body of a definition and what follows it.
pub struct Definition {
    pub body: Seq<InstrModel>,
    pub rest: Seq<InstrModel>,
}

/// The definition with `i` put in front of its body.
pub open spec fn with_first(i: InstrModel, d: Option<Definition>) -> Option<Definition> {
    match d {
        Some(d) => Some(Definition { body: seq![i] + d.body, rest: d.rest }),
        None => None,
    }
}

/// The body of a word's definition, where `depth` definitions are open at the start of `p`
/// and `depth` is at least 1: the instructions up to the `EndWord` that closes the outermost
/// of them, which is left out, and what follows it. Definitions inside the body belong to
/// it. `None` where the instructions run out first.
pub open spec fn definition(p: Seq<InstrModel>, depth: nat) -> Option<Definition>
    decreases p.len(),
{
    if p.len() == 0 {
        None
    } else {
        match p[0] {
            InstrModel::MakeWord(_) | InstrModel::MakeWordVar(_) => with_first(
                p[0],
                definition(p.skip(1), depth + 1),
            ),
            InstrModel::EndWord => if depth <= 1 {
                Some(Definition { body: Seq::empty(), rest: p.skip(1) })
            } else {
                with_first(p[0], definition(p.skip(1), (depth - 1) as nat))
            },
            _ => with_first(p[0], definition(p.skip(1), depth)),
        }
    }
}

/// The position of the word called `name`, if it is defined.
pub open spec fn find_word(words: Seq<WordModel>, name: Seq<char>) -> Option<int>
    decreases words.len(),
{
    if words.len() == 0 {
        None
    } else {
        match find_word(words.drop_last(), name) {
            Some(i) => Some(i),
            None => if words.last().name == name {
                Some(words.len() - 1)
            } else {
                None
            },
        }
    }
}

/// The words after binding `name`: `None` where the name is bound as a constant; else the
/// new word takes the place of the one of that name, or comes last where there is none.
pub open spec fn bind(
    words: Seq<WordModel>,
    name: Seq<char>,
    body: Seq<InstrModel>,
    is_constant: bool,
) -> Option<Seq<WordModel>> {
    let word = WordModel { name, body, is_constant };
    match find_word(words, name) {
        Some(i) => if words[i].is_constant {
            None
        } else {
            Some(words.update(i, word))
        },
        None => Some(words.push(word)),
    }
}

/// A step that went well and leaves nothing for the host to do.
pub open spec fn proceed(s: RuntimeModel) -> Transition {
    Transition { next: s, outcome: Ok(ActionModel::Continue) }
}

/// A step that failed.
pub open spec fn stop(s: RuntimeModel, e: ErrorModel) -> Transition {
    Transition { next: s, outcome: Err(e) }
}

/// What `If` does: the top value is looked at and stays; where it is `Nil`, the conditional
/// is skipped.
pub open spec fn if_effect(s: RuntimeModel) -> Transition {
    if s.stack.len() == 0 {
        stop(s, ErrorModel::Underflow)
    } else if s.stack.last() is Nil {
        match after_conditional(s.pending, 1) {
            Some(rest) => proceed(RuntimeModel { pending: rest, ..s }),
            None => stop(
                RuntimeModel { pending: Seq::empty(), ..s },
                ErrorModel::UnbalancedIfEnd,
            ),
        }
    } else {
        proceed(s)
    }
}

/// What `LoopEnd` does: what was pending when the innermost loop was entered is pending
/// again, behind a `Loop` that enters it anew.
pub open spec fn loop_end_effect(s: RuntimeModel) -> Transition {
    if s.loops.len() == 0 {
        stop(s, ErrorModel::UnbalancedLoopEnd)
    } else {
        proceed(
            RuntimeModel {
                pending: seq![InstrModel::Loop] + s.loops.last(),
                loops: s.loops.drop_last(),
                ..s
            },
        )
    }
}

/// What `Break` does: the rest of the innermost loop is skipped.
pub open spec fn break_effect(s: RuntimeModel) -> Transition {
    match after_loop(s.pending, 1) {
        Some(rest) => proceed(RuntimeModel { pending: rest, ..s }),
        None => stop(RuntimeModel { pending: Seq::empty(), ..s }, ErrorModel::UnbalancedLoopEnd),
    }
}

/// What `MakeWord` and `MakeWordVar` do: the body is taken from what is pending and bound
/// to the name.
pub open spec fn define_effect(s: RuntimeModel, name: Seq<char>, is_constant: bool) -> Transition {
    match definition(s.pending, 1) {
        None => stop(RuntimeModel { pending: Seq::empty(), ..s }, ErrorModel::UnbalancedWordEnd),
        Some(d) => match bind(s.words, name, d.body, is_constant) {
            None => stop(
                RuntimeModel { pending: d.rest, ..s },
                ErrorModel::ReassigningConstant(name),
            ),
            Some(words) => proceed(RuntimeModel { pending: d.rest, words, ..s }),
        },
    }
}

/// What `InvokeWord` does: the body of the word is put in front of what is pending.
pub open spec fn invoke_effect(s: RuntimeModel, name: Seq<char>) -> Transition {
    match find_word(s.words, name) {
        Some(i) => proceed(RuntimeModel { pending: s.words[i].body + s.pending, ..s }),
        None => stop(s, ErrorModel::UseOfUndeclaredWord(name)),
    }
}

/// What `SetWord` and `SetVar` do: the top value leaves the stack and is bound to the name,
/// as a word that pushes it.
pub open spec fn set_effect(s: RuntimeModel, name: Seq<char>, is_constant: bool) -> Transition {
    if s.stack.len() == 0 {
        stop(s, ErrorModel::Underflow)
    } else {
        match bind(s.words, name, seq![InstrModel::Push(s.stack.last())], is_constant) {
            None => stop(s, ErrorModel::ReassigningConstant(name)),
            Some(words) => proceed(RuntimeModel { stack: s.stack.drop_last(), words, ..s }),
        }
    }
}

/// What running the instruction `i` does to the state `s`, from whose pending instructions
/// `i` has been taken already.
pub open spec fn execute(s: RuntimeModel, i: InstrModel) -> Transition {
    match i {
        InstrModel::If => if_effect(s),
        InstrModel::IfEnd | InstrModel::EndWord => proceed(s),
        InstrModel::Loop => proceed(RuntimeModel { loops: s.loops.push(s.pending), ..s }),
        InstrModel::LoopEnd => loop_end_effect(s),
        InstrModel::Break => break_effect(s),
        InstrModel::MakeWord(name) => define_effect(s, name, true),
        InstrModel::MakeWordVar(name) => define_effect(s, name, false),
        InstrModel::InvokeWord(name) => invoke_effect(s, name),
        InstrModel::SetWord(name) => set_effect(s, name, true),
        InstrModel::SetVar(name) => set_effect(s, name, false),
        InstrModel::Exit => stop(s, ErrorModel::Halt),
        _ => {
            let r = stack_effect(s.stack, i);
            Transition { next: RuntimeModel { stack: r.stack, ..s }, outcome: r.outcome }
        },
    }
}

/// One step of the machine: the first pending instruction is taken and run. With nothing
/// pending the step fails and the state stays as it is.
pub open spec fn step_model(s: RuntimeModel) -> Transition {
    if s.pending.len() == 0 {
        stop(s, ErrorModel::EndedWithoutHalting)
    } else {
        execute(RuntimeModel { pending: s.pending.skip(1), ..s }, s.pending[0])
    }
}

/// Whether the instruction `i` on the stack `st` would divide by zero, or divide with a
/// quotient that does not fit in 64 bits.
pub open spec fn division_faults_on(st: Seq<ValueModel>, i: InstrModel) -> bool {
    &&& i is Divide
    &&& st.len() >= 2
    &&& peek(st, 0) matches ValueModel::Int(a)
    &&& peek(st, 1) matches ValueModel::Int(b)
    &&& division_fault(b, a)
}

/// Whether the next step would divide by zero, or divide with a quotient that does not fit
/// in 64 bits. The machine has no answer to either.
pub open spec fn division_faults(s: RuntimeModel) -> bool {
    s.pending.len() > 0 && division_faults_on(s.stack, s.pending[0])
}

/// What the host found when it went to load a file.
#[derive(Debug)]
pub enum Loaded {
    /// There is no such file.
    NotFound,
    /// The file is there and could not be read.
    Unreadable,
    /// The text of the file.
    Text(String),
}

/// The mathematical value that a [`Loaded`] stands for.
#[verifier::ext_equal]
pub enum LoadedModel {
    NotFound,
    Unreadable,
    Text(Seq<char>),
}

impl View for Loaded {
    type V = LoadedModel;

    open spec fn view(&self) -> LoadedModel {
        match self {
            Loaded::NotFound => LoadedModel::NotFound,
            Loaded::Unreadable => LoadedModel::Unreadable,
            Loaded::Text(text) => LoadedModel::Text(text@),
        }
    }
}

/// What the machine does with what the host found for an `Include`: the instructions that
/// the text of the file stands for are put in front of what is pending. Where there was no
/// text, or the text is no program, the step fails and the state stays as it is.
pub open spec fn include_model(s: RuntimeModel, loaded: LoadedModel) -> Transition {
    match loaded {
        LoadedModel::NotFound => stop(s, ErrorModel::FileNotFound),
        LoadedModel::Unreadable => stop(s, ErrorModel::ErrorReadingFile),
        LoadedModel::Text(text) => match compiled(text) {
            Ok(p) => proceed(RuntimeModel { pending: p + s.pending, ..s }),
            Err(e) => stop(s, ErrorModel::IncludeCompileError(e)),
        },
    }
}

} // verus!
