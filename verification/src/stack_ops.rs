//! The instructions that work on the value stack alone.

use crate::error::ForestError;
use crate::instruction::ForestInstruction;
use crate::machine::{
    arithmetic_effect, associate_effect, comparison_effect, concatenate_effect, division_fault,
    division_faults_on, entry_values, get_effect, include_effect, on_stack_alone, outcome_view,
    peek, popped, quotient, stack_effect, table_effect, truth, StackResult, StepAction,
};
use crate::table::{table_associate, table_get, table_keys, table_values};
use crate::value::{
    clone_value, lemma_table_view, pairs_view, values_equal, values_view, ForestValue, TablePair,
    ValueModel,
};
use vstd::arithmetic::div_mod::{
    lemma_div_decreases, lemma_div_nonincreasing, lemma_div_pos_is_pos,
};
use vstd::prelude::*;
use vstd::string::StringExecFns;

verus! {

/// What an operation on the stack did: the stack after it, and how it ended.
pub open spec fn effect_of(after: Vec<ForestValue>, r: Result<StepAction, ForestError>)
    -> StackResult {
    StackResult { stack: values_view(after@), outcome: outcome_view(r) }
}

/// Takes the top value off the stack.
pub(crate) fn pop_value(stack: &mut Vec<ForestValue>) -> (v: ForestValue)
    requires
        old(stack).len() > 0,
    ensures
        final(stack).len() == old(stack).len() - 1,
        values_view(final(stack)@) == popped(values_view(old(stack)@), 1),
        v@ == peek(values_view(old(stack)@), 0),
{
    let v = stack.pop().unwrap();
    v
}

/// Puts a value on top of the stack.
pub fn push_on(stack: &mut Vec<ForestValue>, v: ForestValue)
    ensures
        final(stack).len() == old(stack).len() + 1,
        values_view(final(stack)@) == values_view(old(stack)@).push(v@),
{
    stack.push(v);
}

/// The value that stands for a truth value.
pub fn truth_value(b: bool) -> (v: ForestValue)
    ensures
        v@ == truth(b),
{
    if b {
        ForestValue::Int(1)
    } else {
        ForestValue::Nil
    }
}

/// A table without entries.
pub fn empty_table() -> (v: ForestValue)
    ensures
        v@ == ValueModel::Table(Seq::empty()),
{
    let entries: Vec<TablePair> = Vec::new();
    proof {
        lemma_table_view(entries);
        assert(pairs_view(entries@) =~= Seq::empty());
    }
    ForestValue::Table(entries)
}

/// A string without characters.
pub fn empty_string() -> (v: ForestValue)
    ensures
        v@ == ValueModel::Str(Seq::empty()),
{
    ForestValue::String(String::new())
}

/// Where dividing is no fault, the quotient rounded toward zero fits in 64 bits and is what
/// `checked_div` yields.
pub proof fn lemma_quotient(b: i64, a: i64)
    requires
        !division_fault(b, a),
    ensures
        i64::MIN <= quotient(b as int, a as int) <= i64::MAX,
        b.checked_div(a) == Some(quotient(b as int, a as int) as i64),
{
    let x = b as int;
    let d = a as int;
    let ax = if x < 0 {
        -x
    } else {
        x
    };
    let ad = if d < 0 {
        -d
    } else {
        d
    };
    lemma_div_nonincreasing(ax, ad);
    lemma_div_pos_is_pos(ax, ad);
    if ax > 0 && ad > 1 {
        lemma_div_decreases(ax, ad);
    }
    if x == 0 {
        assert(0int / ad == 0) by {
            lemma_div_nonincreasing(0, ad);
        }
    }
}

/// Runs `Add`, `Subtract`, `Multiply` or `Divide` on a stack of two values or more.
pub(crate) fn arithmetic_op(stack: &mut Vec<ForestValue>, inst: &ForestInstruction) -> (r: Result<
    StepAction,
    ForestError,
>)
    requires
        old(stack).len() >= 2,
        inst@ is Add || inst@ is Subtract || inst@ is Multiply || inst@ is Divide,
        inst@ is Divide ==> !(peek(values_view(old(stack)@), 0) matches ValueModel::Int(a) && peek(
            values_view(old(stack)@),
            1,
        ) matches ValueModel::Int(b) && division_fault(b, a)),
    ensures
        effect_of(*final(stack), r) == arithmetic_effect(
            values_view(old(stack)@),
            inst@,
        ),
{
    let a = pop_value(stack);
    match a {
        ForestValue::Int(x) => {
            let b = pop_value(stack);
            match b {
                ForestValue::Int(y) => {
                    let result = match inst {
                        ForestInstruction::Add => y.wrapping_add(x),
                        ForestInstruction::Subtract => y.wrapping_sub(x),
                        ForestInstruction::Multiply => y.wrapping_mul(x),
                        _ => {
                            proof {
                                lemma_quotient(y, x);
                            }
                            y.checked_div(x).unwrap()
                        },
                    };
                    push_on(stack, ForestValue::Int(result));
                    Ok(StepAction::Continue)
                },
                other => Err(ForestError::TypeMismatch(other, ForestValue::Int(0))),
            }
        },
        other => Err(ForestError::TypeMismatch(other, ForestValue::Int(0))),
    }
}

/// Runs `GreaterThan` or `LessThan` on a stack of two values or more.
pub(crate) fn comparison_op(stack: &mut Vec<ForestValue>, inst: &ForestInstruction) -> (r: Result<
    StepAction,
    ForestError,
>)
    requires
        old(stack).len() >= 2,
        inst@ is GreaterThan || inst@ is LessThan,
    ensures
        effect_of(*final(stack), r) == comparison_effect(
            values_view(old(stack)@),
            inst@,
        ),
{
    let a = pop_value(stack);
    let b = pop_value(stack);
    match a {
        ForestValue::Int(x) => match b {
            ForestValue::Int(y) => {
                let holds = match inst {
                    ForestInstruction::GreaterThan => y > x,
                    _ => y < x,
                };
                push_on(stack, truth_value(holds));
                Ok(StepAction::Continue)
            },
            other => Err(ForestError::TypeMismatch(other, ForestValue::Int(1))),
        },
        other => Err(ForestError::TypeMismatch(other, ForestValue::Int(1))),
    }
}

/// Runs `Concatenate` on a stack of two values or more.
pub(crate) fn concatenate_op(stack: &mut Vec<ForestValue>) -> (r: Result<StepAction, ForestError>)
    requires
        old(stack).len() >= 2,
    ensures
        effect_of(*final(stack), r) == concatenate_effect(values_view(old(stack)@)),
{
    let a = pop_value(stack);
    match a {
        ForestValue::String(x) => {
            let b = pop_value(stack);
            match b {
                ForestValue::String(y) => {
                    push_on(stack, ForestValue::String(y.concat(x.as_str())));
                    Ok(StepAction::Continue)
                },
                other => Err(ForestError::TypeMismatch(other, empty_string())),
            }
        },
        other => Err(ForestError::TypeMismatch(other, empty_string())),
    }
}

/// Runs `Get` on a stack of two values or more.
pub(crate) fn get_op(stack: &mut Vec<ForestValue>) -> (r: Result<StepAction, ForestError>)
    requires
        old(stack).len() >= 2,
    ensures
        effect_of(*final(stack), r) == get_effect(values_view(old(stack)@)),
{
    let ghost st = values_view(old(stack)@);
    let key = pop_value(stack);
    if key.is_nil() {
        return Err(ForestError::TypeMismatch(key, ForestValue::Nil));
    }
    let top = stack.len() - 1;
    assert(values_view(stack@)[top as int] == peek(st, 1));
    let found = match &stack[top] {
        ForestValue::Table(t) => {
            proof {
                lemma_table_view(*t);
            }
            Some(table_get(t, &key))
        },
        _ => None,
    };
    match found {
        Some(v) => {
            push_on(stack, v);
            Ok(StepAction::Continue)
        },
        None => Err(ForestError::TypeMismatch(clone_value(&stack[top]), empty_table())),
    }
}

/// Runs `Associate` on a stack of three values or more.
pub(crate) fn associate_op(stack: &mut Vec<ForestValue>) -> (r: Result<StepAction, ForestError>)
    requires
        old(stack).len() >= 3,
    ensures
        effect_of(*final(stack), r) == associate_effect(values_view(old(stack)@)),
{
    let value = pop_value(stack);
    let key = pop_value(stack);
    if key.is_nil() {
        return Err(ForestError::TypeMismatch(key, ForestValue::Nil));
    }
    let table = pop_value(stack);
    match table {
        ForestValue::Table(t) => {
            proof {
                lemma_table_view(t);
            }
            let bound = table_associate(t, key, value);
            proof {
                lemma_table_view(bound);
            }
            push_on(stack, ForestValue::Table(bound));
            Ok(StepAction::Continue)
        },
        other => Err(ForestError::TypeMismatch(other, empty_table())),
    }
}

/// Runs `Keys`, `Values` or `Splat` on a stack of one value or more.
pub(crate) fn table_op(stack: &mut Vec<ForestValue>, inst: &ForestInstruction) -> (r: Result<
    StepAction,
    ForestError,
>)
    requires
        old(stack).len() >= 1,
        inst@ is Keys || inst@ is Values || inst@ is Splat,
    ensures
        effect_of(*final(stack), r) == table_effect(values_view(old(stack)@), inst@),
{
    let ghost st = values_view(old(stack)@);
    let table = pop_value(stack);
    match table {
        ForestValue::Table(t) => {
            proof {
                lemma_table_view(t);
            }
            match inst {
                ForestInstruction::Keys => {
                    let keys = table_keys(&t);
                    proof {
                        lemma_table_view(keys);
                    }
                    push_on(stack, ForestValue::Table(keys));
                },
                ForestInstruction::Values => {
                    let values = table_values(&t);
                    proof {
                        lemma_table_view(values);
                    }
                    push_on(stack, ForestValue::Table(values));
                },
                _ => {
                    let mut i: usize = 0;
                    while i < t.len()
                        invariant
                            i <= t.len(),
                            values_view(stack@) == popped(st, 1) + entry_values(
                                pairs_view(t@),
                            ).take(i as int),
                        decreases t.len() - i,
                    {
                        push_on(stack, clone_value(&t[i].value));
                        i += 1;
                    }
                },
            }
            Ok(StepAction::Continue)
        },
        other => Err(ForestError::TypeMismatch(other, empty_table())),
    }
}

/// Runs `Include` on a stack of one value or more.
pub(crate) fn include_op(stack: &mut Vec<ForestValue>) -> (r: Result<StepAction, ForestError>)
    requires
        old(stack).len() >= 1,
    ensures
        effect_of(*final(stack), r) == include_effect(values_view(old(stack)@)),
{
    let name = pop_value(stack);
    match name {
        ForestValue::String(s) => Ok(StepAction::Include(s)),
        other => Err(ForestError::TypeMismatch(other, empty_string())),
    }
}

/// Runs an instruction that works on the stack alone.
pub(crate) fn apply(stack: &mut Vec<ForestValue>, inst: ForestInstruction) -> (r: Result<
    StepAction,
    ForestError,
>)
    requires
        on_stack_alone(inst@),
        !division_faults_on(values_view(old(stack)@), inst@),
    ensures
        effect_of(*final(stack), r) == stack_effect(values_view(old(stack)@), inst@),
{
    let depth = stack.len();
    match inst {
        ForestInstruction::Push(v) => {
            push_on(stack, v);
            Ok(StepAction::Continue)
        },
        ForestInstruction::Duplicate => {
            if depth < 1 {
                return Err(ForestError::Underflow);
            }
            let copy = clone_value(&stack[depth - 1]);
            push_on(stack, copy);
            Ok(StepAction::Continue)
        },
        ForestInstruction::Drop => {
            if depth < 1 {
                return Err(ForestError::Underflow);
            }
            let _ = pop_value(stack);
            Ok(StepAction::Continue)
        },
        ForestInstruction::Add | ForestInstruction::Subtract | ForestInstruction::Multiply
        | ForestInstruction::Divide => {
            if depth < 2 {
                return Err(ForestError::Underflow);
            }
            arithmetic_op(stack, &inst)
        },
        ForestInstruction::Stringify => {
            if depth < 1 {
                return Err(ForestError::Underflow);
            }
            let v = pop_value(stack);
            push_on(stack, ForestValue::String(v.to_text()));
            Ok(StepAction::Continue)
        },
        ForestInstruction::Concatenate => {
            if depth < 2 {
                return Err(ForestError::Underflow);
            }
            concatenate_op(stack)
        },
        ForestInstruction::Print => {
            if depth < 1 {
                return Err(ForestError::Underflow);
            }
            let v = pop_value(stack);
            let text = match v {
                ForestValue::String(s) => s,
                other => other.to_text(),
            };
            Ok(StepAction::Print(text))
        },
        ForestInstruction::Get => {
            if depth < 2 {
                return Err(ForestError::Underflow);
            }
            get_op(stack)
        },
        ForestInstruction::Associate => {
            if depth < 3 {
                return Err(ForestError::Underflow);
            }
            associate_op(stack)
        },
        ForestInstruction::Keys | ForestInstruction::Values | ForestInstruction::Splat => {
            if depth < 1 {
                return Err(ForestError::Underflow);
            }
            table_op(stack, &inst)
        },
        ForestInstruction::And => {
            if depth < 2 {
                return Err(ForestError::Underflow);
            }
            let a = pop_value(stack);
            let b = pop_value(stack);
            push_on(stack, truth_value(!a.is_nil() && !b.is_nil()));
            Ok(StepAction::Continue)
        },
        ForestInstruction::Or => {
            if depth < 2 {
                return Err(ForestError::Underflow);
            }
            let a = pop_value(stack);
            let b = pop_value(stack);
            push_on(stack, truth_value(!a.is_nil() || !b.is_nil()));
            Ok(StepAction::Continue)
        },
        ForestInstruction::Not => {
            if depth < 1 {
                return Err(ForestError::Underflow);
            }
            let a = pop_value(stack);
            push_on(stack, truth_value(a.is_nil()));
            Ok(StepAction::Continue)
        },
        ForestInstruction::Eq => {
            if depth < 2 {
                return Err(ForestError::Underflow);
            }
            let a = pop_value(stack);
            let b = pop_value(stack);
            push_on(stack, truth_value(values_equal(&a, &b)));
            Ok(StepAction::Continue)
        },
        ForestInstruction::GreaterThan | ForestInstruction::LessThan => {
            if depth < 2 {
                return Err(ForestError::Underflow);
            }
            comparison_op(stack, &inst)
        },
        ForestInstruction::Swap => {
            if depth < 2 {
                return Err(ForestError::Underflow);
            }
            let a = pop_value(stack);
            let b = pop_value(stack);
            push_on(stack, a);
            push_on(stack, b);
            Ok(StepAction::Continue)
        },
        ForestInstruction::Rotate => {
            if depth < 3 {
                return Err(ForestError::Underflow);
            }
            let a = pop_value(stack);
            let b = pop_value(stack);
            let c = pop_value(stack);
            push_on(stack, a);
            push_on(stack, b);
            push_on(stack, c);
            Ok(StepAction::Continue)
        },
        ForestInstruction::Include => {
            if depth < 1 {
                return Err(ForestError::Underflow);
            }
            include_op(stack)
        },
        _ => Ok(StepAction::Continue),
    }
}

} // verus!
