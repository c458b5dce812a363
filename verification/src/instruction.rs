//! The instructions of the machine.

use crate::render::{push_value, value_text};
use crate::value::{clone_value, ForestValue, ValueModel};
use vstd::prelude::*;
use vstd::string::StringExecFns;

verus! {

/// One operation of the machine.
#[derive(Debug)]
pub enum ForestInstruction {
    /// Puts a value on the stack.
    Push(ForestValue),
    /// Puts a copy of the top value on the stack.
    Duplicate,
    /// Removes the top value.
    Drop,
    /// Replaces two integers by their sum.
    Add,
    /// Replaces two integers by the lower one minus the top one.
    Subtract,
    /// Replaces two integers by their product.
    Multiply,
    /// Replaces two integers by the lower one divided by the top one.
    Divide,
    /// Replaces the top value by its structural display.
    Stringify,
    /// Replaces two strings by the lower one followed by the top one.
    Concatenate,
    /// Removes the top value and emits it.
    Print,
    /// Replaces a key by what the table below it holds for the key.
    Get,
    /// Replaces a table, a key and a value by the table with the key bound to the value.
    Associate,
    /// Replaces a table by the table of its keys, numbered from 0.
    Keys,
    /// Replaces a table by the table of its values, numbered from 0.
    Values,
    /// Opens a conditional: where the top value is `Nil`, skips to the matching `IfEnd`.
    If,
    /// Closes a conditional.
    IfEnd,
    /// Replaces two values by the truth of both being true.
    And,
    /// Replaces two values by the truth of one of them being true.
    Or,
    /// Replaces a value by the truth of its being false.
    Not,
    /// Replaces two values by the truth of their being structurally equal.
    Eq,
    /// Replaces two integers by the truth of the lower one being greater.
    GreaterThan,
    /// Replaces two integers by the truth of the lower one being less.
    LessThan,
    /// Opens a loop.
    Loop,
    /// Closes a loop: execution goes back to the loop's opening.
    LoopEnd,
    /// Leaves the innermost enclosing loop.
    Break,
    /// Opens the definition of a constant word.
    MakeWord(String),
    /// Opens the definition of a word that may be redefined.
    MakeWordVar(String),
    /// Closes the definition of a word.
    EndWord,
    /// Runs the body of a word.
    InvokeWord(String),
    /// Exchanges the two top values.
    Swap,
    /// Reverses the three top values.
    Rotate,
    /// Replaces a table by its values, the first one deepest.
    Splat,
    /// Binds the top value to a name as a constant word.
    SetWord(String),
    /// Binds the top value to a name as a word that may be redefined.
    SetVar(String),
    /// Loads the program in the file that the top value names and runs it next.
    Include,
    /// Halts.
    Exit,
}

/// The mathematical value that a [`ForestInstruction`] stands for.
#[verifier::ext_equal]
pub enum InstrModel {
    Push(ValueModel),
    Duplicate,
    Drop,
    Add,
    Subtract,
    Multiply,
    Divide,
    Stringify,
    Concatenate,
    Print,
    Get,
    Associate,
    Keys,
    Values,
    If,
    IfEnd,
    And,
    Or,
    Not,
    Eq,
    GreaterThan,
    LessThan,
    Loop,
    LoopEnd,
    Break,
    MakeWord(Seq<char>),
    MakeWordVar(Seq<char>),
    EndWord,
    InvokeWord(Seq<char>),
    Swap,
    Rotate,
    Splat,
    SetWord(Seq<char>),
    SetVar(Seq<char>),
    Include,
    Exit,
}

impl View for ForestInstruction {
    type V = InstrModel;

    open spec fn view(&self) -> InstrModel {
        match self {
            ForestInstruction::Push(v) => InstrModel::Push(v@),
            ForestInstruction::Duplicate => InstrModel::Duplicate,
            ForestInstruction::Drop => InstrModel::Drop,
            ForestInstruction::Add => InstrModel::Add,
            ForestInstruction::Subtract => InstrModel::Subtract,
            ForestInstruction::Multiply => InstrModel::Multiply,
            ForestInstruction::Divide => InstrModel::Divide,
            ForestInstruction::Stringify => InstrModel::Stringify,
            ForestInstruction::Concatenate => InstrModel::Concatenate,
            ForestInstruction::Print => InstrModel::Print,
            ForestInstruction::Get => InstrModel::Get,
            ForestInstruction::Associate => InstrModel::Associate,
            ForestInstruction::Keys => InstrModel::Keys,
            ForestInstruction::Values => InstrModel::Values,
            ForestInstruction::If => InstrModel::If,
            ForestInstruction::IfEnd => InstrModel::IfEnd,
            ForestInstruction::And => InstrModel::And,
            ForestInstruction::Or => InstrModel::Or,
            ForestInstruction::Not => InstrModel::Not,
            ForestInstruction::Eq => InstrModel::Eq,
            ForestInstruction::GreaterThan => InstrModel::GreaterThan,
            ForestInstruction::LessThan => InstrModel::LessThan,
            ForestInstruction::Loop => InstrModel::Loop,
            ForestInstruction::LoopEnd => InstrModel::LoopEnd,
            ForestInstruction::Break => InstrModel::Break,
            ForestInstruction::MakeWord(name) => InstrModel::MakeWord(name@),
            ForestInstruction::MakeWordVar(name) => InstrModel::MakeWordVar(name@),
            ForestInstruction::EndWord => InstrModel::EndWord,
            ForestInstruction::InvokeWord(name) => InstrModel::InvokeWord(name@),
            ForestInstruction::Swap => InstrModel::Swap,
            ForestInstruction::Rotate => InstrModel::Rotate,
            ForestInstruction::Splat => InstrModel::Splat,
            ForestInstruction::SetWord(name) => InstrModel::SetWord(name@),
            ForestInstruction::SetVar(name) => InstrModel::SetVar(name@),
            ForestInstruction::Include => InstrModel::Include,
            ForestInstruction::Exit => InstrModel::Exit,
        }
    }
}

/// The instructions of a sequence, each taken by its view.
pub open spec fn instrs_view(s: Seq<ForestInstruction>) -> Seq<InstrModel> {
    Seq::new(s.len(), |i: int| s[i]@)
}

impl Clone for ForestInstruction {
    fn clone(&self) -> (res: Self)
        ensures
            res@ == self@,
    {
        match self {
            ForestInstruction::Push(v) => ForestInstruction::Push(clone_value(v)),
            ForestInstruction::Duplicate => ForestInstruction::Duplicate,
            ForestInstruction::Drop => ForestInstruction::Drop,
            ForestInstruction::Add => ForestInstruction::Add,
            ForestInstruction::Subtract => ForestInstruction::Subtract,
            ForestInstruction::Multiply => ForestInstruction::Multiply,
            ForestInstruction::Divide => ForestInstruction::Divide,
            ForestInstruction::Stringify => ForestInstruction::Stringify,
            ForestInstruction::Concatenate => ForestInstruction::Concatenate,
            ForestInstruction::Print => ForestInstruction::Print,
            ForestInstruction::Get => ForestInstruction::Get,
            ForestInstruction::Associate => ForestInstruction::Associate,
            ForestInstruction::Keys => ForestInstruction::Keys,
            ForestInstruction::Values => ForestInstruction::Values,
            ForestInstruction::If => ForestInstruction::If,
            ForestInstruction::IfEnd => ForestInstruction::IfEnd,
            ForestInstruction::And => ForestInstruction::And,
            ForestInstruction::Or => ForestInstruction::Or,
            ForestInstruction::Not => ForestInstruction::Not,
            ForestInstruction::Eq => ForestInstruction::Eq,
            ForestInstruction::GreaterThan => ForestInstruction::GreaterThan,
            ForestInstruction::LessThan => ForestInstruction::LessThan,
            ForestInstruction::Loop => ForestInstruction::Loop,
            ForestInstruction::LoopEnd => ForestInstruction::LoopEnd,
            ForestInstruction::Break => ForestInstruction::Break,
            ForestInstruction::MakeWord(name) => ForestInstruction::MakeWord(name.clone()),
            ForestInstruction::MakeWordVar(name) => ForestInstruction::MakeWordVar(name.clone()),
            ForestInstruction::EndWord => ForestInstruction::EndWord,
            ForestInstruction::InvokeWord(name) => ForestInstruction::InvokeWord(name.clone()),
            ForestInstruction::Swap => ForestInstruction::Swap,
            ForestInstruction::Rotate => ForestInstruction::Rotate,
            ForestInstruction::Splat => ForestInstruction::Splat,
            ForestInstruction::SetWord(name) => ForestInstruction::SetWord(name.clone()),
            ForestInstruction::SetVar(name) => ForestInstruction::SetVar(name.clone()),
            ForestInstruction::Include => ForestInstruction::Include,
            ForestInstruction::Exit => ForestInstruction::Exit,
        }
    }
}

/// Copies a sequence of instructions.
pub fn clone_instrs(v: &Vec<ForestInstruction>) -> (res: Vec<ForestInstruction>)
    ensures
        instrs_view(res@) == instrs_view(v@),
{
    let mut out: Vec<ForestInstruction> = Vec::new();
    let mut i: usize = 0;
    while i < v.len()
        invariant
            i <= v.len(),
            out.len() == i,
            forall|j: int| 0 <= j < i ==> out[j]@ == v[j]@,
        decreases v.len() - i,
    {
        out.push(v[i].clone());
        i += 1;
    }
    out
}

/// The display of an instruction: its name, followed for `Push` by a space and the structural
/// display of the value, and for an instruction that carries a name by a space and the name.
pub open spec fn instr_text(i: InstrModel) -> Seq<char> {
    match i {
        InstrModel::Push(v) => "Push "@ + value_text(v),
        InstrModel::Duplicate => "Duplicate"@,
        InstrModel::Drop => "Drop"@,
        InstrModel::Add => "Add"@,
        InstrModel::Subtract => "Subtract"@,
        InstrModel::Multiply => "Multiply"@,
        InstrModel::Divide => "Divide"@,
        InstrModel::Stringify => "Stringify"@,
        InstrModel::Concatenate => "Concatenate"@,
        InstrModel::Print => "Print"@,
        InstrModel::Get => "Get"@,
        InstrModel::Associate => "Associate"@,
        InstrModel::Keys => "Keys"@,
        InstrModel::Values => "Values"@,
        InstrModel::If => "If"@,
        InstrModel::IfEnd => "IfEnd"@,
        InstrModel::And => "And"@,
        InstrModel::Or => "Or"@,
        InstrModel::Not => "Not"@,
        InstrModel::Eq => "Eq"@,
        InstrModel::GreaterThan => "GreaterThan"@,
        InstrModel::LessThan => "LessThan"@,
        InstrModel::Loop => "Loop"@,
        InstrModel::LoopEnd => "LoopEnd"@,
        InstrModel::Break => "Break"@,
        InstrModel::MakeWord(name) => "MakeWord "@ + name,
        InstrModel::MakeWordVar(name) => "MakeWordVar "@ + name,
        InstrModel::EndWord => "EndWord"@,
        InstrModel::InvokeWord(name) => "InvokeWord "@ + name,
        InstrModel::Swap => "Swap"@,
        InstrModel::Rotate => "Rotate"@,
        InstrModel::Splat => "Splat"@,
        InstrModel::SetWord(name) => "Set "@ + name,
        InstrModel::SetVar(name) => "SetVar "@ + name,
        InstrModel::Include => "Include"@,
        InstrModel::Exit => "Exit"@,
    }
}

/// Appends the display of `i` to `out`.
pub fn push_instr(out: &mut String, i: &ForestInstruction)
    ensures
        final(out)@ == old(out)@ + instr_text(i@),
{
    match i {
        ForestInstruction::Push(v) => {
            out.append("Push ");
            push_value(out, v);
        },
        ForestInstruction::Duplicate => out.append("Duplicate"),
        ForestInstruction::Drop => out.append("Drop"),
        ForestInstruction::Add => out.append("Add"),
        ForestInstruction::Subtract => out.append("Subtract"),
        ForestInstruction::Multiply => out.append("Multiply"),
        ForestInstruction::Divide => out.append("Divide"),
        ForestInstruction::Stringify => out.append("Stringify"),
        ForestInstruction::Concatenate => out.append("Concatenate"),
        ForestInstruction::Print => out.append("Print"),
        ForestInstruction::Get => out.append("Get"),
        ForestInstruction::Associate => out.append("Associate"),
        ForestInstruction::Keys => out.append("Keys"),
        ForestInstruction::Values => out.append("Values"),
        ForestInstruction::If => out.append("If"),
        ForestInstruction::IfEnd => out.append("IfEnd"),
        ForestInstruction::And => out.append("And"),
        ForestInstruction::Or => out.append("Or"),
        ForestInstruction::Not => out.append("Not"),
        ForestInstruction::Eq => out.append("Eq"),
        ForestInstruction::GreaterThan => out.append("GreaterThan"),
        ForestInstruction::LessThan => out.append("LessThan"),
        ForestInstruction::Loop => out.append("Loop"),
        ForestInstruction::LoopEnd => out.append("LoopEnd"),
        ForestInstruction::Break => out.append("Break"),
        ForestInstruction::MakeWord(name) => {
            out.append("MakeWord ");
            out.append(name.as_str());
        },
        ForestInstruction::MakeWordVar(name) => {
            out.append("MakeWordVar ");
            out.append(name.as_str());
        },
        ForestInstruction::EndWord => out.append("EndWord"),
        ForestInstruction::InvokeWord(name) => {
            out.append("InvokeWord ");
            out.append(name.as_str());
        },
        ForestInstruction::Swap => out.append("Swap"),
        ForestInstruction::Rotate => out.append("Rotate"),
        ForestInstruction::Splat => out.append("Splat"),
        ForestInstruction::SetWord(name) => {
            out.append("Set ");
            out.append(name.as_str());
        },
        ForestInstruction::SetVar(name) => {
            out.append("SetVar ");
            out.append(name.as_str());
        },
        ForestInstruction::Include => out.append("Include"),
        ForestInstruction::Exit => out.append("Exit"),
    }
}

impl ForestInstruction {
    /// The display of this instruction.
    pub fn to_text(&self) -> (s: String)
        ensures
            s@ == instr_text(self@),
    {
        let mut s = String::new();
        push_instr(&mut s, self);
        s
    }
}

} // verus!
