//! The reasons for which the machine stops.

use crate::compile::{compile_error_text, ForestCompileError};
use crate::render::{push_value, value_text};
use crate::value::{ForestValue, ValueModel};
use vstd::prelude::*;
use vstd::string::StringExecFns;

verus! {

/// Why the machine stopped. Every one of these ends the run.
#[derive(Debug)]
pub enum ForestError {
    /// The program asked to stop; this is the clean end of a run.
    Halt,
    /// An operation needed more values than the stack holds.
    Underflow,
    /// An operation got the first value where it needed one shaped like the second.
    TypeMismatch(ForestValue, ForestValue),
    /// The instructions ran out inside a conditional that was being skipped.
    UnbalancedIfEnd,
    /// A loop was closed that was never opened, or the instructions ran out while a loop
    /// was being left.
    UnbalancedLoopEnd,
    /// The instructions ran out before the program asked to stop.
    EndedWithoutHalting,
    /// The instructions ran out inside the definition of a word.
    UnbalancedWordEnd,
    /// A word was invoked that has no definition.
    UseOfUndeclaredWord(String),
    /// A feature that the machine does not have.
    Unimplemented(String),
    /// A name that is bound as a constant was bound again.
    ReassigningConstant(String),
    /// The file to include was not found.
    FileNotFound,
    /// The file to include could not be read.
    ErrorReadingFile,
    /// The file to include holds no valid program.
    IncludeCompileError(ForestCompileError),
}

/// The mathematical value that a [`ForestError`] stands for.
#[verifier::ext_equal]
pub enum ErrorModel {
    Halt,
    Underflow,
    TypeMismatch(ValueModel, ValueModel),
    UnbalancedIfEnd,
    UnbalancedLoopEnd,
    EndedWithoutHalting,
    UnbalancedWordEnd,
    UseOfUndeclaredWord(Seq<char>),
    Unimplemented(Seq<char>),
    ReassigningConstant(Seq<char>),
    FileNotFound,
    ErrorReadingFile,
    IncludeCompileError(ForestCompileError),
}

impl View for ForestError {
    type V = ErrorModel;

    open spec fn view(&self) -> ErrorModel {
        match self {
            ForestError::Halt => ErrorModel::Halt,
            ForestError::Underflow => ErrorModel::Underflow,
            ForestError::TypeMismatch(got, expected) => ErrorModel::TypeMismatch(got@, expected@),
            ForestError::UnbalancedIfEnd => ErrorModel::UnbalancedIfEnd,
            ForestError::UnbalancedLoopEnd => ErrorModel::UnbalancedLoopEnd,
            ForestError::EndedWithoutHalting => ErrorModel::EndedWithoutHalting,
            ForestError::UnbalancedWordEnd => ErrorModel::UnbalancedWordEnd,
            ForestError::UseOfUndeclaredWord(name) => ErrorModel::UseOfUndeclaredWord(name@),
            ForestError::Unimplemented(feature) => ErrorModel::Unimplemented(feature@),
            ForestError::ReassigningConstant(name) => ErrorModel::ReassigningConstant(name@),
            ForestError::FileNotFound => ErrorModel::FileNotFound,
            ForestError::ErrorReadingFile => ErrorModel::ErrorReadingFile,
            ForestError::IncludeCompileError(e) => ErrorModel::IncludeCompileError(*e),
        }
    }
}

/// The message for an error.
pub open spec fn error_text(e: ErrorModel) -> Seq<char> {
    match e {
        ErrorModel::Halt => "Halted!"@,
        ErrorModel::Underflow => "Underflow!"@,
        ErrorModel::TypeMismatch(got, expected) => "Expceted: "@ + value_text(expected) + ", got "@
            + value_text(got),
        ErrorModel::UnbalancedIfEnd => "Unbalanced IfEnd!"@,
        ErrorModel::UnbalancedLoopEnd => "Unbalanced LoopEnd!"@,
        ErrorModel::EndedWithoutHalting => "Program ended without halting!"@,
        ErrorModel::UnbalancedWordEnd => "Unbalanced WordEnd!"@,
        ErrorModel::UseOfUndeclaredWord(name) => "Use of undeclared word `"@ + name + "`!"@,
        ErrorModel::Unimplemented(feature) => feature + " is not implemented yet!"@,
        ErrorModel::ReassigningConstant(name) => "Reassigning to constant `"@ + name + "`!"@,
        ErrorModel::FileNotFound => "File could not be found in the current directory!"@,
        ErrorModel::ErrorReadingFile => "Error reading file!"@,
        ErrorModel::IncludeCompileError(e) => "Error while including, reason:\n> "@
            + compile_error_text(e),
    }
}

impl ForestError {
    /// The message for this error.
    pub fn to_text(&self) -> (s: String)
        ensures
            s@ == error_text(self@),
    {
        let mut s = String::new();
        match self {
            ForestError::Halt => s.append("Halted!"),
            ForestError::Underflow => s.append("Underflow!"),
            ForestError::TypeMismatch(got, expected) => {
                s.append("Expceted: ");
                push_value(&mut s, expected);
                s.append(", got ");
                push_value(&mut s, got);
            },
            ForestError::UnbalancedIfEnd => s.append("Unbalanced IfEnd!"),
            ForestError::UnbalancedLoopEnd => s.append("Unbalanced LoopEnd!"),
            ForestError::EndedWithoutHalting => s.append("Program ended without halting!"),
            ForestError::UnbalancedWordEnd => s.append("Unbalanced WordEnd!"),
            ForestError::UseOfUndeclaredWord(name) => {
                s.append("Use of undeclared word `");
                s.append(name.as_str());
                s.append("`!");
            },
            ForestError::Unimplemented(feature) => {
                s.append(feature.as_str());
                s.append(" is not implemented yet!");
            },
            ForestError::ReassigningConstant(name) => {
                s.append("Reassigning to constant `");
                s.append(name.as_str());
                s.append("`!");
            },
            ForestError::FileNotFound => s.append(
                "File could not be found in the current directory!",
            ),
            ForestError::ErrorReadingFile => s.append("Error reading file!"),
            ForestError::IncludeCompileError(e) => {
                s.append("Error while including, reason:\n> ");
                let reason = e.to_text();
                s.append(reason.as_str());
            },
        }
        s
    }
}

} // verus!
