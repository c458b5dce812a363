use forest::compile::ForestCompileError;
use forest::error::ForestError;
use forest::instruction::ForestInstruction;
use forest::value::{ForestValue, TablePair};

fn text_value(s: &str) -> ForestValue {
    ForestValue::String(s.to_string())
}

#[test]
fn nil_is_displayed_as_nil() {
    assert_eq!(ForestValue::Nil.to_text(), "nil");
}

#[test]
fn integers_are_displayed_in_decimal() {
    assert_eq!(ForestValue::Int(0).to_text(), "0");
    assert_eq!(ForestValue::Int(7).to_text(), "7");
    assert_eq!(ForestValue::Int(10).to_text(), "10");
    assert_eq!(ForestValue::Int(42).to_text(), "42");
    assert_eq!(ForestValue::Int(-7).to_text(), "-7");
    assert_eq!(ForestValue::Int(1000000).to_text(), "1000000");
    assert_eq!(ForestValue::Int(i64::MAX).to_text(), "9223372036854775807");
    assert_eq!(ForestValue::Int(i64::MIN).to_text(), "-9223372036854775808");
}

#[test]
fn integer_display_agrees_with_the_standard_formatting() {
    let samples = [0i64, 1, -1, 9, 10, 11, 99, 100, 101, -100, 123456789, -987654321, i64::MAX, i64::MIN];
    for n in samples {
        assert_eq!(ForestValue::Int(n).to_text(), format!("{}", n));
    }
}

#[test]
fn strings_are_displayed_quoted_and_escaped() {
    assert_eq!(text_value("hi").to_text(), "\"hi\"");
    assert_eq!(text_value("").to_text(), "\"\"");
    assert_eq!(text_value("a\"b\n").to_text(), "\"a\\\"b\\n\"");
    assert_eq!(text_value("tab\there\\").to_text(), "\"tab\\there\\\\\"");
}

#[test]
fn tables_are_displayed_between_braces() {
    assert_eq!(ForestValue::Table(vec![]).to_text(), "{}");
    let one = ForestValue::Table(vec![TablePair { key: text_value("k"), value: ForestValue::Int(5) }]);
    assert_eq!(one.to_text(), "{\"k\" 5}");
    let two = ForestValue::Table(vec![
        TablePair { key: text_value("a"), value: ForestValue::Int(1) },
        TablePair { key: ForestValue::Int(2), value: ForestValue::Nil },
    ]);
    assert_eq!(two.to_text(), "{\"a\" 1 2 nil}");
}

#[test]
fn nested_tables_are_displayed_inside_out() {
    let inner = ForestValue::Table(vec![TablePair { key: ForestValue::Int(0), value: text_value("x") }]);
    let outer = ForestValue::Table(vec![
        TablePair { key: text_value("in"), value: inner },
        TablePair { key: text_value("empty"), value: ForestValue::Table(vec![]) },
    ]);
    assert_eq!(outer.to_text(), "{\"in\" {0 \"x\"} \"empty\" {}}");
}

#[test]
fn instructions_are_displayed_by_name() {
    assert_eq!(ForestInstruction::Duplicate.to_text(), "Duplicate");
    assert_eq!(ForestInstruction::Drop.to_text(), "Drop");
    assert_eq!(ForestInstruction::Add.to_text(), "Add");
    assert_eq!(ForestInstruction::Subtract.to_text(), "Subtract");
    assert_eq!(ForestInstruction::Multiply.to_text(), "Multiply");
    assert_eq!(ForestInstruction::Divide.to_text(), "Divide");
    assert_eq!(ForestInstruction::Stringify.to_text(), "Stringify");
    assert_eq!(ForestInstruction::Concatenate.to_text(), "Concatenate");
    assert_eq!(ForestInstruction::Print.to_text(), "Print");
    assert_eq!(ForestInstruction::Get.to_text(), "Get");
    assert_eq!(ForestInstruction::Associate.to_text(), "Associate");
    assert_eq!(ForestInstruction::Keys.to_text(), "Keys");
    assert_eq!(ForestInstruction::Values.to_text(), "Values");
    assert_eq!(ForestInstruction::If.to_text(), "If");
    assert_eq!(ForestInstruction::IfEnd.to_text(), "IfEnd");
    assert_eq!(ForestInstruction::And.to_text(), "And");
    assert_eq!(ForestInstruction::Or.to_text(), "Or");
    assert_eq!(ForestInstruction::Not.to_text(), "Not");
    assert_eq!(ForestInstruction::Eq.to_text(), "Eq");
    assert_eq!(ForestInstruction::GreaterThan.to_text(), "GreaterThan");
    assert_eq!(ForestInstruction::LessThan.to_text(), "LessThan");
    assert_eq!(ForestInstruction::Loop.to_text(), "Loop");
    assert_eq!(ForestInstruction::LoopEnd.to_text(), "LoopEnd");
    assert_eq!(ForestInstruction::Break.to_text(), "Break");
    assert_eq!(ForestInstruction::EndWord.to_text(), "EndWord");
    assert_eq!(ForestInstruction::Swap.to_text(), "Swap");
    assert_eq!(ForestInstruction::Rotate.to_text(), "Rotate");
    assert_eq!(ForestInstruction::Splat.to_text(), "Splat");
    assert_eq!(ForestInstruction::Include.to_text(), "Include");
    assert_eq!(ForestInstruction::Exit.to_text(), "Exit");
}

#[test]
fn instructions_with_an_argument_display_it() {
    assert_eq!(ForestInstruction::Push(ForestValue::Int(3)).to_text(), "Push 3");
    assert_eq!(ForestInstruction::Push(text_value("s")).to_text(), "Push \"s\"");
    assert_eq!(ForestInstruction::MakeWord("sq".to_string()).to_text(), "MakeWord sq");
    assert_eq!(ForestInstruction::MakeWordVar("sq".to_string()).to_text(), "MakeWordVar sq");
    assert_eq!(ForestInstruction::InvokeWord("sq".to_string()).to_text(), "InvokeWord sq");
    assert_eq!(ForestInstruction::SetWord("x".to_string()).to_text(), "Set x");
    assert_eq!(ForestInstruction::SetVar("x".to_string()).to_text(), "SetVar x");
}

#[test]
fn errors_have_their_messages() {
    assert_eq!(ForestError::Halt.to_text(), "Halted!");
    assert_eq!(ForestError::Underflow.to_text(), "Underflow!");
    assert_eq!(
        ForestError::TypeMismatch(text_value("x"), ForestValue::Int(0)).to_text(),
        "Expceted: 0, got \"x\""
    );
    assert_eq!(ForestError::UnbalancedIfEnd.to_text(), "Unbalanced IfEnd!");
    assert_eq!(ForestError::UnbalancedLoopEnd.to_text(), "Unbalanced LoopEnd!");
    assert_eq!(ForestError::EndedWithoutHalting.to_text(), "Program ended without halting!");
    assert_eq!(ForestError::UnbalancedWordEnd.to_text(), "Unbalanced WordEnd!");
    assert_eq!(
        ForestError::UseOfUndeclaredWord("f".to_string()).to_text(),
        "Use of undeclared word `f`!"
    );
    assert_eq!(
        ForestError::Unimplemented("Thing".to_string()).to_text(),
        "Thing is not implemented yet!"
    );
    assert_eq!(
        ForestError::ReassigningConstant("f".to_string()).to_text(),
        "Reassigning to constant `f`!"
    );
    assert_eq!(
        ForestError::FileNotFound.to_text(),
        "File could not be found in the current directory!"
    );
    assert_eq!(ForestError::ErrorReadingFile.to_text(), "Error reading file!");
    assert_eq!(
        ForestError::IncludeCompileError(ForestCompileError::OutOfBoundsWord).to_text(),
        "Error while including, reason:\n> Makeword (:) was last instruction!"
    );
}

#[test]
fn compile_error_has_its_message() {
    assert_eq!(ForestCompileError::OutOfBoundsWord.to_text(), "Makeword (:) was last instruction!");
}

#[test]
fn clones_are_equal_to_what_was_cloned() {
    let t = ForestValue::Table(vec![
        TablePair { key: text_value("a"), value: ForestValue::Int(1) },
        TablePair { key: ForestValue::Int(2), value: ForestValue::Table(vec![]) },
    ]);
    assert_eq!(t.clone(), t);
    assert_eq!(text_value("s").clone(), text_value("s"));
    assert_eq!(ForestValue::Nil.clone(), ForestValue::Nil);
}

#[test]
fn values_of_different_kinds_are_unequal() {
    assert_ne!(ForestValue::Nil, ForestValue::Int(0));
    assert_ne!(ForestValue::Int(0), text_value("0"));
    assert_ne!(text_value(""), ForestValue::Table(vec![]));
    assert_ne!(ForestValue::Table(vec![]), ForestValue::Nil);
    assert_ne!(ForestValue::Int(1), ForestValue::Int(2));
    assert_ne!(text_value("a"), text_value("b"));
}
