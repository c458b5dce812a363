use forest::compile::{compile, ForestCompileError};
use forest::error::ForestError;
use forest::forest_runtime::{ForestDumpError, ForestRuntime};
use forest::instruction::ForestInstruction;
use forest::machine::{Loaded, StepAction};
use forest::value::ForestValue;

fn num(i: i64) -> ForestValue {
    ForestValue::Int(i)
}

fn text(s: &str) -> ForestValue {
    ForestValue::String(s.to_string())
}

fn name(s: &str) -> String {
    s.to_string()
}

/// Runs a machine until it stops, with at most `limit` steps; returns what it printed and
/// why it stopped.
fn run(m: &mut ForestRuntime, limit: usize) -> (String, ForestError) {
    let mut out = String::new();
    for _ in 0..limit {
        assert!(!m.division_pending());
        match m.step() {
            Ok(StepAction::Continue) => {}
            Ok(StepAction::Print(s)) => out.push_str(&s),
            Ok(StepAction::Include(file)) => panic!("include of {}", file),
            Err(e) => return (out, e),
        }
    }
    panic!("the machine did not stop within {} steps", limit);
}

/// Compiles and runs a program text.
fn run_text(program: &str) -> (String, ForestError, ForestRuntime) {
    let instrs = compile(program).ok().unwrap();
    let mut m = ForestRuntime::new(&instrs);
    let (out, e) = run(&mut m, 100_000);
    (out, e, m)
}

#[test]
fn subtraction_of_pushed_operands() {
    let (_, e, m) = run_text("10 3 - exit");
    assert!(matches!(e, ForestError::Halt));
    assert_eq!(m.stack().clone(), vec![num(7)]);
}

#[test]
fn division_of_pushed_operands() {
    let (_, e, m) = run_text("10 3 / exit");
    assert!(matches!(e, ForestError::Halt));
    assert_eq!(m.stack().clone(), vec![num(3)]);
}

#[test]
fn get_from_an_empty_table_yields_nil_and_keeps_the_table() {
    let (_, e, m) = run_text("{} \"k\" get exit");
    assert!(matches!(e, ForestError::Halt));
    assert_eq!(m.stack().clone(), vec![ForestValue::Table(vec![]), ForestValue::Nil]);
}

#[test]
fn get_after_associate_yields_the_value() {
    let (_, e, m) = run_text("{} \"k\" 5 assoc \"k\" get exit");
    assert!(matches!(e, ForestError::Halt));
    assert_eq!(m.stack().len(), 2);
    assert_eq!(m.stack()[1], num(5));
    assert_eq!(m.stack()[0].to_text(), "{\"k\" 5}");
}

#[test]
fn table_equality_is_sensitive_to_order() {
    let (_, e, m) = run_text("{} \"a\" 1 assoc \"b\" 2 assoc {} \"b\" 2 assoc \"a\" 1 assoc = exit");
    assert!(matches!(e, ForestError::Halt));
    assert_eq!(m.stack().clone(), vec![ForestValue::Nil]);
    let (_, e, m) = run_text("{} \"a\" 1 assoc \"b\" 2 assoc {} \"a\" 1 assoc \"b\" 2 assoc = exit");
    assert!(matches!(e, ForestError::Halt));
    assert_eq!(m.stack().clone(), vec![num(1)]);
}

#[test]
fn a_conditional_leaves_the_tested_value() {
    let (_, e, m) = run_text("0 if ifend exit");
    assert!(matches!(e, ForestError::Halt));
    assert_eq!(m.stack().clone(), vec![num(0)]);
}

#[test]
fn a_conditional_on_nil_runs_none_of_its_body() {
    let (out, e, m) = run_text("nil if \"body\" . 1 2 + if 3 . ifend exit ifend \"after\" . exit");
    assert!(matches!(e, ForestError::Halt));
    assert_eq!(out, "after");
    assert_eq!(m.stack().clone(), vec![ForestValue::Nil]);
}

#[test]
fn a_conditional_on_a_true_value_runs_its_body() {
    let (out, e, m) = run_text("1 if \"body\" . ifend \"after\" . exit");
    assert!(matches!(e, ForestError::Halt));
    assert_eq!(out, "bodyafter");
    assert_eq!(m.stack().clone(), vec![num(1)]);
}

#[test]
fn a_skipped_conditional_without_end_is_unbalanced() {
    let (out, e, m) = run_text("nil if 1 . if 2 . ifend");
    assert!(matches!(e, ForestError::UnbalancedIfEnd));
    assert_eq!(out, "");
    assert_eq!(m.pending_len(), 0);
    assert_eq!(m.stack().clone(), vec![ForestValue::Nil]);
}

#[test]
fn a_loop_counts_down_and_exits() {
    let (out, e, m) = run_text("10 [ dup . 1 - dup 0 = if exit ifend drop ]");
    assert!(matches!(e, ForestError::Halt));
    assert_eq!(out, "10987654321");
    assert_eq!(m.stack().clone(), vec![num(0), num(1)]);
}

#[test]
fn a_loop_end_takes_up_the_loop_again() {
    let body = [ForestInstruction::Loop, ForestInstruction::Push(num(1)), ForestInstruction::LoopEnd, ForestInstruction::Exit];
    let mut m = ForestRuntime::new(&body);
    assert!(matches!(m.step(), Ok(StepAction::Continue)));
    assert_eq!(m.loop_depth(), 1);
    assert_eq!(m.pending_len(), 3);
    assert!(matches!(m.step(), Ok(StepAction::Continue)));
    assert!(matches!(m.step(), Ok(StepAction::Continue)));
    assert_eq!(m.loop_depth(), 0);
    assert_eq!(m.pending_len(), 4);
    assert!(matches!(m.next_instruction(), Some(ForestInstruction::Loop)));
    assert!(matches!(m.step(), Ok(StepAction::Continue)));
    assert_eq!(m.loop_depth(), 1);
    assert!(matches!(m.next_instruction(), Some(ForestInstruction::Push(_))));
}

#[test]
fn a_loop_end_without_loop_is_unbalanced() {
    let (_, e, _) = run_text("1 ]");
    assert!(matches!(e, ForestError::UnbalancedLoopEnd));
}

#[test]
fn break_leaves_one_loop() {
    let (out, e, _) = run_text("[ \"a\" . [ \"b\" . break \"c\" . ] \"d\" . break \"e\" . ] \"f\" . exit");
    assert!(matches!(e, ForestError::Halt));
    assert_eq!(out, "abdf");
}

#[test]
fn break_without_loop_end_is_unbalanced() {
    let (_, e, m) = run_text("[ break 1 2 [ 3 ]");
    assert!(matches!(e, ForestError::UnbalancedLoopEnd));
    assert_eq!(m.pending_len(), 0);
}

#[test]
fn a_word_is_defined_and_invoked() {
    let (out, e, m) = run_text(": double dup + ; 4 double double . exit");
    assert!(matches!(e, ForestError::Halt));
    assert_eq!(out, "16");
    assert_eq!(m.words().len(), 1);
    assert_eq!(m.words()[0].name, "double");
    assert!(m.words()[0].is_constant);
    assert_eq!(m.words()[0].instructions.len(), 2);
}

#[test]
fn a_definition_holds_the_definitions_inside_it() {
    let (out, e, m) = run_text(": outer : inner 1 . ; inner 2 . ; outer inner exit");
    assert!(matches!(e, ForestError::Halt));
    assert_eq!(out, "121");
    assert_eq!(m.words().len(), 2);
    assert_eq!(m.words()[0].name, "outer");
    assert_eq!(m.words()[0].instructions.len(), 7);
    assert_eq!(m.words()[1].name, "inner");
    assert_eq!(m.words()[1].instructions.len(), 2);
}

#[test]
fn a_definition_without_end_is_unbalanced() {
    let (_, e, m) = run_text(": f 1 2 : g ;");
    assert!(matches!(e, ForestError::UnbalancedWordEnd));
    assert_eq!(m.pending_len(), 0);
    assert_eq!(m.words().len(), 0);
}

#[test]
fn an_undeclared_word_cannot_be_invoked() {
    let (_, e, _) = run_text("1 nothing");
    match e {
        ForestError::UseOfUndeclaredWord(n) => assert_eq!(n, "nothing"),
        other => panic!("{}", other.to_text()),
    }
}

#[test]
fn a_constant_word_cannot_be_defined_twice() {
    let (out, e, m) = run_text(": w 1 . ; w : w 2 . ; w exit");
    match e {
        ForestError::ReassigningConstant(n) => assert_eq!(n, "w"),
        other => panic!("{}", other.to_text()),
    }
    assert_eq!(out, "1");
    assert_eq!(m.words().len(), 1);
    assert_eq!(m.words()[0].instructions.len(), 2);
    assert_eq!(m.pending_len(), 2);
}

#[test]
fn a_variable_word_can_be_redefined_as_either_kind() {
    let program = [
        ForestInstruction::MakeWordVar(name("w")),
        ForestInstruction::Push(num(1)),
        ForestInstruction::EndWord,
        ForestInstruction::MakeWordVar(name("w")),
        ForestInstruction::Push(num(2)),
        ForestInstruction::EndWord,
        ForestInstruction::InvokeWord(name("w")),
        ForestInstruction::MakeWord(name("w")),
        ForestInstruction::Push(num(3)),
        ForestInstruction::EndWord,
        ForestInstruction::InvokeWord(name("w")),
        ForestInstruction::MakeWordVar(name("w")),
        ForestInstruction::EndWord,
    ];
    let mut m = ForestRuntime::new(&program);
    let (_, e) = run(&mut m, 100);
    match e {
        ForestError::ReassigningConstant(n) => assert_eq!(n, "w"),
        other => panic!("{}", other.to_text()),
    }
    assert_eq!(m.stack().clone(), vec![num(2), num(3)]);
    assert_eq!(m.words().len(), 1);
    assert!(m.words()[0].is_constant);
}

#[test]
fn a_value_is_bound_to_a_name() {
    let program = [
        ForestInstruction::Push(num(5)),
        ForestInstruction::SetWord(name("five")),
        ForestInstruction::InvokeWord(name("five")),
        ForestInstruction::InvokeWord(name("five")),
        ForestInstruction::Push(num(6)),
        ForestInstruction::SetWord(name("five")),
    ];
    let mut m = ForestRuntime::new(&program);
    let (_, e) = run(&mut m, 100);
    match e {
        ForestError::ReassigningConstant(n) => assert_eq!(n, "five"),
        other => panic!("{}", other.to_text()),
    }
    assert_eq!(m.stack().clone(), vec![num(5), num(5), num(6)]);
    assert_eq!(m.words().len(), 1);
    assert_eq!(m.words()[0].instructions[0].to_text(), "Push 5");
}

#[test]
fn a_variable_binding_can_be_replaced() {
    let program = [
        ForestInstruction::Push(num(5)),
        ForestInstruction::SetVar(name("x")),
        ForestInstruction::Push(text("six")),
        ForestInstruction::SetVar(name("x")),
        ForestInstruction::InvokeWord(name("x")),
        ForestInstruction::Push(num(7)),
        ForestInstruction::SetWord(name("x")),
        ForestInstruction::InvokeWord(name("x")),
        ForestInstruction::Exit,
    ];
    let mut m = ForestRuntime::new(&program);
    let (_, e) = run(&mut m, 100);
    assert!(matches!(e, ForestError::Halt));
    assert_eq!(m.stack().clone(), vec![text("six"), num(7)]);
    assert_eq!(m.words().len(), 1);
    assert!(m.words()[0].is_constant);
}

#[test]
fn words_that_invoke_each_other_take_turns() {
    let (out, e, m) = run_text(
        ": a \"a\" . 1 - dup 0 = if exit ifend drop b ; \
         : b \"b\" . 1 - dup 0 = if exit ifend drop a ; \
         5 a",
    );
    assert!(matches!(e, ForestError::Halt));
    assert_eq!(out, "ababa");
    assert_eq!(m.stack().clone(), vec![num(0), num(1)]);
}

#[test]
fn a_word_that_invokes_itself_recurs() {
    let (out, e, _) = run_text(": down dup . 1 - dup 0 = if exit ifend drop down ; 3 down");
    assert!(matches!(e, ForestError::Halt));
    assert_eq!(out, "321");
}

#[test]
fn a_program_that_runs_out_ends_without_halting() {
    let (out, e, m) = run_text("1 2 + .");
    assert!(matches!(e, ForestError::EndedWithoutHalting));
    assert_eq!(out, "3");
    assert_eq!(m.stack().len(), 0);
}

#[test]
fn an_included_program_runs_next() {
    let program = compile("\"lib\" 1 . exit").ok().unwrap();
    let mut m = ForestRuntime::new(&program);
    assert!(matches!(m.step(), Ok(StepAction::Continue)));
    m.push_instrs(&[ForestInstruction::Include]);
    match m.step() {
        Ok(StepAction::Include(file)) => assert_eq!(file, "lib"),
        _ => panic!("no include"),
    }
    assert!(matches!(m.finish_include(Loaded::Text(name(": two 2 . ; two"))), Ok(StepAction::Continue)));
    assert_eq!(m.pending_len(), 8);
    let (out, e) = run(&mut m, 100);
    assert!(matches!(e, ForestError::Halt));
    assert_eq!(out, "21");
}

#[test]
fn an_include_that_fails_leaves_the_machine() {
    let mut m = ForestRuntime::new(&[ForestInstruction::Exit]);
    assert!(matches!(m.finish_include(Loaded::NotFound), Err(ForestError::FileNotFound)));
    assert!(matches!(m.finish_include(Loaded::Unreadable), Err(ForestError::ErrorReadingFile)));
    assert!(matches!(
        m.finish_include(Loaded::Text(name("1 :"))),
        Err(ForestError::IncludeCompileError(ForestCompileError::OutOfBoundsWord))
    ));
    assert_eq!(m.pending_len(), 1);
    assert_eq!(m.stack().len(), 0);
}

#[test]
fn a_dump_shows_the_state() {
    let program = compile(": sq dup * ; 3 \"s\" [ exit ]").ok().unwrap();
    let mut m = ForestRuntime::new(&program);
    for _ in 0..4 {
        assert!(matches!(m.step(), Ok(StepAction::Continue)));
    }
    assert_eq!(
        m.dump().ok().unwrap(),
        "\n\n\nStack: \n  3\n  \"s\"\nCurrent instruction: Exit\nJumplists: 1\nWordlist:\n  sq (const) | Duplicate Multiply \n"
    );
}

#[test]
fn a_dump_of_a_new_machine() {
    let m = ForestRuntime::new(&[ForestInstruction::Push(num(1))]);
    assert_eq!(
        m.dump().ok().unwrap(),
        "\n\n\nStack: \nCurrent instruction: Push 1\nJumplists: 0\nWordlist:\n"
    );
}

#[test]
fn a_dump_shows_variable_words_as_such() {
    let program = [
        ForestInstruction::Push(num(1)),
        ForestInstruction::SetVar(name("x")),
        ForestInstruction::MakeWord(name("empty")),
        ForestInstruction::EndWord,
        ForestInstruction::Exit,
    ];
    let mut m = ForestRuntime::new(&program);
    for _ in 0..3 {
        assert!(matches!(m.step(), Ok(StepAction::Continue)));
    }
    assert_eq!(
        m.dump().ok().unwrap(),
        "\n\n\nStack: \nCurrent instruction: Exit\nJumplists: 0\nWordlist:\n  x (var) | Push 1 \n  empty (const) | \n"
    );
}

#[test]
fn a_dump_needs_a_pending_instruction() {
    let m = ForestRuntime::new(&[]);
    assert!(matches!(m.dump(), Err(ForestDumpError::ProgramidxOOB)));
}
