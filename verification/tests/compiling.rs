use forest::compile::{
    compile, is_word, parse_nil, parse_number, parse_string, parse_table, split_tokens, unescape,
    whitespace, ForestCompileError,
};
use forest::instruction::ForestInstruction;
use forest::text::{chars_of, read_decimal};
use forest::value::ForestValue;

fn pushed(i: Option<ForestInstruction>) -> Option<ForestValue> {
    match i {
        Some(ForestInstruction::Push(v)) => Some(v),
        Some(other) => panic!("not a push: {}", other.to_text()),
        None => None,
    }
}

fn shown(program: &[ForestInstruction]) -> Vec<String> {
    program.iter().map(|i| i.to_text()).collect()
}

fn std_unescape(escaped: &str) -> String {
    escaped
        .replace("\\r", "\r")
        .replace("\\n", "\n")
        .replace("\\t", "\t")
        .replace("\\\\", "\\")
        .replace("\\\"", "\"")
        .replace("\\s", " ")
}

#[test]
fn numbers_are_read_in_decimal() {
    assert_eq!(pushed(parse_number("0")), Some(ForestValue::Int(0)));
    assert_eq!(pushed(parse_number("42")), Some(ForestValue::Int(42)));
    assert_eq!(pushed(parse_number("-42")), Some(ForestValue::Int(-42)));
    assert_eq!(pushed(parse_number("+42")), Some(ForestValue::Int(42)));
    assert_eq!(pushed(parse_number("007")), Some(ForestValue::Int(7)));
    assert_eq!(pushed(parse_number("-0")), Some(ForestValue::Int(0)));
    assert_eq!(pushed(parse_number("9223372036854775807")), Some(ForestValue::Int(i64::MAX)));
    assert_eq!(pushed(parse_number("-9223372036854775808")), Some(ForestValue::Int(i64::MIN)));
}

#[test]
fn what_is_no_number_is_not_read_as_one() {
    for s in ["", "+", "-", "--1", "+-1", "1-", "1.5", "1_000", "0x10", " 1", "1 ", "abc", "１２",
        "9223372036854775808", "-9223372036854775809", "99999999999999999999999999", "nil", "{}"]
    {
        assert!(parse_number(s).is_none(), "{:?}", s);
    }
}

#[test]
fn number_reading_agrees_with_the_standard_parser() {
    let samples = ["", "+", "-", "0", "-0", "+0", "12", "-12", "+12", "0012", "12a", "a12", "1 2",
        "9223372036854775806", "9223372036854775807", "9223372036854775808", "9223372036854775809",
        "-9223372036854775807", "-9223372036854775808", "-9223372036854775809",
        "18446744073709551616", "-18446744073709551616", "000000000000000000000000000001",
        "92233720368547758070", "٣", "1e3", "++1", "-+1"];
    for s in samples {
        let expected: Option<i64> = s.parse::<i64>().ok();
        assert_eq!(read_decimal(&chars_of(s)), expected, "{:?}", s);
    }
}

#[test]
fn escape_sequences_are_resolved() {
    assert_eq!(unescape("plain"), "plain");
    assert_eq!(unescape(""), "");
    assert_eq!(unescape("a\\nb"), "a\nb");
    assert_eq!(unescape("a\\rb"), "a\rb");
    assert_eq!(unescape("a\\tb"), "a\tb");
    assert_eq!(unescape("a\\\\b"), "a\\b");
    assert_eq!(unescape("a\\\"b"), "a\"b");
    assert_eq!(unescape("a\\sb"), "a b");
    assert_eq!(unescape("\\s\\s"), "  ");
    assert_eq!(unescape("\\"), "\\");
    assert_eq!(unescape("\\x"), "\\x");
}

#[test]
fn escape_sequences_are_resolved_one_kind_after_the_other() {
    assert_eq!(unescape("\\\\n"), "\\\n");
    assert_eq!(unescape("\\\\s"), " ");
    assert_eq!(unescape("\\\\\\\\"), "\\\\");
    assert_eq!(unescape("\\\\\\"), "\\\\");
}

#[test]
fn unescaping_agrees_with_repeated_replacing() {
    let samples = ["", "\\", "\\\\", "\\\\\\", "\\\\\\\\", "\\n", "\\\\n", "\\\\\\n", "a\\sb\\sc",
        "\\r\\n\\t", "\\\"quoted\\\"", "\\\\\"", "\\\\s", "\\\\\\s", "x\\", "\\q\\w", "é\\nü",
        "\\\\r\\\\n", "\\\\\\\\s"];
    for s in samples {
        assert_eq!(unescape(s), std_unescape(s), "{:?}", s);
    }
}

#[test]
fn string_literals_stand_between_quotes() {
    assert_eq!(pushed(parse_string("\"hi\"")), Some(ForestValue::String("hi".to_string())));
    assert_eq!(pushed(parse_string("\"\"")), Some(ForestValue::String(String::new())));
    assert_eq!(pushed(parse_string("\"a\\sb\"")), Some(ForestValue::String("a b".to_string())));
    assert_eq!(pushed(parse_string("\"é\"")), Some(ForestValue::String("é".to_string())));
    assert_eq!(pushed(parse_string("\"\"\"")), Some(ForestValue::String("\"".to_string())));
}

#[test]
fn what_is_no_string_literal_is_not_read_as_one() {
    for s in ["", "\"", "hi", "\"hi", "hi\"", "é", "'hi'", "x\"\""] {
        assert!(parse_string(s).is_none(), "{:?}", s);
    }
}

#[test]
fn nil_is_read() {
    assert_eq!(pushed(parse_nil("nil")), Some(ForestValue::Nil));
    assert!(parse_nil("Nil").is_none());
    assert!(parse_nil("nil ").is_none());
    assert!(parse_nil("").is_none());
}

#[test]
fn the_empty_table_is_read() {
    assert_eq!(pushed(parse_table("{}")), Some(ForestValue::Table(vec![])));
    assert!(parse_table("{ }").is_none());
    assert!(parse_table("{").is_none());
    assert!(parse_table("").is_none());
}

#[test]
fn whitespace_is_what_the_standard_library_says() {
    let mut c = 0u32;
    while c <= 0x10FFFF {
        if let Some(ch) = char::from_u32(c) {
            assert_eq!(whitespace(ch), ch.is_whitespace(), "U+{:04X}", c);
        }
        c += 1;
    }
}

#[test]
fn tokens_are_the_runs_between_whitespace() {
    let samples = ["", " ", "a", " a", "a ", "  a  b\tc\n\nd  ", "one\u{a0}two\u{3000}three",
        "\"a b\" c", ": ; [ ]"];
    for s in samples {
        let got: Vec<String> = split_tokens(&chars_of(s)).iter().map(|t| t.iter().collect()).collect();
        let expected: Vec<String> = s.split_whitespace().map(|t| t.to_string()).collect();
        assert_eq!(got, expected, "{:?}", s);
    }
}

#[test]
fn words_are_told_apart_exactly() {
    assert!(is_word(&chars_of("dup"), "dup"));
    assert!(!is_word(&chars_of("dup"), "du"));
    assert!(!is_word(&chars_of("du"), "dup"));
    assert!(!is_word(&chars_of("dug"), "dup"));
    assert!(is_word(&chars_of(""), ""));
}

#[test]
fn every_word_of_the_language_compiles_to_its_instruction() {
    let p = compile(
        "dup drop + - * / str <> . get assoc keys vals if ifend & | ! = [ ] break swap splat ; exit",
    )
    .ok()
    .unwrap();
    assert_eq!(
        shown(&p),
        vec![
            "Duplicate", "Drop", "Add", "Subtract", "Multiply", "Divide", "Stringify",
            "Concatenate", "Print", "Get", "Associate", "Keys", "Values", "If", "IfEnd", "And",
            "Or", "Not", "Eq", "Loop", "LoopEnd", "Break", "Swap", "Splat", "EndWord", "Exit",
        ]
    );
}

#[test]
fn literals_and_names_compile_to_pushes_and_invocations() {
    let p = compile("12 -3 \"a\\sb\" nil {} square").ok().unwrap();
    assert_eq!(
        shown(&p),
        vec!["Push 12", "Push -3", "Push \"a b\"", "Push nil", "Push {}", "InvokeWord square"]
    );
}

#[test]
fn a_colon_takes_the_next_token_as_a_name() {
    let p = compile(": double dup + ;").ok().unwrap();
    assert_eq!(shown(&p), vec!["MakeWord double", "Duplicate", "Add", "EndWord"]);
    let q = compile(": dup ; : :").ok().unwrap();
    assert_eq!(shown(&q), vec!["MakeWord dup", "EndWord", "MakeWord :"]);
}

#[test]
fn a_colon_at_the_end_is_an_error() {
    assert!(matches!(compile(":"), Err(ForestCompileError::OutOfBoundsWord)));
    assert!(matches!(compile("1 2 + :"), Err(ForestCompileError::OutOfBoundsWord)));
    assert!(matches!(compile(": a ; :  \n"), Err(ForestCompileError::OutOfBoundsWord)));
}

#[test]
fn an_empty_text_is_an_empty_program() {
    assert_eq!(compile("").ok().unwrap().len(), 0);
    assert_eq!(compile(" \n\t ").ok().unwrap().len(), 0);
}

#[test]
fn displayed_numbers_are_read_back() {
    for n in [0i64, 1, -1, 10, -10, 1234567890, i64::MAX, i64::MIN] {
        let shown = ForestValue::Int(n).to_text();
        assert_eq!(pushed(parse_number(&shown)), Some(ForestValue::Int(n)));
    }
}

#[test]
fn a_text_without_whitespace_is_one_token() {
    let got = split_tokens(&chars_of("one-token"));
    assert_eq!(got.len(), 1);
    assert_eq!(got[0].iter().collect::<String>(), "one-token");
}
