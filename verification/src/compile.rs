//! From program text to instructions: tokens, literals, and the words of the language.

use crate::instruction::{instrs_view, ForestInstruction, InstrModel};
use crate::text::{chars_of, parse_decimal, read_decimal, text_of};
use crate::value::{lemma_table_view, pairs_view, ForestValue, TablePair, ValueModel};
use vstd::prelude::*;
use vstd::string::StringExecFns;

verus! {

/// Why a program text could not be turned into instructions.
#[derive(Clone, Copy, Debug, PartialEq, Eq, Structural)]
pub enum ForestCompileError {
    /// The text ends with `:`, which the name of a word must follow.
    OutOfBoundsWord,
}

impl ForestCompileError {
    /// The message for this error.
    pub fn to_text(&self) -> (s: String)
        ensures
            s@ == compile_error_text(*self),
    {
        String::from_str("Makeword (:) was last instruction!")
    }
}

/// The message for a compile error.
pub open spec fn compile_error_text(e: ForestCompileError) -> Seq<char> {
    "Makeword (:) was last instruction!"@
}

/// Whether `c` separates tokens: the characters that Unicode lists as `White_Space`.
pub open spec fn is_whitespace(c: char) -> bool {
    let u = c as u32;
    ||| 0x09 <= u <= 0x0D
    ||| u == 0x20
    ||| u == 0x85
    ||| u == 0xA0
    ||| u == 0x1680
    ||| 0x2000 <= u <= 0x200A
    ||| u == 0x2028
    ||| u == 0x2029
    ||| u == 0x202F
    ||| u == 0x205F
    ||| u == 0x3000
}

/// The number of characters at the start of `s` that are no whitespace.
pub open spec fn word_len(s: Seq<char>) -> nat
    decreases s.len(),
{
    if s.len() == 0 || is_whitespace(s[0]) {
        0
    } else {
        1 + word_len(s.skip(1))
    }
}

/// A run of characters is no longer than the text it starts.
pub proof fn lemma_word_len_bound(s: Seq<char>)
    ensures
        word_len(s) <= s.len(),
    decreases s.len(),
{
    if s.len() > 0 && !is_whitespace(s[0]) {
        lemma_word_len_bound(s.skip(1));
    }
}

/// The tokens of a text: its maximal runs of characters that are no whitespace, in order.
pub open spec fn tokens(s: Seq<char>) -> Seq<Seq<char>>
    decreases s.len(),
{
    if s.len() == 0 {
        Seq::empty()
    } else if is_whitespace(s[0]) {
        tokens(s.skip(1))
    } else {
        let n = word_len(s) as int;
        proof {
            lemma_word_len_bound(s);
        }
        seq![s.take(n)] + tokens(s.skip(n))
    }
}

/// Whether `t` can be a token: it has a character, and none of its characters is whitespace.
pub open spec fn is_token(t: Seq<char>) -> bool {
    t.len() > 0 && forall|k: int| 0 <= k < t.len() ==> !is_whitespace(#[trigger] t[k])
}

/// The characters that `word_len` counts are no whitespace, and the run ends where the text
/// ends or whitespace stands.
pub proof fn lemma_word_len(s: Seq<char>)
    ensures
        word_len(s) <= s.len(),
        forall|k: int| 0 <= k < word_len(s) ==> !is_whitespace(#[trigger] s[k]),
        word_len(s) == s.len() || is_whitespace(s[word_len(s) as int]),
    decreases s.len(),
{
    if s.len() > 0 && !is_whitespace(s[0]) {
        lemma_word_len(s.skip(1));
        assert forall|k: int| 0 <= k < word_len(s) implies !is_whitespace(#[trigger] s[k]) by {
            if k > 0 {
                assert(s[k] == s.skip(1)[k - 1]);
            }
        }
    }
}

/// Every token has a character and holds no whitespace; a text without whitespace that is
/// not empty is its own single token.
pub proof fn law_tokens_are_words(s: Seq<char>)
    ensures
        forall|i: int| 0 <= i < tokens(s).len() ==> is_token(#[trigger] tokens(s)[i]),
        is_token(s) ==> tokens(s) == seq![s],
    decreases s.len(),
{
    if s.len() > 0 {
        if is_whitespace(s[0]) {
            law_tokens_are_words(s.skip(1));
            assert(tokens(s) == tokens(s.skip(1)));
        } else {
            let n = word_len(s) as int;
            lemma_word_len(s);
            law_tokens_are_words(s.skip(n));
            assert forall|i: int| 0 <= i < tokens(s).len() implies is_token(
                #[trigger] tokens(s)[i],
            ) by {
                if i > 0 {
                    assert(tokens(s)[i] == tokens(s.skip(n))[i - 1]);
                }
            }
            if is_token(s) {
                assert(n == s.len());
                assert(s.take(n) =~= s);
                assert(tokens(s.skip(n)) =~= Seq::<Seq<char>>::empty());
            }
        }
    }
}

/// The text with every `\` that `tag` follows replaced, together with the `tag`, by `with`.
/// The text is read from left to right, and what has been replaced is not read again.
pub open spec fn replace_pair(s: Seq<char>, tag: char, with: char) -> Seq<char>
    decreases s.len(),
{
    if s.len() == 0 {
        s
    } else if s.len() >= 2 && s[0] == '\\' && s[1] == tag {
        seq![with] + replace_pair(s.skip(2), tag, with)
    } else {
        seq![s[0]] + replace_pair(s.skip(1), tag, with)
    }
}

/// The text with its escape sequences resolved, one kind after the other over the whole
/// text: `\r`, then `\n`, `\t`, `\\`, `\"`, and `\s`, which stands for a space.
pub open spec fn unescaped(s: Seq<char>) -> Seq<char> {
    let s1 = replace_pair(s, 'r', '\r');
    let s2 = replace_pair(s1, 'n', '\n');
    let s3 = replace_pair(s2, 't', '\t');
    let s4 = replace_pair(s3, '\\', '\\');
    let s5 = replace_pair(s4, '"', '"');
    replace_pair(s5, 's', ' ')
}

/// The instruction for a token that is a number: it pushes the number.
pub open spec fn number_instr(t: Seq<char>) -> Option<InstrModel> {
    match parse_decimal(t) {
        Some(i) => Some(InstrModel::Push(ValueModel::Int(i))),
        None => None,
    }
}

/// The instruction for a token that is a string literal, that is, at least two characters of
/// which the first and the last are `"`: it pushes what stands between them, unescaped.
pub open spec fn string_instr(t: Seq<char>) -> Option<InstrModel> {
    if t.len() >= 2 && t[0] == '"' && t.last() == '"' {
        Some(InstrModel::Push(ValueModel::Str(unescaped(t.subrange(1, t.len() - 1)))))
    } else {
        None
    }
}

/// The instruction for the token `nil`.
pub open spec fn nil_instr(t: Seq<char>) -> Option<InstrModel> {
    if t == "nil"@ {
        Some(InstrModel::Push(ValueModel::Nil))
    } else {
        None
    }
}

/// The instruction for the token `{}`: it pushes an empty table.
pub open spec fn table_instr(t: Seq<char>) -> Option<InstrModel> {
    if t == "{}"@ {
        Some(InstrModel::Push(ValueModel::Table(Seq::empty())))
    } else {
        None
    }
}

/// The instruction that a token other than `:` stands for by itself, where it is one of the
/// words of the language.
pub open spec fn keyword_instr(t: Seq<char>) -> Option<InstrModel> {
    if t == "dup"@ {
        Some(InstrModel::Duplicate)
    } else if t == "drop"@ {
        Some(InstrModel::Drop)
    } else if t == "+"@ {
        Some(InstrModel::Add)
    } else if t == "-"@ {
        Some(InstrModel::Subtract)
    } else if t == "*"@ {
        Some(InstrModel::Multiply)
    } else if t == "/"@ {
        Some(InstrModel::Divide)
    } else if t == "str"@ {
        Some(InstrModel::Stringify)
    } else if t == "<>"@ {
        Some(InstrModel::Concatenate)
    } else if t == "."@ {
        Some(InstrModel::Print)
    } else if t == "get"@ {
        Some(InstrModel::Get)
    } else if t == "assoc"@ {
        Some(InstrModel::Associate)
    } else if t == "keys"@ {
        Some(InstrModel::Keys)
    } else if t == "vals"@ {
        Some(InstrModel::Values)
    } else if t == "if"@ {
        Some(InstrModel::If)
    } else if t == "ifend"@ {
        Some(InstrModel::IfEnd)
    } else if t == "&"@ {
        Some(InstrModel::And)
    } else if t == "|"@ {
        Some(InstrModel::Or)
    } else if t == "!"@ {
        Some(InstrModel::Not)
    } else if t == "="@ {
        Some(InstrModel::Eq)
    } else if t == "["@ {
        Some(InstrModel::Loop)
    } else if t == "]"@ {
        Some(InstrModel::LoopEnd)
    } else if t == "break"@ {
        Some(InstrModel::Break)
    } else if t == "swap"@ {
        Some(InstrModel::Swap)
    } else if t == "splat"@ {
        Some(InstrModel::Splat)
    } else if t == ";"@ {
        Some(InstrModel::EndWord)
    } else if t == "exit"@ {
        Some(InstrModel::Exit)
    } else {
        None
    }
}

/// The instruction that a token other than `:` stands for: a word of the language, else a
/// number, a string literal, `nil` or `{}`, and else the invocation of the word so named.
pub open spec fn token_instr(t: Seq<char>) -> InstrModel {
    if let Some(i) = keyword_instr(t) {
        i
    } else if let Some(i) = number_instr(t) {
        i
    } else if let Some(i) = string_instr(t) {
        i
    } else if let Some(i) = nil_instr(t) {
        i
    } else if let Some(i) = table_instr(t) {
        i
    } else {
        InstrModel::InvokeWord(t)
    }
}

/// `first`, then what `rest` holds; the error of `rest` where it is one.
pub open spec fn prepend(first: Seq<InstrModel>, rest: Result<Seq<InstrModel>, ForestCompileError>)
    -> Result<Seq<InstrModel>, ForestCompileError> {
    match rest {
        Ok(r) => Ok(first + r),
        Err(e) => Err(e),
    }
}

/// The instructions that a sequence of tokens stands for. The token `:` takes the token after
/// it as the name of a word to define, and is an error where it is the last token.
pub open spec fn instructions(ts: Seq<Seq<char>>) -> Result<Seq<InstrModel>, ForestCompileError>
    decreases ts.len(),
{
    if ts.len() == 0 {
        Ok(Seq::empty())
    } else if ts[0] == ":"@ {
        if ts.len() == 1 {
            Err(ForestCompileError::OutOfBoundsWord)
        } else {
            prepend(seq![InstrModel::MakeWord(ts[1])], instructions(ts.skip(2)))
        }
    } else {
        prepend(seq![token_instr(ts[0])], instructions(ts.skip(1)))
    }
}

/// The instructions that a program text stands for.
pub open spec fn compiled(s: Seq<char>) -> Result<Seq<InstrModel>, ForestCompileError> {
    instructions(tokens(s))
}

/// An instruction that may be absent, taken by its view.
pub open spec fn option_view(o: Option<ForestInstruction>) -> Option<InstrModel> {
    match o {
        Some(i) => Some(i@),
        None => None,
    }
}

/// The result of compiling, taken by its view.
pub open spec fn result_view(r: Result<Vec<ForestInstruction>, ForestCompileError>) -> Result<
    Seq<InstrModel>,
    ForestCompileError,
> {
    match r {
        Ok(p) => Ok(instrs_view(p@)),
        Err(e) => Err(e),
    }
}

/// The tokens of a list, each taken by its view.
pub open spec fn token_views(ts: Seq<Vec<char>>) -> Seq<Seq<char>> {
    Seq::new(ts.len(), |i: int| ts[i]@)
}

/// Whether `c` separates tokens.
pub fn whitespace(c: char) -> (r: bool)
    ensures
        r == is_whitespace(c),
{
    let u = c as u32;
    (0x09 <= u && u <= 0x0D) || u == 0x20 || u == 0x85 || u == 0xA0 || u == 0x1680 || (0x2000 <= u
        && u <= 0x200A) || u == 0x2028 || u == 0x2029 || u == 0x202F || u == 0x205F || u == 0x3000
}

/// A run of `m` characters that are no whitespace, which ends the text or which whitespace
/// follows, is the run that `word_len` measures.
pub proof fn lemma_word_len_run(s: Seq<char>, m: int)
    requires
        0 <= m <= s.len(),
        forall|k: int| 0 <= k < m ==> !is_whitespace(#[trigger] s[k]),
        m == s.len() || is_whitespace(s[m]),
    ensures
        word_len(s) == m,
    decreases m,
{
    if m > 0 {
        lemma_word_len_run(s.skip(1), m - 1);
    }
}

/// Splits a text into its tokens.
pub fn split_tokens(s: &Vec<char>) -> (r: Vec<Vec<char>>)
    ensures
        token_views(r@) == tokens(s@),
{
    let n = s.len();
    let mut out: Vec<Vec<char>> = Vec::new();
    let mut i: usize = 0;
    assert(s@.skip(0) =~= s@);
    while i < n
        invariant
            i <= n,
            n == s.len(),
            tokens(s@) == token_views(out@) + tokens(s@.skip(i as int)),
        decreases n - i,
    {
        if whitespace(s[i]) {
            assert(s@.skip(i as int).skip(1) =~= s@.skip(i + 1));
            i += 1;
        } else {
            let start = i;
            let mut word: Vec<char> = Vec::new();
            while i < n && !whitespace(s[i])
                invariant
                    start <= i <= n,
                    n == s.len(),
                    word@ == s@.subrange(start as int, i as int),
                    forall|k: int| start <= k < i ==> !is_whitespace(#[trigger] s[k]),
                decreases n - i,
            {
                word.push(s[i]);
                i += 1;
            }
            proof {
                let rest = s@.skip(start as int);
                lemma_word_len_run(rest, i - start);
                assert(rest.take(i - start) =~= word@);
                assert(rest.skip(i - start) =~= s@.skip(i as int));
            }
            out.push(word);
        }
    }
    out
}

/// Whether the token `t` is the word `word`.
pub fn is_word(t: &Vec<char>, word: &str) -> (r: bool)
    ensures
        r == (t@ == word@),
{
    let w = chars_of(word);
    if w.len() != t.len() {
        return false;
    }
    let mut i: usize = 0;
    while i < t.len()
        invariant
            i <= t.len(),
            t.len() == w.len(),
            w@ == word@,
            forall|k: int| 0 <= k < i ==> t[k] == w[k],
        decreases t.len() - i,
    {
        if t[i] != w[i] {
            return false;
        }
        i += 1;
    }
    assert(t@ =~= w@);
    true
}

/// Replaces every `\` that `tag` follows, together with the `tag`, by `with`.
pub fn replace_pair_in(s: &Vec<char>, tag: char, with: char) -> (r: Vec<char>)
    ensures
        r@ == replace_pair(s@, tag, with),
{
    let n = s.len();
    let mut out: Vec<char> = Vec::new();
    let mut i: usize = 0;
    assert(s@.skip(0) =~= s@);
    while i < n
        invariant
            i <= n,
            n == s.len(),
            replace_pair(s@, tag, with) == out@ + replace_pair(s@.skip(i as int), tag, with),
        decreases n - i,
    {
        let ghost rest = s@.skip(i as int);
        if s[i] == '\\' && i + 1 < n && s[i + 1] == tag {
            assert(rest.skip(2) =~= s@.skip(i + 2));
            out.push(with);
            i += 2;
        } else {
            assert(rest.skip(1) =~= s@.skip(i + 1));
            out.push(s[i]);
            i += 1;
        }
    }
    out
}

/// Resolves the escape sequences of a text.
pub fn unescape_chars(s: &Vec<char>) -> (r: Vec<char>)
    ensures
        r@ == unescaped(s@),
{
    let s1 = replace_pair_in(s, 'r', '\r');
    let s2 = replace_pair_in(&s1, 'n', '\n');
    let s3 = replace_pair_in(&s2, 't', '\t');
    let s4 = replace_pair_in(&s3, '\\', '\\');
    let s5 = replace_pair_in(&s4, '"', '"');
    replace_pair_in(&s5, 's', ' ')
}

/// Resolves the escape sequences of a text: `\r`, `\n`, `\t`, `\\`, `\"`, and `\s` for a
/// space.
pub fn unescape(escaped: &str) -> (r: String)
    ensures
        r@ == unescaped(escaped@),
{
    let chars = chars_of(escaped);
    text_of(&unescape_chars(&chars))
}

/// The instruction for a token that is a number.
pub fn number_of(t: &Vec<char>) -> (r: Option<ForestInstruction>)
    ensures
        option_view(r) == number_instr(t@),
{
    match read_decimal(t) {
        Some(i) => Some(ForestInstruction::Push(ForestValue::Int(i))),
        None => None,
    }
}

/// The instruction for a token that is a string literal.
pub fn string_of(t: &Vec<char>) -> (r: Option<ForestInstruction>)
    ensures
        option_view(r) == string_instr(t@),
{
    let n = t.len();
    if n >= 2 && t[0] == '"' && t[n - 1] == '"' {
        let mut inner: Vec<char> = Vec::new();
        let mut i: usize = 1;
        while i < n - 1
            invariant
                1 <= i <= n - 1,
                n == t.len(),
                inner@ == t@.subrange(1, i as int),
            decreases n - i,
        {
            inner.push(t[i]);
            i += 1;
        }
        let text = text_of(&unescape_chars(&inner));
        Some(ForestInstruction::Push(ForestValue::String(text)))
    } else {
        None
    }
}

/// The instruction for the token `nil`.
pub fn nil_of(t: &Vec<char>) -> (r: Option<ForestInstruction>)
    ensures
        option_view(r) == nil_instr(t@),
{
    if is_word(t, "nil") {
        Some(ForestInstruction::Push(ForestValue::Nil))
    } else {
        None
    }
}

/// The instruction for the token `{}`.
pub fn table_of(t: &Vec<char>) -> (r: Option<ForestInstruction>)
    ensures
        option_view(r) == table_instr(t@),
{
    if is_word(t, "{}") {
        let entries: Vec<TablePair> = Vec::new();
        proof {
            lemma_table_view(entries);
            assert(pairs_view(entries@) =~= Seq::empty());
        }
        Some(ForestInstruction::Push(ForestValue::Table(entries)))
    } else {
        None
    }
}

/// Reads a number: an optional sign and decimal digits, within 64 bits.
pub fn parse_number(inpt: &str) -> (r: Option<ForestInstruction>)
    ensures
        option_view(r) == number_instr(inpt@),
{
    number_of(&chars_of(inpt))
}

/// Reads a string literal: text between two `"`, with its escape sequences resolved.
pub fn parse_string(inpt: &str) -> (r: Option<ForestInstruction>)
    ensures
        option_view(r) == string_instr(inpt@),
{
    string_of(&chars_of(inpt))
}

/// Reads `nil`.
pub fn parse_nil(inpt: &str) -> (r: Option<ForestInstruction>)
    ensures
        option_view(r) == nil_instr(inpt@),
{
    nil_of(&chars_of(inpt))
}

/// Reads `{}`, the empty table.
pub fn parse_table(inpt: &str) -> (r: Option<ForestInstruction>)
    ensures
        option_view(r) == table_instr(inpt@),
{
    table_of(&chars_of(inpt))
}

/// The instruction for a token that is a word of the language.
pub fn keyword_of(t: &Vec<char>) -> (r: Option<ForestInstruction>)
    ensures
        option_view(r) == keyword_instr(t@),
{
    if is_word(t, "dup") {
        Some(ForestInstruction::Duplicate)
    } else if is_word(t, "drop") {
        Some(ForestInstruction::Drop)
    } else if is_word(t, "+") {
        Some(ForestInstruction::Add)
    } else if is_word(t, "-") {
        Some(ForestInstruction::Subtract)
    } else if is_word(t, "*") {
        Some(ForestInstruction::Multiply)
    } else if is_word(t, "/") {
        Some(ForestInstruction::Divide)
    } else if is_word(t, "str") {
        Some(ForestInstruction::Stringify)
    } else if is_word(t, "<>") {
        Some(ForestInstruction::Concatenate)
    } else if is_word(t, ".") {
        Some(ForestInstruction::Print)
    } else if is_word(t, "get") {
        Some(ForestInstruction::Get)
    } else if is_word(t, "assoc") {
        Some(ForestInstruction::Associate)
    } else if is_word(t, "keys") {
        Some(ForestInstruction::Keys)
    } else if is_word(t, "vals") {
        Some(ForestInstruction::Values)
    } else if is_word(t, "if") {
        Some(ForestInstruction::If)
    } else if is_word(t, "ifend") {
        Some(ForestInstruction::IfEnd)
    } else if is_word(t, "&") {
        Some(ForestInstruction::And)
    } else if is_word(t, "|") {
        Some(ForestInstruction::Or)
    } else if is_word(t, "!") {
        Some(ForestInstruction::Not)
    } else if is_word(t, "=") {
        Some(ForestInstruction::Eq)
    } else if is_word(t, "[") {
        Some(ForestInstruction::Loop)
    } else if is_word(t, "]") {
        Some(ForestInstruction::LoopEnd)
    } else if is_word(t, "break") {
        Some(ForestInstruction::Break)
    } else if is_word(t, "swap") {
        Some(ForestInstruction::Swap)
    } else if is_word(t, "splat") {
        Some(ForestInstruction::Splat)
    } else if is_word(t, ";") {
        Some(ForestInstruction::EndWord)
    } else if is_word(t, "exit") {
        Some(ForestInstruction::Exit)
    } else {
        None
    }
}

/// The instruction for a token other than `:`.
pub fn instr_of(t: &Vec<char>) -> (r: ForestInstruction)
    ensures
        r@ == token_instr(t@),
{
    if let Some(i) = keyword_of(t) {
        i
    } else if let Some(i) = number_of(t) {
        i
    } else if let Some(i) = string_of(t) {
        i
    } else if let Some(i) = nil_of(t) {
        i
    } else if let Some(i) = table_of(t) {
        i
    } else {
        ForestInstruction::InvokeWord(text_of(t))
    }
}

/// Turns a sequence of tokens into instructions.
pub fn compile_tokens(ts: &Vec<Vec<char>>) -> (r: Result<Vec<ForestInstruction>, ForestCompileError>)
    ensures
        result_view(r) == instructions(token_views(ts@)),
{
    let ghost all = token_views(ts@);
    let n = ts.len();
    let mut program: Vec<ForestInstruction> = Vec::new();
    let mut i: usize = 0;
    assert(all.skip(0) =~= all);
    while i < n
        invariant
            i <= n,
            n == ts.len(),
            all == token_views(ts@),
            instructions(all) == prepend(instrs_view(program@), instructions(all.skip(i as int))),
        decreases n - i,
    {
        let ghost rest = all.skip(i as int);
        let ghost done = instrs_view(program@);
        if is_word(&ts[i], ":") {
            if i + 1 < n {
                let name = &ts[i + 1];
                program.push(ForestInstruction::MakeWord(text_of(name)));
                proof {
                    assert(rest.skip(2) =~= all.skip(i + 2));
                    assert(instrs_view(program@) =~= done + seq![InstrModel::MakeWord(rest[1])]);
                    lemma_prepend_twice(
                        done,
                        seq![InstrModel::MakeWord(rest[1])],
                        instructions(rest.skip(2)),
                    );
                }
                i += 2;
            } else {
                return Err(ForestCompileError::OutOfBoundsWord);
            }
        } else {
            program.push(instr_of(&ts[i]));
            proof {
                assert(rest.skip(1) =~= all.skip(i + 1));
                assert(instrs_view(program@) =~= done + seq![token_instr(rest[0])]);
                lemma_prepend_twice(done, seq![token_instr(rest[0])], instructions(rest.skip(1)));
            }
            i += 1;
        }
    }
    Ok(program)
}

/// Prepending in two steps is prepending the two parts joined.
pub proof fn lemma_prepend_twice(
    a: Seq<InstrModel>,
    b: Seq<InstrModel>,
    rest: Result<Seq<InstrModel>, ForestCompileError>,
)
    ensures
        prepend(a, prepend(b, rest)) == prepend(a + b, rest),
{
    if let Ok(r) = rest {
        assert(a + (b + r) =~= (a + b) + r);
    }
}

/// Turns a program text into instructions.
pub fn compile(programstr: &str) -> (r: Result<Vec<ForestInstruction>, ForestCompileError>)
    ensures
        result_view(r) == compiled(programstr@),
{
    let chars = chars_of(programstr);
    let ts = split_tokens(&chars);
    compile_tokens(&ts)
}

} // verus!
