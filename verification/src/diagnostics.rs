//! The text of a dump of the machine's state.

use crate::control::{words_view, Word};
use crate::instruction::{instr_text, instrs_view, push_instr, ForestInstruction, InstrModel};
use crate::machine::{RuntimeModel, WordModel};
use crate::render::{push_value, value_text};
use crate::text::{decimal, push_digits};
use crate::value::{values_view, ForestValue, ValueModel};
use vstd::prelude::*;
use vstd::string::StringExecFns;

verus! {

/// The lines for the first `n` values of a stack, from the bottom: each value after two
/// spaces, on a line of its own.
pub open spec fn stack_lines(st: Seq<ValueModel>, n: nat) -> Seq<char>
    decreases n,
{
    if n == 0 || n > st.len() {
        Seq::empty()
    } else {
        stack_lines(st, (n - 1) as nat) + "  "@ + value_text(st[n - 1]) + "\n"@
    }
}

/// The first `n` instructions of a body, each followed by a space.
pub open spec fn body_text(body: Seq<InstrModel>, n: nat) -> Seq<char>
    decreases n,
{
    if n == 0 || n > body.len() {
        Seq::empty()
    } else {
        body_text(body, (n - 1) as nat) + instr_text(body[n - 1]) + " "@
    }
}

/// The line for a word: its name, whether it is a constant, and its body.
pub open spec fn word_line(w: WordModel) -> Seq<char> {
    "  "@ + w.name + " ("@ + (if w.is_constant {
        "const"@
    } else {
        "var"@
    }) + ") | "@ + body_text(w.body, w.body.len()) + "\n"@
}

/// The lines for the first `n` words.
pub open spec fn word_lines(ws: Seq<WordModel>, n: nat) -> Seq<char>
    decreases n,
{
    if n == 0 || n > ws.len() {
        Seq::empty()
    } else {
        word_lines(ws, (n - 1) as nat) + word_line(ws[n - 1])
    }
}

/// What a dump of the state shows, for a state with an instruction pending: the stack from
/// the bottom, the instruction that runs next, the number of loops that are open, and the
/// words with their bodies.
pub open spec fn dump_text(s: RuntimeModel) -> Seq<char> {
    "\n\n\nStack: \n"@ + stack_lines(s.stack, s.stack.len()) + "Current instruction: "@
        + instr_text(s.pending[0]) + "\n"@ + "Jumplists: "@ + decimal(s.loops.len() as int)
        + "\n"@ + "Wordlist:\n"@ + word_lines(s.words, s.words.len())
}

/// Appends the lines for the values of a stack.
pub fn push_stack_lines(out: &mut String, stack: &Vec<ForestValue>)
    ensures
        final(out)@ == old(out)@ + stack_lines(values_view(stack@), stack.len() as nat),
{
    let mut i: usize = 0;
    while i < stack.len()
        invariant
            i <= stack.len(),
            out@ == old(out)@ + stack_lines(values_view(stack@), i as nat),
        decreases stack.len() - i,
    {
        out.append("  ");
        push_value(out, &stack[i]);
        out.append("\n");
        i += 1;
    }
}

/// Appends the line for a word.
pub fn push_word_line(out: &mut String, w: &Word)
    ensures
        final(out)@ == old(out)@ + word_line(w@),
{
    out.append("  ");
    out.append(w.name.as_str());
    out.append(" (");
    if w.is_constant {
        out.append("const");
    } else {
        out.append("var");
    }
    out.append(") | ");
    let ghost head = out@;
    let ghost body = instrs_view(w.instructions@);
    let mut i: usize = 0;
    while i < w.instructions.len()
        invariant
            i <= w.instructions.len(),
            body == instrs_view(w.instructions@),
            out@ == head + body_text(body, i as nat),
        decreases w.instructions.len() - i,
    {
        push_instr(out, &w.instructions[i]);
        out.append(" ");
        i += 1;
    }
    out.append("\n");
}

/// Renders a dump of the state that these parts make up.
pub fn render_dump(
    stack: &Vec<ForestValue>,
    next: &ForestInstruction,
    loops: usize,
    words: &Vec<Word>,
) -> (out: String)
    ensures
        out@ == "\n\n\nStack: \n"@ + stack_lines(values_view(stack@), stack.len() as nat)
            + "Current instruction: "@ + instr_text(next@) + "\n"@ + "Jumplists: "@ + decimal(
            loops as int,
        ) + "\n"@ + "Wordlist:\n"@ + word_lines(words_view(words@), words.len() as nat),
{
    let mut out = String::new();
    out.append("\n\n\nStack: \n");
    push_stack_lines(&mut out, stack);
    out.append("Current instruction: ");
    push_instr(&mut out, next);
    out.append("\n");
    out.append("Jumplists: ");
    push_digits(&mut out, loops as u64);
    out.append("\n");
    out.append("Wordlist:\n");
    let ghost head = out@;
    let mut i: usize = 0;
    while i < words.len()
        invariant
            i <= words.len(),
            out@ == head + word_lines(words_view(words@), i as nat),
        decreases words.len() - i,
    {
        push_word_line(&mut out, &words[i]);
        i += 1;
    }
    out
}

} // verus!
