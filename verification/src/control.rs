//! Words, and the instructions that are pending: taking them, skipping them, and putting
//! more in front.

use crate::instruction::{clone_instrs, instrs_view, ForestInstruction, InstrModel};
use crate::machine::{
    after_conditional, after_loop, bind, definition, find_word, with_first, Definition, WordModel,
};
use vstd::prelude::*;

verus! {

/// A word: a name bound to a sequence of instructions, as a constant or not.
#[derive(Debug)]
pub struct Word {
    pub name: String,
    pub instructions: Vec<ForestInstruction>,
    pub is_constant: bool,
}

impl View for Word {
    type V = WordModel;

    open spec fn view(&self) -> WordModel {
        WordModel {
            name: self.name@,
            body: instrs_view(self.instructions@),
            is_constant: self.is_constant,
        }
    }
}

impl Clone for Word {
    fn clone(&self) -> (res: Self)
        ensures
            res@ == self@,
    {
        Word {
            name: self.name.clone(),
            instructions: clone_instrs(&self.instructions),
            is_constant: self.is_constant,
        }
    }
}

/// The words of a list, each taken by its view.
pub open spec fn words_view(ws: Seq<Word>) -> Seq<WordModel> {
    Seq::new(ws.len(), |i: int| ws[i]@)
}

/// The instructions that a store holds, in the order in which they will run. The store keeps
/// them with the next one last, so that taking it is cheap.
pub open spec fn pending_view(store: Seq<ForestInstruction>) -> Seq<InstrModel> {
    Seq::new(store.len(), |i: int| store[store.len() - 1 - i]@)
}

/// The snapshots of a list of stores, each as the instructions it holds.
pub open spec fn snapshots_view(stores: Seq<Vec<ForestInstruction>>) -> Seq<Seq<InstrModel>> {
    Seq::new(stores.len(), |i: int| pending_view(stores[i]@))
}

/// Takes the next instruction out of a store.
pub fn take_next(store: &mut Vec<ForestInstruction>) -> (r: Option<ForestInstruction>)
    ensures
        match r {
            Some(i) => old(store).len() > 0 && i@ == pending_view(old(store)@)[0] && pending_view(
                final(store)@,
            ) == pending_view(old(store)@).skip(1) && final(store).len() == old(store).len() - 1,
            None => old(store).len() == 0 && final(store)@ == old(store)@,
        },
{
    let r = store.pop();
    if r.is_some() {
        assert(pending_view(store@) =~= pending_view(old(store)@).skip(1));
    }
    r
}

/// Puts instructions in front of what a store holds.
pub fn put_in_front(store: &mut Vec<ForestInstruction>, instrs: &[ForestInstruction])
    ensures
        pending_view(final(store)@) == instrs_view(instrs@) + pending_view(old(store)@),
{
    let n = instrs.len();
    let mut i: usize = n;
    while i > 0
        invariant
            i <= n,
            n == instrs.len(),
            pending_view(store@) == instrs_view(instrs@).skip(i as int) + pending_view(
                old(store)@,
            ),
        decreases i,
    {
        i -= 1;
        let ghost before = pending_view(store@);
        store.push(instrs[i].clone());
        assert(pending_view(store@) =~= seq![instrs[i as int]@] + before);
    }
}

/// Skips the rest of a conditional. Returns whether the `IfEnd` that closes it was found;
/// where it was not, nothing is left in the store.
pub fn skip_conditional(store: &mut Vec<ForestInstruction>) -> (found: bool)
    ensures
        match after_conditional(pending_view(old(store)@), 1) {
            Some(rest) => found && pending_view(final(store)@) == rest,
            None => !found && final(store).len() == 0,
        },
{
    let mut depth: u128 = 1;
    while depth != 0
        invariant
            after_conditional(pending_view(old(store)@), 1) == after_conditional(
                pending_view(store@),
                depth as nat,
            ),
            depth + store.len() <= old(store).len() + 1,
        decreases store.len(),
    {
        match take_next(store) {
            Some(ForestInstruction::If) => {
                depth += 1;
            },
            Some(ForestInstruction::IfEnd) => {
                depth -= 1;
            },
            Some(_) => {},
            None => {
                return false;
            },
        }
    }
    true
}

/// Skips the rest of a loop. Returns whether the `LoopEnd` that closes it was found; where
/// it was not, nothing is left in the store.
pub fn skip_loop(store: &mut Vec<ForestInstruction>) -> (found: bool)
    ensures
        match after_loop(pending_view(old(store)@), 1) {
            Some(rest) => found && pending_view(final(store)@) == rest,
            None => !found && final(store).len() == 0,
        },
{
    let mut depth: u128 = 1;
    while depth != 0
        invariant
            after_loop(pending_view(old(store)@), 1) == after_loop(
                pending_view(store@),
                depth as nat,
            ),
            depth + store.len() <= old(store).len() + 1,
        decreases store.len(),
    {
        match take_next(store) {
            Some(ForestInstruction::Loop) => {
                depth += 1;
            },
            Some(ForestInstruction::LoopEnd) => {
                depth -= 1;
            },
            Some(_) => {},
            None => {
                return false;
            },
        }
    }
    true
}

/// The definition with `first` put in front of its body.
pub open spec fn with_prefix(first: Seq<InstrModel>, d: Option<Definition>) -> Option<Definition> {
    match d {
        Some(d) => Some(Definition { body: first + d.body, rest: d.rest }),
        None => None,
    }
}

/// Takes the body of a word's definition out of a store, with the `EndWord` that closes it.
/// Where the instructions run out first, nothing is left in the store.
pub fn take_definition(store: &mut Vec<ForestInstruction>) -> (r: Option<Vec<ForestInstruction>>)
    ensures
        match definition(pending_view(old(store)@), 1) {
            Some(d) => r is Some && instrs_view(r.unwrap()@) == d.body && pending_view(
                final(store)@,
            ) == d.rest,
            None => r is None && final(store).len() == 0,
        },
{
    let mut body: Vec<ForestInstruction> = Vec::new();
    let mut depth: u128 = 1;
    proof {
        lemma_with_prefix_empty(definition(pending_view(store@), 1));
    }
    loop
        invariant
            depth >= 1,
            definition(pending_view(old(store)@), 1) == with_prefix(
                instrs_view(body@),
                definition(pending_view(store@), depth as nat),
            ),
            depth + store.len() <= old(store).len() + 1,
        decreases store.len(),
    {
        let ghost taken = instrs_view(body@);
        match take_next(store) {
            None => {
                return None;
            },
            Some(inst) => {
                match inst {
                    ForestInstruction::MakeWord(_) | ForestInstruction::MakeWordVar(_) => {
                        depth += 1;
                    },
                    ForestInstruction::EndWord => {
                        depth -= 1;
                        if depth == 0 {
                            return Some(body);
                        }
                    },
                    _ => {},
                }
                proof {
                    lemma_with_prefix_first(
                        taken,
                        inst@,
                        definition(pending_view(store@), depth as nat),
                    );
                }
                body.push(inst);
                assert(instrs_view(body@) =~= taken + seq![inst@]);
            },
        }
    }
}

/// Putting nothing in front of a definition leaves it as it is.
pub proof fn lemma_with_prefix_empty(d: Option<Definition>)
    ensures
        with_prefix(Seq::empty(), d) == d,
{
    if let Some(d) = d {
        assert(Seq::<InstrModel>::empty() + d.body =~= d.body);
    }
}

/// Putting `first` and then `i` in front of a definition is putting `first` in front of the
/// definition that starts with `i`.
pub proof fn lemma_with_prefix_first(first: Seq<InstrModel>, i: InstrModel, d: Option<Definition>)
    ensures
        with_prefix(first, with_first(i, d)) == with_prefix(first + seq![i], d),
{
    if let Some(d) = d {
        assert(first + (seq![i] + d.body) =~= (first + seq![i]) + d.body);
    }
}

/// Finds the word called `name`.
pub fn find(words: &Vec<Word>, name: &String) -> (r: Option<usize>)
    ensures
        match find_word(words_view(words@), name@) {
            Some(i) => r == Some(i as usize) && 0 <= i < words.len() && words[i]@.name == name@,
            None => r is None,
        },
{
    let mut i: usize = 0;
    while i < words.len()
        invariant
            i <= words.len(),
            find_word(words_view(words@).take(i as int), name@) is None,
        decreases words.len() - i,
    {
        assert(words_view(words@).take(i + 1).drop_last() =~= words_view(words@).take(i as int));
        if words[i].name == *name {
            proof {
                lemma_find_word_extends(words_view(words@), name@, i + 1);
            }
            return Some(i);
        }
        i += 1;
    }
    assert(words_view(words@).take(words.len() as int) =~= words_view(words@));
    None
}

/// Once the first words of a list hold the name, the word of that name is the same in the
/// whole list.
pub proof fn lemma_find_word_extends(words: Seq<WordModel>, name: Seq<char>, n: int)
    requires
        0 <= n <= words.len(),
        find_word(words.take(n), name) is Some,
    ensures
        find_word(words, name) == find_word(words.take(n), name),
    decreases words.len() - n,
{
    if n == words.len() {
        assert(words.take(n) =~= words);
    } else {
        assert(words.take(n + 1).drop_last() =~= words.take(n));
        lemma_find_word_extends(words, name, n + 1);
    }
}

/// Whether `name` is bound as a constant, so that it cannot be bound again.
pub open spec fn is_locked(words: Seq<WordModel>, name: Seq<char>) -> bool {
    match find_word(words, name) {
        Some(i) => words[i].is_constant,
        None => false,
    }
}

/// Whether `name` is bound as a constant.
pub fn locked(words: &Vec<Word>, name: &String) -> (r: bool)
    ensures
        r == is_locked(words_view(words@), name@),
{
    match find(words, name) {
        Some(i) => words[i].is_constant,
        None => false,
    }
}

/// Binds `name` to `body`.
pub(crate) fn bind_word(
    words: &mut Vec<Word>,
    name: String,
    body: Vec<ForestInstruction>,
    is_constant: bool,
)
    requires
        !is_locked(words_view(old(words)@), name@),
    ensures
        Some(words_view(final(words)@)) == bind(
            words_view(old(words)@),
            name@,
            instrs_view(body@),
            is_constant,
        ),
{
    let at = find(words, &name);
    let word = Word { name, instructions: body, is_constant };
    match at {
        Some(i) => {
            words.set(i, word);
        },
        None => {
            words.push(word);
        },
    }
}

} // verus!
