//! What holds of the machine, whatever the program: proved of the model that the machine's
//! contracts speak of.

use crate::control::{lemma_with_prefix_empty, lemma_with_prefix_first, with_prefix};
use crate::error::ErrorModel;
use crate::instruction::InstrModel;
use crate::machine::{
    after_conditional, after_loop, bind, definition, division_fault, find_word, initial, operands,
    peek, popped, proceed, quotient, step_model, stop, ActionModel, Definition, RuntimeModel,
    WordModel,
};
use crate::stack_ops::lemma_quotient;
use crate::table::{
    associate, first_index, last_index, lemma_first_index, lemma_last_index, lookup, Entries,
};
use crate::value::ValueModel;
use vstd::prelude::*;

verus! {

/// The state `s` with `stack` for its stack and `pending` for its pending instructions.
pub open spec fn moved(s: RuntimeModel, stack: Seq<ValueModel>, pending: Seq<InstrModel>)
    -> RuntimeModel {
    RuntimeModel { stack, pending, ..s }
}

/// The state after `n` steps from `s`.
pub open spec fn after_steps(s: RuntimeModel, n: nat) -> RuntimeModel
    decreases n,
{
    if n == 0 {
        s
    } else {
        step_model(after_steps(s, (n - 1) as nat)).next
    }
}

/// A `Push` puts its value on the stack and nothing else changes.
pub proof fn law_push(s: RuntimeModel, v: ValueModel, rest: Seq<InstrModel>)
    requires
        s.pending == seq![InstrModel::Push(v)] + rest,
    ensures
        step_model(s) == proceed(moved(s, s.stack.push(v), rest)),
{
    assert(s.pending.skip(1) =~= rest);
}

/// Pushing `b`, then `a`, then subtracting leaves `b - a` on the stack, wrapped around at 64
/// bits; where the difference fits in 64 bits, that is the difference itself.
pub proof fn law_subtract(s: RuntimeModel, b: i64, a: i64, rest: Seq<InstrModel>)
    requires
        s.pending == seq![
            InstrModel::Push(ValueModel::Int(b)),
            InstrModel::Push(ValueModel::Int(a)),
            InstrModel::Subtract,
        ] + rest,
    ensures
        after_steps(s, 3) == moved(s, s.stack.push(ValueModel::Int(b.wrapping_sub(a))), rest),
        step_model(after_steps(s, 2)).outcome == Ok::<ActionModel, ErrorModel>(
            ActionModel::Continue,
        ),
        i64::MIN <= b - a <= i64::MAX ==> b.wrapping_sub(a) == b - a,
{
    lemma_two_pushes(s, ValueModel::Int(b), ValueModel::Int(a), InstrModel::Subtract, rest);
    let s2 = after_steps(s, 2);
    assert(s2.pending.skip(1) =~= rest);
    assert(popped(s2.stack, 2) =~= s.stack);
    reveal_with_fuel(after_steps, 4);
}

/// Pushing `b`, then `a`, then dividing leaves the quotient of `b` by `a` on the stack,
/// rounded toward zero, wherever dividing is no fault. For a `b` that is not negative and a
/// positive `a` that is `b / a`.
pub proof fn law_divide(s: RuntimeModel, b: i64, a: i64, rest: Seq<InstrModel>)
    requires
        !division_fault(b, a),
        s.pending == seq![
            InstrModel::Push(ValueModel::Int(b)),
            InstrModel::Push(ValueModel::Int(a)),
            InstrModel::Divide,
        ] + rest,
    ensures
        i64::MIN <= quotient(b as int, a as int) <= i64::MAX,
        after_steps(s, 3) == moved(
            s,
            s.stack.push(ValueModel::Int(quotient(b as int, a as int) as i64)),
            rest,
        ),
        step_model(after_steps(s, 2)).outcome == Ok::<ActionModel, ErrorModel>(
            ActionModel::Continue,
        ),
        b >= 0 && a > 0 ==> quotient(b as int, a as int) == b as int / a as int,
{
    lemma_quotient(b, a);
    lemma_two_pushes(s, ValueModel::Int(b), ValueModel::Int(a), InstrModel::Divide, rest);
    let s2 = after_steps(s, 2);
    assert(s2.pending.skip(1) =~= rest);
    assert(popped(s2.stack, 2) =~= s.stack);
    reveal_with_fuel(after_steps, 4);
}

/// The quotient rounds toward zero: what is left of `b` after taking `a` times the quotient
/// is smaller in magnitude than `a`, and is not on the other side of zero than `b`.
pub proof fn law_quotient_rounds_toward_zero(b: int, a: int)
    requires
        a != 0,
    ensures
        ({
            let left = b - quotient(b, a) * a;
            &&& -a < left < a || a < left < -a
            &&& b >= 0 ==> left >= 0
            &&& b <= 0 ==> left <= 0
        }),
{
    let ab = if b < 0 {
        -b
    } else {
        b
    };
    let aa = if a < 0 {
        -a
    } else {
        a
    };
    let q = ab / aa;
    vstd::arithmetic::div_mod::lemma_fundamental_div_mod(ab, aa);
    vstd::arithmetic::div_mod::lemma_mod_bound(ab, aa);
    assert(ab == aa * q + ab % aa);
    assert((-q) * a == -(q * a)) by (nonlinear_arith);
    assert(q * (-a) == -(q * a)) by (nonlinear_arith);
    assert(aa * q == q * aa) by (nonlinear_arith);
}

/// After two pushes the two values are on the stack and what followed the pushes is pending.
pub proof fn lemma_two_pushes(
    s: RuntimeModel,
    x: ValueModel,
    y: ValueModel,
    next: InstrModel,
    rest: Seq<InstrModel>,
)
    requires
        s.pending == seq![InstrModel::Push(x), InstrModel::Push(y), next] + rest,
    ensures
        after_steps(s, 2) == moved(s, s.stack.push(x).push(y), seq![next] + rest),
{
    let s1 = step_model(s).next;
    assert(s.pending.skip(1) =~= seq![InstrModel::Push(y), next] + rest);
    assert(s1 == moved(s, s.stack.push(x), seq![InstrModel::Push(y), next] + rest));
    assert(s1.pending.skip(1) =~= seq![next] + rest);
    reveal_with_fuel(after_steps, 3);
}

/// `Get` leaves everything below the key as it is, the table included, whether it goes well
/// or not.
pub proof fn law_get_keeps_table(s: RuntimeModel)
    requires
        s.pending.len() > 0,
        s.pending[0] is Get,
        s.stack.len() >= 2,
    ensures
        step_model(s).next.stack.take(s.stack.len() - 1) == s.stack.take(s.stack.len() - 1),
        step_model(s).outcome is Ok ==> step_model(s).next.stack.len() == s.stack.len(),
{
    let n = s.stack.len() as int;
    let after = step_model(s).next.stack;
    assert(after.take(n - 1) =~= s.stack.take(n - 1));
}

/// `Get` with a key that is not `Nil` on a table puts what the table holds for the key on
/// top of the table.
pub proof fn law_get(s: RuntimeModel, t: Entries, k: ValueModel, rest: Seq<InstrModel>)
    requires
        !(k is Nil),
        s.stack.len() >= 2,
        peek(s.stack, 0) == k,
        peek(s.stack, 1) == ValueModel::Table(t),
        s.pending == seq![InstrModel::Get] + rest,
    ensures
        step_model(s) == proceed(moved(s, s.stack.drop_last().push(lookup(t, k)), rest)),
{
    assert(s.pending.skip(1) =~= rest);
    assert(popped(s.stack, 1) =~= s.stack.drop_last());
}

/// An empty table holds `Nil` for every key.
pub proof fn law_lookup_in_empty_table(k: ValueModel)
    ensures
        lookup(Seq::empty(), k) == ValueModel::Nil,
{
}

/// After binding a key to a value, the table holds that value for the key, provided that at
/// most one entry had the key before, or that the first entry with the key held the value
/// already. (Binding changes the last entry with the key and looking up reads the first.)
pub proof fn law_lookup_after_associate(t: Entries, k: ValueModel, v: ValueModel)
    requires
        first_index(t, k) == last_index(t, k) || lookup(t, k) == v,
    ensures
        lookup(associate(t, k, v), k) == v,
{
    lemma_first_index(t, k);
    lemma_last_index(t, k);
    let bound = associate(t, k, v);
    lemma_first_index(bound, k);
    match last_index(t, k) {
        Some(i) => {
            assert(bound[i].0 == k);
            let first = first_index(t, k).unwrap();
            assert(bound[first].0 == k);
            let found = first_index(bound, k).unwrap();
            assert(t[found].0 == k);
            assert(found == first);
        },
        None => {
            assert(bound[t.len() as int].0 == k);
            let found = first_index(bound, k).unwrap();
            if found < t.len() {
                assert(t[found].0 == k);
            }
        },
    }
}

/// Binding a key leaves what the table holds for every other key.
pub proof fn law_associate_keeps_other_keys(t: Entries, k: ValueModel, v: ValueModel, other: ValueModel)
    requires
        other != k,
    ensures
        lookup(associate(t, k, v), other) == lookup(t, other),
{
    lemma_first_index(t, other);
    lemma_last_index(t, k);
    let bound = associate(t, k, v);
    lemma_first_index(bound, other);
    assert(forall|j: int| 0 <= j < t.len() ==> (#[trigger] bound[j]).0 == t[j].0);
    match first_index(bound, other) {
        Some(found) => {
            assert(found < t.len());
            assert(t[found].0 == other);
            let first = first_index(t, other).unwrap();
            assert(bound[first].0 == other);
            assert(found == first);
        },
        None => {
            if let Some(first) = first_index(t, other) {
                assert(bound[first].0 == other);
            }
        },
    }
}

/// Associating and then getting the same key leaves the table with the key bound, and the
/// value on top of it, under the proviso of `law_lookup_after_associate`.
pub proof fn law_associate_then_get(
    s: RuntimeModel,
    t: Entries,
    k: ValueModel,
    v: ValueModel,
    rest: Seq<InstrModel>,
)
    requires
        !(k is Nil),
        first_index(t, k) == last_index(t, k) || lookup(t, k) == v,
        s.stack.len() >= 3,
        peek(s.stack, 0) == v,
        peek(s.stack, 1) == k,
        peek(s.stack, 2) == ValueModel::Table(t),
        s.pending == seq![InstrModel::Associate, InstrModel::Push(k), InstrModel::Get] + rest,
    ensures
        after_steps(s, 3) == moved(
            s,
            popped(s.stack, 3).push(ValueModel::Table(associate(t, k, v))).push(v),
            rest,
        ),
        step_model(after_steps(s, 2)).outcome == Ok::<ActionModel, ErrorModel>(
            ActionModel::Continue,
        ),
{
    law_lookup_after_associate(t, k, v);
    let bound = ValueModel::Table(associate(t, k, v));
    let below = popped(s.stack, 3);
    let s1 = step_model(s).next;
    assert(s.pending.skip(1) =~= seq![InstrModel::Push(k), InstrModel::Get] + rest);
    assert(s1 == moved(s, below.push(bound), seq![InstrModel::Push(k), InstrModel::Get] + rest));
    assert(s1.pending =~= seq![InstrModel::Push(k)] + (seq![InstrModel::Get] + rest));
    law_push(s1, k, seq![InstrModel::Get] + rest);
    let s2 = step_model(s1).next;
    assert(s2 == moved(s, below.push(bound).push(k), seq![InstrModel::Get] + rest));
    law_get(s2, associate(t, k, v), k, rest);
    assert(s2.stack.drop_last() =~= below.push(bound));
    reveal_with_fuel(after_steps, 4);
}

/// Two tables that hold the same two entries in different order are different tables.
pub proof fn law_table_order_matters(a: ValueModel, x: ValueModel, b: ValueModel, y: ValueModel)
    requires
        a != b,
    ensures
        associate(associate(Seq::empty(), a, x), b, y) == seq![(a, x), (b, y)],
        associate(associate(Seq::empty(), b, y), a, x) == seq![(b, y), (a, x)],
        ValueModel::Table(seq![(a, x), (b, y)]) != ValueModel::Table(seq![(b, y), (a, x)]),
{
    let e: Entries = Seq::empty();
    let ax = associate(e, a, x);
    assert(ax =~= seq![(a, x)]);
    lemma_last_index(ax, b);
    assert(associate(ax, b, y) =~= seq![(a, x), (b, y)]);
    let by = associate(e, b, y);
    assert(by =~= seq![(b, y)]);
    lemma_last_index(by, a);
    assert(associate(by, a, x) =~= seq![(b, y), (a, x)]);
    assert(seq![(a, x), (b, y)][0] != seq![(b, y), (a, x)][0]);
}

/// `If` and `IfEnd` leave the stack as it is, whatever the tested value and however the step
/// ends.
pub proof fn law_conditional_keeps_stack(s: RuntimeModel)
    requires
        s.pending.len() > 0,
        s.pending[0] is If || s.pending[0] is IfEnd,
    ensures
        step_model(s).next.stack == s.stack,
        step_model(s).next.words == s.words,
        step_model(s).next.loops == s.loops,
{
}

/// How many conditionals are open after `p`, where `depth` of them, at least one, are open
/// before it. `None` where `p` closes them all before its end.
pub open spec fn open_conditionals(p: Seq<InstrModel>, depth: nat) -> Option<nat>
    decreases p.len(),
{
    if depth == 0 {
        None
    } else if p.len() == 0 {
        Some(depth)
    } else {
        match p[0] {
            InstrModel::If => open_conditionals(p.skip(1), depth + 1),
            InstrModel::IfEnd => open_conditionals(p.skip(1), (depth - 1) as nat),
            _ => open_conditionals(p.skip(1), depth),
        }
    }
}

/// Whether every `If` of `body` has its `IfEnd` in `body`, and every `IfEnd` its `If`.
pub open spec fn conditionals_balanced(body: Seq<InstrModel>) -> bool {
    open_conditionals(body, 1) == Some(1nat)
}

/// Skipping goes through a body that leaves conditionals open to what follows the body.
pub proof fn lemma_skip_through(body: Seq<InstrModel>, tail: Seq<InstrModel>, depth: nat)
    requires
        open_conditionals(body, depth) is Some,
    ensures
        after_conditional(body + tail, depth) == after_conditional(
            tail,
            open_conditionals(body, depth).unwrap(),
        ),
    decreases body.len(),
{
    if body.len() == 0 {
        assert(body + tail =~= tail);
    } else {
        assert((body + tail).skip(1) =~= body.skip(1) + tail);
        assert((body + tail)[0] == body[0]);
        match body[0] {
            InstrModel::If => lemma_skip_through(body.skip(1), tail, depth + 1),
            InstrModel::IfEnd => lemma_skip_through(body.skip(1), tail, (depth - 1) as nat),
            _ => lemma_skip_through(body.skip(1), tail, depth),
        }
    }
}

/// An `If` that finds `Nil` on top of the stack runs nothing of its body: the next
/// instruction is the one after the `IfEnd` that closes it, and nothing else changes.
pub proof fn law_false_conditional_is_skipped(
    s: RuntimeModel,
    body: Seq<InstrModel>,
    rest: Seq<InstrModel>,
)
    requires
        s.stack.len() > 0,
        s.stack.last() is Nil,
        conditionals_balanced(body),
        s.pending == seq![InstrModel::If] + body + seq![InstrModel::IfEnd] + rest,
    ensures
        step_model(s) == proceed(moved(s, s.stack, rest)),
{
    let tail = seq![InstrModel::IfEnd] + rest;
    assert(s.pending.skip(1) =~= body + tail);
    lemma_skip_through(body, tail, 1);
    assert(tail.skip(1) =~= rest);
    assert(after_conditional(tail.skip(1), 0) == Some(rest));
    assert(after_conditional(tail, 1) == Some(rest));
}

/// An `If` that finds another value than `Nil` goes on with its body.
pub proof fn law_true_conditional_is_entered(s: RuntimeModel, rest: Seq<InstrModel>)
    requires
        s.stack.len() > 0,
        !(s.stack.last() is Nil),
        s.pending == seq![InstrModel::If] + rest,
    ensures
        step_model(s) == proceed(moved(s, s.stack, rest)),
{
    assert(s.pending.skip(1) =~= rest);
}

/// How many loops are open after `p`, where `depth` of them, at least one, are open before
/// it. `None` where `p` closes them all before its end.
pub open spec fn open_loops(p: Seq<InstrModel>, depth: nat) -> Option<nat>
    decreases p.len(),
{
    if depth == 0 {
        None
    } else if p.len() == 0 {
        Some(depth)
    } else {
        match p[0] {
            InstrModel::Loop => open_loops(p.skip(1), depth + 1),
            InstrModel::LoopEnd => open_loops(p.skip(1), (depth - 1) as nat),
            _ => open_loops(p.skip(1), depth),
        }
    }
}

/// Whether every `Loop` of `body` has its `LoopEnd` in `body`, and every `LoopEnd` its `Loop`.
pub open spec fn loops_balanced(body: Seq<InstrModel>) -> bool {
    open_loops(body, 1) == Some(1nat)
}

/// Leaving a loop goes through a body that leaves loops open to what follows the body.
pub proof fn lemma_leave_through(body: Seq<InstrModel>, tail: Seq<InstrModel>, depth: nat)
    requires
        open_loops(body, depth) is Some,
    ensures
        after_loop(body + tail, depth) == after_loop(tail, open_loops(body, depth).unwrap()),
    decreases body.len(),
{
    if body.len() == 0 {
        assert(body + tail =~= tail);
    } else {
        assert((body + tail).skip(1) =~= body.skip(1) + tail);
        match body[0] {
            InstrModel::Loop => lemma_leave_through(body.skip(1), tail, depth + 1),
            InstrModel::LoopEnd => lemma_leave_through(body.skip(1), tail, (depth - 1) as nat),
            _ => lemma_leave_through(body.skip(1), tail, depth),
        }
    }
}

/// A `Break` leaves exactly one loop: the next instruction is the one after the `LoopEnd`
/// that closes the innermost loop, and nothing else changes.
pub proof fn law_break_leaves_one_loop(
    s: RuntimeModel,
    body: Seq<InstrModel>,
    rest: Seq<InstrModel>,
)
    requires
        loops_balanced(body),
        s.pending == seq![InstrModel::Break] + body + seq![InstrModel::LoopEnd] + rest,
    ensures
        step_model(s) == proceed(moved(s, s.stack, rest)),
{
    let tail = seq![InstrModel::LoopEnd] + rest;
    assert(s.pending.skip(1) =~= body + tail);
    lemma_leave_through(body, tail, 1);
    assert(tail.skip(1) =~= rest);
    assert(after_loop(tail.skip(1), 0) == Some(rest));
    assert(after_loop(tail, 1) == Some(rest));
}

/// A `Loop` keeps what is pending behind it, and the `LoopEnd` that closes the loop brings
/// the machine back to where the `Loop` stood: after a `LoopEnd` and the `Loop` that it puts
/// in front, what is pending and what is kept are what they were when the loop was entered.
pub proof fn law_loop_end_repeats(s: RuntimeModel, rest: Seq<InstrModel>)
    requires
        s.loops.len() > 0,
        s.pending == seq![InstrModel::LoopEnd] + rest,
    ensures
        step_model(s).outcome == Ok::<ActionModel, ErrorModel>(ActionModel::Continue),
        step_model(s).next == (RuntimeModel {
            pending: seq![InstrModel::Loop] + s.loops.last(),
            loops: s.loops.drop_last(),
            ..s
        }),
        step_model(step_model(s).next) == proceed(
            RuntimeModel { pending: s.loops.last(), ..s },
        ),
{
    let s1 = step_model(s).next;
    assert(s1.pending.skip(1) =~= s.loops.last());
    assert(s.loops.drop_last().push(s.loops.last()) =~= s.loops);
}

/// Whether `name` is bound as a constant.
pub open spec fn bound_constant(words: Seq<WordModel>, name: Seq<char>) -> bool {
    find_word(words, name) matches Some(i) && words[i].is_constant
}

/// What `find_word` finds is a word of that name, and the first one.
pub proof fn lemma_find_word(words: Seq<WordModel>, name: Seq<char>)
    ensures
        match find_word(words, name) {
            Some(i) => 0 <= i < words.len() && words[i].name == name && forall|j: int|
                0 <= j < i ==> (#[trigger] words[j]).name != name,
            None => forall|j: int| 0 <= j < words.len() ==> (#[trigger] words[j]).name != name,
        },
    decreases words.len(),
{
    if words.len() > 0 {
        lemma_find_word(words.drop_last(), name);
        assert(forall|j: int| 0 <= j < words.len() - 1 ==> words.drop_last()[j] == words[j]);
    }
}

/// A binding that goes well makes the name stand for the new body, as a constant or not as
/// the binding says.
pub proof fn law_bind_binds(
    words: Seq<WordModel>,
    name: Seq<char>,
    body: Seq<InstrModel>,
    is_constant: bool,
)
    requires
        bind(words, name, body, is_constant) is Some,
    ensures
        ({
            let after = bind(words, name, body, is_constant).unwrap();
            find_word(after, name) matches Some(i) && after[i] == (WordModel {
                name,
                body,
                is_constant,
            })
        }),
{
    let after = bind(words, name, body, is_constant).unwrap();
    lemma_find_word(words, name);
    lemma_find_word(after, name);
    match find_word(words, name) {
        Some(i) => {
            assert(after[i].name == name);
            let found = find_word(after, name).unwrap();
            if found != i {
                assert(words[found].name == name);
            }
        },
        None => {
            assert(after[words.len() as int].name == name);
            let found = find_word(after, name).unwrap();
            if found < words.len() {
                assert(words[found].name == name);
            }
        },
    }
}

/// A name that is bound as a constant cannot be bound again, as a constant or otherwise.
pub proof fn law_constant_cannot_be_rebound(
    words: Seq<WordModel>,
    name: Seq<char>,
    body: Seq<InstrModel>,
    is_constant: bool,
)
    requires
        bound_constant(words, name),
    ensures
        bind(words, name, body, is_constant) is None,
{
}

/// A name that is not bound as a constant can be bound, as a constant or otherwise.
pub proof fn law_variable_can_be_rebound(
    words: Seq<WordModel>,
    name: Seq<char>,
    body: Seq<InstrModel>,
    is_constant: bool,
)
    requires
        !bound_constant(words, name),
    ensures
        bind(words, name, body, is_constant) is Some,
{
}

/// After a name has been bound as a constant, a second binding of it fails; after it has
/// been bound as a variable, a second binding of either kind goes well.
pub proof fn law_second_binding(
    words: Seq<WordModel>,
    name: Seq<char>,
    first: Seq<InstrModel>,
    first_constant: bool,
    second: Seq<InstrModel>,
    second_constant: bool,
)
    requires
        bind(words, name, first, first_constant) is Some,
    ensures
        bind(
            bind(words, name, first, first_constant).unwrap(),
            name,
            second,
            second_constant,
        ) is None <==> first_constant,
{
    law_bind_binds(words, name, first, first_constant);
}

/// A binding leaves the words of other names as they are.
pub proof fn law_bind_keeps_other_words(
    words: Seq<WordModel>,
    name: Seq<char>,
    body: Seq<InstrModel>,
    is_constant: bool,
    other: Seq<char>,
)
    requires
        other != name,
        bind(words, name, body, is_constant) is Some,
    ensures
        ({
            let after = bind(words, name, body, is_constant).unwrap();
            match find_word(words, other) {
                Some(i) => find_word(after, other) == Some(i) && after[i] == words[i],
                None => find_word(after, other) is None,
            }
        }),
{
    let after = bind(words, name, body, is_constant).unwrap();
    lemma_find_word(words, name);
    lemma_find_word(words, other);
    lemma_find_word(after, other);
    assert(forall|j: int| 0 <= j < words.len() ==> (#[trigger] after[j]).name == words[j].name);
    match find_word(after, other) {
        Some(found) => {
            assert(found < words.len());
            assert(words[found].name == other);
            let first = find_word(words, other).unwrap();
            assert(after[first].name == other);
            assert(found == first);
        },
        None => {
            if let Some(first) = find_word(words, other) {
                assert(after[first].name == other);
            }
        },
    }
}

/// A name that is bound as a constant stays bound as a constant, to the same body, whatever
/// step the machine takes.
pub proof fn law_constant_stays(s: RuntimeModel, name: Seq<char>)
    requires
        bound_constant(s.words, name),
    ensures
        bound_constant(step_model(s).next.words, name),
        ({
            let i = find_word(s.words, name).unwrap();
            let j = find_word(step_model(s).next.words, name).unwrap();
            step_model(s).next.words[j] == s.words[i]
        }),
{
    let next = step_model(s).next;
    if next.words != s.words {
        let after = RuntimeModel { pending: s.pending.skip(1), ..s };
        match s.pending[0] {
            InstrModel::MakeWord(n) => {
                let d = definition(after.pending, 1).unwrap();
                law_bind_keeps_other_words(s.words, n, d.body, true, name);
            },
            InstrModel::MakeWordVar(n) => {
                let d = definition(after.pending, 1).unwrap();
                law_bind_keeps_other_words(s.words, n, d.body, false, name);
            },
            InstrModel::SetWord(n) => {
                law_bind_keeps_other_words(
                    s.words,
                    n,
                    seq![InstrModel::Push(s.stack.last())],
                    true,
                    name,
                );
            },
            InstrModel::SetVar(n) => {
                law_bind_keeps_other_words(
                    s.words,
                    n,
                    seq![InstrModel::Push(s.stack.last())],
                    false,
                    name,
                );
            },
            _ => {},
        }
    }
}

/// Whether no two words have the same name, so that the words are a mapping from names.
pub open spec fn names_distinct(words: Seq<WordModel>) -> bool {
    forall|i: int, j: int|
        0 <= i < j < words.len() ==> (#[trigger] words[i]).name != (#[trigger] words[j]).name
}

/// A binding never gives two words the same name.
pub proof fn law_bind_keeps_names_distinct(
    words: Seq<WordModel>,
    name: Seq<char>,
    body: Seq<InstrModel>,
    is_constant: bool,
)
    requires
        names_distinct(words),
        bind(words, name, body, is_constant) is Some,
    ensures
        names_distinct(bind(words, name, body, is_constant).unwrap()),
{
    let after = bind(words, name, body, is_constant).unwrap();
    lemma_find_word(words, name);
    assert forall|i: int, j: int| 0 <= i < j < after.len() implies (#[trigger] after[i]).name != (
    #[trigger] after[j]).name by {
        if j < words.len() {
            assert(after[i].name == words[i].name);
            assert(after[j].name == words[j].name);
        } else {
            assert(after[i].name == words[i].name);
        }
    }
}

/// The machine starts without words, and no step gives two words the same name.
pub proof fn law_names_stay_distinct(s: RuntimeModel)
    requires
        names_distinct(s.words),
    ensures
        names_distinct(step_model(s).next.words),
        names_distinct(initial(s.pending).words),
{
    let next = step_model(s).next;
    if next.words != s.words {
        let after = RuntimeModel { pending: s.pending.skip(1), ..s };
        match s.pending[0] {
            InstrModel::MakeWord(n) => {
                let d = definition(after.pending, 1).unwrap();
                law_bind_keeps_names_distinct(s.words, n, d.body, true);
            },
            InstrModel::MakeWordVar(n) => {
                let d = definition(after.pending, 1).unwrap();
                law_bind_keeps_names_distinct(s.words, n, d.body, false);
            },
            InstrModel::SetWord(n) => {
                law_bind_keeps_names_distinct(
                    s.words,
                    n,
                    seq![InstrModel::Push(s.stack.last())],
                    true,
                );
            },
            InstrModel::SetVar(n) => {
                law_bind_keeps_names_distinct(
                    s.words,
                    n,
                    seq![InstrModel::Push(s.stack.last())],
                    false,
                );
            },
            _ => {},
        }
    }
}

/// How many definitions are open after `p`, where `depth` of them, at least one, are open
/// before it. `None` where `p` closes them all before its end.
pub open spec fn open_definitions(p: Seq<InstrModel>, depth: nat) -> Option<nat>
    decreases p.len(),
{
    if depth == 0 {
        None
    } else if p.len() == 0 {
        Some(depth)
    } else {
        match p[0] {
            InstrModel::MakeWord(_) | InstrModel::MakeWordVar(_) => open_definitions(
                p.skip(1),
                depth + 1,
            ),
            InstrModel::EndWord => open_definitions(p.skip(1), (depth - 1) as nat),
            _ => open_definitions(p.skip(1), depth),
        }
    }
}

/// Whether every definition that `body` opens is closed in `body`, and every `EndWord` of
/// `body` closes a definition that `body` opens.
pub open spec fn definitions_balanced(body: Seq<InstrModel>) -> bool {
    open_definitions(body, 1) == Some(1nat)
}

/// A definition takes a body that leaves definitions open together with what closes them.
pub proof fn lemma_definition_through(body: Seq<InstrModel>, tail: Seq<InstrModel>, depth: nat)
    requires
        open_definitions(body, depth) is Some,
    ensures
        definition(body + tail, depth) == with_prefix(
            body,
            definition(tail, open_definitions(body, depth).unwrap()),
        ),
    decreases body.len(),
{
    if body.len() == 0 {
        assert(body + tail =~= tail);
        lemma_with_prefix_empty(definition(tail, depth));
        assert(body =~= Seq::empty());
    } else {
        assert((body + tail).skip(1) =~= body.skip(1) + tail);
        assert((body + tail)[0] == body[0]);
        let inner = match body[0] {
            InstrModel::MakeWord(_) | InstrModel::MakeWordVar(_) => depth + 1,
            InstrModel::EndWord => (depth - 1) as nat,
            _ => depth,
        };
        lemma_definition_through(body.skip(1), tail, inner);
        let last = definition(tail, open_definitions(body, depth).unwrap());
        lemma_with_prefix_first(Seq::empty(), body[0], with_prefix(body.skip(1), last));
        if let Some(d) = last {
            assert(seq![body[0]] + (body.skip(1) + d.body) =~= body + d.body);
        }
    }
}

/// A definition with a balanced body takes exactly that body.
pub proof fn law_definition_takes_body(body: Seq<InstrModel>, rest: Seq<InstrModel>)
    requires
        definitions_balanced(body),
    ensures
        definition(body + seq![InstrModel::EndWord] + rest, 1) == Some(Definition { body, rest }),
{
    let tail = seq![InstrModel::EndWord] + rest;
    lemma_definition_through(body, tail, 1);
    assert(tail.skip(1) =~= rest);
    assert(body + Seq::<InstrModel>::empty() =~= body);
    assert(body + seq![InstrModel::EndWord] + rest =~= body + tail);
}

/// Defining a word as a constant twice under one name fails at the second definition with
/// `ReassigningConstant`.
pub proof fn law_constant_word_defined_twice(
    s: RuntimeModel,
    name: Seq<char>,
    first: Seq<InstrModel>,
    second: Seq<InstrModel>,
    rest: Seq<InstrModel>,
)
    requires
        !bound_constant(s.words, name),
        definitions_balanced(first),
        definitions_balanced(second),
        s.pending == seq![InstrModel::MakeWord(name)] + first + seq![
            InstrModel::EndWord,
            InstrModel::MakeWord(name),
        ] + second + seq![InstrModel::EndWord] + rest,
    ensures
        step_model(s).outcome == Ok::<ActionModel, ErrorModel>(ActionModel::Continue),
        step_model(step_model(s).next).outcome == Err::<ActionModel, ErrorModel>(
            ErrorModel::ReassigningConstant(name),
        ),
        step_model(step_model(s).next).next.words == step_model(s).next.words,
{
    let after_first = seq![InstrModel::MakeWord(name)] + second + seq![InstrModel::EndWord] + rest;
    assert(s.pending.skip(1) =~= first + seq![InstrModel::EndWord] + after_first);
    law_definition_takes_body(first, after_first);
    law_bind_binds(s.words, name, first, true);
    let s1 = step_model(s).next;
    assert(s1.pending == after_first);
    assert(s1.pending.skip(1) =~= second + seq![InstrModel::EndWord] + rest);
    law_definition_takes_body(second, rest);
}

/// Defining a word as a variable and then defining it again, as a constant or as a variable,
/// goes well, and the name stands for the second body.
pub proof fn law_variable_word_defined_twice(
    s: RuntimeModel,
    name: Seq<char>,
    first: Seq<InstrModel>,
    second: Seq<InstrModel>,
    second_constant: bool,
    rest: Seq<InstrModel>,
)
    requires
        !bound_constant(s.words, name),
        definitions_balanced(first),
        definitions_balanced(second),
        s.pending == seq![InstrModel::MakeWordVar(name)] + first + seq![
            InstrModel::EndWord,
            if second_constant {
                InstrModel::MakeWord(name)
            } else {
                InstrModel::MakeWordVar(name)
            },
        ] + second + seq![InstrModel::EndWord] + rest,
    ensures
        step_model(s).outcome == Ok::<ActionModel, ErrorModel>(ActionModel::Continue),
        step_model(step_model(s).next).outcome == Ok::<ActionModel, ErrorModel>(
            ActionModel::Continue,
        ),
        ({
            let words = step_model(step_model(s).next).next.words;
            find_word(words, name) matches Some(i) && words[i] == (WordModel {
                name,
                body: second,
                is_constant: second_constant,
            })
        }),
        step_model(step_model(s).next).next.pending == rest,
{
    let opener = if second_constant {
        InstrModel::MakeWord(name)
    } else {
        InstrModel::MakeWordVar(name)
    };
    let after_first = seq![opener] + second + seq![InstrModel::EndWord] + rest;
    assert(s.pending.skip(1) =~= first + seq![InstrModel::EndWord] + after_first);
    law_definition_takes_body(first, after_first);
    law_bind_binds(s.words, name, first, false);
    let s1 = step_model(s).next;
    assert(s1.pending == after_first);
    assert(s1.pending.skip(1) =~= second + seq![InstrModel::EndWord] + rest);
    law_definition_takes_body(second, rest);
    law_bind_binds(s1.words, name, second, second_constant);
}

/// Invoking a word puts its body in front of what is pending: the body runs next, and what
/// was pending runs after it.
pub proof fn law_invoke_runs_body_next(s: RuntimeModel, name: Seq<char>, rest: Seq<InstrModel>)
    requires
        s.pending == seq![InstrModel::InvokeWord(name)] + rest,
        find_word(s.words, name) is Some,
    ensures
        step_model(s) == proceed(
            moved(s, s.stack, s.words[find_word(s.words, name).unwrap()].body + rest),
        ),
{
    assert(s.pending.skip(1) =~= rest);
}

/// Two words that invoke each other take turns: where the body of `a` starts by invoking `b`
/// and the body of `b` starts by invoking `a`, invoking `a` leads in two steps to the
/// invocation of `a` again, with the rests of both bodies pending behind it. Nothing keeps
/// count of the invocations; what is pending grows.
pub proof fn law_mutual_invocation(
    s: RuntimeModel,
    a: Seq<char>,
    b: Seq<char>,
    rest_of_a: Seq<InstrModel>,
    rest_of_b: Seq<InstrModel>,
    rest: Seq<InstrModel>,
)
    requires
        find_word(s.words, a) matches Some(i) && s.words[i].body == seq![InstrModel::InvokeWord(b)]
            + rest_of_a,
        find_word(s.words, b) matches Some(j) && s.words[j].body == seq![InstrModel::InvokeWord(a)]
            + rest_of_b,
        s.pending == seq![InstrModel::InvokeWord(a)] + rest,
    ensures
        step_model(s) == proceed(
            moved(s, s.stack, seq![InstrModel::InvokeWord(b)] + rest_of_a + rest),
        ),
        step_model(step_model(s).next) == proceed(
            moved(s, s.stack, seq![InstrModel::InvokeWord(a)] + rest_of_b + rest_of_a + rest),
        ),
{
    law_invoke_runs_body_next(s, a, rest);
    let s1 = step_model(s).next;
    assert(s1.pending =~= seq![InstrModel::InvokeWord(b)] + (rest_of_a + rest));
    law_invoke_runs_body_next(s1, b, rest_of_a + rest);
    assert(seq![InstrModel::InvokeWord(a)] + rest_of_b + (rest_of_a + rest) =~= seq![
        InstrModel::InvokeWord(a),
    ] + rest_of_b + rest_of_a + rest);
}

/// An instruction that finds fewer values on the stack than it needs fails with `Underflow`,
/// and but for the instruction, which is no longer pending, the state is as it was.
pub proof fn law_underflow_leaves_state(s: RuntimeModel)
    requires
        s.pending.len() > 0,
        s.stack.len() < operands(s.pending[0]),
    ensures
        step_model(s) == stop(moved(s, s.stack, s.pending.skip(1)), ErrorModel::Underflow),
{
}

/// `Add` on a stack of fewer than two values fails with `Underflow` and leaves the stack.
pub proof fn law_add_underflow(s: RuntimeModel)
    requires
        s.pending.len() > 0,
        s.pending[0] is Add,
        s.stack.len() < 2,
    ensures
        step_model(s).outcome == Err::<ActionModel, ErrorModel>(ErrorModel::Underflow),
        step_model(s).next.stack == s.stack,
{
    law_underflow_leaves_state(s);
}

} // verus!
