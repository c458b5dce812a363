//! The structural display of values.

use crate::text::{debug_quoted, decimal, push_decimal, quoted};
use crate::value::{lemma_table_view, pairs_view, ForestValue, ValueModel};
use vstd::prelude::*;
use vstd::string::StringExecFns;

verus! {

/// The structural display of a value: `nil`, a number in decimal, a string between quotes with
/// its contents escaped, and a table as its entries between braces.
pub open spec fn value_text(v: ValueModel) -> Seq<char>
    decreases v, 0nat,
{
    match v {
        ValueModel::Nil => "nil"@,
        ValueModel::Int(i) => decimal(i as int),
        ValueModel::Str(s) => debug_quoted(s),
        ValueModel::Table(t) => seq!['{'] + entries_text(t, t.len()) + seq!['}'],
    }
}

/// The display of the first `n` entries of a table: each key, a space and its value, with one
/// space between two entries.
pub open spec fn entries_text(t: Seq<(ValueModel, ValueModel)>, n: nat) -> Seq<char>
    decreases t, n,
{
    if n == 0 || n > t.len() {
        Seq::empty()
    } else {
        let entry = value_text(t[n - 1].0) + seq![' '] + value_text(t[n - 1].1);
        if n == 1 {
            entry
        } else {
            entries_text(t, (n - 1) as nat) + seq![' '] + entry
        }
    }
}

/// Appends the structural display of `v` to `out`.
pub fn push_value(out: &mut String, v: &ForestValue)
    ensures
        final(out)@ == old(out)@ + value_text(v@),
    decreases v,
{
    match v {
        ForestValue::Nil => {
            out.append("nil");
        },
        ForestValue::Int(i) => {
            push_decimal(out, *i);
        },
        ForestValue::String(s) => {
            let q = quoted(s);
            out.append(q.as_str());
        },
        ForestValue::Table(t) => {
            proof {
                lemma_table_view(*t);
            }
            out.push('{');
            let mut i: usize = 0;
            while i < t.len()
                invariant
                    i <= t.len(),
                    v is Table,
                    v->Table_0 == *t,
                    out@ == old(out)@ + seq!['{'] + entries_text(pairs_view(t@), i as nat),
                decreases t.len() - i,
            {
                let p = &t[i];
                if i > 0 {
                    out.push(' ');
                }
                push_value(out, &p.key);
                out.push(' ');
                push_value(out, &p.value);
                i += 1;
            }
            out.push('}');
        },
    }
}

impl ForestValue {
    /// The structural display of this value.
    pub fn to_text(&self) -> (s: String)
        ensures
            s@ == value_text(self@),
    {
        let mut s = String::new();
        push_value(&mut s, self);
        s
    }
}

} // verus!
