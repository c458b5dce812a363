//! The values that the machine works on.

use vstd::prelude::*;
use vstd::std_specs::cmp::PartialEqSpecImpl;

verus! {

/// One entry of a table: a key and the value bound to it.
#[derive(Debug)]
pub struct TablePair {
    pub key: ForestValue,
    pub value: ForestValue,
}

/// A runtime value: nothing, a signed 64-bit integer, a piece of text, or a table.
///
/// A table is a sequence of entries in insertion order.
#[derive(Debug)]
pub enum ForestValue {
    Nil,
    Int(i64),
    String(String),
    Table(Vec<TablePair>),
}

/// The mathematical value that a [`ForestValue`] stands for.
#[verifier::ext_equal]
pub enum ValueModel {
    Nil,
    Int(i64),
    Str(Seq<char>),
    Table(Seq<(ValueModel, ValueModel)>),
}

impl View for TablePair {
    type V = (ValueModel, ValueModel);

    open spec fn view(&self) -> (ValueModel, ValueModel)
        decreases self,
    {
        (self.key.view(), self.value.view())
    }
}

impl View for ForestValue {
    type V = ValueModel;

    open spec fn view(&self) -> ValueModel
        decreases self,
    {
        match self {
            ForestValue::Nil => ValueModel::Nil,
            ForestValue::Int(i) => ValueModel::Int(*i),
            ForestValue::String(s) => ValueModel::Str(s@),
            ForestValue::Table(t) => ValueModel::Table(
                Seq::new(
                    t.len() as nat,
                    |i: int|
                        if 0 <= i < t.len() {
                            t[i].view()
                        } else {
                            (ValueModel::Nil, ValueModel::Nil)
                        },
                ),
            ),
        }
    }
}

/// The entries of a table, each taken by its view.
pub open spec fn pairs_view(t: Seq<TablePair>) -> Seq<(ValueModel, ValueModel)> {
    Seq::new(t.len(), |i: int| t[i]@)
}

/// The values of a stack or list, each taken by its view.
pub open spec fn values_view(s: Seq<ForestValue>) -> Seq<ValueModel> {
    Seq::new(s.len(), |i: int| s[i]@)
}

/// The view of a table is the table of its entries' views.
pub proof fn lemma_table_view(t: Vec<TablePair>)
    ensures
        ForestValue::Table(t)@ == ValueModel::Table(pairs_view(t@)),
{
    reveal_with_fuel(<ForestValue as View>::view, 2);
    assert(ForestValue::Table(t)@->Table_0 =~= pairs_view(t@));
}

/// Copies a value with everything inside it.
pub fn clone_value(v: &ForestValue) -> (res: ForestValue)
    ensures
        res@ == v@,
    decreases v,
{
    match v {
        ForestValue::Nil => ForestValue::Nil,
        ForestValue::Int(i) => ForestValue::Int(*i),
        ForestValue::String(s) => ForestValue::String(s.clone()),
        ForestValue::Table(t) => {
            let mut out: Vec<TablePair> = Vec::new();
            let mut i: usize = 0;
            while i < t.len()
                invariant
                    i <= t.len(),
                    out.len() == i,
                    forall|j: int| 0 <= j < i ==> out[j]@ == t[j]@,
                    v is Table,
                    v->Table_0 == *t,
                decreases t.len() - i,
            {
                let p = &t[i];
                let key = clone_value(&p.key);
                let value = clone_value(&p.value);
                out.push(TablePair { key, value });
                i += 1;
            }
            proof {
                lemma_table_view(out);
                lemma_table_view(*t);
                assert(pairs_view(out@) =~= pairs_view(t@));
            }
            ForestValue::Table(out)
        },
    }
}

/// Structural equality of two values; the entries of two tables are compared in order.
pub fn values_equal(a: &ForestValue, b: &ForestValue) -> (res: bool)
    ensures
        res == (a@ == b@),
    decreases a,
{
    match (a, b) {
        (ForestValue::Nil, ForestValue::Nil) => true,
        (ForestValue::Int(x), ForestValue::Int(y)) => *x == *y,
        (ForestValue::String(x), ForestValue::String(y)) => *x == *y,
        (ForestValue::Table(s), ForestValue::Table(t)) => {
            proof {
                lemma_table_view(*s);
                lemma_table_view(*t);
            }
            if s.len() != t.len() {
                assert(pairs_view(s@).len() != pairs_view(t@).len());
                return false;
            }
            let mut i: usize = 0;
            while i < s.len()
                invariant
                    i <= s.len(),
                    s.len() == t.len(),
                    forall|j: int| 0 <= j < i ==> s[j]@ == t[j]@,
                    a is Table,
                    a->Table_0 == *s,
                    a@ == ValueModel::Table(pairs_view(s@)),
                    b@ == ValueModel::Table(pairs_view(t@)),
                decreases s.len() - i,
            {
                let p = &s[i];
                let q = &t[i];
                let same_key = values_equal(&p.key, &q.key);
                let same_value = values_equal(&p.value, &q.value);
                if !same_key || !same_value {
                    assert(pairs_view(s@)[i as int] != pairs_view(t@)[i as int]);
                    return false;
                }
                i += 1;
            }
            assert(pairs_view(s@) =~= pairs_view(t@));
            true
        },
        _ => false,
    }
}

impl Clone for TablePair {
    fn clone(&self) -> (res: Self)
        ensures
            res@ == self@,
    {
        TablePair { key: clone_value(&self.key), value: clone_value(&self.value) }
    }
}

impl Clone for ForestValue {
    fn clone(&self) -> (res: Self)
        ensures
            res@ == self@,
    {
        clone_value(self)
    }
}

impl PartialEq for ForestValue {
    fn eq(&self, other: &Self) -> (res: bool) {
        values_equal(self, other)
    }
}

impl PartialEqSpecImpl for ForestValue {
    open spec fn obeys_eq_spec() -> bool {
        true
    }

    open spec fn eq_spec(&self, other: &Self) -> bool {
        self@ == other@
    }
}

impl PartialEq for TablePair {
    fn eq(&self, other: &Self) -> (res: bool) {
        values_equal(&self.key, &other.key) && values_equal(&self.value, &other.value)
    }
}

impl PartialEqSpecImpl for TablePair {
    open spec fn obeys_eq_spec() -> bool {
        true
    }

    open spec fn eq_spec(&self, other: &Self) -> bool {
        self@ == other@
    }
}

impl ForestValue {
    /// Whether this is `Nil`, the only value that counts as false.
    pub fn is_nil(&self) -> (res: bool)
        ensures
            res == (self@ is Nil),
    {
        match self {
            ForestValue::Nil => true,
            _ => false,
        }
    }
}

} // verus!
