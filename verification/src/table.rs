//! Tables: looking a key up, binding a key, and numbering keys and values.

use crate::value::{clone_value, pairs_view, values_equal, ForestValue, TablePair, ValueModel};
use vstd::prelude::*;

verus! {

/// The entries of a table, as the model sees them: pairs of key and value in insertion order.
pub type Entries = Seq<(ValueModel, ValueModel)>;

/// The position of the first entry whose key is `k`, if there is one.
pub open spec fn first_index(t: Entries, k: ValueModel) -> Option<int>
    decreases t.len(),
{
    if t.len() == 0 {
        None
    } else {
        match first_index(t.drop_last(), k) {
            Some(i) => Some(i),
            None => if t.last().0 == k {
                Some(t.len() - 1)
            } else {
                None
            },
        }
    }
}

/// The position of the last entry whose key is `k`, if there is one.
pub open spec fn last_index(t: Entries, k: ValueModel) -> Option<int>
    decreases t.len(),
{
    if t.len() == 0 {
        None
    } else if t.last().0 == k {
        Some(t.len() - 1)
    } else {
        last_index(t.drop_last(), k)
    }
}

/// What a table yields for a key: the value of the first entry with that key, and `Nil` where
/// no entry has it.
pub open spec fn lookup(t: Entries, k: ValueModel) -> ValueModel {
    match first_index(t, k) {
        Some(i) => t[i].1,
        None => ValueModel::Nil,
    }
}

/// The table after binding `k` to `v`: where an entry has the key, the last such entry keeps
/// its place and gets the new value; otherwise a new entry is added at the end.
pub open spec fn associate(t: Entries, k: ValueModel, v: ValueModel) -> Entries {
    match last_index(t, k) {
        Some(i) => t.update(i, (t[i].0, v)),
        None => t.push((k, v)),
    }
}

/// The table that numbers the keys of `t` from 0, in order.
pub open spec fn keys_of(t: Entries) -> Entries {
    Seq::new(t.len(), |i: int| (ValueModel::Int(i as i64), t[i].0))
}

/// The table that numbers the values of `t` from 0, in order.
pub open spec fn values_of(t: Entries) -> Entries {
    Seq::new(t.len(), |i: int| (ValueModel::Int(i as i64), t[i].1))
}

/// `first_index` finds an entry with the key, and none before it has the key; it finds none
/// only where no entry has the key.
pub proof fn lemma_first_index(t: Entries, k: ValueModel)
    ensures
        match first_index(t, k) {
            Some(i) => 0 <= i < t.len() && t[i].0 == k && forall|j: int|
                0 <= j < i ==> (#[trigger] t[j]).0 != k,
            None => forall|j: int| 0 <= j < t.len() ==> (#[trigger] t[j]).0 != k,
        },
    decreases t.len(),
{
    if t.len() > 0 {
        lemma_first_index(t.drop_last(), k);
        assert(forall|j: int| 0 <= j < t.len() - 1 ==> t.drop_last()[j] == t[j]);
    }
}

/// `last_index` finds an entry with the key, and none after it has the key; it finds none
/// only where no entry has the key.
pub proof fn lemma_last_index(t: Entries, k: ValueModel)
    ensures
        match last_index(t, k) {
            Some(i) => 0 <= i < t.len() && t[i].0 == k && forall|j: int|
                i < j < t.len() ==> (#[trigger] t[j]).0 != k,
            None => forall|j: int| 0 <= j < t.len() ==> (#[trigger] t[j]).0 != k,
        },
    decreases t.len(),
{
    if t.len() > 0 {
        lemma_last_index(t.drop_last(), k);
        assert(forall|j: int| 0 <= j < t.len() - 1 ==> t.drop_last()[j] == t[j]);
    }
}

/// Looks a key up in a table.
pub fn table_get(t: &Vec<TablePair>, key: &ForestValue) -> (r: ForestValue)
    ensures
        r@ == lookup(pairs_view(t@), key@),
{
    let mut i: usize = 0;
    while i < t.len()
        invariant
            i <= t.len(),
            first_index(pairs_view(t@).take(i as int), key@) is None,
        decreases t.len() - i,
    {
        let ghost before = pairs_view(t@).take(i as int);
        let ghost upto = pairs_view(t@).take(i + 1);
        assert(upto.drop_last() =~= before);
        if values_equal(&t[i].key, key) {
            proof {
                lemma_first_index_extends(pairs_view(t@), key@, i + 1);
            }
            return clone_value(&t[i].value);
        }
        i += 1;
    }
    assert(pairs_view(t@).take(t.len() as int) =~= pairs_view(t@));
    ForestValue::Nil
}

/// Once a prefix of a table holds the key, the first entry with it is the same in the whole
/// table.
pub proof fn lemma_first_index_extends(t: Entries, k: ValueModel, n: int)
    requires
        0 <= n <= t.len(),
        first_index(t.take(n), k) is Some,
    ensures
        first_index(t, k) == first_index(t.take(n), k),
    decreases t.len() - n,
{
    if n == t.len() {
        assert(t.take(n) =~= t);
    } else {
        assert(t.take(n + 1).drop_last() =~= t.take(n));
        lemma_first_index_extends(t, k, n + 1);
    }
}

/// Binds a key to a value in a table.
pub fn table_associate(t: Vec<TablePair>, key: ForestValue, value: ForestValue) -> (r: Vec<
    TablePair,
>)
    ensures
        pairs_view(r@) == associate(pairs_view(t@), key@, value@),
{
    let mut t = t;
    let ghost before = pairs_view(t@);
    let mut found: Option<usize> = None;
    let mut i: usize = 0;
    while i < t.len()
        invariant
            i <= t.len(),
            match found {
                Some(at) => last_index(pairs_view(t@).take(i as int), key@) == Some(at as int),
                None => last_index(pairs_view(t@).take(i as int), key@) is None,
            },
        decreases t.len() - i,
    {
        assert(pairs_view(t@).take(i + 1).drop_last() =~= pairs_view(t@).take(i as int));
        if values_equal(&t[i].key, &key) {
            found = Some(i);
        }
        i += 1;
    }
    assert(pairs_view(t@).take(t.len() as int) =~= pairs_view(t@));
    match found {
        Some(at) => {
            proof {
                lemma_last_index(before, key@);
            }
            let entry = TablePair { key: clone_value(&t[at].key), value };
            t.set(at, entry);
        },
        None => {
            t.push(TablePair { key, value });
        },
    }
    t
}

/// The table that numbers the keys of `t` from 0.
pub fn table_keys(t: &Vec<TablePair>) -> (r: Vec<TablePair>)
    ensures
        pairs_view(r@) == keys_of(pairs_view(t@)),
{
    let mut out: Vec<TablePair> = Vec::new();
    let mut i: usize = 0;
    while i < t.len()
        invariant
            i <= t.len(),
            out.len() == i,
            forall|j: int| 0 <= j < i ==> (#[trigger] out[j])@ == keys_of(pairs_view(t@))[j],
        decreases t.len() - i,
    {
        let number: i64 = #[verifier::truncate] (i as i64);
        out.push(TablePair { key: ForestValue::Int(number), value: clone_value(&t[i].key) });
        i += 1;
    }
    out
}

/// The table that numbers the values of `t` from 0.
pub fn table_values(t: &Vec<TablePair>) -> (r: Vec<TablePair>)
    ensures
        pairs_view(r@) == values_of(pairs_view(t@)),
{
    let mut out: Vec<TablePair> = Vec::new();
    let mut i: usize = 0;
    while i < t.len()
        invariant
            i <= t.len(),
            out.len() == i,
            forall|j: int| 0 <= j < i ==> (#[trigger] out[j])@ == values_of(pairs_view(t@))[j],
        decreases t.len() - i,
    {
        let number: i64 = #[verifier::truncate] (i as i64);
        out.push(TablePair { key: ForestValue::Int(number), value: clone_value(&t[i].value) });
        i += 1;
    }
    out
}

} // verus!
