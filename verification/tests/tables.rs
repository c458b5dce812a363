use forest::table::{table_associate, table_get, table_keys, table_values};
use forest::value::{values_equal, ForestValue, TablePair};

fn num(i: i64) -> ForestValue {
    ForestValue::Int(i)
}

fn text(s: &str) -> ForestValue {
    ForestValue::String(s.to_string())
}

fn pair(key: ForestValue, value: ForestValue) -> TablePair {
    TablePair { key, value }
}

#[test]
fn a_key_is_found_with_its_value() {
    let t = vec![pair(text("a"), num(1)), pair(num(2), text("two"))];
    assert_eq!(table_get(&t, &text("a")), num(1));
    assert_eq!(table_get(&t, &num(2)), text("two"));
    assert_eq!(table_get(&t, &text("2")), ForestValue::Nil);
    assert_eq!(table_get(&vec![], &text("a")), ForestValue::Nil);
}

#[test]
fn the_first_of_two_equal_keys_is_found() {
    let t = vec![pair(num(1), num(10)), pair(num(1), num(20))];
    assert_eq!(table_get(&t, &num(1)), num(10));
}

#[test]
fn the_last_of_two_equal_keys_is_rebound() {
    let t = vec![pair(num(1), num(10)), pair(num(1), num(20))];
    let bound = table_associate(t, num(1), num(30));
    assert_eq!(bound, vec![pair(num(1), num(10)), pair(num(1), num(30))]);
    assert_eq!(table_get(&bound, &num(1)), num(10));
}

#[test]
fn binding_and_looking_up_round_trip() {
    let mut t: Vec<TablePair> = Vec::new();
    for i in 0..10 {
        t = table_associate(t, num(i), num(i * i));
    }
    for i in 0..10 {
        t = table_associate(t, num(i), num(i + 100));
        assert_eq!(table_get(&t, &num(i)), num(i + 100));
        assert_eq!(t.len(), 10);
        assert_eq!(t[i as usize].key, num(i));
    }
}

#[test]
fn binding_keeps_the_other_entries() {
    let t = vec![pair(text("a"), num(1)), pair(text("b"), num(2))];
    let bound = table_associate(t, text("a"), num(9));
    assert_eq!(bound, vec![pair(text("a"), num(9)), pair(text("b"), num(2))]);
    let grown = table_associate(bound, text("c"), num(3));
    assert_eq!(grown, vec![pair(text("a"), num(9)), pair(text("b"), num(2)), pair(text("c"), num(3))]);
}

#[test]
fn keys_and_values_keep_the_order() {
    let t = vec![pair(text("z"), num(26)), pair(text("a"), num(1)), pair(text("m"), num(13))];
    assert_eq!(table_keys(&t), vec![pair(num(0), text("z")), pair(num(1), text("a")), pair(num(2), text("m"))]);
    assert_eq!(table_values(&t), vec![pair(num(0), num(26)), pair(num(1), num(1)), pair(num(2), num(13))]);
}

#[test]
fn tables_with_the_same_entries_in_another_order_are_unequal() {
    let ab = ForestValue::Table(table_associate(table_associate(vec![], text("a"), num(1)), text("b"), num(2)));
    let ba = ForestValue::Table(table_associate(table_associate(vec![], text("b"), num(2)), text("a"), num(1)));
    assert!(!values_equal(&ab, &ba));
    assert!(values_equal(&ab, &ab.clone()));
    assert_ne!(ab, ba);
}

#[test]
fn table_equality_goes_into_nested_tables() {
    let inner1 = ForestValue::Table(vec![pair(num(1), num(2))]);
    let inner2 = ForestValue::Table(vec![pair(num(1), num(3))]);
    let a = ForestValue::Table(vec![pair(text("k"), inner1.clone())]);
    let b = ForestValue::Table(vec![pair(text("k"), inner2)]);
    let c = ForestValue::Table(vec![pair(text("k"), inner1)]);
    assert_ne!(a, b);
    assert_eq!(a, c);
}
