use std::rc::Rc;

use persistent_list_map::IPersistentListMap;
use persistent_list_map::MapEntry;
use persistent_list_map::PersistentListMap;
use persistent_list_map::ToPersistentListMap;
use persistent_list_map::ToPersistentListMapIter;
use persistent_list_map::Value;

fn entry(key: Rc<Value>, val: Rc<Value>) -> MapEntry {
    MapEntry { key, val }
}

#[test]
fn test_persistent_list_map() {
    let _empty = PersistentListMap::Empty;
    let map1 = vec![
        entry(Value::symbol("a"), Value::integer(15)),
        entry(Value::symbol("b"), Value::string("stuff")),
    ]
    .into_list_map();
    println!("{}", map1.to_display_string());
    let map2 = map1.assoc(Value::symbol("c"), Value::integer(100));
    println!("{}", map1.to_display_string());
    println!("{}", map2.to_display_string());
    let map3 = map1.assoc(Value::symbol("a"), Value::integer(100));
    println!("{}", map1.to_display_string());
    println!("{}", map2.to_display_string());
    println!("{}", map3.to_display_string());
    let map4 = map2.assoc(Value::symbol("a"), Value::integer(100));
    println!("{}", map1.to_display_string());
    println!("{}", map2.to_display_string());
    println!("{}", map3.to_display_string());
    println!("{}", map4.to_display_string());
}

#[test]
fn empty_map_get_is_absent_for_every_key() {
    let empty = PersistentListMap::Empty;
    assert_eq!(*empty.get(&Value::symbol("a")), Value::Nil);
    assert_eq!(*empty.get(&Value::integer(0)), Value::Nil);
    assert_eq!(*empty.get(&Value::string("anything")), Value::Nil);
    assert_eq!(*empty.get(&Value::nil()), Value::Nil);
}

#[test]
fn assoc_is_non_destructive() {
    let m = vec![
        entry(Value::symbol("a"), Value::integer(1)),
        entry(Value::symbol("b"), Value::integer(2)),
    ]
    .into_list_map();
    let m2 = m.assoc(Value::symbol("a"), Value::integer(99));
    // the new map sees the new value ...
    assert_eq!(*m2.get(&Value::symbol("a")), Value::Int(99));
    // ... while every lookup on the old map is unchanged, the inserted key included
    assert_eq!(*m.get(&Value::symbol("a")), Value::Int(1));
    assert_eq!(*m.get(&Value::symbol("b")), Value::Int(2));
    assert_eq!(*m.get(&Value::symbol("c")), Value::Nil);
}

#[test]
fn shadowing_most_recent_wins() {
    let m = PersistentListMap::Empty;
    let m1 = m.assoc(Value::symbol("k"), Value::integer(1));
    let m2 = m1.assoc(Value::symbol("k"), Value::integer(2));
    assert_eq!(*m2.get(&Value::symbol("k")), Value::Int(2));
}

#[test]
fn assoc_shares_structure_with_the_parent() {
    let m1 = Rc::new(PersistentListMap::Empty)
        .assoc(Value::symbol("a"), Value::integer(1))
        .assoc(Value::symbol("b"), Value::integer(2));
    let m2 = m1.assoc(Value::symbol("c"), Value::integer(3));
    match &*m2 {
        PersistentListMap::Node(parent, _) => {
            // the same shared node, not a copy of it
            assert!(Rc::ptr_eq(parent, &m1));
        }
        PersistentListMap::Empty => panic!("assoc must produce a node"),
    }
}

#[test]
fn iteration_yields_each_key_once_with_its_visible_value() {
    let m = vec![
        entry(Value::symbol("a"), Value::integer(1)),
        entry(Value::symbol("b"), Value::integer(2)),
        entry(Value::symbol("a"), Value::integer(3)),
    ]
    .into_list_map();
    let yielded = m.to_vec();
    // each distinct key exactly once
    assert_eq!(yielded.len(), 2);
    for i in 0..yielded.len() {
        for j in 0..i {
            assert!(*yielded[i].key != *yielded[j].key);
        }
        // the value carried is what get returns for that key
        assert_eq!(*m.get(&yielded[i].key), *yielded[i].val);
    }
    // head-to-tail order: the most recent visible insertion first
    assert_eq!(*yielded[0].key, Value::Sym("a".to_string()));
    assert_eq!(*yielded[0].val, Value::Int(3));
    assert_eq!(*yielded[1].key, Value::Sym("b".to_string()));
    assert_eq!(*yielded[1].val, Value::Int(2));
}

#[test]
fn iterator_is_consumed_step_by_step() {
    let m = vec![entry(Value::symbol("a"), Value::integer(1))]
        .into_list_map()
        .assoc(Value::symbol("a"), Value::integer(2));
    let mut it = m.iter();
    let first = it.next().expect("one visible entry");
    assert_eq!(*first.key, Value::Sym("a".to_string()));
    assert_eq!(*first.val, Value::Int(2));
    // the shadowed duplicate is suppressed, so the iterator is exhausted
    assert!(it.next().is_none());
    assert!(it.next().is_none());
}

#[test]
fn builder_equals_repeated_assoc() {
    let built = vec![
        entry(Value::symbol("a"), Value::integer(1)),
        entry(Value::symbol("b"), Value::integer(2)),
        entry(Value::symbol("c"), Value::integer(3)),
    ]
    .into_list_map();
    let chained = PersistentListMap::Empty
        .assoc(Value::symbol("a"), Value::integer(1))
        .assoc(Value::symbol("b"), Value::integer(2))
        .assoc(Value::symbol("c"), Value::integer(3));
    // same get results for every key ...
    assert_eq!(
        *built.get(&Value::symbol("a")),
        *chained.get(&Value::symbol("a"))
    );
    assert_eq!(
        *built.get(&Value::symbol("b")),
        *chained.get(&Value::symbol("b"))
    );
    assert_eq!(
        *built.get(&Value::symbol("c")),
        *chained.get(&Value::symbol("c"))
    );
    assert_eq!(
        *built.get(&Value::symbol("d")),
        *chained.get(&Value::symbol("d"))
    );
    // ... and in fact the same chain, entry for entry
    assert_eq!(built, chained);
}

#[test]
fn concrete_scenario_builds_looks_up_and_stays_persistent() {
    let m1 = vec![
        entry(Value::symbol("a"), Value::integer(15)),
        entry(Value::symbol("b"), Value::string("stuff")),
    ]
    .into_list_map();
    assert_eq!(*m1.get(&Value::symbol("a")), Value::Int(15));
    assert_eq!(*m1.get(&Value::symbol("b")), Value::Str("stuff".to_string()));
    assert_eq!(*m1.get(&Value::symbol("c")), Value::Nil);

    let m2 = m1.assoc(Value::symbol("c"), Value::integer(100));
    assert_eq!(*m2.get(&Value::symbol("c")), Value::Int(100));
    assert_eq!(*m1.get(&Value::symbol("c")), Value::Nil);

    let m3 = m1.assoc(Value::symbol("a"), Value::integer(100));
    assert_eq!(*m3.get(&Value::symbol("a")), Value::Int(100));
    assert_eq!(*m3.get(&Value::symbol("b")), Value::Str("stuff".to_string()));
    assert_eq!(*m1.get(&Value::symbol("a")), Value::Int(15));
}

#[test]
fn structural_equality_is_stricter_than_logical_equality() {
    let x = vec![
        entry(Value::symbol("a"), Value::integer(1)),
        entry(Value::symbol("a"), Value::integer(2)),
    ]
    .into_list_map();
    let y = vec![entry(Value::symbol("a"), Value::integer(2))].into_list_map();
    // logically equal: same get result for the key and for absent keys
    assert_eq!(*x.get(&Value::symbol("a")), Value::Int(2));
    assert_eq!(*y.get(&Value::symbol("a")), Value::Int(2));
    assert_eq!(*x.get(&Value::symbol("z")), *y.get(&Value::symbol("z")));
    // structurally unequal: the shadowed duplicate still counts
    assert!(x != y);
}

#[test]
fn structural_equality_compares_whole_chains() {
    let a = vec![
        entry(Value::symbol("a"), Value::integer(1)),
        entry(Value::symbol("b"), Value::integer(2)),
    ]
    .into_list_map();
    let b = vec![
        entry(Value::symbol("a"), Value::integer(1)),
        entry(Value::symbol("b"), Value::integer(2)),
    ]
    .into_list_map();
    assert_eq!(a, b);
    assert_eq!(PersistentListMap::Empty, PersistentListMap::Empty);
    assert!(a != PersistentListMap::Empty);
}

#[test]
fn renders_entries_between_braces_in_iteration_order() {
    let empty = PersistentListMap::Empty;
    assert_eq!(empty.to_display_string(), "{}");

    let m1 = vec![
        entry(Value::symbol("a"), Value::integer(15)),
        entry(Value::symbol("b"), Value::string("stuff")),
    ]
    .into_list_map();
    assert_eq!(m1.to_display_string(), "{b \"stuff\", a 15}");

    let m2 = m1.assoc(Value::symbol("a"), Value::integer(100));
    assert_eq!(m2.to_display_string(), "{a 100, b \"stuff\"}");

    let single = PersistentListMap::Empty.assoc(Value::nil(), Value::nil());
    assert_eq!(single.to_display_string(), "{nil nil}");
}

#[test]
fn values_render_explicitly() {
    assert_eq!(Value::Nil.to_string_explicit(), "nil");
    assert_eq!(Value::Int(0).to_string_explicit(), "0");
    assert_eq!(Value::Int(15).to_string_explicit(), "15");
    assert_eq!(Value::Int(-42).to_string_explicit(), "-42");
    assert_eq!(Value::Int(i64::MIN).to_string_explicit(), "-9223372036854775808");
    assert_eq!(Value::Int(i64::MAX).to_string_explicit(), "9223372036854775807");
    assert_eq!(
        Value::Str("stuff".to_string()).to_string_explicit(),
        "\"stuff\""
    );
    assert_eq!(Value::Sym("abc".to_string()).to_string_explicit(), "abc");
}
