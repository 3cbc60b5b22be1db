use typemap::{CloneAny, DebugAny, PlainAny, TypeMap};

#[derive(Clone, Debug, PartialEq)]
struct Point {
    x: i32,
    y: i32,
}

#[derive(Debug, PartialEq)]
struct Name(String);

#[test]
fn a_new_map_is_empty() {
    let map: TypeMap = TypeMap::new();
    assert!(map.is_empty());
    assert_eq!(map.len(), 0);
    assert!(!map.contains::<i32>());
    assert_eq!(map.get::<i32>(), None);
    assert_eq!(map.get::<String>(), None);
}

#[test]
fn get_on_an_empty_map_misses() {
    let mut map: TypeMap<dyn PlainAny> = TypeMap::new();
    assert_eq!(map.get::<u8>(), None);
    assert!(map.get_mut::<u8>().is_none());
    assert_eq!(map.remove::<u8>(), None);
    assert!(map.is_empty());
}

#[test]
fn insert_then_get_gives_the_value() {
    let mut map: TypeMap<dyn PlainAny> = TypeMap::new();
    assert_eq!(map.insert(Point { x: 1, y: 2 }), None);
    assert_eq!(map.get::<Point>(), Some(&Point { x: 1, y: 2 }));
    assert!(map.contains::<Point>());
    assert_eq!(map.len(), 1);
    assert!(!map.is_empty());
}

#[test]
fn insert_twice_hands_back_the_first_and_keeps_the_second() {
    let mut map: TypeMap<dyn PlainAny> = TypeMap::new();
    assert_eq!(map.insert(Name(String::from("first"))), None);
    assert_eq!(
        map.insert(Name(String::from("second"))),
        Some(Name(String::from("first")))
    );
    assert_eq!(map.get::<Name>(), Some(&Name(String::from("second"))));
    assert_eq!(map.len(), 1);
}

#[test]
fn a_value_is_not_found_under_another_type() {
    let mut map: TypeMap<dyn PlainAny> = TypeMap::new();
    map.insert(42i32);
    assert_eq!(map.get::<u32>(), None);
    assert_eq!(map.get::<i64>(), None);
    assert_eq!(map.get::<isize>(), None);
    assert!(!map.contains::<u32>());
    assert_eq!(map.remove::<u32>(), None);
    assert_eq!(map.get::<i32>(), Some(&42));
}

#[test]
fn values_of_different_types_stand_side_by_side() {
    let mut map: TypeMap<dyn PlainAny> = TypeMap::new();
    map.insert(1u8);
    map.insert(2u16);
    map.insert(3u32);
    map.insert(String::from("four"));
    assert_eq!(map.len(), 4);
    assert_eq!(map.insert(20u16), Some(2));
    assert_eq!(map.len(), 4);
    assert_eq!(map.get::<u8>(), Some(&1));
    assert_eq!(map.get::<u16>(), Some(&20));
    assert_eq!(map.get::<u32>(), Some(&3));
    assert_eq!(map.get::<String>(), Some(&String::from("four")));
}

#[test]
fn get_after_remove_misses() {
    let mut map: TypeMap<dyn PlainAny> = TypeMap::new();
    map.insert(7u64);
    assert_eq!(map.remove::<u64>(), Some(7));
    assert_eq!(map.get::<u64>(), None);
    assert!(!map.contains::<u64>());
    assert_eq!(map.remove::<u64>(), None);
    assert!(map.is_empty());
}

#[test]
fn remove_takes_one_value_and_leaves_the_others() {
    let mut map: TypeMap<dyn PlainAny> = TypeMap::new();
    map.insert(1u8);
    map.insert(2u16);
    map.insert(3u32);
    assert_eq!(map.remove::<u8>(), Some(1));
    assert_eq!(map.len(), 2);
    assert_eq!(map.get::<u16>(), Some(&2));
    assert_eq!(map.get::<u32>(), Some(&3));
    assert_eq!(map.remove::<u32>(), Some(3));
    assert_eq!(map.get::<u16>(), Some(&2));
    assert_eq!(map.len(), 1);
}

#[test]
fn get_mut_writes_into_the_map() {
    let mut map: TypeMap<dyn PlainAny> = TypeMap::new();
    map.insert(Point { x: 1, y: 2 });
    map.insert(10i32);
    map.get_mut::<Point>().unwrap().x = 5;
    *map.get_mut::<i32>().unwrap() += 1;
    assert_eq!(map.get::<Point>(), Some(&Point { x: 5, y: 2 }));
    assert_eq!(map.get::<i32>(), Some(&11));
    assert_eq!(map.len(), 2);
}

#[test]
fn clear_takes_everything_out() {
    let mut map: TypeMap<dyn PlainAny> = TypeMap::new();
    map.insert(1u8);
    map.insert(String::from("two"));
    map.clear();
    assert!(map.is_empty());
    assert_eq!(map.get::<u8>(), None);
    assert_eq!(map.get::<String>(), None);
    assert_eq!(map.insert(3u8), None);
}

#[test]
fn an_integer_and_a_text_are_removed_and_replaced_apart() {
    let mut map: TypeMap<dyn PlainAny> = TypeMap::new();
    map.insert(42i32);
    map.insert(String::from("hello"));
    assert_eq!(map.remove::<i32>(), Some(42));
    assert_eq!(map.get::<String>(), Some(&String::from("hello")));

    let mut map: TypeMap<dyn PlainAny> = TypeMap::new();
    map.insert(42i32);
    map.insert(String::from("hello"));
    assert_eq!(map.insert(7i32), Some(42));
    assert_eq!(map.get::<i32>(), Some(&7));
    assert_eq!(map.get::<String>(), Some(&String::from("hello")));
}

#[test]
fn a_duplicate_keeps_its_value_when_the_source_loses_it() {
    let mut source: TypeMap<dyn CloneAny> = TypeMap::custom();
    source.insert(String::from("kept"));
    let copy = source.duplicate();
    assert_eq!(source.remove::<String>(), Some(String::from("kept")));
    assert_eq!(source.get::<String>(), None);
    assert_eq!(copy.get::<String>(), Some(&String::from("kept")));
}

#[test]
fn a_duplicate_has_an_equal_value_for_each_type() {
    let mut source: TypeMap<dyn CloneAny> = TypeMap::custom();
    source.insert(Point { x: 3, y: 4 });
    source.insert(vec![1u8, 2]);
    source.insert(9i64);
    let copy = source.clone();
    assert_eq!(copy.len(), 3);
    assert_eq!(copy.get::<Point>(), source.get::<Point>());
    assert_eq!(copy.get::<Vec<u8>>(), Some(&vec![1u8, 2]));
    assert_eq!(copy.get::<i64>(), Some(&9));
    assert_eq!(copy.get::<i32>(), None);
}

#[test]
fn a_duplicate_and_its_source_change_apart() {
    let mut source: TypeMap<dyn CloneAny> = TypeMap::custom();
    source.insert(vec![1i32]);
    source.insert(1u8);
    let mut copy = source.duplicate();
    source.get_mut::<Vec<i32>>().unwrap().push(2);
    copy.get_mut::<Vec<i32>>().unwrap().push(3);
    copy.insert(5u8);
    source.insert(String::from("late"));
    assert_eq!(source.get::<Vec<i32>>(), Some(&vec![1, 2]));
    assert_eq!(copy.get::<Vec<i32>>(), Some(&vec![1, 3]));
    assert_eq!(source.get::<u8>(), Some(&1));
    assert_eq!(copy.get::<u8>(), Some(&5));
    assert_eq!(copy.get::<String>(), None);
}

#[test]
fn a_duplicate_of_an_empty_map_is_empty() {
    let source: TypeMap<dyn CloneAny> = TypeMap::custom();
    let copy = source.duplicate();
    assert!(copy.is_empty());
}

#[test]
fn a_map_of_printable_values_prints_each() {
    let mut map: TypeMap<dyn DebugAny> = TypeMap::custom();
    map.insert(42i32);
    map.insert(String::from("hello"));
    map.insert(Point { x: 1, y: 2 });
    let mut lines = map.debug();
    lines.sort();
    assert_eq!(
        lines,
        vec![
            String::from("\"hello\""),
            String::from("42"),
            String::from("Point { x: 1, y: 2 }"),
        ]
    );
    assert_eq!(map.get::<i32>(), Some(&42));
}

#[test]
fn a_map_of_printable_values_is_a_map() {
    let mut map: TypeMap<dyn DebugAny> = TypeMap::custom();
    assert_eq!(map.insert(1.5f64), None);
    assert_eq!(map.insert(2.5f64), Some(1.5));
    assert_eq!(map.remove::<f64>(), Some(2.5));
    assert!(map.debug().is_empty());
}
