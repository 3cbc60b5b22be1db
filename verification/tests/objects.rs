use typemap::internals::{CloneAny, DebugAny, Implements, Object, PlainAny};

#[test]
fn an_object_gives_its_value_back_by_reference() {
    let object: Object<dyn PlainAny> = 42i32.into_object();
    assert_eq!(object.get::<i32>(), Some(&42));
}

#[test]
fn an_object_gives_nothing_for_another_type() {
    let object: Object<dyn PlainAny> = 42i32.into_object();
    assert_eq!(object.get::<u32>(), None);
    assert_eq!(object.get::<i64>(), None);
    assert_eq!(object.get::<String>(), None);
}

#[test]
fn an_object_is_written_through_get_mut() {
    let mut object: Object<dyn PlainAny> = String::from("hello").into_object();
    object.get_mut::<String>().unwrap().push_str(", world");
    assert_eq!(object.get::<String>(), Some(&String::from("hello, world")));
    assert!(object.get_mut::<i32>().is_none());
    assert_eq!(object.get::<String>(), Some(&String::from("hello, world")));
}

#[test]
fn an_object_gives_its_value_back_whole() {
    let object: Object<dyn PlainAny> = vec![1u8, 2, 3].into_object();
    assert_eq!(object.into_value::<Vec<u8>>(), Some(vec![1u8, 2, 3]));
}

#[test]
fn an_object_of_another_type_gives_no_value() {
    let object: Object<dyn PlainAny> = vec![1u8, 2, 3].into_object();
    assert_eq!(object.into_value::<Vec<u16>>(), None);
}

#[test]
fn an_object_prints_its_value() {
    let number: Object<dyn DebugAny> = 42i32.into_object();
    assert_eq!(number.debug(), "42");
    let text: Object<dyn DebugAny> = String::from("hello").into_object();
    assert_eq!(text.debug(), "\"hello\"");
    let pair: Object<dyn DebugAny> = (1u8, false).into_object();
    assert_eq!(pair.debug(), "(1, false)");
}

#[test]
fn a_duplicate_holds_an_equal_value_of_its_own() {
    let mut source: Object<dyn CloneAny> = vec![1i32, 2].into_object();
    let copy = source.clone();
    source.get_mut::<Vec<i32>>().unwrap().push(3);
    assert_eq!(source.get::<Vec<i32>>(), Some(&vec![1, 2, 3]));
    assert_eq!(copy.get::<Vec<i32>>(), Some(&vec![1, 2]));
    assert!(copy.key().same(source.key()));
}
