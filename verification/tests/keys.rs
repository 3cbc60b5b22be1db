use typemap::internals::{Implements, Object, PlainAny};
use typemap::key::TypeKey;

#[test]
fn one_type_has_one_key() {
    assert!(TypeKey::of::<u32>().same(&TypeKey::of::<u32>()));
    assert!(TypeKey::of::<String>().same(&TypeKey::of::<String>()));
}

#[test]
fn two_types_have_two_keys() {
    assert!(!TypeKey::of::<u32>().same(&TypeKey::of::<i32>()));
    assert!(!TypeKey::of::<String>().same(&TypeKey::of::<&'static str>()));
    assert!(!TypeKey::of::<Vec<u8>>().same(&TypeKey::of::<Vec<u16>>()));
}

#[test]
fn an_object_carries_the_key_of_its_type() {
    let object: Object<dyn PlainAny> = 5u8.into_object();
    assert!(object.key().same(&TypeKey::of::<u8>()));
    assert!(!object.key().same(&TypeKey::of::<u16>()));
}
