use valo_semantics::builtin_types::{collection, register_classes};
use valo_semantics::name_map::NameMap;
use valo_semantics::text::key;

#[test]
fn collection_is_registered_with_its_members() {
    let mut classes = NameMap::new();
    register_classes(&mut classes);

    let collection = classes.get(key("Collection").as_str()).expect("Collection is a built-in class");

    assert!(collection.subs.contains_key(key("Add").as_str()));
    assert!(collection.subs.contains_key(key("Remove").as_str()));
    assert!(collection.properties.contains_key(key("Count").as_str()));
    assert_eq!(collection.default_property.as_deref(), Some("Item"));
}

#[test]
fn add_accepts_a_value_alone_and_a_value_with_a_key_and_a_position() {
    let collection = collection();
    let add = collection.subs.get(key("Add").as_str()).unwrap().first().expect("Add is declared");

    assert_eq!(add.params.len(), 4);
    assert!(!add.params[0].is_optional, "the value is required");
    assert!(add.params[1..].iter().all(|param| param.is_optional), "the key and position are optional");
}

#[test]
fn collection_items_are_read_only_and_counted() {
    let collection = collection();
    let item = collection.properties.get(key("Item").as_str()).unwrap();
    assert!(item.is_readonly);
    assert_eq!(item.get.len(), 1);
    assert!(item.set.is_empty());
    assert_eq!(item.get[0].params.len(), 1);
    let count = collection.properties.get(key("Count").as_str()).unwrap();
    assert!(count.get[0].params.is_empty());
    assert!(matches!(count.get[0].return_type, Some(valo_semantics::type_model::TypeName::Int32)));
    let remove = collection.subs.get(key("Remove").as_str()).unwrap();
    assert_eq!(remove.len(), 1);
    assert_eq!(remove[0].params.len(), 1);
    assert!(!remove[0].params[0].is_optional);
}

#[test]
fn a_lookup_ignores_case() {
    let mut classes = NameMap::new();
    register_classes(&mut classes);
    assert!(classes.get(key("COLLECTION").as_str()).is_some());
    assert!(classes.get(key("collection").as_str()).is_some());
    assert!(classes.get(key("Collections").as_str()).is_none());
}
