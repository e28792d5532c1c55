use ship_core::id_types::{DatabaseId, Module, ModuleKind, Resource, ResourceKind, Ship, User};

fn id(seed: &str) -> DatabaseId {
    DatabaseId::from_string(seed).unwrap()
}

#[test]
fn from_string_accepts_valid_seeds() {
    assert!(DatabaseId::from_string("a").is_ok());
    assert!(DatabaseId::from_string("abcXYZ0189").is_ok());
    assert!(DatabaseId::from_string("abcdefghij0123456789").is_ok());
}

#[test]
fn from_string_rejects_overlong_seed() {
    assert!(DatabaseId::from_string("abcdefghij01234567890").is_err());
    assert!(DatabaseId::from_string("aaaaaaaaaaaaaaaaaaaaaaaaaaaaaa").is_err());
}

#[test]
fn from_string_rejects_non_alphanumeric_bytes() {
    assert!(DatabaseId::from_string("abc-def").is_err());
    assert!(DatabaseId::from_string("abc def").is_err());
    assert!(DatabaseId::from_string("abc\u{e9}").is_err());
    assert!(DatabaseId::from_string("_").is_err());
}

#[test]
fn construction_round_trips_to_fixed_width() {
    // The same seed always lands on the same fixed-width value, and two
    // different seeds never collide, shorter prefixes included.
    assert_eq!(id("sensor01"), id("sensor01"));
    assert_ne!(id("sensor01"), id("sensor02"));
    assert_ne!(id("sensor"), id("sensor0"));
    assert_ne!(id("a"), id("A"));
}

#[test]
fn identifier_kinds_are_tagged() {
    let base = id("payload0");
    assert_eq!(Resource::Metal(base).kind(), ResourceKind::Metal);
    assert_eq!(Resource::Crystal(base).kind(), ResourceKind::Crystal);
    assert_eq!(Resource::Radioactive(base).kind(), ResourceKind::Radioactive);
    assert_eq!(Resource::Organic(base).kind(), ResourceKind::Organic);
    assert_eq!(Module::Sensor(base).kind(), ModuleKind::Sensor);
    assert_eq!(Module::Scanner(base).kind(), ModuleKind::Scanner);
    assert_eq!(Module::Sampler(base).kind(), ModuleKind::Sampler);
    // Identifiers of different kinds never compare equal even over the same
    // payload bytes.
    assert_ne!(Resource::Metal(base), Resource::Crystal(base));
    assert_ne!(Module::Sensor(base), Module::Sampler(base));
}

#[test]
fn wrapped_identifier_types_compare_by_payload() {
    let ship = Ship::Starter(id("ship0001"));
    let other = Ship::Starter(id("ship0002"));
    assert_eq!(ship, Ship::Starter(id("ship0001")));
    assert_ne!(ship, other);
    assert_eq!(User::new(id("user0001")), User::new(id("user0001")));
    assert_ne!(User::new(id("user0001")), User::new(id("user0002")));
}
