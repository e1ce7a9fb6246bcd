use std::collections::hash_map::DefaultHasher;
use std::hash::{Hash, Hasher};

use dioxus_template::location::{
    CodeLocation, OwnedCodeLocation, StaticCodeLocation, TemplateId,
};

const FIXED: StaticCodeLocation =
    StaticCodeLocation { crate_path: "crates/ui", file_path: "src/app.rs", line: 12, column: 5 };

fn owned() -> OwnedCodeLocation {
    OwnedCodeLocation {
        crate_path: "crates/ui".to_string(),
        file_path: "src/app.rs".to_string(),
        line: 12,
        column: 5,
    }
}

fn fixed_location() -> CodeLocation {
    CodeLocation::Static(&FIXED)
}

fn owned_location() -> CodeLocation {
    CodeLocation::Dynamic(Box::new(owned()))
}

fn hash_of<T: Hash>(value: &T) -> u64 {
    let mut hasher = DefaultHasher::new();
    value.hash(&mut hasher);
    hasher.finish()
}

#[test]
fn a_location_gives_its_parts() {
    for location in [fixed_location(), owned_location()] {
        assert_eq!(location.crate_path(), "crates/ui");
        assert_eq!(location.file_path(), "src/app.rs");
        assert_eq!(location.line(), 12);
        assert_eq!(location.column(), 5);
        assert_eq!(location.hash_parts(), ("crates/ui", "src/app.rs", 12, 5));
    }
}

#[test]
fn equality_ignores_the_storage() {
    assert_eq!(fixed_location(), owned_location());
    assert_eq!(owned_location(), fixed_location());
    assert_eq!(fixed_location(), fixed_location());
    assert_eq!(owned_location(), owned_location());
    assert!(owned() == FIXED);
}

#[test]
fn equality_compares_every_part() {
    let mut other = owned();
    other.crate_path = "crates/app".to_string();
    assert!(fixed_location() != CodeLocation::Dynamic(Box::new(other)));
    let mut other = owned();
    other.file_path = "src/lib.rs".to_string();
    assert!(CodeLocation::Dynamic(Box::new(other)) != fixed_location());
    let mut other = owned();
    other.line = 13;
    assert!(owned_location() != CodeLocation::Dynamic(Box::new(other.clone())));
    assert!(other != FIXED);
    let mut other = owned();
    other.column = 6;
    assert!(other != owned());
    let moved = StaticCodeLocation { column: 6, ..FIXED };
    assert!(moved != FIXED);
}

#[test]
fn equal_locations_hash_alike() {
    assert_eq!(hash_of(&fixed_location()), hash_of(&owned_location()));
    assert_eq!(hash_of(&TemplateId(fixed_location())), hash_of(&TemplateId(owned_location())));
    let mut other = owned();
    other.line = 13;
    assert!(hash_of(&fixed_location()) != hash_of(&CodeLocation::Dynamic(Box::new(other))));
}

#[test]
fn hashing_feeds_the_parts_in_order() {
    let mut hasher = DefaultHasher::new();
    "crates/ui".hash(&mut hasher);
    "src/app.rs".hash(&mut hasher);
    hasher.write_u32(12);
    hasher.write_u32(5);
    assert_eq!(hash_of(&fixed_location()), hasher.finish());
    assert_eq!(hash_of(&owned_location()), hasher.finish());
}

#[test]
fn owning_a_location_keeps_it() {
    assert_eq!(fixed_location().to_owned(), owned());
    assert_eq!(owned_location().to_owned(), owned());
    assert_eq!(fixed_location().clone(), fixed_location());
    assert_eq!(owned_location().clone(), owned_location());
}

#[test]
fn template_ids_compare_their_locations() {
    assert_eq!(TemplateId(fixed_location()), TemplateId(owned_location()));
    let mut other = owned();
    other.column = 0;
    assert!(
        TemplateId(fixed_location()) != TemplateId(CodeLocation::Dynamic(Box::new(other)))
    );
    assert_eq!(TemplateId(owned_location()).clone(), TemplateId(fixed_location()));
}

#[test]
fn a_location_can_be_read_back() {
    for location in [fixed_location(), owned_location()] {
        let read = CodeLocation::from(location.to_owned());
        assert!(matches!(read, CodeLocation::Dynamic(_)));
        assert!(read == location);
        assert_eq!(read.hash_parts(), ("crates/ui", "src/app.rs", 12, 5));
        assert_eq!(hash_of(&read), hash_of(&location));
    }
}
