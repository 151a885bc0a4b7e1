use bitsink::project::Project;
use bitsink::registry::{ProjectRegistry, RegistryError};

const PING: [u8; 16] = [166, 41, 255, 255, 255, 255, 255, 255, 255, 255, 255, 255, 255, 255, 255, 254];

fn project(seed: u8, name: &str) -> Project {
    let mut id = [0u8; 16];
    id[0] = seed;
    id[15] = seed;
    Project::create(id, name.to_string(), "d".to_string(), 1000).unwrap()
}

fn names(registry: &ProjectRegistry) -> Vec<String> {
    registry.list().iter().map(|p| p.name().to_string()).collect()
}

#[test]
fn new_registry_is_empty() {
    let registry = ProjectRegistry::new();
    assert_eq!(registry.len(), 0);
    assert!(registry.list().is_empty());
    assert!(registry.find_by_short_id("anything").is_none());
    assert!(registry.get(0).is_none());
    assert_eq!(registry.position(""), None);
}

#[test]
fn added_projects_are_listed_in_order() {
    let mut registry = ProjectRegistry::new();
    assert_eq!(registry.add(project(1, "one")), Ok(()));
    assert_eq!(registry.add(project(2, "two")), Ok(()));
    assert_eq!(registry.add(project(3, "three")), Ok(()));
    assert_eq!(registry.len(), 3);
    assert_eq!(names(&registry), vec!["one", "two", "three"]);
    assert_eq!(registry.get(1).unwrap().name(), "two");
    assert!(registry.get(3).is_none());
}

#[test]
fn duplicate_short_identifier_is_a_conflict() {
    let mut registry = ProjectRegistry::new();
    assert_eq!(registry.add(project(1, "one")), Ok(()));
    assert_eq!(registry.add(project(2, "two")), Ok(()));
    assert_eq!(registry.add(project(1, "again")), Err(RegistryError::Conflict));
    assert_eq!(names(&registry), vec!["one", "two"]);
    registry.remove(project(1, "x").short_id());
    assert_eq!(registry.add(project(1, "again")), Ok(()));
    assert_eq!(names(&registry), vec!["two", "again"]);
}

#[test]
fn reserved_short_identifier_is_refused() {
    let reserved = Project::create(PING, "ping".to_string(), "d".to_string(), 1000).unwrap();
    assert_eq!(reserved.short_id(), "ping");
    let mut registry = ProjectRegistry::new();
    assert_eq!(registry.add(project(1, "one")), Ok(()));
    assert_eq!(registry.add(reserved), Err(RegistryError::Reserved));
    assert_eq!(names(&registry), vec!["one"]);
}

#[test]
fn find_by_short_identifier() {
    let mut registry = ProjectRegistry::new();
    for (seed, name) in [(1, "one"), (2, "two"), (3, "three")] {
        registry.add(project(seed, name)).unwrap();
    }
    let two = project(2, "two");
    let found = registry.find_by_short_id(two.short_id()).unwrap();
    assert_eq!(found.name(), "two");
    assert_eq!(found.id(), two.id());
    assert_eq!(registry.position(two.short_id()), Some(1));
    assert!(registry.find_by_short_id("").is_none());
    assert!(registry.find_by_short_id("nobody").is_none());
    assert!(registry.find_by_short_id(&two.short_id().to_uppercase()).is_none());
    assert_eq!(registry.position(project(4, "four").short_id()), None);
}

#[test]
fn remove_takes_out_one_project_and_keeps_the_order() {
    let mut registry = ProjectRegistry::new();
    for (seed, name) in [(1, "one"), (2, "two"), (3, "three"), (4, "four")] {
        registry.add(project(seed, name)).unwrap();
    }
    registry.remove(project(2, "x").short_id());
    assert_eq!(names(&registry), vec!["one", "three", "four"]);
    registry.remove(project(4, "x").short_id());
    assert_eq!(names(&registry), vec!["one", "three"]);
    registry.remove(project(1, "x").short_id());
    assert_eq!(names(&registry), vec!["three"]);
    assert!(registry.find_by_short_id(project(1, "x").short_id()).is_none());
}

#[test]
fn remove_of_an_absent_identifier_changes_nothing() {
    let mut registry = ProjectRegistry::new();
    registry.remove("nobody");
    assert_eq!(registry.len(), 0);
    registry.add(project(1, "one")).unwrap();
    registry.remove("nobody");
    registry.remove("");
    assert_eq!(names(&registry), vec!["one"]);
}

#[test]
fn list_is_a_snapshot() {
    let mut registry = ProjectRegistry::new();
    registry.add(project(1, "one")).unwrap();
    let before = registry.list();
    registry.add(project(2, "two")).unwrap();
    registry.remove(project(1, "x").short_id());
    assert_eq!(before.len(), 1);
    assert_eq!(before[0].name(), "one");
    assert_eq!(names(&registry), vec!["two"]);
}

#[test]
fn registry_is_empty_after_all_were_added_and_removed() {
    let mut registry = ProjectRegistry::new();
    let mut short_ids = Vec::new();
    for seed in 0..40u8 {
        let p = project(seed, "p");
        short_ids.push(p.short_id().to_string());
        registry.add(p).unwrap();
    }
    assert_eq!(registry.len(), 40);
    short_ids.reverse();
    short_ids.rotate_left(7);
    for short_id in &short_ids {
        registry.remove(short_id);
    }
    assert_eq!(registry.len(), 0);
    assert!(registry.list().is_empty());
}
