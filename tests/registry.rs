use switchit::project::Project;
use switchit::registry::{Registry, RegistryError};

fn project(name: &str, path: &str) -> Project {
    Project::new(name.to_string(), path.to_string())
}

fn two_entries() -> Registry {
    let mut r = Registry::new();
    r.add("X".to_string(), "/p".to_string());
    r.add("Y".to_string(), "/q".to_string());
    r
}

#[test]
fn add_to_empty_registry() {
    let mut r = Registry::new();
    assert!(r.is_empty());
    r.add("X".to_string(), "/p".to_string());
    assert_eq!(r.list(), vec![project("X", "/p")]);
}

#[test]
fn add_keeps_order() {
    let r = two_entries();
    assert_eq!(r.list(), vec![project("X", "/p"), project("Y", "/q")]);
    assert_eq!(r.len(), 2);
}

#[test]
fn add_allows_duplicates() {
    let mut r = Registry::new();
    r.add("X".to_string(), "/p".to_string());
    r.add("X".to_string(), "/p".to_string());
    assert_eq!(r.list(), vec![project("X", "/p"), project("X", "/p")]);
    r.remove(1).unwrap();
    assert_eq!(r.list(), vec![project("X", "/p")]);
}

#[test]
fn remove_first_of_two() {
    let mut r = two_entries();
    let removed = r.remove(0).unwrap();
    assert_eq!(removed, project("X", "/p"));
    assert_eq!(r.list(), vec![project("Y", "/q")]);
}

#[test]
fn remove_out_of_range_fails() {
    let mut r = two_entries();
    assert_eq!(
        r.remove(2).unwrap_err(),
        RegistryError::IndexOutOfRange { index: 2, len: 2 }
    );
    assert_eq!(r.list(), vec![project("X", "/p"), project("Y", "/q")]);
}

#[test]
fn list_is_a_snapshot() {
    let mut r = two_entries();
    let snapshot = r.list();
    r.remove(0).unwrap();
    assert_eq!(snapshot, vec![project("X", "/p"), project("Y", "/q")]);
    assert_eq!(r.get(0), &project("Y", "/q"));
}

#[test]
fn from_projects_keeps_order() {
    let r = Registry::from_projects(vec![project("B", "/b"), project("A", "/a")]);
    assert_eq!(r.projects(), &vec![project("B", "/b"), project("A", "/a")]);
}
