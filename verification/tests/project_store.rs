use opencut::storage::ProjectStore;
use std::path::{Path, PathBuf};

#[test]
fn project_dirs_lie_under_the_root() {
    let store = ProjectStore::new(PathBuf::from("/data/projects"));
    assert_eq!(store.root(), Path::new("/data/projects"));
    assert_eq!(store.project_dir("p-1"), PathBuf::from("/data/projects/p-1"));
    assert_eq!(store.project_dir("p-2"), Path::new("/data/projects").join("p-2"));
}

#[test]
fn a_store_built_from_a_copy_of_its_root() {
    let root = PathBuf::from("/data/projects");
    let store = ProjectStore::new(root.clone());
    assert_eq!(store.project_dir("project-1"), root.join("project-1"));
    assert_eq!(store.root(), root.as_path());
}
