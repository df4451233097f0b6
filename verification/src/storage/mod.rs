//! The on-disk home of the editor's projects.

use vstd::prelude::*;

verus! {

#[verifier::external_type_specification]
#[verifier::external_body]
pub struct ExPath(std::path::Path);

/// What `PathBuf::as_path` gives: the owned path, borrowed as a `Path`.
pub uninterp spec fn borrowed_path(path: &std::path::PathBuf) -> &std::path::Path;

/// What `Path::join` gives: `base` with `part` adjoined (or `part` alone
/// where it is an absolute path). The result depends on the two arguments
/// alone.
pub uninterp spec fn path_join(base: &std::path::Path, part: Seq<char>) -> std::path::PathBuf;

/// `PathBuf::as_path`: the borrowed form of an owned path. The contract names
/// the result; what a path holds is not visible here.
#[verifier::external_body]
fn borrow_path(path: &std::path::PathBuf) -> (r: &std::path::Path)
    ensures
        r == borrowed_path(path),
{
    path.as_path()
}

/// `Path::join`: `base` with `part` adjoined. The contract names the result
/// as a function of the two arguments; what a path holds is not visible here.
#[verifier::external_body]
fn join_path(base: &std::path::Path, part: &str) -> (r: std::path::PathBuf)
    ensures
        r == path_join(base, part@),
{
    base.join(part)
}

/// A directory that holds one subdirectory per project.
pub struct ProjectStore {
    root: std::path::PathBuf,
}

impl ProjectStore {
    /// The directory under which the projects lie.
    pub closed spec fn root_dir(&self) -> std::path::PathBuf {
        self.root
    }

    pub fn new(root: std::path::PathBuf) -> (store: Self)
        ensures
            store.root_dir() == root,
    {
        ProjectStore { root }
    }

    /// The root directory, borrowed.
    pub fn root(&self) -> (r: &std::path::Path)
        ensures
            r == borrowed_path(&self.root_dir()),
    {
        borrow_path(&self.root)
    }

    /// The directory of the project `project_id`: the root joined with the id.
    pub fn project_dir(&self, project_id: &str) -> (r: std::path::PathBuf)
        ensures
            r == path_join(borrowed_path(&self.root_dir()), project_id@),
    {
        join_path(borrow_path(&self.root), project_id)
    }
}

} // verus!
