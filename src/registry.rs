//! The in-memory registry: an ordered list of projects, changed only by
//! appending and by removing at a position.
use vstd::prelude::*;
use crate::project::{models, Project, ProjectModel};

verus! {

/// Why a registry operation was refused.
#[derive(Debug, Clone, Copy, PartialEq, Eq)]
pub enum RegistryError {
    /// `index` does not name an entry of a registry of `len` entries.
    IndexOutOfRange { index: usize, len: usize },
}

/// The ordered list of projects of a session. Order is insertion order;
/// names need not be unique.
#[derive(Debug)]
pub struct Registry {
    projects: Vec<Project>,
}

impl View for Registry {
    type V = Seq<ProjectModel>;

    closed spec fn view(&self) -> Seq<ProjectModel> {
        models(self.projects@)
    }
}

impl Registry {
    /// An empty registry.
    pub fn new() -> (r: Registry)
        ensures
            r@ == Seq::<ProjectModel>::empty(),
    {
        let r = Registry { projects: Vec::new() };
        assert(r@ =~= Seq::<ProjectModel>::empty());
        r
    }

    /// A registry holding `projects`, in their order.
    pub fn from_projects(projects: Vec<Project>) -> (r: Registry)
        ensures
            r@ == models(projects@),
    {
        Registry { projects }
    }

    /// The number of entries.
    pub fn len(&self) -> (n: usize)
        ensures
            n == self@.len(),
    {
        self.projects.len()
    }

    /// Whether the registry has no entry.
    pub fn is_empty(&self) -> (b: bool)
        ensures
            b == (self@.len() == 0),
    {
        self.projects.len() == 0
    }

    /// The entry at `index`.
    pub fn get(&self, index: usize) -> (p: &Project)
        requires
            index < self@.len(),
        ensures
            p@ == self@[index as int],
    {
        &self.projects[index]
    }

    /// Appends a project with this name and path at the end. The caller
    /// has checked that neither is empty.
    pub fn add(&mut self, name: String, path: String)
        requires
            name@.len() > 0,
            path@.len() > 0,
        ensures
            final(self)@ == old(self)@.push((name@, path@)),
    {
        let p = Project::new(name, path);
        let ghost before = self@;
        self.projects.push(p);
        assert(self@ =~= before.push(p@));
    }

    /// Removes and returns the entry at `index`, moving the later ones one
    /// place forward. An index past the end is refused, and the registry is
    /// left as it was.
    pub fn remove(&mut self, index: usize) -> (r: Result<Project, RegistryError>)
        ensures
            index < old(self)@.len() ==> (r matches Ok(p) && p@ == old(self)@[index as int]
                && final(self)@ == old(self)@.remove(index as int)),
            index >= old(self)@.len() ==> r == Err::<Project, RegistryError>(
                RegistryError::IndexOutOfRange { index, len: old(self)@.len() as usize },
            ) && final(self)@ == old(self)@,
    {
        let len = self.projects.len();
        if index < len {
            let ghost before = self.projects@;
            let p = self.projects.remove(index);
            assert(self@ =~= models(before).remove(index as int));
            Ok(p)
        } else {
            Err(RegistryError::IndexOutOfRange { index, len })
        }
    }

    /// A snapshot of the entries, in order; later changes to the registry
    /// do not reach it.
    pub fn list(&self) -> (v: Vec<Project>)
        ensures
            models(v@) == self@,
    {
        let mut v: Vec<Project> = Vec::new();
        let mut i: usize = 0;
        while i < self.projects.len()
            invariant
                i <= self.projects@.len(),
                models(v@) == models(self.projects@).take(i as int),
            decreases self.projects@.len() - i,
        {
            let ghost before = v@;
            let q = self.projects[i].duplicate();
            v.push(q);
            assert(models(v@) =~= models(before).push(q@));
            assert(models(v@) =~= models(self.projects@).take(i + 1));
            i = i + 1;
        }
        assert(models(self.projects@).take(i as int) =~= models(self.projects@));
        v
    }

    /// The entries themselves, in order.
    pub fn projects(&self) -> (v: &Vec<Project>)
        ensures
            models(v@) == self@,
    {
        &self.projects
    }
}

} // verus!
