use vstd::prelude::*;

verus! {

/// A project as the contracts see it: its name and its path.
pub type ProjectModel = (Seq<char>, Seq<char>);

/// One registry entry: a display name and an opaque filesystem path.
#[derive(Debug)]
pub struct Project {
    pub name: String,
    pub path: String,
}

impl View for Project {
    type V = ProjectModel;

    open spec fn view(&self) -> ProjectModel {
        (self.name@, self.path@)
    }
}

/// The models of a sequence of projects, in order.
pub open spec fn models(ps: Seq<Project>) -> Seq<ProjectModel> {
    ps.map_values(|p: Project| p@)
}

impl Project {
    pub fn new(name: String, path: String) -> (p: Project)
        ensures
            p@ == (name@, path@),
    {
        Project { name, path }
    }

    /// A fresh copy of this project.
    pub fn duplicate(&self) -> (p: Project)
        ensures
            p@ == self@,
    {
        Project { name: self.name.clone(), path: self.path.clone() }
    }
}

impl Clone for Project {
    fn clone(&self) -> (p: Project)
        ensures
            p@ == self@,
    {
        self.duplicate()
    }
}

impl PartialEq for Project {
    fn eq(&self, other: &Project) -> (r: bool) {
        self.name == other.name && self.path == other.path
    }
}

impl vstd::std_specs::cmp::PartialEqSpecImpl for Project {
    open spec fn obeys_eq_spec() -> bool {
        true
    }

    open spec fn eq_spec(&self, other: &Project) -> bool {
        self@ == other@
    }
}

impl Eq for Project {}

} // verus!
