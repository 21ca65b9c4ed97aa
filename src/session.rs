//! The session: the registry, the add form, and the decisions that user
//! actions lead to. Spawning processes and touching the store file are the
//! caller's; a failed spawn is reported back and changes no project.
use vstd::prelude::*;
use crate::launcher::{opens, scaffolds, Invocation, LaunchConfig};
use crate::project::Project;
use crate::registry::{Registry, RegistryError};
use crate::store::{parse_store, read_store, render_store, store_text, ReadResult, StoreError};

verus! {

/// What submitting the add form led to.
#[derive(Debug)]
pub enum Submission {
    /// A required field was empty: nothing changed.
    Ignored,
    /// The project was appended and the name and path fields cleared.
    Added,
    /// The scaffolding tool is to be spawned; once it has started, call
    /// `Session::scaffold_started` to record the project.
    Scaffold(Invocation),
}

/// What activating a displayed entry led to.
#[derive(Debug)]
pub enum Activation {
    /// The editor is to be spawned with this invocation.
    Open(Invocation),
    /// The entry was removed from the registry.
    Removed(Project),
}

/// The state of one run of the launcher.
#[derive(Debug)]
pub struct Session {
    pub registry: Registry,
    /// The add form's name field.
    pub name: String,
    /// The add form's path field.
    pub path: String,
    /// The add form's language field, used when scaffolding.
    pub language: String,
    /// Whether submitting the form scaffolds a new project.
    pub scaffold: bool,
    pub config: LaunchConfig,
    /// The last launch failure, for display.
    pub last_error: Option<String>,
}

impl Session {
    /// Whether submitting the form does anything: name and path are filled
    /// in, and so is the language when scaffolding.
    pub open spec fn can_submit(&self) -> bool {
        &&& self.name@.len() > 0
        &&& self.path@.len() > 0
        &&& (self.scaffold ==> self.language@.len() > 0)
    }

    /// A session with the projects of a store text and an empty form.
    pub fn start(store: &str, config: LaunchConfig) -> (r: Result<Session, StoreError>)
        ensures
            r matches Ok(s) ==> read_store(store@) == ReadResult::Ok(s.registry@) && s.name@.len()
                == 0 && s.path@.len() == 0 && s.language@.len() == 0 && !s.scaffold && s.config
                == config && s.last_error is None,
            r matches Err(StoreError::MalformedLine { line }) ==> read_store(store@)
                == ReadResult::Err(line as nat),
    {
        match parse_store(store) {
            Ok(projects) => Ok(
                Session {
                    registry: Registry::from_projects(projects),
                    name: String::new(),
                    path: String::new(),
                    language: String::new(),
                    scaffold: false,
                    config,
                    last_error: None,
                },
            ),
            Err(e) => Err(e),
        }
    }

    /// Submits the add form. With a field missing, nothing happens. A plain
    /// add appends the project and clears the name and path fields. A
    /// scaffolding add changes nothing yet and hands back the tool's
    /// invocation.
    pub fn submit(&mut self) -> (r: Submission)
        ensures
            !old(self).can_submit() ==> r is Ignored && *final(self) == *old(self),
            old(self).can_submit() && !old(self).scaffold ==> {
                &&& r is Added
                &&& final(self).registry@ == old(self).registry@.push(
                    (old(self).name@, old(self).path@),
                )
                &&& final(self).name@.len() == 0
                &&& final(self).path@.len() == 0
                &&& final(self).language == old(self).language
                &&& final(self).scaffold == old(self).scaffold
                &&& final(self).config == old(self).config
                &&& final(self).last_error == old(self).last_error
            },
            old(self).can_submit() && old(self).scaffold ==> (r matches Submission::Scaffold(inv)
                && scaffolds(old(self).config, old(self).name@, old(self).path@, old(self).language@, inv)
                && *final(self) == *old(self)),
    {
        if self.name.as_str().is_empty() || self.path.as_str().is_empty() {
            return Submission::Ignored;
        }
        if self.scaffold {
            if self.language.as_str().is_empty() {
                return Submission::Ignored;
            }
            let inv = self.config.scaffold_project(
                self.name.as_str(),
                self.path.as_str(),
                self.language.as_str(),
            );
            Submission::Scaffold(inv)
        } else {
            let name = self.name.clone();
            let path = self.path.clone();
            self.name = String::new();
            self.path = String::new();
            self.registry.add(name, path);
            Submission::Added
        }
    }

    /// Records the project whose scaffolding tool has started: its name,
    /// and as its path the path field followed directly by the name, with
    /// no separator between them. Clears the name, path and language
    /// fields. Does nothing unless a scaffolding submission is due.
    pub fn scaffold_started(&mut self)
        ensures
            old(self).can_submit() && old(self).scaffold ==> {
                &&& final(self).registry@ == old(self).registry@.push(
                    (old(self).name@, old(self).path@ + old(self).name@),
                )
                &&& final(self).name@.len() == 0
                &&& final(self).path@.len() == 0
                &&& final(self).language@.len() == 0
                &&& final(self).scaffold == old(self).scaffold
                &&& final(self).config == old(self).config
                &&& final(self).last_error == old(self).last_error
            },
            !(old(self).can_submit() && old(self).scaffold) ==> *final(self) == *old(self),
    {
        if self.name.as_str().is_empty() || self.path.as_str().is_empty() || !self.scaffold
            || self.language.as_str().is_empty() {
            return ;
        }
        let name = self.name.clone();
        let path = self.path.clone();
        self.name = String::new();
        self.path = String::new();
        self.language = String::new();
        let full = path.concat(name.as_str());
        self.registry.add(name, full);
    }

    /// Activates the displayed entry at `index`: the secondary action
    /// removes it, the primary one hands back the invocation that opens it
    /// and changes nothing. An index past the end is refused.
    pub fn activate(&mut self, index: usize, secondary: bool) -> (r: Result<
        Activation,
        RegistryError,
    >)
        ensures
            index >= old(self).registry@.len() ==> r == Err::<Activation, RegistryError>(
                RegistryError::IndexOutOfRange {
                    index,
                    len: old(self).registry@.len() as usize,
                },
            ) && *final(self) == *old(self),
            index < old(self).registry@.len() && secondary ==> {
                &&& r matches Ok(Activation::Removed(p)) && p@ == old(self).registry@[index as int]
                &&& final(self).registry@ == old(self).registry@.remove(index as int)
                &&& final(self).name == old(self).name
                &&& final(self).path == old(self).path
                &&& final(self).language == old(self).language
                &&& final(self).scaffold == old(self).scaffold
                &&& final(self).config == old(self).config
                &&& final(self).last_error == old(self).last_error
            },
            index < old(self).registry@.len() && !secondary ==> (r matches Ok(
                Activation::Open(inv),
            ) && opens(old(self).config, old(self).registry@[index as int].1, inv) && *final(self)
                == *old(self)),
    {
        let len = self.registry.len();
        if index >= len {
            return Err(RegistryError::IndexOutOfRange { index, len });
        }
        if secondary {
            match self.registry.remove(index) {
                Ok(p) => Ok(Activation::Removed(p)),
                Err(e) => Err(e),
            }
        } else {
            let inv = self.config.open_project(self.registry.get(index));
            Ok(Activation::Open(inv))
        }
    }

    /// Notes that a spawn failed, for display. The registry and the form
    /// are left as they were.
    pub fn launch_failed(&mut self, message: String)
        ensures
            final(self).registry == old(self).registry,
            final(self).name == old(self).name,
            final(self).path == old(self).path,
            final(self).language == old(self).language,
            final(self).scaffold == old(self).scaffold,
            final(self).config == old(self).config,
            final(self).last_error == Some(message),
    {
        self.last_error = Some(message);
    }

    /// The store text that saves this session's projects.
    pub fn store_text(&self) -> (s: String)
        ensures
            s@ == store_text(self.registry@),
    {
        render_store(self.registry.projects())
    }
}

} // verus!
