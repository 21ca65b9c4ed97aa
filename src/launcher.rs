//! What to spawn: the editor on a project's path, or the scaffolding tool
//! for a new project. The host platform is resolved once into a
//! `LaunchConfig`; the invocations are plain values that the caller runs.
use vstd::prelude::*;
use crate::project::Project;

verus! {

/// The host platform families that launching distinguishes.
#[derive(Debug, Clone, Copy, PartialEq, Eq)]
pub enum Platform {
    Windows,
    Linux,
    MacOs,
}

/// How the editor is started on this host.
#[derive(Debug, PartialEq, Eq)]
pub struct LaunchConfig {
    /// The editor executable.
    pub editor: String,
    /// Whether the editor's arguments end with a run-in-background marker.
    pub background_marker: bool,
    /// Whether spawned processes get no console window of their own.
    pub hide_console: bool,
}

/// One external process to spawn, without waiting for it.
#[derive(Debug, PartialEq, Eq)]
pub struct Invocation {
    pub program: String,
    pub args: Vec<String>,
    pub hide_console: bool,
}

/// The views of a sequence of strings.
pub open spec fn texts(v: Seq<String>) -> Seq<Seq<char>> {
    v.map_values(|s: String| s@)
}

/// The editor's arguments for a project at `path`.
pub open spec fn open_args(path: Seq<char>, background_marker: bool) -> Seq<Seq<char>> {
    if background_marker {
        seq![path, "-r"@, "&"@]
    } else {
        seq![path, "-r"@]
    }
}

/// The scaffolding tool's arguments.
pub open spec fn scaffold_args(name: Seq<char>, path: Seq<char>, language: Seq<char>) -> Seq<
    Seq<char>,
> {
    seq!["-l"@, language, "-n"@, name, "-p"@, path]
}

/// `inv` starts the editor of `config` on `path`, reusing its window.
pub open spec fn opens(config: LaunchConfig, path: Seq<char>, inv: Invocation) -> bool {
    &&& inv.program@ == config.editor@
    &&& texts(inv.args@) == open_args(path, config.background_marker)
    &&& inv.hide_console == config.hide_console
}

/// `inv` starts the scaffolding tool `project` for a new project.
pub open spec fn scaffolds(
    config: LaunchConfig,
    name: Seq<char>,
    path: Seq<char>,
    language: Seq<char>,
    inv: Invocation,
) -> bool {
    &&& inv.program@ == "project"@
    &&& texts(inv.args@) == scaffold_args(name, path, language)
    &&& inv.hide_console == config.hide_console
}

impl LaunchConfig {
    /// The configuration of a platform: `code.cmd` without a console window
    /// on Windows, `code` with a background marker on Linux, plain `code`
    /// on macOS.
    pub fn for_platform(platform: Platform) -> (c: LaunchConfig)
        ensures
            platform == Platform::Windows ==> c.editor@ == "code.cmd"@ && !c.background_marker
                && c.hide_console,
            platform == Platform::Linux ==> c.editor@ == "code"@ && c.background_marker
                && !c.hide_console,
            platform == Platform::MacOs ==> c.editor@ == "code"@ && !c.background_marker
                && !c.hide_console,
    {
        match platform {
            Platform::Windows => LaunchConfig {
                editor: String::from_str("code.cmd"),
                background_marker: false,
                hide_console: true,
            },
            Platform::Linux => LaunchConfig {
                editor: String::from_str("code"),
                background_marker: true,
                hide_console: false,
            },
            Platform::MacOs => LaunchConfig {
                editor: String::from_str("code"),
                background_marker: false,
                hide_console: false,
            },
        }
    }

    /// The invocation that opens `project` in the editor.
    pub fn open_project(&self, project: &Project) -> (inv: Invocation)
        ensures
            opens(*self, project.path@, inv),
    {
        let mut args: Vec<String> = Vec::new();
        args.push(project.path.clone());
        args.push(String::from_str("-r"));
        if self.background_marker {
            args.push(String::from_str("&"));
        }
        assert(texts(args@) =~= open_args(project.path@, self.background_marker));
        Invocation { program: self.editor.clone(), args, hide_console: self.hide_console }
    }

    /// The invocation that has the scaffolding tool generate a project
    /// `name` in `language` under `path`.
    pub fn scaffold_project(&self, name: &str, path: &str, language: &str) -> (inv: Invocation)
        ensures
            scaffolds(*self, name@, path@, language@, inv),
    {
        let mut args: Vec<String> = Vec::new();
        args.push(String::from_str("-l"));
        args.push(language.to_owned());
        args.push(String::from_str("-n"));
        args.push(name.to_owned());
        args.push(String::from_str("-p"));
        args.push(path.to_owned());
        assert(texts(args@) =~= scaffold_args(name@, path@, language@));
        Invocation {
            program: String::from_str("project"),
            args,
            hide_console: self.hide_console,
        }
    }
}

} // verus!
