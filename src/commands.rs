//! Shell commands proposed to the user, and what kind of project they run in.
use vstd::prelude::*;

use crate::text::text_copy;

verus! {

/// A shell command with its arguments and a line that explains it.
pub struct ShellCommand {
    pub command: String,
    pub args: Vec<String>,
    pub description: String,
}

/// The texts of some string slices.
pub open spec fn arg_texts(args: Seq<&str>) -> Seq<Seq<char>> {
    args.map_values(|a: &str| a@)
}

/// The texts of some strings.
pub open spec fn string_texts(args: Seq<String>) -> Seq<Seq<char>> {
    args.map_values(|a: String| a@)
}

impl ShellCommand {
    /// The command `command` with `args`, and no explanation yet.
    pub fn new(command: &str, args: Vec<&str>) -> (r: ShellCommand)
        ensures
            r.command@ == command@,
            string_texts(r.args@) == arg_texts(args@),
            r.description@.len() == 0,
    {
        let mut owned: Vec<String> = Vec::new();
        let mut i: usize = 0;
        while i < args.len()
            invariant
                i <= args@.len(),
                string_texts(owned@) == arg_texts(args@.subrange(0, i as int)),
            decreases args@.len() - i,
        {
            let ghost prev = owned@;
            let a = text_copy(args[i]);
            owned.push(a);
            proof {
                let x = string_texts(owned@);
                let y = arg_texts(args@.subrange(0, i + 1));
                assert(string_texts(prev).len() == i);
                assert forall|j: int| 0 <= j < x.len() implies x[j] == y[j] by {
                    if j < i {
                        assert(owned@[j] == prev[j]);
                        assert(string_texts(prev)[j] == arg_texts(args@.subrange(0, i as int))[j]);
                    }
                }
                assert(x =~= y);
            }
            i = i + 1;
        }
        assert(args@.subrange(0, args@.len() as int) =~= args@);
        ShellCommand { command: text_copy(command), args: owned, description: String::new() }
    }

    /// The same command, explained by `desc`.
    pub fn with_description(self, desc: &str) -> (r: ShellCommand)
        ensures
            r.command == self.command,
            r.args == self.args,
            r.description@ == desc@,
    {
        let mut s = self;
        s.description = text_copy(desc);
        s
    }
}

/// A change to a file: the lines it replaces, what stood there, what comes.
pub struct FileChange {
    pub line_range: Option<(usize, usize)>,
    pub old_content: Option<String>,
    pub new_content: String,
}

/// How far a search reaches.
#[derive(Clone, Copy, Debug, PartialEq, Eq, Structural)]
pub enum SearchScope {
    CurrentFile,
    CurrentDirectory,
    Project,
    Workspace,
}

/// The language family of a project.
#[derive(Clone, Copy, Debug, PartialEq, Eq, Structural)]
pub enum ProjectType {
    Rust,
    JavaScript,
    Python,
    Go,
    Unknown,
}

/// Which marker files a project directory holds.
pub struct ProjectMarkers {
    pub cargo_toml: bool,
    pub package_json: bool,
    pub requirements_txt: bool,
    pub setup_py: bool,
    pub pyproject_toml: bool,
    pub go_mod: bool,
}

/// Knows where the current project lives.
pub struct ContextManager {
    pub project_root: Option<String>,
}

impl ContextManager {
    /// A manager that has not located a project yet.
    pub fn new() -> (r: ContextManager)
        ensures
            r.project_root is None,
    {
        ContextManager { project_root: None }
    }

    /// The project's kind by its marker files, tried in this order: Cargo
    /// manifest, npm manifest, any Python manifest, Go module.
    pub fn project_type_from_markers(&self, m: &ProjectMarkers) -> (r: ProjectType)
        ensures
            r == (if m.cargo_toml {
                ProjectType::Rust
            } else if m.package_json {
                ProjectType::JavaScript
            } else if m.requirements_txt || m.setup_py || m.pyproject_toml {
                ProjectType::Python
            } else if m.go_mod {
                ProjectType::Go
            } else {
                ProjectType::Unknown
            }),
    {
        if m.cargo_toml {
            ProjectType::Rust
        } else if m.package_json {
            ProjectType::JavaScript
        } else if m.requirements_txt || m.setup_py || m.pyproject_toml {
            ProjectType::Python
        } else if m.go_mod {
            ProjectType::Go
        } else {
            ProjectType::Unknown
        }
    }
}

} // verus!
