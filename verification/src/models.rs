//! The values exchanged with clients of the sandbox tools.
use vstd::prelude::*;

verus! {

/// A language environment of the sandbox.
#[derive(Clone, Copy, Debug, PartialEq, Eq, Structural)]
pub enum Language {
    Python,
    Rust,
    Go,
    Bun,
}

/// The lower-case identifier of a language, used for its workspace directory.
pub open spec fn slug_spec(lang: Language) -> Seq<char> {
    match lang {
        Language::Python => "python"@,
        Language::Rust => "rust"@,
        Language::Go => "go"@,
        Language::Bun => "bun"@,
    }
}

impl Language {
    /// The lower-case identifier of this language.
    pub fn slug(&self) -> (res: &'static str)
        ensures
            res@ == slug_spec(*self),
            *self == Language::Python ==> res@ == "python"@,
            *self == Language::Rust ==> res@ == "rust"@,
            *self == Language::Go ==> res@ == "go"@,
            *self == Language::Bun ==> res@ == "bun"@,
    {
        match self {
            Language::Python => "python",
            Language::Rust => "rust",
            Language::Go => "go",
            Language::Bun => "bun",
        }
    }
}

/// The file that runs when no entry point is named.
pub open spec fn default_file_spec(lang: Language) -> Seq<char> {
    match lang {
        Language::Python => "main.py"@,
        Language::Rust => "main.rs"@,
        Language::Go => "main.go"@,
        Language::Bun => "main.js"@,
    }
}

impl Language {
    /// The file that runs when no entry point is named.
    pub fn default_file(&self) -> (res: &'static str)
        ensures
            res@ == default_file_spec(*self),
            *self == Language::Python ==> res@ == "main.py"@,
            *self == Language::Rust ==> res@ == "main.rs"@,
            *self == Language::Go ==> res@ == "main.go"@,
            *self == Language::Bun ==> res@ == "main.js"@,
    {
        match self {
            Language::Python => "main.py",
            Language::Rust => "main.rs",
            Language::Go => "main.go",
            Language::Bun => "main.js",
        }
    }
}

/// Which workspaces to create; all four where none are named.
#[derive(Clone, Debug)]
pub struct WorkspaceInitInput {
    pub languages: Option<Vec<Language>>,
}

/// The workspace directories created now, and those that were there.
#[derive(Clone, Debug)]
pub struct WorkspaceInitOutput {
    pub created: Vec<String>,
    pub existing: Vec<String>,
}

/// A request about one language environment.
#[derive(Clone, Copy, Debug)]
pub struct EnvLangInput {
    pub language: Language,
}

/// The environment that was started.
#[derive(Clone, Debug)]
pub struct EnvStartOutput {
    pub container_name: String,
    pub started: bool,
}

/// The state of an environment's container.
#[derive(Clone, Debug)]
pub struct EnvStatusOutput {
    pub container_name: String,
    pub exists: bool,
    pub running: bool,
    pub pid: Option<i64>,
}

/// A request to stop an environment, within a timeout in seconds.
#[derive(Clone, Copy, Debug)]
pub struct EnvStopInput {
    pub language: Language,
    pub timeout_secs: Option<u64>,
}

/// The environment that was stopped.
#[derive(Clone, Debug)]
pub struct EnvStopOutput {
    pub container_name: String,
    pub stopped: bool,
}

/// A request to remove an environment, and perhaps its workspace.
#[derive(Clone, Copy, Debug)]
pub struct EnvCleanInput {
    pub language: Language,
    pub remove_workspace: Option<bool>,
}

/// What removing an environment did.
#[derive(Clone, Debug)]
pub struct EnvCleanOutput {
    pub container_name: Option<String>,
    pub removed: bool,
    pub workspace_cleared: Option<bool>,
}

/// A file to write into a workspace.
#[derive(Clone, Debug)]
pub struct FileWriteInput {
    pub language: Language,
    pub rel_path: String,
    pub content: String,
    pub create_parents: Option<bool>,
}

/// The file that was written.
#[derive(Clone, Debug)]
pub struct FileWriteOutput {
    pub path: String,
    pub bytes: usize,
    pub created: bool,
}

/// Code to run in a language environment. `env` holds the variables to set,
/// each name once, in the order of their names (see `env_names_ordered`).
#[derive(Clone, Debug)]
pub struct ExecCodeInput {
    pub language: Language,
    pub entrypoint: Option<String>,
    pub code: Option<String>,
    pub args: Option<Vec<String>>,
    pub compile_args: Option<Vec<String>>,
    pub timeout_secs: Option<u64>,
    pub env: Option<Vec<(String, String)>>,
}

/// What running code gave.
#[derive(Clone, Debug)]
pub struct ExecCodeOutput {
    pub exit_code: i64,
    pub stdout: String,
    pub stderr: String,
    pub duration_ms: u128,
    pub artifact: Option<String>,
}

/// The default entry point of each language is its `main` file with that
/// language's extension.
pub proof fn law_default_file_of_each_language()
    ensures
        default_file_spec(Language::Python) == "main.py"@,
        default_file_spec(Language::Rust) == "main.rs"@,
        default_file_spec(Language::Go) == "main.go"@,
        default_file_spec(Language::Bun) == "main.js"@,
{
}

/// Each language's workspace directory is named by its lower-case name.
pub proof fn law_slug_of_each_language()
    ensures
        slug_spec(Language::Python) == "python"@,
        slug_spec(Language::Rust) == "rust"@,
        slug_spec(Language::Go) == "go"@,
        slug_spec(Language::Bun) == "bun"@,
{
}

} // verus!
