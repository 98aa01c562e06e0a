//! Where workspaces live, and which image and container serve each language.
use vstd::prelude::*;
use crate::models::Language;

verus! {

/// The image of each language environment.
#[derive(Clone, Debug)]
pub struct Images {
    pub python: String,
    pub rust: String,
    pub go: String,
    pub bun: String,
}

/// The container name of each language environment.
#[derive(Clone, Debug)]
pub struct Containers {
    pub python: String,
    pub rust: String,
    pub go: String,
    pub bun: String,
}

/// The settings of the sandbox.
#[derive(Clone, Debug)]
pub struct Config {
    /// The host directory under which each language has its workspace.
    pub ws_root: String,
    pub images: Images,
    pub containers: Containers,
    /// Where the workspace is mounted inside each container.
    pub container_ws_path: String,
}

/// A setting that was given, or else its default.
pub open spec fn setting_or(given: Option<String>, default: Seq<char>) -> Seq<char> {
    match given {
        Some(s) => s@,
        None => default,
    }
}

fn take_or(given: Option<String>, default: &str) -> (res: String)
    ensures
        res@ == setting_or(given, default@),
{
    match given {
        Some(s) => s,
        None => String::from_str(default),
    }
}

impl Images {
    /// The images, each one given or else its default.
    pub fn from_overrides(
        python: Option<String>,
        rust: Option<String>,
        go: Option<String>,
        bun: Option<String>,
    ) -> (res: Images)
        ensures
            res.python@ == setting_or(python, "python:3.12-alpine"@),
            res.rust@ == setting_or(rust, "rust:alpine"@),
            res.go@ == setting_or(go, "golang:alpine"@),
            res.bun@ == setting_or(bun, "oven/bun:alpine"@),
    {
        Images {
            python: take_or(python, "python:3.12-alpine"),
            rust: take_or(rust, "rust:alpine"),
            go: take_or(go, "golang:alpine"),
            bun: take_or(bun, "oven/bun:alpine"),
        }
    }

    /// The image of `lang`.
    pub fn for_language(&self, lang: Language) -> (res: &String)
        ensures
            *res == self.spec_for(lang),
            lang == Language::Python ==> *res == self.python,
            lang == Language::Rust ==> *res == self.rust,
            lang == Language::Go ==> *res == self.go,
            lang == Language::Bun ==> *res == self.bun,
    {
        match lang {
            Language::Python => &self.python,
            Language::Rust => &self.rust,
            Language::Go => &self.go,
            Language::Bun => &self.bun,
        }
    }

    pub open spec fn spec_for(&self, lang: Language) -> String {
        match lang {
            Language::Python => self.python,
            Language::Rust => self.rust,
            Language::Go => self.go,
            Language::Bun => self.bun,
        }
    }
}

impl Containers {
    /// The container names, each one given or else its default.
    pub fn from_overrides(
        python: Option<String>,
        rust: Option<String>,
        go: Option<String>,
        bun: Option<String>,
    ) -> (res: Containers)
        ensures
            res.python@ == setting_or(python, "python_env"@),
            res.rust@ == setting_or(rust, "rust_env"@),
            res.go@ == setting_or(go, "go_env"@),
            res.bun@ == setting_or(bun, "bun_env"@),
    {
        Containers {
            python: take_or(python, "python_env"),
            rust: take_or(rust, "rust_env"),
            go: take_or(go, "go_env"),
            bun: take_or(bun, "bun_env"),
        }
    }

    /// The container name of `lang`.
    pub fn for_language(&self, lang: Language) -> (res: &String)
        ensures
            *res == self.spec_for(lang),
            lang == Language::Python ==> *res == self.python,
            lang == Language::Rust ==> *res == self.rust,
            lang == Language::Go ==> *res == self.go,
            lang == Language::Bun ==> *res == self.bun,
    {
        match lang {
            Language::Python => &self.python,
            Language::Rust => &self.rust,
            Language::Go => &self.go,
            Language::Bun => &self.bun,
        }
    }

    pub open spec fn spec_for(&self, lang: Language) -> String {
        match lang {
            Language::Python => self.python,
            Language::Rust => self.rust,
            Language::Go => self.go,
            Language::Bun => self.bun,
        }
    }
}

impl Config {
    /// The settings: the workspace root given or else `workspace`, the given
    /// images and containers, and the mount point `/workspace`.
    pub fn from_overrides(ws_root: Option<String>, images: Images, containers: Containers) -> (res:
        Config)
        ensures
            res.ws_root@ == setting_or(ws_root, "workspace"@),
            res.images == images,
            res.containers == containers,
            res.container_ws_path@ == "/workspace"@,
    {
        Config {
            ws_root: take_or(ws_root, "workspace"),
            images,
            containers,
            container_ws_path: String::from_str("/workspace"),
        }
    }
}

/// Each language is served by the image configured for that same language.
pub proof fn law_image_of_each_language(images: Images)
    ensures
        images.spec_for(Language::Python) == images.python,
        images.spec_for(Language::Rust) == images.rust,
        images.spec_for(Language::Go) == images.go,
        images.spec_for(Language::Bun) == images.bun,
{
}

/// Each language is served by the container configured for that same language.
pub proof fn law_container_of_each_language(containers: Containers)
    ensures
        containers.spec_for(Language::Python) == containers.python,
        containers.spec_for(Language::Rust) == containers.rust,
        containers.spec_for(Language::Go) == containers.go,
        containers.spec_for(Language::Bun) == containers.bun,
{
}

} // verus!
