//! The decisions behind the sandbox tools: which workspaces to create, what to
//! run for a piece of code, and the defaults of each request.
use vstd::prelude::*;
use crate::config::Config;
use crate::models::{
    default_file_spec, slug_spec, EnvCleanInput, EnvCleanOutput, EnvStopInput, ExecCodeInput, FileWriteInput,
    Language,
};
use crate::text::{concat, join_strings, join_with, owned, strs};

verus! {

/// The sandbox tool set.
#[derive(Clone, Copy, Debug)]
pub struct SunabaTools;

impl SunabaTools {
    pub fn new() -> (res: SunabaTools)
        ensures
            res == SunabaTools,
    {
        SunabaTools
    }
}

/// The languages whose workspaces are prepared: those named, or else all four.
pub open spec fn workspace_languages_spec(langs: Option<Vec<Language>>) -> Seq<Language> {
    match langs {
        Some(v) => v@,
        None => seq![Language::Python, Language::Rust, Language::Go, Language::Bun],
    }
}

/// The languages whose workspaces are prepared: those named, or else all four.
pub fn workspace_languages(langs: Option<Vec<Language>>) -> (res: Vec<Language>)
    ensures
        res@ == workspace_languages_spec(langs),
{
    match langs {
        Some(v) => v,
        None => {
            let mut v: Vec<Language> = Vec::new();
            v.push(Language::Python);
            v.push(Language::Rust);
            v.push(Language::Go);
            v.push(Language::Bun);
            v
        },
    }
}

/// The workspace directory names of `langs`, in order.
pub fn language_slugs(langs: &Vec<Language>) -> (res: Vec<String>)
    ensures
        res@.len() == langs@.len(),
        forall|i: int| 0 <= i < langs@.len() ==> #[trigger] res@[i]@ == slug_spec(langs@[i]),
{
    let mut res: Vec<String> = Vec::new();
    let mut i: usize = 0;
    while i < langs.len()
        invariant
            i <= langs@.len(),
            res@.len() == i,
            forall|k: int| 0 <= k < i ==> #[trigger] res@[k]@ == slug_spec(langs@[k]),
        decreases langs@.len() - i,
    {
        res.push(owned(langs[i].slug()));
        i = i + 1;
    }
    res
}

/// Seconds given to a container to stop before it is killed: as asked, or 5.
pub fn stop_timeout_secs(input: &EnvStopInput) -> (res: u64)
    ensures
        res == (match input.timeout_secs {
            Some(t) => t,
            None => 5,
        }),
{
    match input.timeout_secs {
        Some(t) => t,
        None => 5,
    }
}

/// Seconds given to a container to stop before it is removed.
pub const CLEAN_STOP_TIMEOUT_SECS: u64 = 2;

/// Whether removing an environment also clears its workspace: only where asked.
pub fn clears_workspace(input: &EnvCleanInput) -> (res: bool)
    ensures
        res == (input.remove_workspace == Some(true)),
{
    match input.remove_workspace {
        Some(b) => b,
        None => false,
    }
}

/// What removing an environment reports: the container's name, whether its
/// removal succeeded, and, where clearing the workspace was asked for, whether
/// the workspace directory existed (and so was cleared); `None` where it was
/// not asked for.
pub fn clean_output(input: &EnvCleanInput, container_name: String, removed: bool, dir_existed: bool) -> (res:
    EnvCleanOutput)
    ensures
        res.container_name == Some(container_name),
        res.removed == removed,
        res.workspace_cleared == (if input.remove_workspace == Some(true) {
            Some(dir_existed)
        } else {
            None
        }),
{
    let workspace_cleared = if clears_workspace(input) {
        Some(dir_existed)
    } else {
        None
    };
    EnvCleanOutput { container_name: Some(container_name), removed, workspace_cleared }
}

/// Whether writing a file creates its missing parent directories: as asked, or yes.
pub fn creates_parents(input: &FileWriteInput) -> (res: bool)
    ensures
        res == (input.create_parents != Some(false)),
{
    match input.create_parents {
        Some(b) => b,
        None => true,
    }
}

/// The character sequences of an optional list of strings.
pub open spec fn opt_strs(o: Option<Vec<String>>) -> Option<Seq<Seq<char>>> {
    match o {
        Some(v) => Some(strs(v@)),
        None => None,
    }
}

/// `items`, or nothing.
pub open spec fn or_empty(o: Option<Seq<Seq<char>>>) -> Seq<Seq<char>> {
    match o {
        Some(v) => v,
        None => Seq::empty(),
    }
}

/// The shell line that compiles a Rust entry point to `/workspace/main_bin` and
/// runs it: the compiler arguments joined by spaces, and the program arguments
/// each after a space.
pub open spec fn rust_line(
    ep: Seq<char>,
    args: Option<Seq<Seq<char>>>,
    compile_args: Option<Seq<Seq<char>>>,
) -> Seq<char> {
    let compile = match compile_args {
        Some(v) => join_with(v, seq![' ']),
        None => Seq::empty(),
    };
    let run = match args {
        Some(v) => seq![' '] + join_with(v, seq![' ']),
        None => Seq::empty(),
    };
    "rustc "@ + ep + " -o /workspace/main_bin "@ + compile + " && /workspace/main_bin"@ + run
}

/// The command that runs entry point `ep` of `lang` inside its container.
pub open spec fn run_command_spec(
    lang: Language,
    ep: Seq<char>,
    args: Option<Seq<Seq<char>>>,
    compile_args: Option<Seq<Seq<char>>>,
) -> Seq<Seq<char>> {
    match lang {
        Language::Python => seq!["python"@, ep] + or_empty(args),
        Language::Rust => seq!["/bin/sh"@, "-c"@, rust_line(ep, args, compile_args)],
        Language::Go => seq!["go"@, "run"@, ep] + or_empty(args),
        Language::Bun => seq!["bun"@, "run"@, ep] + or_empty(args),
    }
}

fn push_all(v: &mut Vec<String>, items: &Option<Vec<String>>)
    ensures
        strs(final(v)@) == strs(old(v)@) + or_empty(opt_strs(*items)),
{
    match items {
        None => {
            assert(strs(v@) + Seq::<Seq<char>>::empty() =~= strs(v@));
        },
        Some(xs) => {
            let ghost start = strs(v@);
            let mut i: usize = 0;
            while i < xs.len()
                invariant
                    i <= xs@.len(),
                    strs(v@) == start + strs(xs@).take(i as int),
                decreases xs@.len() - i,
            {
                let ghost before = strs(v@);
                v.push(xs[i].clone());
                assert(strs(xs@).take(i + 1) =~= strs(xs@).take(i as int).push(xs@[i as int]@));
                assert(strs(v@) =~= before.push(xs@[i as int]@));
                i = i + 1;
            }
            assert(strs(xs@).take(xs@.len() as int) =~= strs(xs@));
        },
    }
}

/// The command that runs entry point `ep` of `lang` inside its container.
pub fn run_command(
    lang: Language,
    ep: &str,
    args: &Option<Vec<String>>,
    compile_args: &Option<Vec<String>>,
) -> (res: Vec<String>)
    ensures
        strs(res@) == run_command_spec(lang, ep@, opt_strs(*args), opt_strs(*compile_args)),
        lang == Language::Python ==> strs(res@) == seq!["python"@, ep@] + or_empty(
            opt_strs(*args),
        ),
        lang == Language::Go ==> strs(res@) == seq!["go"@, "run"@, ep@] + or_empty(opt_strs(*args)),
        lang == Language::Bun ==> strs(res@) == seq!["bun"@, "run"@, ep@] + or_empty(
            opt_strs(*args),
        ),
{
    let mut v: Vec<String> = Vec::new();
    match lang {
        Language::Rust => {
            let compile: String = match compile_args {
                Some(c) => join_strings(c, " "),
                None => String::new(),
            };
            let run: String = match args {
                Some(a) => concat(" ", join_strings(a, " ").as_str()),
                None => String::new(),
            };
            let mut line = concat("rustc ", ep);
            line.append(" -o /workspace/main_bin ");
            line.append(compile.as_str());
            line.append(" && /workspace/main_bin");
            line.append(run.as_str());
            proof {
                reveal_strlit(" ");
                assert(" "@ =~= seq![' ']);
            }
            v.push(owned("/bin/sh"));
            v.push(owned("-c"));
            v.push(line);
            assert(strs(v@) =~= run_command_spec(
                lang,
                ep@,
                opt_strs(*args),
                opt_strs(*compile_args),
            ));
        },
        Language::Python => {
            v.push(owned("python"));
            v.push(owned(ep));
            assert(strs(v@) =~= seq!["python"@, ep@]);
            push_all(&mut v, args);
        },
        Language::Go => {
            v.push(owned("go"));
            v.push(owned("run"));
            v.push(owned(ep));
            assert(strs(v@) =~= seq!["go"@, "run"@, ep@]);
            push_all(&mut v, args);
        },
        Language::Bun => {
            v.push(owned("bun"));
            v.push(owned("run"));
            v.push(owned(ep));
            assert(strs(v@) =~= seq!["bun"@, "run"@, ep@]);
            push_all(&mut v, args);
        },
    }
    v
}

/// `a` sorts before `b` as strings do: by the first character where they
/// differ, or as a proper prefix of `b`.
pub open spec fn text_less(a: Seq<char>, b: Seq<char>) -> bool
    decreases a.len(),
{
    if b.len() == 0 {
        false
    } else if a.len() == 0 {
        true
    } else if a[0] != b[0] {
        (a[0] as u32) < (b[0] as u32)
    } else {
        text_less(a.drop_first(), b.drop_first())
    }
}

/// The variables' names strictly increase, so each name occurs once: the
/// variables as a map ordered by name yields them.
pub open spec fn env_names_ordered(pairs: Seq<(String, String)>) -> bool {
    forall|i: int, j: int| 0 <= i < j < pairs.len() ==> text_less(pairs[i].0@, pairs[j].0@)
}

/// Environment variables as `name=value`, in the order given.
pub open spec fn env_assignments_spec(pairs: Seq<(String, String)>) -> Seq<Seq<char>> {
    pairs.map_values(|p: (String, String)| p.0@ + seq!['='] + p.1@)
}

/// Environment variables as `name=value`, in the order given.
pub fn env_assignments(pairs: &Vec<(String, String)>) -> (res: Vec<String>)
    requires
        env_names_ordered(pairs@),
    ensures
        strs(res@) == env_assignments_spec(pairs@),
{
    let mut res: Vec<String> = Vec::new();
    let mut i: usize = 0;
    proof {
        reveal_strlit("=");
        assert("="@ =~= seq!['=']);
    }
    while i < pairs.len()
        invariant
            i <= pairs@.len(),
            strs(res@) == env_assignments_spec(pairs@.take(i as int)),
            "="@ == seq!['='],
        decreases pairs@.len() - i,
    {
        let ghost before = strs(res@);
        let pair = &pairs[i];
        let mut s = concat(pair.0.as_str(), "=");
        s.append(pair.1.as_str());
        res.push(s);
        assert(env_assignments_spec(pairs@.take(i + 1)) =~= before.push(
            pairs@[i as int].0@ + seq!['='] + pairs@[i as int].1@,
        ));
        assert(strs(res@) =~= before.push(s@));
        i = i + 1;
    }
    assert(pairs@.take(pairs@.len() as int) =~= pairs@);
    res
}

/// How a piece of code is run.
#[derive(Clone, Debug)]
pub struct ExecPlan {
    /// The workspace directory name of the language.
    pub lang_slug: String,
    /// The entry point, relative to the workspace.
    pub entrypoint: String,
    /// The entry point inside the container.
    pub container_entrypoint: String,
    /// Code to write to the entry point before running it.
    pub code: Option<String>,
    /// The command run in the container.
    pub command: Vec<String>,
    /// Environment variables, each `name=value`.
    pub env: Option<Vec<String>>,
    /// Seconds the command may take.
    pub timeout_secs: u64,
    /// The binary left behind, for compiled languages.
    pub artifact: Option<String>,
}

/// The entry point: as named, or the language's default file.
pub open spec fn entrypoint_spec(input: ExecCodeInput) -> Seq<char> {
    match input.entrypoint {
        Some(e) => e@,
        None => default_file_spec(input.language),
    }
}

/// How `input` is run: its entry point (named, or the language's default file)
/// under the mount point, the language's command with the given arguments,
/// its variables as `name=value`, a timeout of 60 seconds unless one is given,
/// and for Rust the binary `main_bin` under the mount point.
pub fn plan_exec(cfg: &Config, input: &ExecCodeInput) -> (res: ExecPlan)
    requires
        input.env matches Some(pairs) ==> env_names_ordered(pairs@),
    ensures
        res.lang_slug@ == slug_spec(input.language),
        res.entrypoint@ == entrypoint_spec(*input),
        res.container_entrypoint@ == cfg.container_ws_path@ + seq!['/'] + entrypoint_spec(*input),
        res.code == input.code,
        strs(res.command@) == run_command_spec(
            input.language,
            cfg.container_ws_path@ + seq!['/'] + entrypoint_spec(*input),
            opt_strs(input.args),
            opt_strs(input.compile_args),
        ),
        match input.env {
            Some(pairs) => res.env matches Some(v) && strs(v@) == env_assignments_spec(pairs@),
            None => res.env is None,
        },
        res.timeout_secs == (match input.timeout_secs {
            Some(t) => t,
            None => 60,
        }),
        match input.language {
            Language::Rust => res.artifact matches Some(a) && a@ == cfg.container_ws_path@ + seq![
                '/',
            ] + "main_bin"@,
            _ => res.artifact is None,
        },
{
    let lang = input.language;
    let entrypoint: String = match &input.entrypoint {
        Some(e) => e.clone(),
        None => owned(lang.default_file()),
    };
    let mount_slash = concat(cfg.container_ws_path.as_str(), "/");
    proof {
        reveal_strlit("/");
        assert("/"@ =~= seq!['/']);
    }
    let container_entrypoint = concat(mount_slash.as_str(), entrypoint.as_str());
    let command = run_command(lang, container_entrypoint.as_str(), &input.args, &input.compile_args);
    let env: Option<Vec<String>> = match &input.env {
        Some(pairs) => Some(env_assignments(pairs)),
        None => None,
    };
    let timeout_secs = match input.timeout_secs {
        Some(t) => t,
        None => 60,
    };
    let artifact: Option<String> = match lang {
        Language::Rust => Some(concat(mount_slash.as_str(), "main_bin")),
        _ => None,
    };
    ExecPlan {
        lang_slug: owned(lang.slug()),
        entrypoint,
        container_entrypoint,
        code: input.code.clone(),
        command,
        env,
        timeout_secs,
        artifact,
    }
}

/// The program's arguments reach it unchanged and in order, whatever the
/// language: for Python, Go and Bun the command is the launcher, the entry
/// point, then exactly the arguments, so giving arguments appends exactly them
/// to the command run without; for Rust they end the shell line, after a space
/// and joined by spaces.
pub proof fn law_args_reach_program(
    lang: Language,
    ep: Seq<char>,
    args: Seq<Seq<char>>,
    compile_args: Option<Seq<Seq<char>>>,
)
    ensures
        lang == Language::Python ==> run_command_spec(lang, ep, Some(args), compile_args) == seq![
            "python"@,
            ep,
        ] + args,
        lang == Language::Go ==> run_command_spec(lang, ep, Some(args), compile_args) == seq![
            "go"@,
            "run"@,
            ep,
        ] + args,
        lang == Language::Bun ==> run_command_spec(lang, ep, Some(args), compile_args) == seq![
            "bun"@,
            "run"@,
            ep,
        ] + args,
        lang != Language::Rust ==> run_command_spec(lang, ep, Some(args), compile_args)
            == run_command_spec(lang, ep, None, compile_args) + args,
        lang == Language::Rust ==> run_command_spec(lang, ep, Some(args), compile_args) == seq![
            "/bin/sh"@,
            "-c"@,
            run_command_spec(lang, ep, None, compile_args)[2] + seq![' '] + join_with(
                args,
                seq![' '],
            ),
        ],
{
    let none = run_command_spec(lang, ep, None, compile_args);
    if lang != Language::Rust {
        assert(none + Seq::<Seq<char>>::empty() =~= none);
        assert(run_command_spec(lang, ep, Some(args), compile_args) =~= none + args);
    } else {
        let line = rust_line(ep, None, compile_args);
        assert(line + Seq::<char>::empty() =~= line);
        assert(rust_line(ep, Some(args), compile_args) =~= line + seq![' '] + join_with(
            args,
            seq![' '],
        ));
        assert(run_command_spec(lang, ep, Some(args), compile_args) =~= seq![
            "/bin/sh"@,
            "-c"@,
            line + seq![' '] + join_with(args, seq![' ']),
        ]);
    }
}

} // verus!
