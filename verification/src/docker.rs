//! What the sandbox asks of Docker: which container and image serve a
//! language, how a container is set up, and how its outputs are gathered.
use vstd::prelude::*;
use crate::config::Config;
use crate::models::{slug_spec, Language};
use crate::text::{concat, owned};
use crate::workspace::{language_dir, language_dir_spec};

verus! {

/// The container name, image and workspace directory name of `lang`.
pub fn names_for(cfg: &Config, lang: &Language) -> (res: (String, String, String))
    ensures
        res.0 == cfg.containers.spec_for(*lang),
        res.1 == cfg.images.spec_for(*lang),
        res.2@ == slug_spec(*lang),
        *lang == Language::Python ==> res.0 == cfg.containers.python && res.1 == cfg.images.python,
        *lang == Language::Rust ==> res.0 == cfg.containers.rust && res.1 == cfg.images.rust,
        *lang == Language::Go ==> res.0 == cfg.containers.go && res.1 == cfg.images.go,
        *lang == Language::Bun ==> res.0 == cfg.containers.bun && res.1 == cfg.images.bun,
{
    let container = cfg.containers.for_language(*lang).clone();
    let image = cfg.images.for_language(*lang).clone();
    (container, image, owned(lang.slug()))
}

/// The name of the container that serves `lang`.
pub fn container_name_for(cfg: &Config, lang: &Language) -> (res: String)
    ensures
        res == cfg.containers.spec_for(*lang),
{
    names_for(cfg, lang).0
}

/// The index of the last `c` in `s`, or -1 where there is none.
pub open spec fn last_index_of(s: Seq<char>, c: char) -> int
    decreases s.len(),
{
    if s.len() == 0 {
        -1
    } else if s.last() == c {
        s.len() - 1
    } else {
        last_index_of(s.drop_last(), c)
    }
}

/// An image reference split into repository and tag at its last colon; where
/// there is no colon, or nothing follows it, the tag is `latest`.
pub open spec fn image_ref_spec(image: Seq<char>) -> (Seq<char>, Seq<char>) {
    let k = last_index_of(image, ':');
    if k >= 0 && k + 1 < image.len() {
        (image.take(k), image.skip(k + 1))
    } else {
        (image, "latest"@)
    }
}

proof fn lemma_last_index(s: Seq<char>, c: char)
    ensures
        -1 <= last_index_of(s, c) < s.len(),
        last_index_of(s, c) >= 0 ==> s[last_index_of(s, c)] == c,
        forall|j: int| last_index_of(s, c) < j < s.len() ==> s[j] != c,
    decreases s.len(),
{
    if s.len() > 0 && s.last() != c {
        lemma_last_index(s.drop_last(), c);
        assert forall|j: int| last_index_of(s, c) < j < s.len() implies s[j] != c by {
            if j < s.len() - 1 {
                assert(s[j] == s.drop_last()[j]);
            }
        }
    }
}

/// The repository and tag to pull for `image`.
pub fn split_image_ref(image: &str) -> (res: (String, String))
    ensures
        res.0@ == image_ref_spec(image@).0,
        res.1@ == image_ref_spec(image@).1,
{
    let n = image.unicode_len();
    let mut i: usize = n;
    assert(image@.take(n as int) =~= image@);
    while i > 0
        invariant
            i <= n,
            n == image@.len(),
            last_index_of(image@, ':') == last_index_of(image@.take(i as int), ':'),
        decreases i,
    {
        assert(image@.take(i as int).drop_last() =~= image@.take(i - 1));
        if image.get_char(i - 1) == ':' {
            assert(image@.take(i as int).last() == ':');
            let k = i - 1;
            if k + 1 < n {
                let name = String::from_str(image.substring_char(0, k));
                let tag = String::from_str(image.substring_char(k + 1, n));
                return (name, tag);
            } else {
                return (owned(image), owned("latest"));
            }
        }
        i = i - 1;
    }
    assert(image@.take(0) =~= Seq::<char>::empty());
    (owned(image), owned("latest"))
}

/// Where an image reference has a tag, repository and tag put back together
/// give the reference again, and the tag holds no colon.
pub proof fn law_image_ref_round_trip(image: Seq<char>)
    ensures
        last_index_of(image, ':') >= 0 && last_index_of(image, ':') + 1 < image.len() ==> {
            &&& image_ref_spec(image).0 + seq![':'] + image_ref_spec(image).1 == image
            &&& forall|j: int|
                0 <= j < image_ref_spec(image).1.len() ==> image_ref_spec(image).1[j] != ':'
        },
{
    lemma_last_index(image, ':');
    let k = last_index_of(image, ':');
    if k >= 0 && k + 1 < image.len() {
        assert(image.take(k) + seq![':'] + image.skip(k + 1) =~= image);
        let tail = image.skip(k + 1);
        assert forall|j: int| 0 <= j < tail.len() implies #[trigger] tail[j] != ':' by {
            assert(tail[j] == image[k + 1 + j]);
        }
    }
}

/// How a language container is created.
#[derive(Clone, Debug)]
pub struct ContainerPlan {
    pub name: String,
    pub image: String,
    /// Bind mounts, each `host:container`.
    pub binds: Vec<String>,
    pub cmd: Vec<String>,
    pub tty: bool,
    pub open_stdin: bool,
}

/// The host directory bound into the container: the workspace directory as the
/// file system resolves it, or as configured where it cannot be resolved.
pub open spec fn host_ws_spec(cfg: &Config, lang: Language, canonical: Option<String>) -> Seq<
    char,
> {
    match canonical {
        Some(c) => c@,
        None => language_dir_spec(cfg.ws_root@, slug_spec(lang)),
    }
}

/// The container for `lang`: its name and image, its workspace bound at the mount
/// point, kept alive by a shell that sleeps, with a terminal and open stdin.
/// `canonical_ws` is the workspace directory as the file system resolves it.
pub fn container_plan(cfg: &Config, lang: &Language, canonical_ws: Option<String>) -> (res:
    ContainerPlan)
    ensures
        res.name == cfg.containers.spec_for(*lang),
        res.image == cfg.images.spec_for(*lang),
        *lang == Language::Python ==> res.name == cfg.containers.python && res.image == cfg.images.python,
        *lang == Language::Rust ==> res.name == cfg.containers.rust && res.image == cfg.images.rust,
        *lang == Language::Go ==> res.name == cfg.containers.go && res.image == cfg.images.go,
        *lang == Language::Bun ==> res.name == cfg.containers.bun && res.image == cfg.images.bun,
        res.binds@.len() == 1,
        res.binds@[0]@ == host_ws_spec(cfg, *lang, canonical_ws) + seq![':']
            + cfg.container_ws_path@,
        res.cmd@.len() == 3,
        res.cmd@[0]@ == "/bin/sh"@,
        res.cmd@[1]@ == "-c"@,
        res.cmd@[2]@ == "sleep infinity"@,
        res.tty,
        res.open_stdin,
{
    let (name, image, ws_lang) = names_for(cfg, lang);
    let host_ws: String = match canonical_ws {
        Some(c) => c,
        None => language_dir(cfg, ws_lang.as_str()),
    };
    let with_colon = concat(host_ws.as_str(), ":");
    let bind = concat(with_colon.as_str(), cfg.container_ws_path.as_str());
    proof {
        reveal_strlit(":");
        assert(":"@ =~= seq![':']);
    }
    let mut binds: Vec<String> = Vec::new();
    binds.push(bind);
    let mut cmd: Vec<String> = Vec::new();
    cmd.push(owned("/bin/sh"));
    cmd.push(owned("-c"));
    cmd.push(owned("sleep infinity"));
    ContainerPlan { name, image, binds, cmd, tty: true, open_stdin: true }
}

/// Whether `secs` seconds, taken as a signed 64-bit number, fits the stop
/// timeout that Docker takes.
pub open spec fn stop_timeout_fits(secs: u64) -> bool {
    i32::MIN <= (secs as i64) <= i32::MAX
}

/// The stop timeout handed to Docker for `secs` seconds.
pub fn stop_timeout_arg(secs: u64) -> (res: i32)
    requires
        stop_timeout_fits(secs),
    ensures
        res == secs as i64,
{
    let wide = secs as i64;
    wide as i32
}

/// What inspecting a container reported of its state.
#[derive(Clone, Copy, Debug, PartialEq, Eq)]
pub struct ContainerState {
    pub running: Option<bool>,
    pub pid: Option<i64>,
}

/// Whether a container exists, whether it runs, and its process id, from an
/// inspection: `None` where the inspection failed, else the state it reported.
pub fn status_of(inspection: Option<Option<ContainerState>>) -> (res: (bool, bool, Option<i64>))
    ensures
        inspection is None ==> res == (false, false, None::<i64>),
        inspection matches Some(state) ==> res.0,
        inspection matches Some(state) ==> res.1 == (state matches Some(s) && s.running
            == Some(true)),
        inspection matches Some(state) ==> res.2 == (match state {
            Some(s) => s.pid,
            None => None,
        }),
{
    match inspection {
        None => (false, false, None),
        Some(state) => {
            let running = match state {
                Some(s) => match s.running {
                    Some(r) => r,
                    None => false,
                },
                None => false,
            };
            let pid = match state {
                Some(s) => s.pid,
                None => None,
            };
            (true, running, pid)
        },
    }
}

/// A stream of output of a command run in a container.
#[derive(Clone, Copy, Debug, PartialEq, Eq, Structural)]
pub enum LogStream {
    StdIn,
    StdOut,
    StdErr,
    Console,
}

/// The output of a command gathered so far.
#[derive(Clone, Debug)]
pub struct ExecCapture {
    pub stdout: String,
    pub stderr: String,
}

/// What a command run in a container gave.
#[derive(Clone, Debug)]
pub struct ExecResult {
    pub exit_code: i64,
    pub stdout: String,
    pub stderr: String,
}

impl ExecCapture {
    /// Nothing gathered yet.
    pub fn new() -> (res: ExecCapture)
        ensures
            res.stdout@ == Seq::<char>::empty(),
            res.stderr@ == Seq::<char>::empty(),
    {
        ExecCapture { stdout: String::new(), stderr: String::new() }
    }

    /// Adds a chunk of output: standard output and console output go to
    /// `stdout`, standard error to `stderr`, and input echoed back is dropped.
    pub fn record(&mut self, stream: LogStream, text: &str)
        ensures
            final(self).stdout@ == (if stream == LogStream::StdOut || stream == LogStream::Console {
                old(self).stdout@ + text@
            } else {
                old(self).stdout@
            }),
            final(self).stderr@ == (if stream == LogStream::StdErr {
                old(self).stderr@ + text@
            } else {
                old(self).stderr@
            }),
    {
        match stream {
            LogStream::StdOut => self.stdout.append(text),
            LogStream::Console => self.stdout.append(text),
            LogStream::StdErr => self.stderr.append(text),
            LogStream::StdIn => {},
        }
    }

    /// Takes the next item of the output stream, `None` where the stream has
    /// ended and `Err` where reading it failed, and says whether to read on:
    /// reading stops, silently, at the end or at the first error, and a chunk
    /// read is recorded as `record` does.
    pub fn absorb(&mut self, next: Option<Result<(LogStream, String), ()>>) -> (more: bool)
        ensures
            more == (next matches Some(Ok(_))),
            match next {
                Some(Ok((stream, text))) => {
                    &&& final(self).stdout@ == (if stream == LogStream::StdOut || stream
                        == LogStream::Console {
                        old(self).stdout@ + text@
                    } else {
                        old(self).stdout@
                    })
                    &&& final(self).stderr@ == (if stream == LogStream::StdErr {
                        old(self).stderr@ + text@
                    } else {
                        old(self).stderr@
                    })
                },
                _ => *final(self) == *old(self),
            },
    {
        match next {
            Some(Ok((stream, text))) => {
                self.record(stream, text.as_str());
                true
            },
            _ => false,
        }
    }

    /// The result, with the exit code that Docker reported, or 0 where it
    /// reported none.
    pub fn finish(self, exit_code: Option<i64>) -> (res: ExecResult)
        ensures
            res.stdout == self.stdout,
            res.stderr == self.stderr,
            res.exit_code == (match exit_code {
                Some(c) => c,
                None => 0,
            }),
    {
        let code = match exit_code {
            Some(c) => c,
            None => 0,
        };
        ExecResult { exit_code: code, stdout: self.stdout, stderr: self.stderr }
    }
}

} // verus!
