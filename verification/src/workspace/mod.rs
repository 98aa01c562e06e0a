//! The per-language workspaces on the host, and the lexical confinement of the
//! paths that clients name inside them.
use vstd::prelude::*;
use crate::config::Config;
use crate::errors::{ErrorView, SunabaError};
use crate::lexical::{
    components, is_normal, lemma_components_join, lemma_join_split, lemma_normalize_names, lemma_normalized_are_names, lemma_split_slash_free,
    is_absolute, join_path, join_paths, normalize_pieces, normalize_segments,
    path_starts_with, path_starts_with_spec, split_segments, split_slash, Lexed,
};
use crate::text::{opt_view, dir_prefix, has_dir_prefix, join_strings, join_with, owned, strip_slash, strs, suffix_from, without_leading_slash};

pub mod path;

verus! {

/// Why a path named by a client was refused.
pub enum Rejection {
    /// An absolute path that is not under the container's mount point.
    OutsideWorkspace,
    /// A path that leads out of the workspace.
    Escapes,
    /// A path that is still absolute after the mount point was taken off.
    InvalidAbsolute,
}

/// The text of the error for a refused path.
pub open spec fn rejection_message(r: Rejection) -> Seq<char> {
    match r {
        Rejection::OutsideWorkspace => "absolute paths outside container workspace are not allowed"@,
        Rejection::Escapes => "path escapes workspace"@,
        Rejection::InvalidAbsolute => "invalid absolute path"@,
    }
}

/// The error reported for a refused path.
pub open spec fn rejection_error(r: Rejection) -> ErrorView {
    ErrorView::InvalidInput(rejection_message(r))
}

pub fn rejection(r: Rejection) -> (res: SunabaError)
    ensures
        res@ == rejection_error(r),
{
    let msg = match r {
        Rejection::OutsideWorkspace => "absolute paths outside container workspace are not allowed",
        Rejection::Escapes => "path escapes workspace",
        Rejection::InvalidAbsolute => "invalid absolute path",
    };
    SunabaError::InvalidInput(owned(msg))
}

/// The host directory of the workspace of `lang`.
pub open spec fn language_dir_spec(ws_root: Seq<char>, lang: Seq<char>) -> Seq<char> {
    join_path(ws_root, lang)
}

/// The host directory of the workspace of `lang`: the workspace root joined with it.
pub fn language_dir(cfg: &Config, lang: &str) -> (res: String)
    ensures
        res@ == language_dir_spec(cfg.ws_root@, lang@),
{
    join_paths(cfg.ws_root.as_str(), lang)
}

/// The host directories of the workspaces of `langs`, in order.
pub fn language_dirs(cfg: &Config, langs: &Vec<String>) -> (res: Vec<String>)
    ensures
        res@.len() == langs@.len(),
        forall|i: int|
            0 <= i < langs@.len() ==> #[trigger] res@[i]@ == language_dir_spec(
                cfg.ws_root@,
                langs@[i]@,
            ),
{
    let mut res: Vec<String> = Vec::new();
    let mut i: usize = 0;
    while i < langs.len()
        invariant
            i <= langs@.len(),
            res@.len() == i,
            forall|k: int|
                0 <= k < i ==> #[trigger] res@[k]@ == language_dir_spec(cfg.ws_root@, langs@[k]@),
        decreases langs@.len() - i,
    {
        res.push(language_dir(cfg, langs[i].as_str()));
        i = i + 1;
    }
    res
}

/// The directories that had to be created: those whose flag says they did not exist.
pub open spec fn created_dirs(dirs: Seq<Seq<char>>, exists: Seq<bool>) -> Seq<Seq<char>>
    decreases dirs.len(),
{
    if dirs.len() == 0 {
        Seq::empty()
    } else {
        let prev = created_dirs(dirs.drop_last(), exists.take(dirs.len() - 1));
        if exists[dirs.len() - 1] {
            prev
        } else {
            prev.push(dirs.last())
        }
    }
}

/// The directories that were already there.
pub open spec fn existing_dirs(dirs: Seq<Seq<char>>, exists: Seq<bool>) -> Seq<Seq<char>>
    decreases dirs.len(),
{
    if dirs.len() == 0 {
        Seq::empty()
    } else {
        let prev = existing_dirs(dirs.drop_last(), exists.take(dirs.len() - 1));
        if exists[dirs.len() - 1] {
            prev.push(dirs.last())
        } else {
            prev
        }
    }
}

/// Sorts workspace directories into those created now and those that existed,
/// each list in the order of `dirs`.
pub fn partition_by_existence(dirs: Vec<String>, exists: &Vec<bool>) -> (res: (
    Vec<String>,
    Vec<String>,
))
    requires
        dirs@.len() == exists@.len(),
    ensures
        strs(res.0@) == created_dirs(strs(dirs@), exists@),
        strs(res.1@) == existing_dirs(strs(dirs@), exists@),
{
    let mut created: Vec<String> = Vec::new();
    let mut existing: Vec<String> = Vec::new();
    let n = dirs.len();
    let mut i: usize = 0;
    proof {
        assert(strs(dirs@).take(0) =~= Seq::<Seq<char>>::empty());
        assert(strs(created@) =~= Seq::<Seq<char>>::empty());
        assert(strs(existing@) =~= Seq::<Seq<char>>::empty());
    }
    while i < n
        invariant
            n == dirs@.len(),
            n == exists@.len(),
            i <= n,
            strs(created@) == created_dirs(strs(dirs@).take(i as int), exists@.take(i as int)),
            strs(existing@) == existing_dirs(strs(dirs@).take(i as int), exists@.take(i as int)),
        decreases n - i,
    {
        let ghost all = strs(dirs@);
        let ghost c0 = strs(created@);
        let ghost e0 = strs(existing@);
        assert(all.take(i + 1).drop_last() =~= all.take(i as int));
        assert(exists@.take(i + 1).take(i as int) =~= exists@.take(i as int));
        assert(all.take(i + 1).last() == dirs@[i as int]@);
        assert(exists@.take(i + 1)[i as int] == exists@[i as int]);
        let d = dirs[i].clone();
        if exists[i] {
            existing.push(d);
            assert(strs(existing@) =~= e0.push(dirs@[i as int]@));
        } else {
            created.push(d);
            assert(strs(created@) =~= c0.push(dirs@[i as int]@));
        }
        i = i + 1;
    }
    assert(strs(dirs@).take(n as int) =~= strs(dirs@));
    assert(exists@.take(n as int) =~= exists@);
    (created, existing)
}

/// Every workspace directory is reported exactly once: as created where it did
/// not exist, as existing where it did.
pub proof fn law_partition_reports_each_dir(dirs: Seq<Seq<char>>, exists: Seq<bool>)
    requires
        dirs.len() == exists.len(),
    ensures
        created_dirs(dirs, exists).len() + existing_dirs(dirs, exists).len() == dirs.len(),
        forall|i: int|
            0 <= i < dirs.len() ==> (if exists[i] {
                existing_dirs(dirs, exists).contains(#[trigger] dirs[i])
            } else {
                created_dirs(dirs, exists).contains(dirs[i])
            }),
    decreases dirs.len(),
{
    if dirs.len() > 0 {
        let n = dirs.len() - 1;
        let d0 = dirs.drop_last();
        let e0 = exists.take(n as int);
        law_partition_reports_each_dir(d0, e0);
        let c = created_dirs(dirs, exists);
        let x = existing_dirs(dirs, exists);
        assert forall|i: int| 0 <= i < dirs.len() implies (if exists[i] {
            x.contains(#[trigger] dirs[i])
        } else {
            c.contains(dirs[i])
        }) by {
            if i == n {
                if exists[i] {
                    assert(x[x.len() - 1] == dirs[i]);
                } else {
                    assert(c[c.len() - 1] == dirs[i]);
                }
            } else {
                assert(d0[i] == dirs[i]);
                assert(e0[i] == exists[i]);
                if exists[i] {
                    let k = choose|k: int| 0 <= k < existing_dirs(d0, e0).len() && existing_dirs(d0, e0)[k] == dirs[i];
                    assert(x[k] == dirs[i]);
                } else {
                    let k = choose|k: int| 0 <= k < created_dirs(d0, e0).len() && created_dirs(d0, e0)[k] == dirs[i];
                    assert(c[k] == dirs[i]);
                }
            }
        }
    }
}

/// `rel_path` without the container's mount point and the slash after it, where
/// the mount point begins it as whole components.
pub open spec fn strip_mount(rel_path: Seq<char>, mount: Seq<char>) -> Seq<char> {
    if dir_prefix(rel_path, mount) {
        strip_slash(rel_path.skip(mount.len() as int))
    } else {
        rel_path
    }
}

/// Where a client's path lands, lexically: a path under the mount point (the
/// mount point itself, or it followed by a slash) is taken relative to the
/// workspace; another absolute path is refused; `.` and `..` are
/// resolved without leaving the workspace of `lang`.
pub open spec fn safe_path_spec(
    ws_root: Seq<char>,
    mount: Seq<char>,
    lang: Seq<char>,
    rel_path: Seq<char>,
) -> Result<Seq<char>, Rejection> {
    let rel = strip_mount(rel_path, mount);
    if is_absolute(rel_path) && !dir_prefix(rel_path, mount) {
        Err(Rejection::OutsideWorkspace)
    } else if is_absolute(rel) {
        Err(Rejection::InvalidAbsolute)
    } else {
        match normalize_pieces(split_slash(rel)) {
            Lexed::Escapes => Err(Rejection::Escapes),
            Lexed::Inside(st) => Ok(
                join_path(language_dir_spec(ws_root, lang), join_with(st, seq!['/'])),
            ),
        }
    }
}

/// The host path of the file that a client names as `rel_path` in the workspace
/// of `lang`, as far as it is decided lexically (see `confine_to_base` for the
/// confinement against the file system).
pub fn resolve_safe_path(cfg: &Config, lang: &str, rel_path: &str) -> (res: Result<
    String,
    SunabaError,
>)
    ensures
        match safe_path_spec(cfg.ws_root@, cfg.container_ws_path@, lang@, rel_path@) {
            Ok(t) => res matches Ok(p) && p@ == t,
            Err(r) => res matches Err(e) && e@ == rejection_error(r),
        },
{
    let base = language_dir(cfg, lang);
    let mount = cfg.container_ws_path.as_str();
    let under_mount = has_dir_prefix(rel_path, mount);
    let rel: String = if under_mount {
        let rest = suffix_from(rel_path, mount.unicode_len());
        without_leading_slash(rest.as_str())
    } else {
        owned(rel_path)
    };
    let abs_in = rel_path.unicode_len() > 0 && rel_path.get_char(0) == '/';
    if abs_in && !under_mount {
        return Err(rejection(Rejection::OutsideWorkspace));
    }
    let r = rel.as_str();
    if r.unicode_len() > 0 && r.get_char(0) == '/' {
        return Err(rejection(Rejection::InvalidAbsolute));
    }
    let segs = split_segments(r);
    match normalize_segments(&segs) {
        None => Err(rejection(Rejection::Escapes)),
        Some(st) => {
            let joined = join_strings(&st, "/");
            proof {
                reveal_strlit("/");
                assert("/"@ =~= seq!['/']);
            }
            Ok(join_paths(base.as_str(), joined.as_str()))
        },
    }
}

/// The confinement tested against the file system after the lexical one: the target,
/// canonical where it exists, must lie under the canonical workspace, unless it
/// is a relative path. `canon_base` and `canon_target` are what canonicalising
/// `base` and `target` gave, `None` where that failed.
pub open spec fn confine_spec(
    base: Seq<char>,
    target: Seq<char>,
    canon_base: Option<Seq<char>>,
    canon_target: Option<Seq<char>>,
) -> bool {
    let cb = match canon_base {
        Some(b) => b,
        None => base,
    };
    let ct = match canon_target {
        Some(t) => t,
        None => target,
    };
    !is_absolute(ct) || path_starts_with_spec(ct, cb)
}

/// Accepts `target` if, as the file system resolves it, it lies within `base`.
pub fn confine_to_base(
    base: &str,
    target: String,
    canon_base: Option<String>,
    canon_target: Option<String>,
) -> (res: Result<String, SunabaError>)
    ensures
        confine_spec(
            base@,
            target@,
            match canon_base {
                Some(b) => Some(b@),
                None => None,
            },
            match canon_target {
                Some(t) => Some(t@),
                None => None,
            },
        ) ==> (res matches Ok(p) && p@ == target@),
        canon_target is None && !is_absolute(target@) ==> (res matches Ok(p) && p@ == target@),
        !confine_spec(
            base@,
            target@,
            match canon_base {
                Some(b) => Some(b@),
                None => None,
            },
            match canon_target {
                Some(t) => Some(t@),
                None => None,
            },
        ) ==> (res matches Err(e) && e@ == rejection_error(Rejection::Escapes)),
{
    let cb: String = match canon_base {
        Some(b) => b,
        None => owned(base),
    };
    let ct: String = match canon_target {
        Some(t) => t,
        None => target.clone(),
    };
    let c = ct.as_str();
    let absolute = c.unicode_len() > 0 && c.get_char(0) == '/';
    if absolute && !path_starts_with(c, cb.as_str()) {
        return Err(rejection(Rejection::Escapes));
    }
    Ok(target)
}

/// A path accepted by the lexical resolution lies inside the workspace of its
/// language: the workspace's components begin it, and every component after
/// them names an entry (none is `..`).
pub proof fn law_safe_path_within_workspace(
    ws_root: Seq<char>,
    mount: Seq<char>,
    lang: Seq<char>,
    rel_path: Seq<char>,
)
    ensures
        safe_path_spec(ws_root, mount, lang, rel_path) matches Ok(t) ==> {
            let base = language_dir_spec(ws_root, lang);
            &&& path_starts_with_spec(t, base)
            &&& forall|k: int|
                components(base).len() <= k < components(t).len() ==> is_normal(
                    #[trigger] components(t)[k],
                )
        },
{
    let rel = strip_mount(rel_path, mount);
    lemma_split_slash_free(rel);
    lemma_normalized_are_names(split_slash(rel));
    if let Ok(t) = safe_path_spec(ws_root, mount, lang, rel_path) {
        if let Lexed::Inside(st) = normalize_pieces(split_slash(rel)) {
            let base = language_dir_spec(ws_root, lang);
            lemma_components_join(base, st);
            let cb = components(base);
            let ct = components(t);
            assert(ct == cb + st);
            assert forall|k: int| 0 <= k < cb.len() implies cb[k] == ct[k] by {}
            assert forall|k: int| cb.len() <= k < ct.len() implies is_normal(#[trigger] ct[k]) by {
                assert(ct[k] == st[k - cb.len()]);
            }
        }
    }
}

/// A path spelled from the container's mount point names the same file as
/// the same path spelled relative to the workspace.
pub proof fn law_mount_spelling_is_relative(
    ws_root: Seq<char>,
    mount: Seq<char>,
    lang: Seq<char>,
    r: Seq<char>,
)
    requires
        is_absolute(mount),
        !is_absolute(r),
    ensures
        safe_path_spec(ws_root, mount, lang, mount + seq!['/'] + r) == safe_path_spec(
            ws_root,
            mount,
            lang,
            r,
        ),
{
    let p = mount + seq!['/'] + r;
    assert(mount.is_prefix_of(p));
    assert(p[mount.len() as int] == '/');
    assert(dir_prefix(p, mount));
    assert(p.skip(mount.len() as int) =~= seq!['/'] + r);
    assert((seq!['/'] + r).skip(1) =~= r);
    assert(strip_mount(p, mount) == r);
    assert(!dir_prefix(r, mount)) by {
        if mount.is_prefix_of(r) {
            assert(r[0] == mount[0]);
        }
    }
    assert(strip_mount(r, mount) == r);
}

/// Where a client's path lands once both tests are made: the lexical
/// resolution of `safe_path_spec`, then the confinement of `confine_spec`
/// against what canonicalising the workspace and the resolved path gave.
pub open spec fn confined_path_spec(
    ws_root: Seq<char>,
    mount: Seq<char>,
    lang: Seq<char>,
    rel_path: Seq<char>,
    canon_base: Option<Seq<char>>,
    canon_target: Option<Seq<char>>,
) -> Result<Seq<char>, Rejection> {
    match safe_path_spec(ws_root, mount, lang, rel_path) {
        Err(r) => Err(r),
        Ok(t) => if confine_spec(language_dir_spec(ws_root, lang), t, canon_base, canon_target) {
            Ok(t)
        } else {
            Err(Rejection::Escapes)
        },
    }
}

/// The host path of the file that a client names as `rel_path` in the workspace
/// of `lang`: resolved lexically, then confined to the workspace as the file
/// system resolves it. `canon_base` and `canon_target` are what canonicalising
/// the workspace directory and the lexically resolved path gave (`None` where
/// that failed).
pub fn confined_path(
    cfg: &Config,
    lang: &str,
    rel_path: &str,
    canon_base: Option<String>,
    canon_target: Option<String>,
) -> (res: Result<String, SunabaError>)
    ensures
        match confined_path_spec(
            cfg.ws_root@,
            cfg.container_ws_path@,
            lang@,
            rel_path@,
            opt_view(canon_base),
            opt_view(canon_target),
        ) {
            Ok(t) => res matches Ok(p) && p@ == t,
            Err(r) => res matches Err(e) && e@ == rejection_error(r),
        },
{
    let target = resolve_safe_path(cfg, lang, rel_path)?;
    let base = language_dir(cfg, lang);
    confine_to_base(base.as_str(), target, canon_base, canon_target)
}

/// A path accepted by both tests lies inside the workspace of its language
/// lexically (as `law_safe_path_within_workspace` states), and, where the file
/// system resolves it to an absolute path, that path lies within the workspace
/// as the file system resolves it.
pub proof fn law_confined_path_within_workspace(
    ws_root: Seq<char>,
    mount: Seq<char>,
    lang: Seq<char>,
    rel_path: Seq<char>,
    canon_base: Option<Seq<char>>,
    canon_target: Option<Seq<char>>,
)
    ensures
        confined_path_spec(ws_root, mount, lang, rel_path, canon_base, canon_target) matches Ok(
            t,
        ) ==> {
            let base = language_dir_spec(ws_root, lang);
            let cb = match canon_base {
                Some(b) => b,
                None => base,
            };
            let ct = match canon_target {
                Some(c) => c,
                None => t,
            };
            &&& path_starts_with_spec(t, base)
            &&& forall|k: int|
                components(base).len() <= k < components(t).len() ==> is_normal(
                    #[trigger] components(t)[k],
                )
            &&& (is_absolute(ct) ==> path_starts_with_spec(ct, cb))
        },
{
    law_safe_path_within_workspace(ws_root, mount, lang, rel_path);
}

/// Once every workspace directory exists, preparing them again creates none
/// and reports each as existing, in order.
pub proof fn law_prepared_dirs_all_existing(dirs: Seq<Seq<char>>, exists: Seq<bool>)
    requires
        dirs.len() == exists.len(),
        forall|i: int| 0 <= i < exists.len() ==> #[trigger] exists[i],
    ensures
        created_dirs(dirs, exists) == Seq::<Seq<char>>::empty(),
        existing_dirs(dirs, exists) == dirs,
    decreases dirs.len(),
{
    if dirs.len() > 0 {
        let n = dirs.len() - 1;
        let e0 = exists.take(n as int);
        assert forall|i: int| 0 <= i < e0.len() implies #[trigger] e0[i] by {
            assert(e0[i] == exists[i]);
        }
        law_prepared_dirs_all_existing(dirs.drop_last(), e0);
        assert(exists[n as int]);
        assert(dirs.drop_last().push(dirs.last()) =~= dirs);
    }
}

/// Completeness of the lexical resolution: a relative path made only of entry
/// names (none empty, `.` or `..`) is accepted as it stands, at the workspace
/// directory (the root joined with the language) joined with that very path,
/// whatever its names look like, dot-files included.
pub proof fn law_names_are_accepted(ws_root: Seq<char>, mount: Seq<char>, lang: Seq<char>, r: Seq<
    char,
>)
    requires
        is_absolute(mount),
        !is_absolute(r),
        forall|i: int| 0 <= i < split_slash(r).len() ==> is_normal(#[trigger] split_slash(r)[i]),
    ensures
        safe_path_spec(ws_root, mount, lang, r) == Ok::<Seq<char>, Rejection>(
            join_path(join_path(ws_root, lang), r),
        ),
{
    assert(!dir_prefix(r, mount)) by {
        if mount.is_prefix_of(r) {
            assert(r[0] == mount[0]);
        }
    }
    assert(strip_mount(r, mount) == r);
    lemma_normalize_names(split_slash(r));
    lemma_join_split(r);
}

/// What the file system test may refuse: a resolved target that is relative,
/// and in particular a target that cannot be resolved (a file not yet there)
/// whose lexical path is relative, is accepted whatever the workspace resolves
/// to; a refusal means the resolved target is absolute and does not lie within
/// the resolved workspace.
pub proof fn law_only_absolute_outside_targets_refused(
    base: Seq<char>,
    target: Seq<char>,
    canon_base: Option<Seq<char>>,
    canon_target: Option<Seq<char>>,
)
    ensures
        canon_target is None && !is_absolute(target) ==> confine_spec(
            base,
            target,
            canon_base,
            canon_target,
        ),
        canon_target matches Some(c) && !is_absolute(c) ==> confine_spec(
            base,
            target,
            canon_base,
            canon_target,
        ),
        !confine_spec(base, target, canon_base, canon_target) ==> {
            let cb = match canon_base {
                Some(b) => b,
                None => base,
            };
            let ct = match canon_target {
                Some(c) => c,
                None => target,
            };
            is_absolute(ct) && !components(cb).is_prefix_of(components(ct))
        },
{
}

/// A file not yet there, named by a path that resolves lexically to a relative
/// target, is accepted at that target once both tests are made.
pub proof fn law_new_relative_file_accepted(
    ws_root: Seq<char>,
    mount: Seq<char>,
    lang: Seq<char>,
    rel_path: Seq<char>,
    canon_base: Option<Seq<char>>,
)
    ensures
        safe_path_spec(ws_root, mount, lang, rel_path) matches Ok(t) ==> (!is_absolute(t)
            ==> confined_path_spec(ws_root, mount, lang, rel_path, canon_base, None) == Ok::<
            Seq<char>,
            Rejection,
        >(t)),
{
    if let Ok(t) = safe_path_spec(ws_root, mount, lang, rel_path) {
        law_only_absolute_outside_targets_refused(
            language_dir_spec(ws_root, lang),
            t,
            canon_base,
            None,
        );
    }
}

} // verus!
