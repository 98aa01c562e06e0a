//! Mapping a path given in any of its accepted spellings onto the workspace.
use vstd::prelude::*;
use crate::config::Config;
use crate::errors::SunabaError;
use crate::lexical::{
    lemma_join_split, lemma_normalize_joined, lemma_normalize_names, lemma_normalized_are_names, is_normal, lemma_split_slash_free,
    is_absolute, join_path, join_paths, normalize_pieces, normalize_segments, split_segments,
    split_slash, Lexed,
};
use crate::text::{concat, dir_prefix, has_prefix, join_strings, join_with, owned, strip_slash, suffix_from, without_leading_slash};
use super::{safe_path_spec, language_dir, language_dir_spec, rejection, rejection_error, Rejection};

verus! {

/// A path in a workspace, in the three forms that are handed out.
#[derive(Clone, Debug)]
pub struct PathSpec {
    /// Relative to the workspace, normalised.
    pub rel: String,
    /// On the host.
    pub host: String,
    /// Inside the container.
    pub container: String,
}

/// A `PathSpec` with its texts as character sequences.
pub struct PathSpecView {
    pub rel: Seq<char>,
    pub host: Seq<char>,
    pub container: Seq<char>,
}

impl View for PathSpec {
    type V = PathSpecView;

    open spec fn view(&self) -> PathSpecView {
        PathSpecView { rel: self.rel@, host: self.host@, container: self.container@ }
    }
}

/// The directory name of a language's workspace: the language's identifier itself.
pub fn lang_slug(lang: &str) -> (res: &str)
    ensures
        res@ == lang@,
{
    lang
}

/// The path relative to the workspace that `input` spells: it may start with the
/// container's mount point, with the workspace's host directory (as the file
/// system resolves it, `host_abs`, or as configured), each taken off as text,
/// or with the language's directory name and a slash; any other absolute path
/// is refused.
pub open spec fn relative_spelling(
    ws_root: Seq<char>,
    mount: Seq<char>,
    lang: Seq<char>,
    host_abs: Seq<char>,
    input: Seq<char>,
) -> Result<Seq<char>, Rejection> {
    let host_rel = ws_root + seq!['/'] + lang;
    if mount.is_prefix_of(input) {
        Ok(strip_slash(input.skip(mount.len() as int)))
    } else if host_abs.is_prefix_of(input) {
        Ok(strip_slash(input.skip(host_abs.len() as int)))
    } else if host_rel.is_prefix_of(input) {
        Ok(strip_slash(input.skip(host_rel.len() as int)))
    } else if (lang + seq!['/']).is_prefix_of(input) {
        Ok(input.skip(lang.len() as int + 1))
    } else if is_absolute(input) {
        Err(Rejection::OutsideWorkspace)
    } else {
        Ok(input)
    }
}

/// The three forms of the path that `input` names in the workspace of `lang`.
pub open spec fn resolve_spec(
    ws_root: Seq<char>,
    mount: Seq<char>,
    lang: Seq<char>,
    host_abs: Seq<char>,
    input: Seq<char>,
) -> Result<PathSpecView, Rejection> {
    match relative_spelling(ws_root, mount, lang, host_abs, input) {
        Err(r) => Err(r),
        Ok(rel) => if is_absolute(rel) {
            Err(Rejection::InvalidAbsolute)
        } else {
            match normalize_pieces(split_slash(rel)) {
                Lexed::Escapes => Err(Rejection::Escapes),
                Lexed::Inside(st) => {
                    let r = join_with(st, seq!['/']);
                    Ok(
                        PathSpecView {
                            rel: r,
                            host: join_path(language_dir_spec(ws_root, lang), r),
                            container: mount + seq!['/'] + r,
                        },
                    )
                },
            }
        },
    }
}

/// Resolves `input` in the workspace of `lang`. `host_ws_abs` is the workspace's
/// host directory as the file system resolves it (or as configured, where it
/// cannot be resolved).
pub fn resolve(cfg: &Config, lang: &str, input: &str, host_ws_abs: &str) -> (res: Result<
    PathSpec,
    SunabaError,
>)
    ensures
        match resolve_spec(cfg.ws_root@, cfg.container_ws_path@, lang@, host_ws_abs@, input@) {
            Ok(v) => res matches Ok(p) && p@ == v,
            Err(r) => res matches Err(e) && e@ == rejection_error(r),
        },
{
    let base = language_dir(cfg, lang_slug(lang));
    let mount = cfg.container_ws_path.as_str();
    let slash_lang = concat("/", lang);
    let host_rel = concat(cfg.ws_root.as_str(), slash_lang.as_str());
    let lang_slash = concat(lang, "/");
    proof {
        reveal_strlit("/");
        assert("/"@ =~= seq!['/']);
        assert(host_rel@ =~= cfg.ws_root@ + seq!['/'] + lang@);
    }
    let rel: String = if has_prefix(input, mount) {
        without_leading_slash(suffix_from(input, mount.unicode_len()).as_str())
    } else if has_prefix(input, host_ws_abs) {
        without_leading_slash(suffix_from(input, host_ws_abs.unicode_len()).as_str())
    } else if has_prefix(input, host_rel.as_str()) {
        without_leading_slash(suffix_from(input, host_rel.as_str().unicode_len()).as_str())
    } else if has_prefix(input, lang_slash.as_str()) {
        suffix_from(input, lang_slash.as_str().unicode_len())
    } else if input.unicode_len() > 0 && input.get_char(0) == '/' {
        return Err(rejection(Rejection::OutsideWorkspace));
    } else {
        owned(input)
    };
    let r = rel.as_str();
    if r.unicode_len() > 0 && r.get_char(0) == '/' {
        return Err(rejection(Rejection::InvalidAbsolute));
    }
    let segs = split_segments(r);
    match normalize_segments(&segs) {
        None => Err(rejection(Rejection::Escapes)),
        Some(st) => {
            let rel_str = join_strings(&st, "/");
            let host = join_paths(base.as_str(), rel_str.as_str());
            let container = concat(concat(mount, "/").as_str(), rel_str.as_str());
            Ok(PathSpec { rel: rel_str, host, container })
        },
    }
}

/// The container path that `resolve` hands out resolves to the same three forms.
pub proof fn law_container_path_is_stable(
    ws_root: Seq<char>,
    mount: Seq<char>,
    lang: Seq<char>,
    host_abs: Seq<char>,
    input: Seq<char>,
)
    ensures
        resolve_spec(ws_root, mount, lang, host_abs, input) matches Ok(v) ==> resolve_spec(
            ws_root,
            mount,
            lang,
            host_abs,
            v.container,
        ) == resolve_spec(ws_root, mount, lang, host_abs, input),
{
    if let Ok(rel) = relative_spelling(ws_root, mount, lang, host_abs, input) {
        lemma_split_slash_free(rel);
        lemma_normalized_are_names(split_slash(rel));
        if let Lexed::Inside(st) = normalize_pieces(split_slash(rel)) {
            if !is_absolute(rel) {
                let r = join_with(st, seq!['/']);
                let c = mount + seq!['/'] + r;
                lemma_normalize_joined(st);
                assert(mount.is_prefix_of(c));
                assert(c.skip(mount.len() as int) =~= seq!['/'] + r);
                assert((seq!['/'] + r).skip(1) =~= r);
                assert(relative_spelling(ws_root, mount, lang, host_abs, c) == Ok::<Seq<char>, Rejection>(r));
            }
        }
    }
}

/// Where `input` is spelled from under the mount point, or starts with none of
/// the mount point, the workspace's host directories and the language's
/// directory name, `resolve` and the lexical resolution of `resolve_safe_path`
/// agree: the same refusal, or a host path equal to the path it gives.
pub proof fn law_resolve_agrees_with_safe_path(
    ws_root: Seq<char>,
    mount: Seq<char>,
    lang: Seq<char>,
    host_abs: Seq<char>,
    input: Seq<char>,
)
    requires
        dir_prefix(input, mount) || (!mount.is_prefix_of(input) && !host_abs.is_prefix_of(input)
            && !(ws_root + seq!['/'] + lang).is_prefix_of(input) && !(lang + seq![
            '/',
        ]).is_prefix_of(input)),
    ensures
        match resolve_spec(ws_root, mount, lang, host_abs, input) {
            Ok(v) => safe_path_spec(ws_root, mount, lang, input) == Ok::<Seq<char>, Rejection>(
                v.host,
            ),
            Err(r) => safe_path_spec(ws_root, mount, lang, input) == Err::<Seq<char>, Rejection>(
                r,
            ),
        },
{
}

/// Completeness of `resolve` on relative paths: a relative path made only of
/// entry names (none empty, `.` or `..`), that starts with none of the accepted
/// prefixes, resolves to itself: its relative form is the path, its host form
/// the workspace directory joined with it, its container form the mount point,
/// a slash, and the path.
pub proof fn law_names_resolve_as_given(
    ws_root: Seq<char>,
    mount: Seq<char>,
    lang: Seq<char>,
    host_abs: Seq<char>,
    r: Seq<char>,
)
    requires
        !is_absolute(r),
        forall|i: int| 0 <= i < split_slash(r).len() ==> is_normal(#[trigger] split_slash(r)[i]),
        !mount.is_prefix_of(r),
        !host_abs.is_prefix_of(r),
        !(ws_root + seq!['/'] + lang).is_prefix_of(r),
        !(lang + seq!['/']).is_prefix_of(r),
    ensures
        resolve_spec(ws_root, mount, lang, host_abs, r) == Ok::<PathSpecView, Rejection>(
            PathSpecView {
                rel: r,
                host: join_path(join_path(ws_root, lang), r),
                container: mount + seq!['/'] + r,
            },
        ),
{
    lemma_normalize_names(split_slash(r));
    lemma_join_split(r);
}

} // verus!
