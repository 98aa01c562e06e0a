use std::path::{Component, Path, PathBuf};
use sunaba::config::{Config, Containers, Images};
use sunaba::errors::SunabaError;
use sunaba::lexical::{components_of, join_paths, normalize_segments, path_starts_with, split_segments};
use sunaba::workspace::path::{lang_slug, resolve};
use sunaba::workspace::{confine_to_base, confined_path, language_dir, language_dirs, partition_by_existence, resolve_safe_path};

fn default_config() -> Config {
    Config::from_overrides(
        None,
        Images::from_overrides(None, None, None, None),
        Containers::from_overrides(None, None, None, None),
    )
}

fn strings(v: &[&str]) -> Vec<String> {
    v.iter().map(|s| s.to_string()).collect()
}

fn invalid(msg: &str) -> SunabaError {
    SunabaError::InvalidInput(msg.to_string())
}

#[test]
fn split_keeps_empty_pieces() {
    assert_eq!(split_segments("a//b/"), strings(&["a", "", "b", ""]));
    assert_eq!(split_segments(""), strings(&[""]));
    assert_eq!(split_segments("/x"), strings(&["", "x"]));
}

#[test]
fn components_follow_std() {
    assert_eq!(components_of("/a//b/./c/"), strings(&["/", "a", "b", "c"]));
    assert_eq!(components_of("./a/."), strings(&[".", "a"]));
    assert_eq!(components_of("a/../b"), strings(&["a", "..", "b"]));
    assert_eq!(components_of(""), strings(&[]));
}

#[test]
fn starts_with_is_by_component() {
    assert!(path_starts_with("/a/b/c", "/a/b"));
    assert!(path_starts_with("/a/b", "/a/b/"));
    assert!(!path_starts_with("/a/bc", "/a/b"));
    assert!(!path_starts_with("a/b", "/a"));
    assert!(path_starts_with("a/./b", "a/b"));
}

#[test]
fn join_follows_pathbuf_push() {
    assert_eq!(join_paths("a", "b"), "a/b");
    assert_eq!(join_paths("a/", "b"), "a/b");
    assert_eq!(join_paths("a", "/b"), "/b");
    assert_eq!(join_paths("a", ""), "a/");
    assert_eq!(join_paths("", "b"), "b");
}

#[test]
fn normalize_resolves_dots() {
    let segs = split_segments("a/./b/../c//");
    assert_eq!(normalize_segments(&segs), Some(strings(&["a", "c"])));
    let up = split_segments("a/../../x");
    assert_eq!(normalize_segments(&up), None);
}

#[test]
fn language_dir_joins_root() {
    let cfg = default_config();
    assert_eq!(language_dir(&cfg, "python"), "workspace/python");
    assert_eq!(
        language_dirs(&cfg, &strings(&["go", "bun"])),
        strings(&["workspace/go", "workspace/bun"])
    );
    assert_eq!(lang_slug("rust"), "rust");
}

#[test]
fn partition_keeps_order() {
    let dirs = strings(&["a", "b", "c", "d"]);
    let (created, existing) = partition_by_existence(dirs, &vec![false, true, false, true]);
    assert_eq!(created, strings(&["a", "c"]));
    assert_eq!(existing, strings(&["b", "d"]));
}

#[test]
fn safe_path_relative() {
    let cfg = default_config();
    assert_eq!(resolve_safe_path(&cfg, "python", "main.py"), Ok("workspace/python/main.py".to_string()));
    assert_eq!(resolve_safe_path(&cfg, "python", "a/../b/./c"), Ok("workspace/python/b/c".to_string()));
    assert_eq!(resolve_safe_path(&cfg, "python", "."), Ok("workspace/python/".to_string()));
}

#[test]
fn safe_path_container_absolute() {
    let cfg = default_config();
    assert_eq!(
        resolve_safe_path(&cfg, "go", "/workspace/main.go"),
        Ok("workspace/go/main.go".to_string())
    );
    assert_eq!(resolve_safe_path(&cfg, "go", "/workspace"), Ok("workspace/go/".to_string()));
    assert_eq!(resolve_safe_path(&cfg, "go", "/workspace/"), Ok("workspace/go/".to_string()));
}

#[test]
fn safe_path_mount_needs_whole_component() {
    let cfg = default_config();
    assert_eq!(
        resolve_safe_path(&cfg, "rust", "/workspacefoo/x"),
        Err(invalid("absolute paths outside container workspace are not allowed"))
    );
}

#[test]
fn safe_path_refusals() {
    let cfg = default_config();
    assert_eq!(
        resolve_safe_path(&cfg, "python", "/etc/passwd"),
        Err(invalid("absolute paths outside container workspace are not allowed"))
    );
    assert_eq!(resolve_safe_path(&cfg, "python", "../x"), Err(invalid("path escapes workspace")));
    assert_eq!(resolve_safe_path(&cfg, "python", "a/../../x"), Err(invalid("path escapes workspace")));
    assert_eq!(resolve_safe_path(&cfg, "python", "/workspace//x"), Err(invalid("invalid absolute path")));
}

#[test]
fn confine_tests_resolved_paths() {
    let ok = confine_to_base(
        "workspace/python",
        "workspace/python/a".to_string(),
        Some("/srv/workspace/python".to_string()),
        Some("/srv/workspace/python/a".to_string()),
    );
    assert_eq!(ok, Ok("workspace/python/a".to_string()));
    let link_out = confine_to_base(
        "workspace/python",
        "workspace/python/a".to_string(),
        Some("/srv/workspace/python".to_string()),
        Some("/etc/shadow".to_string()),
    );
    assert_eq!(link_out, Err(invalid("path escapes workspace")));
    let sibling = confine_to_base(
        "workspace/python",
        "workspace/python/a".to_string(),
        Some("/srv/workspace/python".to_string()),
        Some("/srv/workspace/python2/a".to_string()),
    );
    assert_eq!(sibling, Err(invalid("path escapes workspace")));
    // neither exists: the relative target is accepted as it stands
    assert_eq!(
        confine_to_base("workspace/python", "workspace/python/a".to_string(), None, None),
        Ok("workspace/python/a".to_string())
    );
}

#[test]
fn resolve_accepts_each_spelling() {
    let cfg = default_config();
    let abs = "/srv/workspace/bun";
    for input in ["main.js", "/workspace/main.js", "/srv/workspace/bun/main.js", "workspace/bun/main.js", "bun/main.js"] {
        let spec = resolve(&cfg, "bun", input, abs).unwrap();
        assert_eq!(spec.rel, "main.js");
        assert_eq!(spec.host, "workspace/bun/main.js");
        assert_eq!(spec.container, "/workspace/main.js");
    }
}

#[test]
fn resolve_takes_prefixes_off_as_text() {
    let cfg = default_config();
    let abs = "/srv/workspace/bun";
    let spec = resolve(&cfg, "bun", "/workspacefoo/x", abs).unwrap();
    assert_eq!(spec.rel, "foo/x");
    assert_eq!(spec.container, "/workspace/foo/x");
    let spec = resolve(&cfg, "bun", "/srv/workspace/bunny/x", abs).unwrap();
    assert_eq!(spec.rel, "ny/x");
    let spec = resolve(&cfg, "bun", "workspace/bunny/x", abs).unwrap();
    assert_eq!(spec.rel, "ny/x");
    assert_eq!(spec.host, "workspace/bun/ny/x");
}

#[test]
fn confined_path_combines_both_tests() {
    let cfg = default_config();
    assert_eq!(
        confined_path(&cfg, "python", "a/b", Some("/srv/ws/python".into()), Some("/srv/ws/python/a/b".into())),
        Ok("workspace/python/a/b".to_string())
    );
    assert_eq!(
        confined_path(&cfg, "python", "link", Some("/srv/ws/python".into()), Some("/etc/passwd".into())),
        Err(invalid("path escapes workspace"))
    );
    assert_eq!(
        confined_path(&cfg, "python", "../x", None, None),
        Err(invalid("path escapes workspace"))
    );
    assert_eq!(
        confined_path(&cfg, "python", "/etc/x", None, None),
        Err(invalid("absolute paths outside container workspace are not allowed"))
    );
    assert_eq!(confined_path(&cfg, "python", "new.py", None, None), Ok("workspace/python/new.py".to_string()));
}

#[test]
fn law_prepared_dirs_all_existing_concrete() {
    let dirs = strings(&["workspace/python", "workspace/go"]);
    let (created, existing) = partition_by_existence(dirs.clone(), &vec![true, true]);
    assert!(created.is_empty());
    assert_eq!(existing, dirs);
}

#[test]
fn resolve_empty_rel() {
    let cfg = default_config();
    let spec = resolve(&cfg, "bun", "/workspace", "/srv/workspace/bun").unwrap();
    assert_eq!(spec.rel, "");
    assert_eq!(spec.host, "workspace/bun/");
    assert_eq!(spec.container, "/workspace/");
}

#[test]
fn resolve_refusals() {
    let cfg = default_config();
    let abs = "/srv/workspace/bun";
    assert_eq!(
        resolve(&cfg, "bun", "/tmp/x", abs).err(),
        Some(invalid("absolute paths outside container workspace are not allowed"))
    );
    assert_eq!(resolve(&cfg, "bun", "x/../..", abs).err(), Some(invalid("path escapes workspace")));
    assert_eq!(resolve(&cfg, "bun", "bun//etc", abs).err(), Some(invalid("invalid absolute path")));
}

#[test]
fn law_mount_spelling_concrete() {
    let cfg = default_config();
    for r in ["a/b", "../x", "a/./b/..", ""] {
        let mounted = format!("/workspace/{}", r);
        assert_eq!(resolve_safe_path(&cfg, "rust", &mounted), resolve_safe_path(&cfg, "rust", r));
    }
}

#[test]
fn law_within_workspace_concrete() {
    let cfg = default_config();
    let base = language_dir(&cfg, "rust");
    for r in ["a/b", "x/../y", "/workspace/q", "."] {
        let t = resolve_safe_path(&cfg, "rust", r).unwrap();
        assert!(path_starts_with(&t, &base));
        assert!(!components_of(&t).iter().any(|c| c == ".."));
    }
}

#[test]
fn law_container_path_stable_concrete() {
    let cfg = default_config();
    let abs = "/srv/workspace/go";
    for input in ["go/a/../b", "./c", "/workspace/d/e/"] {
        let first = resolve(&cfg, "go", input, abs).unwrap();
        let again = resolve(&cfg, "go", &first.container, abs).unwrap();
        assert_eq!(first.rel, again.rel);
        assert_eq!(first.host, again.host);
        assert_eq!(first.container, again.container);
    }
}

#[test]
fn law_resolve_agrees_concrete() {
    let cfg = default_config();
    let abs = "/srv/workspace/go";
    for input in ["a/b", "/workspace/a", "../x", "/etc", "a/../b/."] {
        match resolve(&cfg, "go", input, abs) {
            Ok(spec) => assert_eq!(resolve_safe_path(&cfg, "go", input), Ok(spec.host)),
            Err(e) => assert_eq!(resolve_safe_path(&cfg, "go", input), Err(e)),
        }
    }
}

/// The lexical path model agrees with `std::path` on Unix.
#[test]
fn lexical_model_matches_std_path() {
    let samples = [
        "", "/", "//", ".", "..", "./", "./.", "a", "a/", "a//b", "/a/./b/", "./a/../b", "a/./.",
        "/..", "../a", "a/..", "/a//b//", ".//a", "a/.b/..c", "/workspace/x", "workspace/python",
    ];
    for s in samples {
        let expected: Vec<String> = Path::new(s)
            .components()
            .map(|c| match c {
                Component::RootDir => "/".to_string(),
                Component::CurDir => ".".to_string(),
                Component::ParentDir => "..".to_string(),
                Component::Normal(n) => n.to_string_lossy().into_owned(),
                Component::Prefix(_) => unreachable!(),
            })
            .collect();
        assert_eq!(components_of(s), expected, "components of {:?}", s);
        for t in samples {
            assert_eq!(
                join_paths(s, t),
                PathBuf::from(s).join(t).to_string_lossy().into_owned(),
                "join of {:?} and {:?}",
                s,
                t
            );
            assert_eq!(
                path_starts_with(s, t),
                Path::new(s).starts_with(t),
                "{:?} starts with {:?}",
                s,
                t
            );
        }
    }
}
