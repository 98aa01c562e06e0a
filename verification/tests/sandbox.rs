use sunaba::config::{Config, Containers, Images};
use sunaba::docker::{
    container_name_for, container_plan, names_for, split_image_ref, status_of, stop_timeout_arg,
    ContainerState, ExecCapture, LogStream,
};
use sunaba::errors::SunabaError;
use sunaba::models::{EnvCleanInput, EnvStopInput, ExecCodeInput, FileWriteInput, Language};
use sunaba::tools::{
    clean_output, clears_workspace, creates_parents, env_assignments, language_slugs, plan_exec, run_command,
    stop_timeout_secs, workspace_languages, SunabaTools, CLEAN_STOP_TIMEOUT_SECS,
};

fn default_config() -> Config {
    Config::from_overrides(
        None,
        Images::from_overrides(None, None, None, None),
        Containers::from_overrides(None, None, None, None),
    )
}

fn strings(v: &[&str]) -> Vec<String> {
    v.iter().map(|s| s.to_string()).collect()
}

fn exec_input(language: Language) -> ExecCodeInput {
    ExecCodeInput {
        language,
        entrypoint: None,
        code: None,
        args: None,
        compile_args: None,
        timeout_secs: None,
        env: None,
    }
}

#[test]
fn config_defaults() {
    let cfg = default_config();
    assert_eq!(cfg.ws_root, "workspace");
    assert_eq!(cfg.container_ws_path, "/workspace");
    assert_eq!(cfg.images.python, "python:3.12-alpine");
    assert_eq!(cfg.images.rust, "rust:alpine");
    assert_eq!(cfg.images.go, "golang:alpine");
    assert_eq!(cfg.images.bun, "oven/bun:alpine");
    assert_eq!(cfg.containers.python, "python_env");
    assert_eq!(cfg.containers.rust, "rust_env");
    assert_eq!(cfg.containers.go, "go_env");
    assert_eq!(cfg.containers.bun, "bun_env");
}

#[test]
fn config_overrides() {
    let cfg = Config::from_overrides(
        Some("/data/ws".to_string()),
        Images::from_overrides(None, Some("rust:1.80".to_string()), None, None),
        Containers::from_overrides(Some("py".to_string()), None, None, None),
    );
    assert_eq!(cfg.ws_root, "/data/ws");
    assert_eq!(cfg.images.rust, "rust:1.80");
    assert_eq!(cfg.images.python, "python:3.12-alpine");
    assert_eq!(cfg.containers.python, "py");
    assert_eq!(cfg.containers.go, "go_env");
}

#[test]
fn language_slugs_and_files() {
    assert_eq!(Language::Python.slug(), "python");
    assert_eq!(Language::Bun.slug(), "bun");
    assert_eq!(Language::Go.default_file(), "main.go");
    assert_eq!(Language::Bun.default_file(), "main.js");
    assert_eq!(
        language_slugs(&vec![Language::Rust, Language::Go]),
        strings(&["rust", "go"])
    );
}

#[test]
fn error_messages() {
    assert_eq!(SunabaError::Docker("boom".into()).message(), "docker error: boom");
    assert_eq!(SunabaError::Io("disk".into()).message(), "io error: disk");
    assert_eq!(SunabaError::InvalidInput("bad".into()).message(), "invalid input: bad");
    assert_eq!(SunabaError::Timeout.message(), "timeout");
    assert_eq!(SunabaError::NotFound("x".into()).message(), "not found: x");
    assert_eq!(SunabaError::Internal("y".into()).message(), "internal error: y");
}

#[test]
fn names_per_language() {
    let cfg = default_config();
    assert_eq!(
        names_for(&cfg, &Language::Go),
        ("go_env".to_string(), "golang:alpine".to_string(), "go".to_string())
    );
    assert_eq!(container_name_for(&cfg, &Language::Rust), "rust_env");
    assert_eq!(container_name_for(&cfg, &Language::Bun), "bun_env");
}

#[test]
fn image_refs_split_at_last_colon() {
    assert_eq!(split_image_ref("python:3.12-alpine"), ("python".to_string(), "3.12-alpine".to_string()));
    assert_eq!(split_image_ref("oven/bun:alpine"), ("oven/bun".to_string(), "alpine".to_string()));
    assert_eq!(split_image_ref("ubuntu"), ("ubuntu".to_string(), "latest".to_string()));
    assert_eq!(split_image_ref("ubuntu:"), ("ubuntu:".to_string(), "latest".to_string()));
    assert_eq!(split_image_ref("host:5000/img:1"), ("host:5000/img".to_string(), "1".to_string()));
}

#[test]
fn law_image_ref_round_trip_concrete() {
    for image in ["a:b", "reg:5000/x:tag", "x:y:z"] {
        let (name, tag) = split_image_ref(image);
        assert_eq!(format!("{}:{}", name, tag), image);
        assert!(!tag.contains(':'));
    }
}

#[test]
fn container_plan_binds_workspace() {
    let cfg = default_config();
    let plan = container_plan(&cfg, &Language::Python, Some("/srv/ws/python".to_string()));
    assert_eq!(plan.name, "python_env");
    assert_eq!(plan.image, "python:3.12-alpine");
    assert_eq!(plan.binds, strings(&["/srv/ws/python:/workspace"]));
    assert_eq!(plan.cmd, strings(&["/bin/sh", "-c", "sleep infinity"]));
    assert!(plan.tty && plan.open_stdin);
    let fallback = container_plan(&cfg, &Language::Go, None);
    assert_eq!(fallback.binds, strings(&["workspace/go:/workspace"]));
}

#[test]
fn stop_timeouts() {
    assert_eq!(stop_timeout_arg(5), 5);
    assert_eq!(stop_timeout_arg(2147483647), i32::MAX);
    assert_eq!(stop_timeout_arg(u64::MAX), -1);
    let with = EnvStopInput { language: Language::Go, timeout_secs: Some(9) };
    let without = EnvStopInput { language: Language::Go, timeout_secs: None };
    assert_eq!(stop_timeout_secs(&with), 9);
    assert_eq!(stop_timeout_secs(&without), 5);
    assert_eq!(CLEAN_STOP_TIMEOUT_SECS, 2);
}

#[test]
fn status_from_inspection() {
    assert_eq!(status_of(None), (false, false, None));
    assert_eq!(status_of(Some(None)), (true, false, None));
    let state = ContainerState { running: Some(true), pid: Some(123456) };
    assert_eq!(status_of(Some(Some(state))), (true, true, Some(123456)));
    let unknown = ContainerState { running: None, pid: None };
    assert_eq!(status_of(Some(Some(unknown))), (true, false, None));
}

#[test]
fn capture_routes_streams() {
    let mut cap = ExecCapture::new();
    cap.record(LogStream::StdOut, "hello ");
    cap.record(LogStream::StdErr, "warn");
    cap.record(LogStream::Console, "world");
    cap.record(LogStream::StdIn, "ignored");
    let res = cap.finish(Some(3));
    assert_eq!(res.stdout, "hello world");
    assert_eq!(res.stderr, "warn");
    assert_eq!(res.exit_code, 3);
    assert_eq!(ExecCapture::new().finish(None).exit_code, 0);
}

#[test]
fn capture_stops_at_end_or_error() {
    let mut cap = ExecCapture::new();
    assert!(cap.absorb(Some(Ok((LogStream::StdOut, "a".to_string())))));
    assert!(cap.absorb(Some(Ok((LogStream::StdErr, "e".to_string())))));
    assert!(!cap.absorb(Some(Err(()))));
    assert!(!cap.absorb(None));
    let res = cap.finish(None);
    assert_eq!(res.stdout, "a");
    assert_eq!(res.stderr, "e");
}

#[test]
fn clean_output_reports_workspace() {
    let asked = EnvCleanInput { language: Language::Go, remove_workspace: Some(true) };
    let out = clean_output(&asked, "go_env".into(), true, false);
    assert_eq!(out.container_name, Some("go_env".to_string()));
    assert!(out.removed);
    assert_eq!(out.workspace_cleared, Some(false));
    let out = clean_output(&asked, "go_env".into(), false, true);
    assert!(!out.removed);
    assert_eq!(out.workspace_cleared, Some(true));
    let not_asked = EnvCleanInput { language: Language::Go, remove_workspace: None };
    assert_eq!(clean_output(&not_asked, "go_env".into(), true, true).workspace_cleared, None);
}

#[test]
fn request_defaults() {
    let clean = EnvCleanInput { language: Language::Bun, remove_workspace: None };
    assert!(!clears_workspace(&clean));
    let clean_yes = EnvCleanInput { language: Language::Bun, remove_workspace: Some(true) };
    assert!(clears_workspace(&clean_yes));
    let write = FileWriteInput {
        language: Language::Go,
        rel_path: "a.go".into(),
        content: String::new(),
        create_parents: None,
    };
    assert!(creates_parents(&write));
    let no = FileWriteInput { create_parents: Some(false), ..write };
    assert!(!creates_parents(&no));
}

#[test]
fn workspace_languages_default_to_all() {
    assert_eq!(
        workspace_languages(None),
        vec![Language::Python, Language::Rust, Language::Go, Language::Bun]
    );
    assert_eq!(workspace_languages(Some(vec![Language::Go])), vec![Language::Go]);
    let _ = SunabaTools::new();
}

#[test]
fn commands_per_language() {
    let args = Some(strings(&["arg1", "arg2"]));
    assert_eq!(run_command(Language::Python, "/workspace/m.py", &args, &None), strings(&["python", "/workspace/m.py", "arg1", "arg2"]));
    assert_eq!(run_command(Language::Go, "/workspace/m.go", &None, &None), strings(&["go", "run", "/workspace/m.go"]));
    assert_eq!(run_command(Language::Bun, "/workspace/m.js", &args, &None), strings(&["bun", "run", "/workspace/m.js", "arg1", "arg2"]));
    assert_eq!(
        run_command(Language::Rust, "/workspace/main.rs", &args, &Some(strings(&["-O", "-g"]))),
        strings(&["/bin/sh", "-c", "rustc /workspace/main.rs -o /workspace/main_bin -O -g && /workspace/main_bin arg1 arg2"])
    );
    assert_eq!(
        run_command(Language::Rust, "/workspace/main.rs", &None, &None),
        strings(&["/bin/sh", "-c", "rustc /workspace/main.rs -o /workspace/main_bin  && /workspace/main_bin"])
    );
}

#[test]
fn env_pairs_as_assignments() {
    let pairs = vec![("A".to_string(), "1".to_string()), ("MY_VAR".to_string(), "test_value".to_string())];
    assert_eq!(env_assignments(&pairs), strings(&["A=1", "MY_VAR=test_value"]));
}

#[test]
fn plan_for_rust_default_entrypoint() {
    let cfg = default_config();
    let plan = plan_exec(&cfg, &exec_input(Language::Rust));
    assert_eq!(plan.lang_slug, "rust");
    assert_eq!(plan.entrypoint, "main.rs");
    assert_eq!(plan.container_entrypoint, "/workspace/main.rs");
    assert_eq!(plan.timeout_secs, 60);
    assert_eq!(plan.artifact, Some("/workspace/main_bin".to_string()));
    assert_eq!(plan.env, None);
    assert_eq!(plan.code, None);
}

#[test]
fn plan_for_python_named_entrypoint() {
    let cfg = default_config();
    let mut input = exec_input(Language::Python);
    input.entrypoint = Some("app/run.py".into());
    input.code = Some("print(1)".into());
    input.timeout_secs = Some(3);
    input.env = Some(vec![("K".into(), "V".into())]);
    let plan = plan_exec(&cfg, &input);
    assert_eq!(plan.entrypoint, "app/run.py");
    assert_eq!(plan.container_entrypoint, "/workspace/app/run.py");
    assert_eq!(plan.command, strings(&["python", "/workspace/app/run.py"]));
    assert_eq!(plan.code, Some("print(1)".to_string()));
    assert_eq!(plan.timeout_secs, 3);
    assert_eq!(plan.env, Some(strings(&["K=V"])));
    assert_eq!(plan.artifact, None);
}
