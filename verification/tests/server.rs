use workhorse::server::{
    action_of, cargo_action, cargo_subcommand, cmd_shell, cmd_shell_arg, exit_status_of, follow_logs,
    job_exit_code, just_args, os_justfile, parse_exec_request, ssh_invocation, unknown_cargo_message,
    zigbuild_enabled, spawn_failure_message, Action, CargoSubcommand, ExecRequestError, Failure, SessionEnv,
};

fn args(w: &[&str]) -> Vec<String> {
    w.iter().map(|s| s.to_string()).collect()
}

#[test]
fn session_variables_are_read_back() {
    let mut env = SessionEnv::new();
    assert_eq!(env.get("REPO"), None);
    assert!(!env.debug_enabled());
    env.set("repo", "app");
    env.set("horse_trace_id", "t-1");
    assert_eq!(env.get("REPO").as_deref(), Some("app"));
    assert_eq!(env.trace_id(), "t-1");
    assert!(env.debug_enabled());
    env.set("Repo", "other");
    assert_eq!(env.get("REPO").as_deref(), Some("other"));
    assert_eq!(env.bindings().len(), 2);
    env.set("HORSE_TRACE_ID", "");
    assert!(!env.debug_enabled());
}

#[test]
fn upper_casing() {
    let mut env = SessionEnv::new();
    env.set("branch", "main");
    env.set("straße", "x");
    assert_eq!(env.get("BRANCH").as_deref(), Some("main"));
    assert_eq!(env.get("STRASSE").as_deref(), Some("x"));
    assert_eq!(env.get("straße"), None);
}

#[test]
fn actions() {
    assert!(matches!(action_of("cargo"), Action::Cargo));
    assert!(matches!(action_of("job"), Action::Job));
    assert!(matches!(action_of("Cargo"), Action::Unsupported(n) if n == "Cargo"));
    assert_eq!(Action::unsupported_message("x"), "不支持的命令: x");
    assert_eq!(Action::unsupported_code(), "HSSH_ACTION_UNSUPPORTED");
}

#[test]
fn exec_requests() {
    assert_eq!(parse_exec_request(b"build --release").unwrap(), args(&["build", "--release"]));
    assert_eq!(parse_exec_request(b"a 'b c' \"d e\"").unwrap(), args(&["a", "b c", "d e"]));
    match parse_exec_request(b"a 'b") {
        Err(e @ ExecRequestError::MismatchedQuotes(_)) => assert_eq!(e.message(), "无效命令: a 'b"),
        other => panic!("unexpected: {:?}", other),
    }
    match parse_exec_request(&[0xff, 1]) {
        Err(e @ ExecRequestError::NotUtf8(_)) => assert_eq!(e.message(), "无效请求: [255, 1]"),
        other => panic!("unexpected: {:?}", other),
    }
}

#[test]
fn cmd_shells() {
    assert_eq!(cmd_shell(Some("zsh"), false), "zsh");
    assert_eq!(cmd_shell(None, false), "bash");
    assert_eq!(cmd_shell(None, true), "powershell.exe");
    assert_eq!(cmd_shell_arg("/bin/bash"), "-ic");
    assert_eq!(cmd_shell_arg("zsh"), "-ic");
    assert_eq!(cmd_shell_arg("/usr/bin/fish"), "-c");
    assert_eq!(cmd_shell_arg("bash/.."), "-c");
}

#[test]
fn cargo_requests() {
    assert_eq!(cargo_action(&args(&["build", "--release"])), "cargo.build");
    assert_eq!(cargo_action(&args(&[])), "cargo.unknown");
    assert_eq!(cargo_subcommand("zigbuild"), Some(CargoSubcommand::Build));
    assert_eq!(cargo_subcommand("test"), Some(CargoSubcommand::Test));
    assert_eq!(cargo_subcommand("bench"), None);
    assert_eq!(CargoSubcommand::Clippy.name(), "clippy");
    assert!(zigbuild_enabled(Some("true")));
    assert!(!zigbuild_enabled(Some("1")));
    assert!(!zigbuild_enabled(None));
    assert_eq!(unknown_cargo_message(&args(&["bench", "-q"])), "未实现的 cargo 命令: bench -q");
}

#[test]
fn just_arguments() {
    assert_eq!(os_justfile("linux"), "justfile.linux");
    assert_eq!(
        just_args(Some("ci.just".into()), Some("justfile.linux".into()), &args(&["build"])),
        args(&["-f", "ci.just", "--color=always", "build"])
    );
    assert_eq!(
        just_args(None, Some("justfile.linux".into()), &args(&["build"])),
        args(&["-f", "justfile.linux", "--color=always", "build"])
    );
    assert_eq!(just_args(None, None, &args(&[])), args(&["--color=always"]));
}

#[test]
fn ssh_and_logs_requests() {
    assert_eq!(ssh_invocation(args(&["zsh", "-l"]), false), ("zsh".to_string(), args(&["-l"])));
    assert_eq!(ssh_invocation(args(&[]), false), ("bash".to_string(), vec![]));
    assert_eq!(ssh_invocation(args(&[]), true), ("powershell.exe".to_string(), vec![]));
    assert!(follow_logs(&args(&["-f"])));
    assert!(!follow_logs(&args(&["-F"])));
}

#[test]
fn exit_codes() {
    assert_eq!(exit_status_of(Some(0)), 0);
    assert_eq!(exit_status_of(Some(-1)), u32::MAX);
    assert_eq!(exit_status_of(None), 128);
    assert_eq!(job_exit_code(Some(2)), 2);
    assert_eq!(job_exit_code(None), 128);
}

#[test]
fn failures() {
    assert_eq!(Failure::ShellSpawnFailed.exit_status(), 127);
    assert_eq!(Failure::ShellSpawnFailed.code(), "HSSH_SHELL_SPAWN_FAILED");
    assert_eq!(Failure::RepoPathInvalid.exit_status(), 2);
    assert_eq!(Failure::PutFailed.exit_status(), 1);
    assert_eq!(Failure::PtyWaitFailed.code(), "HSSH_PTY_WAIT_FAILED");
    assert_eq!(spawn_failure_message("bash", "No such file"), "spawn: `bash` failed: No such file");
}
