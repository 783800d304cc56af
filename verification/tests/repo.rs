use workhorse::auth::{login_accepted, setup_verdict, startup_plan, KeyFacts, SetupVerdict};
use workhorse::options::{LogsOptions, PushOptions, RaCommand, RaOptions, RaStatusOptions};
use workhorse::repo::{default_shell, get_ulimit_n, horsed_commit, parse_user_key, ExitOk, ProcessExit, Repo};
use workhorse::ring::{log_entry, RingWriter};

fn args(w: &[&str]) -> Vec<String> {
    w.iter().map(|s| s.to_string()).collect()
}

#[test]
fn user_keys() {
    let k = parse_user_key("ssh-ed25519 XXX me extra").unwrap();
    assert_eq!(k.method, "ssh-ed25519");
    assert_eq!(k.key, "XXX");
    assert_eq!(k.comment.as_deref(), Some("me"));
    let k = parse_user_key("ssh-ed25519 XXX").unwrap();
    assert!(k.comment.is_none());
    let k = parse_user_key("a  b").unwrap();
    assert_eq!(k.key, "");
    assert_eq!(k.comment.as_deref(), Some("b"));
    assert_eq!(parse_user_key("ssh-ed25519").unwrap_err(), "ssh-ed25519");
}

#[test]
fn process_exits() {
    assert!(ProcessExit { code: Some(0) }.exit_ok().is_ok());
    let err = ProcessExit { code: Some(1) }.exit_ok().unwrap_err();
    assert_eq!(err.message(), "process exited with non-zero status code");
    assert!(ProcessExit { code: None }.exit_ok().is_err());
}

#[test]
fn server_facts() {
    assert_eq!(get_ulimit_n(0, 1024), Some(1024));
    assert_eq!(get_ulimit_n(-1, 1024), None);
    assert_eq!(horsed_commit(Some("abc123")), "abc123");
    assert_eq!(horsed_commit(None), "unknown");
}

#[test]
fn git_command_lines() {
    let r = Repo::from("/srv/repos/a.git");
    assert_eq!(r.path(), "/srv/repos/a.git");
    assert!(!Repo::from("/definitely/not/here/a.git").exists_on_disk());
    assert_eq!(r.checkout_args("/w", None), args(&["--work-tree", "/w", "checkout", "-f", "HEAD"]));
    assert_eq!(r.checkout_args("/w", Some("dev")), args(&["--work-tree", "/w", "checkout", "-f", "dev"]));
    assert_eq!(Repo::clone_args("/a", "/b", None), args(&["clone", "--branch", "master", "/a", "/b"]));
    assert_eq!(Repo::init_bare_args("/a"), args(&["init", "--bare", "/a"]));
    assert_eq!(Repo::apply_args(), args(&["apply", "--allow-empty"]));
    let steps = Repo::push_changes_steps("msg");
    assert_eq!(steps, vec![args(&["add", "."]), args(&["commit", "-m", "msg"]), args(&["push"])]);
}

#[test]
fn log_lines() {
    assert_eq!(log_entry(b"hello\nworld"), (5, Some(b"hello\n".to_vec())));
    assert_eq!(log_entry(b"\nabc"), (1, None));
    assert_eq!(log_entry(b""), (0, None));
    assert_eq!(log_entry(b"tail"), (4, Some(b"tail\n".to_vec())));
    let mut w = RingWriter::new(4);
    assert_eq!(w.write(b"one\n"), 3);
    assert_eq!(w.write(b"\n"), 1);
    assert_eq!(w.write(b"two"), 3);
    assert_eq!(w.drain(10), vec![b"one\n".to_vec(), b"two\n".to_vec()]);
    assert!(w.drain(10).is_empty());
}

#[test]
fn log_keeps_the_latest_lines() {
    let mut w = RingWriter::new(3);
    for line in [&b"a"[..], b"b", b"c", b"d"] {
        w.write(line);
    }
    let kept = w.drain(10);
    assert_eq!(kept, vec![b"b\n".to_vec(), b"c\n".to_vec(), b"d\n".to_vec()]);
}

#[test]
fn logins() {
    assert!(login_accepted(Some(KeyFacts { key_enabled: true, owner_enabled: Some(true) })));
    assert!(!login_accepted(Some(KeyFacts { key_enabled: false, owner_enabled: Some(true) })));
    assert!(!login_accepted(Some(KeyFacts { key_enabled: true, owner_enabled: Some(false) })));
    assert!(!login_accepted(Some(KeyFacts { key_enabled: true, owner_enabled: None })));
    assert!(!login_accepted(None));
    assert_eq!(setup_verdict(None), SetupVerdict::Register);
    assert_eq!(setup_verdict(Some(true)), SetupVerdict::Accept);
    assert_eq!(setup_verdict(Some(false)), SetupVerdict::Reject);
}

#[test]
fn client_options() {
    let p = PushOptions { remote: None, branch: None };
    assert_eq!(p.push_args(), args(&["push", "horsed"]));
    let p = PushOptions { remote: Some("origin".into()), branch: Some("dev".into()) };
    assert_eq!(p.push_args(), args(&["push", "origin", "dev"]));
    assert_eq!(LogsOptions { forward: true }.remote_command(), "logs -f");
    assert_eq!(LogsOptions { forward: false }.remote_command(), "logs");
    assert!(matches!(RaOptions { command: None }.command_or_client(), RaCommand::Client(_)));
    assert!(matches!(
        RaOptions { command: Some(RaCommand::Status(RaStatusOptions { json: true })) }.command_or_client(),
        RaCommand::Status(s) if s.json
    ));
}

#[test]
fn default_shells() {
    assert_eq!(default_shell(Some("/bin/zsh".into())).as_deref(), Some("/bin/zsh"));
    assert_eq!(default_shell(Some("  ".into())), None);
    assert_eq!(default_shell(None), None);
}

#[test]
fn startup() {
    let p = startup_plan(true, None, false);
    assert!(!p.setup && !p.setup_stays);
    let p = startup_plan(false, None, false);
    assert!(p.setup && !p.setup_stays);
    let p = startup_plan(true, Some("1"), false);
    assert!(p.setup && p.setup_stays);
    let p = startup_plan(true, Some("true"), false);
    assert!(!p.setup);
    assert!(startup_plan(true, None, true).setup_stays);
}

#[test]
fn log_capacity_is_rounded_to_a_power_of_two() {
    assert_eq!(RingWriter::new(5).capacity(), 8);
    assert_eq!(RingWriter::new(8).capacity(), 8);
    assert_eq!(RingWriter::new(3).capacity(), 4);
}

#[test]
fn shared_writers_feed_one_log() {
    let mut a = RingWriter::new(8);
    let mut b = a.share();
    a.write(b"one");
    b.write(b"two");
    assert_eq!(b.capacity(), 8);
    assert_eq!(a.drain(10), vec![b"one\n".to_vec(), b"two\n".to_vec()]);
}
