use workhorse::client::{
    branch_or_master, debug_enabled, download_conflict, download_path, extract_repo_name, file_exists_message,
    find_repo_name, new_trace_id, osc94_sequence, parse_forward, proxy_forward, proxy_source, proxy_target,
    remote_patch, session_env, commit_env, proxy_port, server_address, chosen_shell, should_log_stage, split_by, split_env_pair, unpushed_range, with_proxy_env,
    CodeSync, Osc94Progress, PatchError, ProxySource, ProxyUrlError, remote_exit_error, job_choice_line, system_ssh_args,
};

fn args(w: &[&str]) -> Vec<String> {
    w.iter().map(|s| s.to_string()).collect()
}

#[test]
fn test_url_parse() {
    assert!(proxy_target("ssh://git@127.0.0.1:2222").is_ok());
    assert!(proxy_target("http://127.0.0.1:1234").is_ok());
    assert!(proxy_target("socks://127.0.0.1:1234").is_ok());
}

#[test]
fn code_sync_actions() {
    assert_eq!(CodeSync::Enabled.action(), "cmd-sync");
    assert_eq!(CodeSync::Disabled.action(), "cmd");
}

#[test]
fn tracing_switch_and_ids() {
    assert!(debug_enabled(Some("1")));
    assert!(debug_enabled(Some("True")));
    assert!(!debug_enabled(Some("yes")));
    assert!(!debug_enabled(None));
    assert_eq!(new_trace_id("cmd", false, Some("t"), 255, 16, 1), "");
    assert_eq!(new_trace_id("cmd", true, Some("given"), 255, 16, 1), "given");
    assert_eq!(new_trace_id("cmd", true, Some("  "), 255, 16, 1), "cmd-ff-10-1");
    assert_eq!(new_trace_id("put", true, None, 0, 1, 26), "put-0-1-1a");
    assert!(should_log_stage(true, "t"));
    assert!(!should_log_stage(true, ""));
    assert!(!should_log_stage(false, "t"));
}

#[test]
fn session_settings() {
    assert_eq!(split_env_pair("A=b=c"), ("A".to_string(), "b=c".to_string()));
    assert_eq!(split_env_pair("A"), ("A".to_string(), String::new()));
    let env = session_env("t1", "app", "main", &args(&["X=1", "Y"]));
    let expect: Vec<(String, String)> = vec![
        ("HORSE_TRACE_ID".into(), "t1".into()),
        ("REPO".into(), "app".into()),
        ("BRANCH".into(), "main".into()),
        ("X".into(), "1".into()),
        ("Y".into(), "".into()),
    ];
    assert_eq!(env, expect);
    assert_eq!(session_env("", "app", "main", &vec![]).len(), 2);
    assert_eq!(branch_or_master(None), "master");
    assert_eq!(branch_or_master(Some("dev".into())), "dev");
}

#[test]
fn repository_names() {
    assert_eq!(extract_repo_name("ssh://git@127.0.0.1:2222/ns/repo").as_deref(), Some("ns/repo"));
    assert_eq!(extract_repo_name("not a url"), None);
    assert_eq!(find_repo_name(Some("given".into()), Some("ssh://h/x".into())).as_deref(), Some("given"));
    assert_eq!(find_repo_name(None, Some("ssh://h:2222/x".into())).as_deref(), Some("x"));
    assert_eq!(find_repo_name(None, None), None);
    let (scheme, host, port) = proxy_target("socks5://127.0.0.1:1080").unwrap();
    assert_eq!(scheme, "socks5");
    assert_eq!(host, "127.0.0.1");
    assert_eq!(port, 1080);
    assert!(matches!(proxy_target("http://proxy.local"), Err(ProxyUrlError::NoPort)));
    assert!(matches!(proxy_target("http://proxy.local:80"), Err(ProxyUrlError::NoPort)));
    assert!(matches!(proxy_target("unix:/run/proxy"), Err(ProxyUrlError::NoHost)));
    assert!(matches!(proxy_target("not a url"), Err(ProxyUrlError::NotAUrl)));
}

#[test]
fn proxies() {
    assert!(matches!(proxy_source(Some("socks://a:1".into()), false, None), ProxySource::Use(p) if p == "socks://a:1"));
    assert!(matches!(proxy_source(None, false, Some("x".into())), ProxySource::Off));
    assert!(matches!(proxy_source(None, true, None), ProxySource::Missing));
    assert!(matches!(proxy_source(None, true, Some("x".into())), ProxySource::Use(p) if p == "x"));
    assert_eq!(proxy_forward(4242, "10.0.0.1", 1080), "4242:10.0.0.1:1080");
    assert_eq!(
        with_proxy_env(args(&["A=1"]), "socks5", 4242),
        args(&[
            "A=1",
            "ALL_PROXY=socks5://127.0.0.1:4242",
            "HTTP_PROXY=http://127.0.0.1:4242",
            "HTTPS_PROXY=http://127.0.0.1:4242"
        ])
    );
}

#[test]
fn forwarding_specifications() {
    assert_eq!(split_by("a::b", ':'), args(&["a", "", "b"]));
    assert_eq!(split_by("", ':'), args(&[""]));
    let l = parse_forward("8080:example.com:80", false).unwrap();
    assert_eq!((l.local_host.as_str(), l.local_port), ("127.0.0.1", 8080));
    assert_eq!((l.remote_host.as_str(), l.remote_port), ("example.com", 80));
    let l = parse_forward("0.0.0.0:8080:example.com:80", false).unwrap();
    assert_eq!(l.local_host, "0.0.0.0");
    let r = parse_forward("9000:10.0.0.1:1080", true).unwrap();
    assert_eq!((r.local_host.as_str(), r.local_port), ("10.0.0.1", 1080));
    assert_eq!((r.remote_host.as_str(), r.remote_port), ("127.0.0.1", 9000));
    assert_eq!(parse_forward("8080:host:http", false).unwrap_err().0, "http");
    assert_eq!(parse_forward("x:host:80", false).unwrap_err().0, "x");
    assert_eq!(parse_forward("nope", false).unwrap_err().0, "nope");
}

#[test]
fn patches() {
    assert_eq!(unpushed_range("origin/main"), "origin/main..HEAD");
    assert_eq!(remote_patch(0, vec![], b"w".to_vec()).unwrap(), b"w".to_vec());
    assert_eq!(remote_patch(2, b"c".to_vec(), b"w".to_vec()).unwrap(), b"cw".to_vec());
    match remote_patch(2, vec![], b"w".to_vec()) {
        Err(e @ PatchError::EmptyCommitPatch(2)) => {
            assert_eq!(e.message(), "本地分支领先上游 2 个提交，但未能生成补丁，请先 push 后重试")
        }
        other => panic!("unexpected: {:?}", other),
    }
}

#[test]
fn upload_progress() {
    let mut p = Osc94Progress::new(200, true);
    assert_eq!(p.start(), vec![(1, 0)]);
    assert_eq!(p.update(100), vec![(1, 50)]);
    assert_eq!(p.update(101), vec![]);
    assert_eq!(p.update(200), vec![(1, 100)]);
    assert_eq!(p.finish_success(), vec![(1, 100), (0, 0)]);
    assert_eq!(p.finish_error(50), vec![(2, 25)]);
    assert_eq!(p.percent(u64::MAX), 100);
    let empty = Osc94Progress::new(0, true);
    assert_eq!(empty.percent(0), 100);
    let mut quiet = Osc94Progress::new(10, false);
    assert!(quiet.start().is_empty());
    assert!(quiet.update(5).is_empty());
    assert_eq!(quiet.last_percent, Some(50));
    assert_eq!(osc94_sequence(1, 50), "\x1b]9;4;1;50\x07");
}

#[test]
fn downloads() {
    assert!(download_conflict(true, true, false, false, false, false));
    assert!(!download_conflict(true, true, true, false, false, false));
    assert!(!download_conflict(false, true, false, false, false, false));
    assert_eq!(download_path("/tmp/out", true), "/tmp/out.tar");
    assert_eq!(download_path("/tmp/out.bin", false), "/tmp/out.bin");
    assert_eq!(file_exists_message("/tmp/a"), "文件已存在: /tmp/a");
}

#[test]
fn remote_failures() {
    assert_eq!(remote_exit_error("put", None), None);
    assert_eq!(remote_exit_error("put", Some(0)), None);
    assert_eq!(remote_exit_error("put", Some(3)).as_deref(), Some("remote put failed with exit status 3"));
    assert_eq!(
        remote_exit_error("job command", Some(1)).as_deref(),
        Some("remote job command failed with exit status 1")
    );
}

#[test]
fn job_choices() {
    assert_eq!(job_choice_line(0, "job-1", "cargo", "build"), "  1) job-1 [cargo] build");
    assert_eq!(job_choice_line(9, "j", "", ""), "  10) j [-] -");
}

#[test]
fn system_ssh_command_line() {
    let env = vec![("REPO".to_string(), "app".to_string()), ("BRANCH".to_string(), "main".to_string())];
    assert_eq!(
        system_ssh_args("/k", &env, "put", "10.0.0.2", 2222, &args(&["dest"])),
        args(&["-i", "/k", "-o", "SetEnv REPO=app BRANCH=main", "put@10.0.0.2", "-p", "2222", "dest"])
    );
}

#[test]
fn proxy_forward_is_read_back() {
    let spec = proxy_forward(4242, "10.0.0.1", 1080);
    let f = parse_forward(&spec, true).unwrap();
    assert_eq!((f.local_host.as_str(), f.local_port), ("10.0.0.1", 1080));
    assert_eq!((f.remote_host.as_str(), f.remote_port), ("127.0.0.1", 4242));
}

#[test]
fn progress_never_goes_down() {
    let p = Osc94Progress::new(1000, false);
    let mut last = 0u8;
    for sent in [0u64, 1, 9, 10, 500, 999, 1000, 5000, u64::MAX] {
        let now = p.percent(sent);
        assert!(now >= last);
        assert!(now <= 100);
        last = now;
    }
}

#[test]
fn settings_round_trip() {
    for kv in ["A=1", "PATH=/usr/bin:/bin", "X==y", "E="] {
        let (k, v) = split_env_pair(kv);
        assert_eq!(format!("{k}={v}"), kv);
        assert!(!k.contains('='));
    }
}

#[test]
fn commit_variables() {
    let pair = |k: &str, v: &str| (k.to_string(), v.to_string());
    assert_eq!(
        commit_env("abc", Some("fix"), Some("zsh"), true),
        vec![pair("GIT_COMMIT", "abc"), pair("GIT_MESSAGE", "fix"), pair("SHELL", "zsh"), pair("PTY", "1")]
    );
    assert_eq!(commit_env("abc", None, None, false), vec![pair("GIT_COMMIT", "abc")]);
}

#[test]
fn server_of_a_repository_url() {
    assert_eq!(server_address("ssh://git@127.0.0.1:2223/uuhan/workhorse"), Some(("127.0.0.1".to_string(), 2223)));
    assert_eq!(server_address("ssh://git@example.com/uuhan/workhorse"), Some(("example.com".to_string(), 2222)));
    assert_eq!(server_address("http://example.com/x"), Some(("example.com".to_string(), 80)));
    assert_eq!(server_address("ssh://[::1]/x"), Some(("[::1]".to_string(), 2222)));
    assert_eq!(server_address("not a url"), None);
}

#[test]
fn shell_flag_before_environment() {
    assert_eq!(chosen_shell(Some("zsh".to_string()), Some("nu".to_string())), Some("zsh".to_string()));
    assert_eq!(chosen_shell(None, Some("nu".to_string())), Some("nu".to_string()));
    assert_eq!(chosen_shell(None, None), None);
}

#[test]
fn proxy_ports_stay_in_range() {
    assert_eq!(proxy_port(0), 3000);
    assert_eq!(proxy_port(6999), 9999);
    assert_eq!(proxy_port(7000), 3000);
    assert_eq!(proxy_port(u64::MAX), 3000 + (u64::MAX % 7000) as u16);
}
