use workhorse::console::{
    answer_or_default, confirm_label, confirmation, confirms, first_key_line, first_non_empty, key_command,
    keys_add_command, keys_list_command, menu_entry, parse_public_key_line, remote_command, users_command,
    AdminExecResult, AdminReply, ChannelEvent, MenuEntry,
};
use workhorse::admin::{parse_admin_command, AdminCommand};

fn args(w: &[&str]) -> Vec<String> {
    w.iter().map(|s| s.to_string()).collect()
}

#[test]
fn parse_pubkey_with_comment() {
    let (alg, key, comment) = parse_public_key_line("ssh-ed25519 AAAAC3NzaC1lZDI1NTE5AAAA test@example").unwrap();
    assert_eq!(alg, "ssh-ed25519");
    assert_eq!(key, "AAAAC3NzaC1lZDI1NTE5AAAA");
    assert_eq!(comment.as_deref(), Some("test@example"));
}

#[test]
fn parse_pubkey_without_comment() {
    let (alg, key, comment) = parse_public_key_line("ssh-rsa AAAAB3NzaC1yc2EAAAADAQABAAABAQ").unwrap();
    assert_eq!(alg, "ssh-rsa");
    assert_eq!(key, "AAAAB3NzaC1yc2EAAAADAQABAAABAQ");
    assert!(comment.is_none());
}

#[test]
fn public_key_lines() {
    let (_, _, comment) = parse_public_key_line("  ssh-rsa  AAA  my   laptop ").unwrap();
    assert_eq!(comment.as_deref(), Some("my laptop"));
    let err = parse_public_key_line("ssh-rsa").unwrap_err();
    assert_eq!(err.message(), "公钥格式错误，期望: <alg> <base64> [comment]");
    assert_eq!(
        first_key_line("# comment\n\n  ssh-ed25519 AAA x  \r\nssh-rsa BBB\n").as_deref(),
        Some("ssh-ed25519 AAA x")
    );
    assert_eq!(first_key_line("# only\n \n"), None);
}

#[test]
fn exec_results() {
    let ok = AdminExecResult { stdout: "x".into(), stderr: String::new(), exit_code: None };
    assert!(ok.success());
    let failed = AdminExecResult { stdout: " out ".into(), stderr: "  ".into(), exit_code: Some(2) };
    assert!(!failed.success());
    assert_eq!(failed.failure_message(), "out");
    assert_eq!(failed.nonzero_note(), "admin 命令返回非零状态: 2");
    let silent = AdminExecResult { stdout: String::new(), stderr: String::new(), exit_code: Some(1) };
    assert_eq!(silent.failure_message(), "admin 命令执行失败");
    assert_eq!(first_non_empty(" err ", "out").as_deref(), Some("err"));
    assert_eq!(first_non_empty("", " "), None);
}

#[test]
fn answers() {
    assert!(confirms("y"));
    assert!(confirms("YES"));
    assert!(!confirms("Yes"));
    assert!(!confirms("n"));
    assert_eq!(answer_or_default("  ", "user"), "user");
    assert_eq!(answer_or_default(" admin ", "user"), "admin");
    assert_eq!(confirm_label("确认删除该公钥?"), "确认删除该公钥? (y/N)");
}

#[test]
fn menu() {
    assert_eq!(menu_entry(" 10 "), Some(MenuEntry::DisableKey));
    assert_eq!(menu_entry("q"), Some(MenuEntry::Exit));
    assert_eq!(menu_entry("exit"), Some(MenuEntry::Exit));
    assert_eq!(menu_entry("1"), Some(MenuEntry::ListUsers));
    assert_eq!(menu_entry("12"), None);
    assert_eq!(users_command("add", "bob", Some("admin")), args(&["users", "add", "bob", "admin"]));
    assert_eq!(users_command("enable", "bob", None), args(&["users", "enable", "bob"]));
    assert_eq!(keys_list_command(""), args(&["keys", "list"]));
    assert_eq!(keys_list_command("bob"), args(&["keys", "list", "bob"]));
    assert_eq!(
        keys_add_command("bob", "ssh-rsa", "AAA", Some("c")),
        args(&["keys", "add", "bob", "ssh-rsa", "AAA", "c"])
    );
    assert_eq!(key_command("delete", "ssh-rsa", "AAA"), args(&["keys", "delete", "ssh-rsa", "AAA"]));
    assert_eq!(confirmation(MenuEntry::DisableUser, "bob").as_deref(), Some("确认禁用用户 bob ?"));
    assert_eq!(confirmation(MenuEntry::DeleteKey, "").as_deref(), Some("确认删除该公钥?"));
    assert_eq!(confirmation(MenuEntry::AddUser, "bob"), None);
}

#[test]
fn escaped_command_lines() {
    assert_eq!(remote_command(&args(&["users", "add", "bob"])), "users add bob");
    assert_eq!(remote_command(&args(&["keys", "add", "bob smith"])), "keys add 'bob smith'");
    assert_eq!(remote_command(&args(&["it's", ""])), "'it'\\''s' ''");
    assert_eq!(remote_command(&args(&["hi!"])), "'hi'\\!''");
}

#[test]
fn admin_replies_stop_at_the_exit_status() {
    let mut r = AdminReply::new();
    assert!(!r.receive(ChannelEvent::Data(b"ab".to_vec())));
    assert!(!r.receive(ChannelEvent::ExtendedData(b"e".to_vec())));
    assert!(!r.receive(ChannelEvent::Other));
    assert!(!r.receive(ChannelEvent::Data(b"c".to_vec())));
    assert!(r.receive(ChannelEvent::ExitStatus(4)));
    assert_eq!(r.out, b"abc".to_vec());
    assert_eq!(r.err, b"e".to_vec());
    assert_eq!(r.exit_code, Some(4));
}

#[test]
fn console_requests_are_understood() {
    match parse_admin_command(&users_command("add", "bob", Some("Admin"))) {
        Ok(AdminCommand::AddUser { name, role }) => {
            assert_eq!(name, "bob");
            assert_eq!(role, "admin");
        }
        other => panic!("unexpected: {:?}", other),
    }
    match parse_admin_command(&keys_add_command("bob", "ssh-rsa", "AAA", Some("my laptop"))) {
        Ok(AdminCommand::AddKey { comment, .. }) => assert_eq!(comment.as_deref(), Some("my laptop")),
        other => panic!("unexpected: {:?}", other),
    }
    assert!(matches!(
        parse_admin_command(&key_command("disable", "ssh-rsa", "AAA")),
        Ok(AdminCommand::DisableKey { .. })
    ));
}
