use workhorse::admin::{
    check_delete, check_disable, check_role_change, final_newline, needs_admin_count, parse_admin_command,
    require_admin, Account, AdminCommand, AdminDone, AdminError, SessionUser, Usage,
};

fn args(w: &[&str]) -> Vec<String> {
    w.iter().map(|s| s.to_string()).collect()
}

#[test]
fn users_add_defaults_to_user_role() {
    match parse_admin_command(&args(&["users", "add", "bob"])) {
        Ok(AdminCommand::AddUser { name, role }) => {
            assert_eq!(name, "bob");
            assert_eq!(role, "user");
        }
        other => panic!("unexpected: {:?}", other),
    }
    match parse_admin_command(&args(&["users", "add", "bob", "ADMIN"])) {
        Ok(AdminCommand::AddUser { role, .. }) => assert_eq!(role, "admin"),
        other => panic!("unexpected: {:?}", other),
    }
}

#[test]
fn users_role_refuses_other_roles() {
    match parse_admin_command(&args(&["users", "role", "bob", "root"])) {
        Err(e @ AdminError::BadRole) => assert_eq!(e.message(), "角色必须是 admin 或 user"),
        other => panic!("unexpected: {:?}", other),
    }
    match parse_admin_command(&args(&["users", "role", "bob"])) {
        Err(e @ AdminError::Usage(Usage::UsersRole)) => {
            assert_eq!(e.message(), "用法: users role <name> <admin|user>");
            assert_eq!(e.code(), "HSSH_ADMIN_FAILED");
            assert_eq!(e.exit_status(), 1);
        }
        other => panic!("unexpected: {:?}", other),
    }
}

#[test]
fn usage_lines_of_missing_arguments() {
    let cases: Vec<(Vec<String>, &str)> = vec![
        (args(&["users", "add"]), "用法: users add <name> [admin|user]"),
        (args(&["users", "enable"]), "用法: users enable <name>"),
        (args(&["users", "disable"]), "用法: users disable <name>"),
        (args(&["users", "delete"]), "用法: users delete <name>"),
        (args(&["keys", "add", "bob", "ssh-ed25519"]), "用法: keys add <user> <alg> <key> [comment]"),
        (args(&["keys", "enable", "ssh-ed25519"]), "用法: keys enable <alg> <key>"),
        (args(&["keys", "disable"]), "用法: keys disable <alg> <key>"),
        (args(&["keys", "delete"]), "用法: keys delete <alg> <key>"),
    ];
    for (a, text) in cases {
        match parse_admin_command(&a) {
            Err(e @ AdminError::Usage(_)) => assert_eq!(e.message(), text),
            other => panic!("unexpected: {:?}", other),
        }
    }
}

#[test]
fn keys_add_joins_the_comment() {
    match parse_admin_command(&args(&["keys", "add", "bob", "ssh-ed25519", "AAAA", "bob", "laptop"])) {
        Ok(AdminCommand::AddKey { user, alg, key, comment }) => {
            assert_eq!(user, "bob");
            assert_eq!(alg, "ssh-ed25519");
            assert_eq!(key, "AAAA");
            assert_eq!(comment.as_deref(), Some("bob laptop"));
        }
        other => panic!("unexpected: {:?}", other),
    }
    match parse_admin_command(&args(&["keys", "add", "bob", "ssh-ed25519", "AAAA"])) {
        Ok(AdminCommand::AddKey { comment, .. }) => assert!(comment.is_none()),
        other => panic!("unexpected: {:?}", other),
    }
}

#[test]
fn keys_list_and_unknown_requests() {
    assert!(matches!(parse_admin_command(&args(&["keys", "list"])), Ok(AdminCommand::ListKeys { user: None })));
    assert!(matches!(
        parse_admin_command(&args(&["keys", "list", "bob"])),
        Ok(AdminCommand::ListKeys { user: Some(u) }) if u == "bob"
    ));
    assert!(matches!(parse_admin_command(&args(&["users", "list"])), Ok(AdminCommand::ListUsers)));
    for a in [args(&[]), args(&["users"]), args(&["groups", "list"]), args(&["keys", "rotate"])] {
        match parse_admin_command(&a) {
            Err(e @ AdminError::Unsupported) => assert_eq!(
                e.message(),
                "不支持的 admin 命令, 用法: users|keys <list|add|enable|disable|role|delete> ..."
            ),
            other => panic!("unexpected: {:?}", other),
        }
    }
}

#[test]
fn only_administrators_pass() {
    let admin = SessionUser { id: 1, name: "root".into(), role: "admin".into() };
    let user = SessionUser { id: 2, name: "bob".into(), role: "user".into() };
    assert!(admin.is_admin());
    assert!(require_admin(&Some(admin)).is_ok());
    match require_admin(&Some(user)) {
        Err(e @ AdminError::Forbidden) => {
            assert_eq!(e.exit_status(), 3);
            assert_eq!(e.code(), "HSSH_ADMIN_FORBIDDEN");
            assert_eq!(e.message(), "需要管理员权限");
        }
        other => panic!("unexpected: {:?}", other),
    }
    assert!(require_admin(&None).is_err());
}

#[test]
fn the_last_enabled_admin_stays() {
    let last = Account { id: 5, admin: true, enabled: true };
    assert!(needs_admin_count(&last, 1));
    assert!(!needs_admin_count(&last, 5));
    assert!(matches!(check_disable(&last, 1, 1), Err(AdminError::DisableLastAdmin)));
    assert!(matches!(check_delete(&last, 1, 1), Err(AdminError::DeleteLastAdmin)));
    assert!(matches!(check_role_change(&last, "user", 1), Err(AdminError::DemoteLastAdmin)));
    assert!(matches!(check_disable(&last, 1, 2), Ok(true)));
    assert!(check_delete(&last, 1, 2).is_ok());
    assert!(check_role_change(&last, "user", 2).is_ok());
    assert!(check_role_change(&last, "admin", 1).is_ok());
    assert_eq!(check_disable(&last, 1, 1).unwrap_err().message(), "不能禁用最后一个启用中的管理员");
    assert_eq!(check_role_change(&last, "user", 1).unwrap_err().message(), "不能降级最后一个启用中的管理员");
}

#[test]
fn administrators_keep_their_own_account() {
    let me = Account { id: 1, admin: true, enabled: true };
    assert!(matches!(check_disable(&me, 1, 9), Err(AdminError::DisableSelf)));
    assert!(matches!(check_delete(&me, 1, 9), Err(AdminError::DeleteSelf)));
    assert_eq!(check_delete(&me, 1, 9).unwrap_err().message(), "不能删除当前登录管理员");
    let disabled = Account { id: 3, admin: false, enabled: false };
    assert!(matches!(check_disable(&disabled, 1, 1), Ok(false)));
}

#[test]
fn reports_of_done_requests() {
    assert_eq!(AdminDone::UserCreated { name: "bob".into(), id: 7 }.text(), "用户已创建: bob (id=7)");
    assert_eq!(AdminDone::RoleSet { name: "bob".into(), role: "admin".into() }.text(), "用户角色已更新: bob => admin");
    assert_eq!(AdminDone::UserDeleted { name: "bob".into(), id: -2 }.text(), "用户已删除: bob (id=-2)");
    assert_eq!(AdminDone::KeyEnabled { alg: "ssh-ed25519".into(), user_id: 3 }.text(), "公钥已启用: ssh-ed25519 3");
    assert_eq!(AdminDone::KeyDeleted.text(), "公钥已删除");
    assert_eq!(AdminError::NoSuchUser("eve".into()).message(), "用户不存在: eve");
}

#[test]
fn output_ends_with_a_line_break() {
    assert_eq!(final_newline("ok"), "ok\n");
    assert_eq!(final_newline("ok\n"), "ok\n");
    assert_eq!(final_newline(""), "\n");
}
