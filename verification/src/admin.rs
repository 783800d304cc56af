//! The `admin` action on the server: what an administrator may ask of the
//! user and key tables, and the rules that keep at least one enabled
//! administrator.
use vstd::prelude::*;
use crate::text::{
    ascii_lowercase, join, join_strings, push_chars, push_str, signed_decimal, decimal_i32,
    str_equals, to_ascii_lowercase, views,
};

verus! {

/// An account as the admin rules see it.
#[derive(Clone, Copy, Debug, PartialEq, Eq, Structural)]
pub struct Account {
    pub id: i32,
    /// Its role is `admin`.
    pub admin: bool,
    pub enabled: bool,
}

/// The logged-in account of a session.
#[derive(Clone, Debug)]
pub struct SessionUser {
    pub id: i32,
    pub name: String,
    pub role: String,
}

impl SessionUser {
    /// Whether the account's role is `admin`.
    pub fn is_admin(&self) -> (r: bool)
        ensures
            r == (self.role@ == "admin"@),
    {
        str_equals(self.role.as_str(), "admin")
    }
}

/// Whether a session may use the `admin` action: it has a logged-in
/// administrator.
pub fn require_admin(user: &Option<SessionUser>) -> (r: Result<(), AdminError>)
    ensures
        r is Ok <==> (user matches Some(u) && u.role@ == "admin"@),
        r matches Err(e) ==> e is Forbidden,
{
    match user {
        Some(u) => if u.is_admin() {
            Ok(())
        } else {
            Err(AdminError::Forbidden)
        },
        None => Err(AdminError::Forbidden),
    }
}

/// Which usage line a malformed request is answered with.
#[derive(Clone, Copy, Debug, PartialEq, Eq, Structural)]
pub enum Usage {
    UsersAdd,
    UsersEnable,
    UsersDisable,
    UsersRole,
    UsersDelete,
    KeysAdd,
    KeysEnable,
    KeysDisable,
    KeysDelete,
}

/// Why an admin request fails.
#[derive(Clone, Debug)]
pub enum AdminError {
    /// The session has no administrator.
    Forbidden,
    /// An argument is missing.
    Usage(Usage),
    /// The role is neither `admin` nor `user`.
    BadRole,
    /// The section or the verb is unknown.
    Unsupported,
    /// No account has this name.
    NoSuchUser(String),
    /// No key has this algorithm and body.
    NoSuchKey,
    /// An administrator tried to disable their own account.
    DisableSelf,
    /// Disabling would leave no enabled administrator.
    DisableLastAdmin,
    /// Demoting would leave no enabled administrator.
    DemoteLastAdmin,
    /// An administrator tried to delete their own account.
    DeleteSelf,
    /// Deleting would leave no enabled administrator.
    DeleteLastAdmin,
}

impl AdminError {
    /// The exit status the request ends with.
    pub fn exit_status(&self) -> (r: u32)
        ensures
            self is Forbidden ==> r == 3,
            !(self is Forbidden) ==> r == 1,
    {
        match self {
            AdminError::Forbidden => 3,
            _ => 1,
        }
    }

    /// The error code sent to the client.
    pub fn code(&self) -> (r: &'static str)
        ensures
            self is Forbidden ==> r@ == "HSSH_ADMIN_FORBIDDEN"@,
            !(self is Forbidden) ==> r@ == "HSSH_ADMIN_FAILED"@,
    {
        match self {
            AdminError::Forbidden => "HSSH_ADMIN_FORBIDDEN",
            _ => "HSSH_ADMIN_FAILED",
        }
    }

    /// The message sent to the client.
    pub fn message(&self) -> (r: String)
        ensures
            r@ == admin_error_text(*self),
    {
        let mut m = String::new();
        match self {
            AdminError::Forbidden => push_str(&mut m, "需要管理员权限"),
            AdminError::Usage(u) => push_str(&mut m, usage_line(*u)),
            AdminError::BadRole => push_str(&mut m, "角色必须是 admin 或 user"),
            AdminError::Unsupported => push_str(
                &mut m,
                "不支持的 admin 命令, 用法: users|keys <list|add|enable|disable|role|delete> ...",
            ),
            AdminError::NoSuchUser(name) => {
                push_str(&mut m, "用户不存在: ");
                push_str(&mut m, name.as_str());
            },
            AdminError::NoSuchKey => push_str(&mut m, "公钥不存在"),
            AdminError::DisableSelf => push_str(&mut m, "不能禁用当前登录管理员"),
            AdminError::DisableLastAdmin => push_str(&mut m, "不能禁用最后一个启用中的管理员"),
            AdminError::DemoteLastAdmin => push_str(&mut m, "不能降级最后一个启用中的管理员"),
            AdminError::DeleteSelf => push_str(&mut m, "不能删除当前登录管理员"),
            AdminError::DeleteLastAdmin => push_str(&mut m, "不能删除最后一个启用中的管理员"),
        }
        m
    }
}

/// The usage line of each malformed request.
pub open spec fn usage_text(u: Usage) -> Seq<char> {
    match u {
        Usage::UsersAdd => "用法: users add <name> [admin|user]"@,
        Usage::UsersEnable => "用法: users enable <name>"@,
        Usage::UsersDisable => "用法: users disable <name>"@,
        Usage::UsersRole => "用法: users role <name> <admin|user>"@,
        Usage::UsersDelete => "用法: users delete <name>"@,
        Usage::KeysAdd => "用法: keys add <user> <alg> <key> [comment]"@,
        Usage::KeysEnable => "用法: keys enable <alg> <key>"@,
        Usage::KeysDisable => "用法: keys disable <alg> <key>"@,
        Usage::KeysDelete => "用法: keys delete <alg> <key>"@,
    }
}

/// The text of each admin error.
pub open spec fn admin_error_text(e: AdminError) -> Seq<char> {
    match e {
        AdminError::Forbidden => "需要管理员权限"@,
        AdminError::Usage(u) => usage_text(u),
        AdminError::BadRole => "角色必须是 admin 或 user"@,
        AdminError::Unsupported => "不支持的 admin 命令, 用法: users|keys <list|add|enable|disable|role|delete> ..."@,
        AdminError::NoSuchUser(name) => "用户不存在: "@ + name@,
        AdminError::NoSuchKey => "公钥不存在"@,
        AdminError::DisableSelf => "不能禁用当前登录管理员"@,
        AdminError::DisableLastAdmin => "不能禁用最后一个启用中的管理员"@,
        AdminError::DemoteLastAdmin => "不能降级最后一个启用中的管理员"@,
        AdminError::DeleteSelf => "不能删除当前登录管理员"@,
        AdminError::DeleteLastAdmin => "不能删除最后一个启用中的管理员"@,
    }
}

fn usage_line(u: Usage) -> (r: &'static str)
    ensures
        r@ == usage_text(u),
{
    match u {
        Usage::UsersAdd => "用法: users add <name> [admin|user]",
        Usage::UsersEnable => "用法: users enable <name>",
        Usage::UsersDisable => "用法: users disable <name>",
        Usage::UsersRole => "用法: users role <name> <admin|user>",
        Usage::UsersDelete => "用法: users delete <name>",
        Usage::KeysAdd => "用法: keys add <user> <alg> <key> [comment]",
        Usage::KeysEnable => "用法: keys enable <alg> <key>",
        Usage::KeysDisable => "用法: keys disable <alg> <key>",
        Usage::KeysDelete => "用法: keys delete <alg> <key>",
    }
}

/// A well-formed admin request.
#[derive(Clone, Debug)]
pub enum AdminCommand {
    ListUsers,
    /// Create an enabled account with a role, `admin` or `user`.
    AddUser { name: String, role: String },
    EnableUser { name: String },
    DisableUser { name: String },
    /// Give an account a role, `admin` or `user`.
    SetRole { name: String, role: String },
    DeleteUser { name: String },
    /// List the keys, of one account or of all.
    ListKeys { user: Option<String> },
    AddKey { user: String, alg: String, key: String, comment: Option<String> },
    EnableKey { alg: String, key: String },
    DisableKey { alg: String, key: String },
    DeleteKey { alg: String, key: String },
}

/// The mathematical content of an admin request.
pub enum AdminCommandView {
    ListUsers,
    AddUser { name: Seq<char>, role: Seq<char> },
    EnableUser { name: Seq<char> },
    DisableUser { name: Seq<char> },
    SetRole { name: Seq<char>, role: Seq<char> },
    DeleteUser { name: Seq<char> },
    ListKeys { user: Option<Seq<char>> },
    AddKey { user: Seq<char>, alg: Seq<char>, key: Seq<char>, comment: Option<Seq<char>> },
    EnableKey { alg: Seq<char>, key: Seq<char> },
    DisableKey { alg: Seq<char>, key: Seq<char> },
    DeleteKey { alg: Seq<char>, key: Seq<char> },
}

/// The view of an optional string.
pub open spec fn opt_view(o: Option<String>) -> Option<Seq<char>> {
    match o {
        Some(s) => Some(s@),
        None => None,
    }
}

impl View for AdminCommand {
    type V = AdminCommandView;

    open spec fn view(&self) -> AdminCommandView {
        match self {
            AdminCommand::ListUsers => AdminCommandView::ListUsers,
            AdminCommand::AddUser { name, role } => AdminCommandView::AddUser { name: name@, role: role@ },
            AdminCommand::EnableUser { name } => AdminCommandView::EnableUser { name: name@ },
            AdminCommand::DisableUser { name } => AdminCommandView::DisableUser { name: name@ },
            AdminCommand::SetRole { name, role } => AdminCommandView::SetRole { name: name@, role: role@ },
            AdminCommand::DeleteUser { name } => AdminCommandView::DeleteUser { name: name@ },
            AdminCommand::ListKeys { user } => AdminCommandView::ListKeys { user: opt_view(*user) },
            AdminCommand::AddKey { user, alg, key, comment } => AdminCommandView::AddKey {
                user: user@,
                alg: alg@,
                key: key@,
                comment: opt_view(*comment),
            },
            AdminCommand::EnableKey { alg, key } => AdminCommandView::EnableKey { alg: alg@, key: key@ },
            AdminCommand::DisableKey { alg, key } => AdminCommandView::DisableKey { alg: alg@, key: key@ },
            AdminCommand::DeleteKey { alg, key } => AdminCommandView::DeleteKey { alg: alg@, key: key@ },
        }
    }
}

/// Argument `i`, or the empty string.
pub open spec fn arg(a: Seq<Seq<char>>, i: int) -> Seq<char> {
    if 0 <= i < a.len() {
        a[i]
    } else {
        seq![]
    }
}

/// A role argument, lower-cased, when it is `admin` or `user`.
pub open spec fn role_of(r: Seq<char>) -> Option<Seq<char>> {
    let l = ascii_lowercase(r);
    if l == "admin"@ || l == "user"@ {
        Some(l)
    } else {
        None
    }
}

/// What an admin request (its words) asks: `users` or `keys`, a verb, and the
/// verb's arguments. Missing arguments give the verb's usage line; extra ones
/// are ignored, but for the comment of `keys add`, which is the remaining words
/// joined by spaces.
pub open spec fn admin_request(a: Seq<Seq<char>>) -> Result<AdminCommandView, AdminError> {
    let section = arg(a, 0);
    let verb = arg(a, 1);
    if section == "users"@ {
        if verb == "list"@ {
            Ok(AdminCommandView::ListUsers)
        } else if verb == "add"@ {
            if a.len() < 3 {
                Err(AdminError::Usage(Usage::UsersAdd))
            } else {
                match role_of(if a.len() > 3 { a[3] } else { "user"@ }) {
                    Some(role) => Ok(AdminCommandView::AddUser { name: a[2], role }),
                    None => Err(AdminError::BadRole),
                }
            }
        } else if verb == "enable"@ {
            if a.len() < 3 {
                Err(AdminError::Usage(Usage::UsersEnable))
            } else {
                Ok(AdminCommandView::EnableUser { name: a[2] })
            }
        } else if verb == "disable"@ {
            if a.len() < 3 {
                Err(AdminError::Usage(Usage::UsersDisable))
            } else {
                Ok(AdminCommandView::DisableUser { name: a[2] })
            }
        } else if verb == "role"@ {
            if a.len() < 4 {
                Err(AdminError::Usage(Usage::UsersRole))
            } else {
                match role_of(a[3]) {
                    Some(role) => Ok(AdminCommandView::SetRole { name: a[2], role }),
                    None => Err(AdminError::BadRole),
                }
            }
        } else if verb == "delete"@ {
            if a.len() < 3 {
                Err(AdminError::Usage(Usage::UsersDelete))
            } else {
                Ok(AdminCommandView::DeleteUser { name: a[2] })
            }
        } else {
            Err(AdminError::Unsupported)
        }
    } else if section == "keys"@ {
        if verb == "list"@ {
            Ok(AdminCommandView::ListKeys { user: if a.len() > 2 { Some(a[2]) } else { None } })
        } else if verb == "add"@ {
            if a.len() < 5 {
                Err(AdminError::Usage(Usage::KeysAdd))
            } else {
                Ok(
                    AdminCommandView::AddKey {
                        user: a[2],
                        alg: a[3],
                        key: a[4],
                        comment: if a.len() > 5 { Some(join(a.skip(5), " "@)) } else { None },
                    },
                )
            }
        } else if verb == "enable"@ {
            if a.len() < 4 {
                Err(AdminError::Usage(Usage::KeysEnable))
            } else {
                Ok(AdminCommandView::EnableKey { alg: a[2], key: a[3] })
            }
        } else if verb == "disable"@ {
            if a.len() < 4 {
                Err(AdminError::Usage(Usage::KeysDisable))
            } else {
                Ok(AdminCommandView::DisableKey { alg: a[2], key: a[3] })
            }
        } else if verb == "delete"@ {
            if a.len() < 4 {
                Err(AdminError::Usage(Usage::KeysDelete))
            } else {
                Ok(AdminCommandView::DeleteKey { alg: a[2], key: a[3] })
            }
        } else {
            Err(AdminError::Unsupported)
        }
    } else {
        Err(AdminError::Unsupported)
    }
}

/// The same result, the request taken by its view.
pub open spec fn same_request(r: Result<AdminCommand, AdminError>, s: Result<AdminCommandView, AdminError>) -> bool {
    match (r, s) {
        (Ok(c), Ok(v)) => c@ == v,
        (Err(e), Err(f)) => e == f,
        _ => false,
    }
}

/// Whether argument `i` is `word`.
fn arg_is(args: &Vec<String>, i: usize, word: &str) -> (r: bool)
    ensures
        r == (arg(views(args@), i as int) == word@),
{
    if i < args.len() {
        str_equals(args[i].as_str(), word)
    } else {
        let e = String::new();
        str_equals(e.as_str(), word)
    }
}

/// A role argument, lower-cased, when it is `admin` or `user`.
fn parse_role(r: &str) -> (o: Option<String>)
    ensures
        opt_view(o) == role_of(r@),
{
    let l = to_ascii_lowercase(r);
    if str_equals(l.as_str(), "admin") || str_equals(l.as_str(), "user") {
        Some(l)
    } else {
        None
    }
}

/// The words from position `from` on, joined by spaces.
fn rest_joined(args: &Vec<String>, from: usize) -> (r: String)
    requires
        from <= args@.len(),
    ensures
        r@ == join(views(args@).skip(from as int), " "@),
{
    let mut rest: Vec<String> = Vec::new();
    let mut i = from;
    while i < args.len()
        invariant
            from <= i <= args@.len(),
            views(rest@) == views(args@).subrange(from as int, i as int),
        decreases args@.len() - i,
    {
        let ghost before = rest@;
        rest.push(args[i].clone());
        assert(views(rest@) =~= views(before).push(args@[i as int]@));
        i = i + 1;
        assert(views(rest@) =~= views(args@).subrange(from as int, i as int));
    }
    assert(views(args@).subrange(from as int, args@.len() as int) =~= views(args@).skip(from as int));
    join_strings(&rest, " ")
}

/// Reads an admin request (see [`admin_request`]).
pub fn parse_admin_command(args: &Vec<String>) -> (r: Result<AdminCommand, AdminError>)
    ensures
        same_request(r, admin_request(views(args@))),
{
    let ghost a = views(args@);
    let n = args.len();
    if arg_is(args, 0, "users") {
        if arg_is(args, 1, "list") {
            Ok(AdminCommand::ListUsers)
        } else if arg_is(args, 1, "add") {
            if n < 3 {
                return Err(AdminError::Usage(Usage::UsersAdd));
            }
            let role = if n > 3 {
                parse_role(args[3].as_str())
            } else {
                parse_role("user")
            };
            match role {
                Some(role) => Ok(AdminCommand::AddUser { name: args[2].clone(), role }),
                None => Err(AdminError::BadRole),
            }
        } else if arg_is(args, 1, "enable") {
            if n < 3 {
                return Err(AdminError::Usage(Usage::UsersEnable));
            }
            Ok(AdminCommand::EnableUser { name: args[2].clone() })
        } else if arg_is(args, 1, "disable") {
            if n < 3 {
                return Err(AdminError::Usage(Usage::UsersDisable));
            }
            Ok(AdminCommand::DisableUser { name: args[2].clone() })
        } else if arg_is(args, 1, "role") {
            if n < 4 {
                return Err(AdminError::Usage(Usage::UsersRole));
            }
            match parse_role(args[3].as_str()) {
                Some(role) => Ok(AdminCommand::SetRole { name: args[2].clone(), role }),
                None => Err(AdminError::BadRole),
            }
        } else if arg_is(args, 1, "delete") {
            if n < 3 {
                return Err(AdminError::Usage(Usage::UsersDelete));
            }
            Ok(AdminCommand::DeleteUser { name: args[2].clone() })
        } else {
            Err(AdminError::Unsupported)
        }
    } else if arg_is(args, 0, "keys") {
        if arg_is(args, 1, "list") {
            let user = if n > 2 {
                Some(args[2].clone())
            } else {
                None
            };
            Ok(AdminCommand::ListKeys { user })
        } else if arg_is(args, 1, "add") {
            if n < 5 {
                return Err(AdminError::Usage(Usage::KeysAdd));
            }
            let comment = if n > 5 {
                Some(rest_joined(args, 5))
            } else {
                None
            };
            Ok(
                AdminCommand::AddKey {
                    user: args[2].clone(),
                    alg: args[3].clone(),
                    key: args[4].clone(),
                    comment,
                },
            )
        } else if arg_is(args, 1, "enable") {
            if n < 4 {
                return Err(AdminError::Usage(Usage::KeysEnable));
            }
            Ok(AdminCommand::EnableKey { alg: args[2].clone(), key: args[3].clone() })
        } else if arg_is(args, 1, "disable") {
            if n < 4 {
                return Err(AdminError::Usage(Usage::KeysDisable));
            }
            Ok(AdminCommand::DisableKey { alg: args[2].clone(), key: args[3].clone() })
        } else if arg_is(args, 1, "delete") {
            if n < 4 {
                return Err(AdminError::Usage(Usage::KeysDelete));
            }
            Ok(AdminCommand::DeleteKey { alg: args[2].clone(), key: args[3].clone() })
        } else {
            Err(AdminError::Unsupported)
        }
    } else {
        Err(AdminError::Unsupported)
    }
}

/// Whether an account counts as an enabled administrator.
pub open spec fn counts(a: Account) -> nat {
    if a.enabled && a.admin {
        1
    } else {
        0
    }
}

/// The number of enabled administrators among `users`.
pub open spec fn enabled_admins(users: Seq<Account>) -> nat
    decreases users.len(),
{
    if users.len() == 0 {
        0
    } else {
        enabled_admins(users.drop_last()) + counts(users.last())
    }
}

/// The verdict on disabling `target` for the administrator `actor`, given how
/// many enabled administrators there are: `Ok(true)` when the account is to be
/// disabled, `Ok(false)` when it already is.
pub open spec fn disable_verdict(target: Account, actor: i32, admins: nat) -> Result<bool, AdminError> {
    if target.id == actor {
        Err(AdminError::DisableSelf)
    } else if target.enabled && target.admin && admins <= 1 {
        Err(AdminError::DisableLastAdmin)
    } else {
        Ok(target.enabled)
    }
}

/// The verdict on giving `target` the role `role` (`admin` or `user`).
pub open spec fn role_verdict(target: Account, role: Seq<char>, admins: nat) -> Result<(), AdminError> {
    if target.admin && role == "user"@ && target.enabled && admins <= 1 {
        Err(AdminError::DemoteLastAdmin)
    } else {
        Ok(())
    }
}

/// The verdict on deleting `target` for the administrator `actor`.
pub open spec fn delete_verdict(target: Account, actor: i32, admins: nat) -> Result<(), AdminError> {
    if target.id == actor {
        Err(AdminError::DeleteSelf)
    } else if target.enabled && target.admin && admins <= 1 {
        Err(AdminError::DeleteLastAdmin)
    } else {
        Ok(())
    }
}

/// Whether the verdict on disabling or deleting `target` depends on how many
/// enabled administrators there are (the server counts them only then).
pub fn needs_admin_count(target: &Account, actor_id: i32) -> (r: bool)
    ensures
        r == (target.id != actor_id && target.enabled && target.admin),
{
    target.id != actor_id && target.enabled && target.admin
}

/// Decides a `users disable` (see [`disable_verdict`]).
pub fn check_disable(target: &Account, actor_id: i32, enabled_admins: u64) -> (r: Result<bool, AdminError>)
    ensures
        r == disable_verdict(*target, actor_id, enabled_admins as nat),
{
    if target.id == actor_id {
        Err(AdminError::DisableSelf)
    } else if target.enabled && target.admin && enabled_admins <= 1 {
        Err(AdminError::DisableLastAdmin)
    } else {
        Ok(target.enabled)
    }
}

/// Decides a `users role` (see [`role_verdict`]).
pub fn check_role_change(target: &Account, role: &str, enabled_admins: u64) -> (r: Result<(), AdminError>)
    ensures
        r == role_verdict(*target, role@, enabled_admins as nat),
{
    if target.admin && str_equals(role, "user") && target.enabled && enabled_admins <= 1 {
        Err(AdminError::DemoteLastAdmin)
    } else {
        Ok(())
    }
}

/// Decides a `users delete` (see [`delete_verdict`]).
pub fn check_delete(target: &Account, actor_id: i32, enabled_admins: u64) -> (r: Result<(), AdminError>)
    ensures
        r == delete_verdict(*target, actor_id, enabled_admins as nat),
{
    if target.id == actor_id {
        Err(AdminError::DeleteSelf)
    } else if target.enabled && target.admin && enabled_admins <= 1 {
        Err(AdminError::DeleteLastAdmin)
    } else {
        Ok(())
    }
}

pub proof fn lemma_enabled_admins_update(users: Seq<Account>, i: int, a: Account)
    requires
        0 <= i < users.len(),
    ensures
        enabled_admins(users.update(i, a)) + counts(users[i]) == enabled_admins(users) + counts(a),
    decreases users.len(),
{
    let u = users.update(i, a);
    if i == users.len() - 1 {
        assert(u.drop_last() =~= users.drop_last());
    } else {
        assert(u.drop_last() =~= users.drop_last().update(i, a));
        lemma_enabled_admins_update(users.drop_last(), i, a);
    }
}

pub proof fn lemma_enabled_admins_remove(users: Seq<Account>, i: int)
    requires
        0 <= i < users.len(),
    ensures
        enabled_admins(users.remove(i)) + counts(users[i]) == enabled_admins(users),
    decreases users.len(),
{
    let u = users.remove(i);
    if i == users.len() - 1 {
        assert(u =~= users.drop_last());
    } else {
        assert(u.drop_last() =~= users.drop_last().remove(i));
        assert(u.last() == users.last());
        lemma_enabled_admins_remove(users.drop_last(), i);
    }
}

/// A `users disable` that the rules let through leaves an enabled
/// administrator, when there was one: the last one cannot be disabled.
pub proof fn law_disable_keeps_an_admin(users: Seq<Account>, i: int, actor: i32)
    requires
        0 <= i < users.len(),
        enabled_admins(users) >= 1,
        disable_verdict(users[i], actor, enabled_admins(users)) is Ok,
    ensures
        enabled_admins(users.update(i, Account { id: users[i].id, admin: users[i].admin, enabled: false }))
            >= 1,
{
    lemma_enabled_admins_update(users, i, Account { id: users[i].id, admin: users[i].admin, enabled: false });
}

/// A `users role` change that the rules let through leaves an enabled
/// administrator, when there was one: the last one cannot be demoted.
pub proof fn law_role_change_keeps_an_admin(users: Seq<Account>, i: int, role: Seq<char>)
    requires
        0 <= i < users.len(),
        enabled_admins(users) >= 1,
        role == "admin"@ || role == "user"@,
        role_verdict(users[i], role, enabled_admins(users)) is Ok,
    ensures
        enabled_admins(users.update(i, Account { id: users[i].id, admin: role == "admin"@, enabled: users[i].enabled }))
            >= 1,
{
    lemma_enabled_admins_update(users, i, Account { id: users[i].id, admin: role == "admin"@, enabled: users[i].enabled });
    if role == "user"@ {
        assert(role != "admin"@) by {
            reveal_strlit("user");
            reveal_strlit("admin");
            assert("user"@.len() != "admin"@.len());
        }
    }
}

/// A `users delete` that the rules let through leaves an enabled
/// administrator, when there was one: the last one cannot be deleted.
pub proof fn law_delete_keeps_an_admin(users: Seq<Account>, i: int, actor: i32)
    requires
        0 <= i < users.len(),
        enabled_admins(users) >= 1,
        delete_verdict(users[i], actor, enabled_admins(users)) is Ok,
    ensures
        enabled_admins(users.remove(i)) >= 1,
{
    lemma_enabled_admins_remove(users, i);
}

/// What an admin request (its words) does to the accounts when the
/// administrator `actor` sends it and the account it names is `users[i]`
/// (`i` outside the table: there is no such account); a new account gets the
/// id `new_id`. Refused and malformed requests, and those on keys, change no
/// account.
pub open spec fn admin_effect(users: Seq<Account>, a: Seq<Seq<char>>, i: int, actor: i32, new_id: i32) -> Seq<Account> {
    let found = 0 <= i < users.len();
    match admin_request(a) {
        Ok(AdminCommandView::AddUser { name, role }) => users.push(
            Account { id: new_id, admin: role == "admin"@, enabled: true },
        ),
        Ok(AdminCommandView::EnableUser { name }) => if found {
            users.update(i, Account { id: users[i].id, admin: users[i].admin, enabled: true })
        } else {
            users
        },
        Ok(AdminCommandView::DisableUser { name }) => if found && disable_verdict(
            users[i],
            actor,
            enabled_admins(users),
        ) is Ok {
            users.update(i, Account { id: users[i].id, admin: users[i].admin, enabled: false })
        } else {
            users
        },
        Ok(AdminCommandView::SetRole { name, role }) => if found && role_verdict(
            users[i],
            role,
            enabled_admins(users),
        ) is Ok {
            users.update(i, Account { id: users[i].id, admin: role == "admin"@, enabled: users[i].enabled })
        } else {
            users
        },
        Ok(AdminCommandView::DeleteUser { name }) => if found && delete_verdict(
            users[i],
            actor,
            enabled_admins(users),
        ) is Ok {
            users.remove(i)
        } else {
            users
        },
        _ => users,
    }
}

/// The roles a request can set are `admin` and `user`.
pub proof fn lemma_role_of(r: Seq<char>)
    ensures
        role_of(r) matches Some(l) ==> (l == "admin"@ || l == "user"@),
{
}

/// Law: whatever an administrator sends, an enabled administrator is left
/// when there was one: no request disables, demotes or deletes the last one.
pub proof fn law_last_admin_survives(users: Seq<Account>, a: Seq<Seq<char>>, i: int, actor: i32, new_id: i32)
    requires
        enabled_admins(users) >= 1,
    ensures
        enabled_admins(admin_effect(users, a, i, actor, new_id)) >= 1,
{
    let found = 0 <= i < users.len();
    match admin_request(a) {
        Ok(AdminCommandView::AddUser { name, role }) => {
            let n = Account { id: new_id, admin: role == "admin"@, enabled: true };
            assert(users.push(n).drop_last() =~= users);
        },
        Ok(AdminCommandView::EnableUser { name }) => {
            if found {
                lemma_enabled_admins_update(users, i, Account { id: users[i].id, admin: users[i].admin, enabled: true });
            }
        },
        Ok(AdminCommandView::DisableUser { name }) => {
            if found && disable_verdict(users[i], actor, enabled_admins(users)) is Ok {
                law_disable_keeps_an_admin(users, i, actor);
            }
        },
        Ok(AdminCommandView::SetRole { name, role }) => {
            if found && role_verdict(users[i], role, enabled_admins(users)) is Ok {
                lemma_role_of(a[3]);
                law_role_change_keeps_an_admin(users, i, role);
            }
        },
        Ok(AdminCommandView::DeleteUser { name }) => {
            if found && delete_verdict(users[i], actor, enabled_admins(users)) is Ok {
                law_delete_keeps_an_admin(users, i, actor);
            }
        },
        _ => {},
    }
}

/// Law: deleting is refused only for the administrator's own account or for
/// the last enabled administrator. Any other account is deleted whatever the
/// number of administrators; with two or more enabled administrators only
/// the administrator's own account is kept from deletion.
pub proof fn law_delete_refusals(target: Account, actor: i32, admins: nat)
    ensures
        target.id != actor && !(target.enabled && target.admin) ==> delete_verdict(target, actor, admins)
            == Ok::<(), AdminError>(()),
        admins >= 2 ==> (delete_verdict(target, actor, admins) is Ok <==> target.id != actor),
        delete_verdict(target, actor, admins) == Err::<(), AdminError>(AdminError::DeleteLastAdmin) ==> (
        target.enabled && target.admin && admins <= 1 && target.id != actor),
        delete_verdict(target, actor, admins) is Err ==> (target.id == actor || (target.enabled && target.admin
            && admins <= 1)),
{
}

/// Law: disabling is refused only for the administrator's own account or for
/// the last enabled administrator; any other account is disabled (or left
/// disabled) whatever the number of administrators.
pub proof fn law_disable_refusals(target: Account, actor: i32, admins: nat)
    ensures
        target.id != actor && !(target.enabled && target.admin) ==> disable_verdict(target, actor, admins)
            == Ok::<bool, AdminError>(target.enabled),
        admins >= 2 ==> (disable_verdict(target, actor, admins) is Ok <==> target.id != actor),
        disable_verdict(target, actor, admins) is Err ==> (target.id == actor || (target.enabled
            && target.admin && admins <= 1)),
{
}

/// Law: a role change is refused only when it would demote the last enabled
/// administrator; making anyone an administrator is always allowed, and so is
/// any change while two or more administrators are enabled.
pub proof fn law_role_refusals(target: Account, role: Seq<char>, admins: nat)
    ensures
        role_verdict(target, role, admins) is Err ==> (target.admin && target.enabled && role == "user"@
            && admins <= 1),
        !(target.admin && target.enabled) ==> role_verdict(target, role, admins) is Ok,
        admins >= 2 ==> role_verdict(target, role, admins) is Ok,
        role != "user"@ ==> role_verdict(target, role, admins) is Ok,
{
}

/// An administrator never disables or deletes their own account.
pub proof fn law_no_self_removal(target: Account, actor: i32, admins: nat)
    requires
        target.id == actor,
    ensures
        disable_verdict(target, actor, admins) == Err::<bool, AdminError>(AdminError::DisableSelf),
        delete_verdict(target, actor, admins) == Err::<(), AdminError>(AdminError::DeleteSelf),
{
}

/// What a successful admin request reports (besides the listings, which are
/// JSON).
#[derive(Clone, Debug)]
pub enum AdminDone {
    UserCreated { name: String, id: i32 },
    UserEnabled { name: String },
    UserDisabled { name: String },
    RoleSet { name: String, role: String },
    UserDeleted { name: String, id: i32 },
    KeyAdded { owner: String },
    KeyEnabled { alg: String, user_id: i32 },
    KeyDisabled { alg: String, user_id: i32 },
    KeyDeleted,
}

/// The report of each successful request.
pub open spec fn done_text(d: AdminDone) -> Seq<char> {
    match d {
        AdminDone::UserCreated { name, id } => "用户已创建: "@ + name@ + " (id="@ + signed_decimal(id as int) + ")"@,
        AdminDone::UserEnabled { name } => "用户已启用: "@ + name@,
        AdminDone::UserDisabled { name } => "用户已禁用: "@ + name@,
        AdminDone::RoleSet { name, role } => "用户角色已更新: "@ + name@ + " => "@ + role@,
        AdminDone::UserDeleted { name, id } => "用户已删除: "@ + name@ + " (id="@ + signed_decimal(id as int) + ")"@,
        AdminDone::KeyAdded { owner } => "公钥已添加到用户: "@ + owner@,
        AdminDone::KeyEnabled { alg, user_id } => "公钥已启用: "@ + alg@ + " "@ + signed_decimal(user_id as int),
        AdminDone::KeyDisabled { alg, user_id } => "公钥已禁用: "@ + alg@ + " "@ + signed_decimal(user_id as int),
        AdminDone::KeyDeleted => "公钥已删除"@,
    }
}

impl AdminDone {
    /// The report sent to the client.
    pub fn text(&self) -> (r: String)
        ensures
            r@ == done_text(*self),
    {
        let mut m = String::new();
        match self {
            AdminDone::UserCreated { name, id } => {
                push_str(&mut m, "用户已创建: ");
                push_str(&mut m, name.as_str());
                push_str(&mut m, " (id=");
                push_chars(&mut m, &decimal_i32(*id));
                push_str(&mut m, ")");
            },
            AdminDone::UserEnabled { name } => {
                push_str(&mut m, "用户已启用: ");
                push_str(&mut m, name.as_str());
            },
            AdminDone::UserDisabled { name } => {
                push_str(&mut m, "用户已禁用: ");
                push_str(&mut m, name.as_str());
            },
            AdminDone::RoleSet { name, role } => {
                push_str(&mut m, "用户角色已更新: ");
                push_str(&mut m, name.as_str());
                push_str(&mut m, " => ");
                push_str(&mut m, role.as_str());
            },
            AdminDone::UserDeleted { name, id } => {
                push_str(&mut m, "用户已删除: ");
                push_str(&mut m, name.as_str());
                push_str(&mut m, " (id=");
                push_chars(&mut m, &decimal_i32(*id));
                push_str(&mut m, ")");
            },
            AdminDone::KeyAdded { owner } => {
                push_str(&mut m, "公钥已添加到用户: ");
                push_str(&mut m, owner.as_str());
            },
            AdminDone::KeyEnabled { alg, user_id } => {
                push_str(&mut m, "公钥已启用: ");
                push_str(&mut m, alg.as_str());
                push_str(&mut m, " ");
                push_chars(&mut m, &decimal_i32(*user_id));
            },
            AdminDone::KeyDisabled { alg, user_id } => {
                push_str(&mut m, "公钥已禁用: ");
                push_str(&mut m, alg.as_str());
                push_str(&mut m, " ");
                push_chars(&mut m, &decimal_i32(*user_id));
            },
            AdminDone::KeyDeleted => push_str(&mut m, "公钥已删除"),
        }
        m
    }
}

/// `s` ending with a line break: `s` itself when it already ends with one.
pub open spec fn with_final_newline(s: Seq<char>) -> Seq<char> {
    if s.len() > 0 && s.last() == '\n' {
        s
    } else {
        s.push('\n')
    }
}

/// `s` ending with a line break (see [`with_final_newline`]).
pub fn final_newline(s: &str) -> (r: String)
    ensures
        r@ == with_final_newline(s@),
{
    let mut r = String::from_str(s);
    let v = crate::text::chars_of(s);
    if !(v.len() > 0 && v[v.len() - 1] == '\n') {
        r.push('\n');
    }
    r
}

} // verus!
