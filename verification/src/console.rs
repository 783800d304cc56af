//! The administrator's console on the client: the menu, the answers it reads,
//! the public keys it accepts, and the command line it sends to the `admin`
//! action.
use vstd::prelude::*;
use crate::admin::{admin_request, role_of, AdminCommandView, AdminError};
use crate::client::{split_by, split_on};
use crate::text::{
    lemma_seq_differ, blank, decimal, decimal_u64, is_blank, join, join_strings, push_chars, push_str, split_whitespace,
    str_equals, trim, trimmed, views, words,
};

verus! {

/// What an `admin` request gave back.
#[derive(Clone, Debug)]
pub struct AdminExecResult {
    pub stdout: String,
    pub stderr: String,
    /// The exit status, when the server sent one.
    pub exit_code: Option<u32>,
}

impl AdminExecResult {
    /// The request succeeded: its exit status is 0, or none came.
    pub fn success(&self) -> (r: bool)
        ensures
            r == (self.exit_code matches Some(c) ==> c == 0),
    {
        match self.exit_code {
            Some(c) => c == 0,
            None => true,
        }
    }

    /// The error of a failed request: the server's error output, else its
    /// output, trimmed; a fixed message when both are blank.
    pub fn failure_message(&self) -> (r: String)
        ensures
            !is_blank(self.stderr@) ==> r@ == trim(self.stderr@),
            is_blank(self.stderr@) && !is_blank(self.stdout@) ==> r@ == trim(self.stdout@),
            is_blank(self.stderr@) && is_blank(self.stdout@) ==> r@ == "admin 命令执行失败"@,
    {
        match first_non_empty(self.stderr.as_str(), self.stdout.as_str()) {
            Some(m) => m,
            None => String::from_str("admin 命令执行失败"),
        }
    }

    /// The note shown when a request in the menu fails: its exit status, 1
    /// when none came.
    pub fn nonzero_note(&self) -> (r: String)
        ensures
            r@ == "admin 命令返回非零状态: "@ + decimal(
                match self.exit_code {
                    Some(c) => c as nat,
                    None => 1,
                },
            ),
    {
        let mut m = String::new();
        push_str(&mut m, "admin 命令返回非零状态: ");
        let code: u32 = match self.exit_code {
            Some(c) => c,
            None => 1,
        };
        push_chars(&mut m, &decimal_u64(code as u64));
        m
    }
}

/// The first of two texts that is not blank, trimmed.
pub fn first_non_empty(primary: &str, fallback: &str) -> (r: Option<String>)
    ensures
        !is_blank(primary@) ==> (r matches Some(s) && s@ == trim(primary@)),
        is_blank(primary@) && !is_blank(fallback@) ==> (r matches Some(s) && s@ == trim(fallback@)),
        is_blank(primary@) && is_blank(fallback@) ==> r is None,
{
    if !blank(primary) {
        return Some(trimmed(primary));
    }
    if !blank(fallback) {
        return Some(trimmed(fallback));
    }
    None
}

/// Why a public key line is refused: it has fewer than two words.
#[derive(Clone, Debug)]
pub struct KeyLineError;

impl KeyLineError {
    /// The message shown to the user.
    pub fn message(&self) -> (r: &'static str)
        ensures
            r@ == "公钥格式错误，期望: <alg> <base64> [comment]"@,
    {
        "公钥格式错误，期望: <alg> <base64> [comment]"
    }
}

/// A public key line, `<alg> <base64> [comment]`: its words, the comment
/// being the remaining words joined by single spaces.
pub fn parse_public_key_line(line: &str) -> (r: Result<(String, String, Option<String>), KeyLineError>)
    ensures
        words(line@).len() < 2 <==> r is Err,
        r matches Ok((alg, key, comment)) ==> {
            &&& alg@ == words(line@)[0]
            &&& key@ == words(line@)[1]
            &&& words(line@).len() > 2 ==> (comment matches Some(c) && c@ == join(words(line@).skip(2), " "@))
            &&& words(line@).len() == 2 ==> comment is None
        },
{
    let parts = split_whitespace(line);
    if parts.len() < 2 {
        return Err(KeyLineError);
    }
    assert(views(parts@)[0] == parts@[0]@);
    assert(views(parts@)[1] == parts@[1]@);
    let alg = parts[0].clone();
    let key = parts[1].clone();
    let comment = if parts.len() > 2 {
        let mut rest: Vec<String> = Vec::new();
        let mut i: usize = 2;
        while i < parts.len()
            invariant
                2 <= i <= parts@.len(),
                views(rest@) == views(parts@).subrange(2, i as int),
            decreases parts@.len() - i,
        {
            let ghost before = rest@;
            rest.push(parts[i].clone());
            assert(views(rest@) =~= views(before).push(parts@[i as int]@));
            i = i + 1;
            assert(views(rest@) =~= views(parts@).subrange(2, i as int));
        }
        assert(views(parts@).subrange(2, parts@.len() as int) =~= views(parts@).skip(2));
        Some(join_strings(&rest, " "))
    } else {
        None
    };
    Ok((alg, key, comment))
}

/// The first line of a key file that holds something other than a comment:
/// each line trimmed, blank lines and lines that begin with `#` passed over.
pub open spec fn is_key_line(l: Seq<char>) -> bool {
    trim(l).len() > 0 && trim(l)[0] != '#'
}

/// The first key line of a file's content (see [`is_key_line`]), trimmed.
pub fn first_key_line(content: &str) -> (r: Option<String>)
    ensures
        r matches Some(l) ==> exists|i: int|
            0 <= i < split_on(content@, '\n').len() && is_key_line(#[trigger] split_on(content@, '\n')[i])
                && l@ == trim(split_on(content@, '\n')[i]) && forall|j: int|
                0 <= j < i ==> !is_key_line(#[trigger] split_on(content@, '\n')[j]),
        r is None ==> forall|i: int|
            0 <= i < split_on(content@, '\n').len() ==> !is_key_line(#[trigger] split_on(content@, '\n')[i]),
{
    let lines = split_by(content, '\n');
    let ghost ls = split_on(content@, '\n');
    let mut i: usize = 0;
    while i < lines.len()
        invariant
            views(lines@) == ls,
            ls == split_on(content@, '\n'),
            i <= lines@.len(),
            forall|j: int| 0 <= j < i ==> !is_key_line(#[trigger] ls[j]),
        decreases lines@.len() - i,
    {
        assert(ls[i as int] == lines@[i as int]@);
        let t = trimmed(lines[i].as_str());
        let tv = crate::text::chars_of(t.as_str());
        if tv.len() > 0 && tv[0] != '#' {
            assert(is_key_line(ls[i as int]));
            return Some(t);
        }
        i = i + 1;
    }
    None
}

/// Whether an answer confirms: `y`, `Y`, `yes` or `YES`.
pub open spec fn is_yes(a: Seq<char>) -> bool {
    a == "y"@ || a == "Y"@ || a == "yes"@ || a == "YES"@
}

/// Whether an answer confirms (see [`is_yes`]).
pub fn confirms(answer: &str) -> (r: bool)
    ensures
        r == is_yes(answer@),
{
    str_equals(answer, "y") || str_equals(answer, "Y") || str_equals(answer, "yes") || str_equals(answer, "YES")
}

/// An answer with a default: the trimmed input, or the default when that is
/// empty.
pub fn answer_or_default(input: &str, default_value: &str) -> (r: String)
    ensures
        trim(input@).len() == 0 ==> r@ == default_value@,
        trim(input@).len() > 0 ==> r@ == trim(input@),
{
    let t = trimmed(input);
    if t.as_str().is_empty() {
        String::from_str(default_value)
    } else {
        t
    }
}

/// The question that asks to confirm: the label and ` (y/N)`.
pub fn confirm_label(label: &str) -> (r: String)
    ensures
        r@ == label@ + " (y/N)"@,
{
    let mut r = String::from_str(label);
    push_str(&mut r, " (y/N)");
    r
}

/// The entries of the console's menu.
#[derive(Clone, Copy, Debug, PartialEq, Eq, Structural)]
pub enum MenuEntry {
    Exit,
    ListUsers,
    AddUser,
    EnableUser,
    DisableUser,
    SetRole,
    DeleteUser,
    ListKeys,
    AddKey,
    EnableKey,
    DisableKey,
    DeleteKey,
}

/// The entry each (trimmed) choice selects.
pub open spec fn menu_entry_for(c: Seq<char>) -> Option<MenuEntry> {
    if c == "0"@ || c == "q"@ || c == "quit"@ || c == "exit"@ {
        Some(MenuEntry::Exit)
    } else if c == "1"@ {
        Some(MenuEntry::ListUsers)
    } else if c == "2"@ {
        Some(MenuEntry::AddUser)
    } else if c == "3"@ {
        Some(MenuEntry::EnableUser)
    } else if c == "4"@ {
        Some(MenuEntry::DisableUser)
    } else if c == "5"@ {
        Some(MenuEntry::SetRole)
    } else if c == "6"@ {
        Some(MenuEntry::DeleteUser)
    } else if c == "7"@ {
        Some(MenuEntry::ListKeys)
    } else if c == "8"@ {
        Some(MenuEntry::AddKey)
    } else if c == "9"@ {
        Some(MenuEntry::EnableKey)
    } else if c == "10"@ {
        Some(MenuEntry::DisableKey)
    } else if c == "11"@ {
        Some(MenuEntry::DeleteKey)
    } else {
        None
    }
}

/// The entry a choice selects, none for an invalid one.
pub fn menu_entry(choice: &str) -> (r: Option<MenuEntry>)
    ensures
        r == menu_entry_for(trim(choice@)),
{
    let t = trimmed(choice);
    let c = t.as_str();
    if str_equals(c, "0") || str_equals(c, "q") || str_equals(c, "quit") || str_equals(c, "exit") {
        Some(MenuEntry::Exit)
    } else if str_equals(c, "1") {
        Some(MenuEntry::ListUsers)
    } else if str_equals(c, "2") {
        Some(MenuEntry::AddUser)
    } else if str_equals(c, "3") {
        Some(MenuEntry::EnableUser)
    } else if str_equals(c, "4") {
        Some(MenuEntry::DisableUser)
    } else if str_equals(c, "5") {
        Some(MenuEntry::SetRole)
    } else if str_equals(c, "6") {
        Some(MenuEntry::DeleteUser)
    } else if str_equals(c, "7") {
        Some(MenuEntry::ListKeys)
    } else if str_equals(c, "8") {
        Some(MenuEntry::AddKey)
    } else if str_equals(c, "9") {
        Some(MenuEntry::EnableKey)
    } else if str_equals(c, "10") {
        Some(MenuEntry::DisableKey)
    } else if str_equals(c, "11") {
        Some(MenuEntry::DeleteKey)
    } else {
        None
    }
}

/// A command of words.
fn words_of(w: &[&str]) -> (r: Vec<String>)
    ensures
        r@.len() == w@.len(),
        forall|i: int| 0 <= i < w@.len() ==> #[trigger] r@[i]@ == w@[i]@,
{
    let mut r: Vec<String> = Vec::new();
    let mut i: usize = 0;
    while i < w.len()
        invariant
            i <= w@.len(),
            r@.len() == i,
            forall|j: int| 0 <= j < i ==> #[trigger] r@[j]@ == w@[j]@,
        decreases w@.len() - i,
    {
        r.push(String::from_str(w[i]));
        i = i + 1;
    }
    r
}

/// The command of a `users` entry: `users <verb> <name>`, and the role for
/// `add` and `role`.
pub fn users_command(verb: &str, name: &str, role: Option<&str>) -> (r: Vec<String>)
    ensures
        role matches Some(x) ==> views(r@) == seq!["users"@, verb@, name@, x@],
        role is None ==> views(r@) == seq!["users"@, verb@, name@],
{
    match role {
        Some(x) => {
            let r = words_of(&["users", verb, name, x]);
            assert(views(r@) =~= seq!["users"@, verb@, name@, x@]);
            r
        },
        None => {
            let r = words_of(&["users", verb, name]);
            assert(views(r@) =~= seq!["users"@, verb@, name@]);
            r
        },
    }
}

/// The command of `keys list`, for one user when a name was given.
pub fn keys_list_command(user: &str) -> (r: Vec<String>)
    ensures
        user@.len() == 0 ==> views(r@) == seq!["keys"@, "list"@],
        user@.len() > 0 ==> views(r@) == seq!["keys"@, "list"@, user@],
{
    if user.is_empty() {
        let r = words_of(&["keys", "list"]);
        assert(views(r@) =~= seq!["keys"@, "list"@]);
        r
    } else {
        let r = words_of(&["keys", "list", user]);
        assert(views(r@) =~= seq!["keys"@, "list"@, user@]);
        r
    }
}

/// The command of `keys add`: the user, the key's algorithm and body, and its
/// comment when it has one.
pub fn keys_add_command(user: &str, alg: &str, key: &str, comment: Option<&str>) -> (r: Vec<String>)
    ensures
        comment matches Some(c) ==> views(r@) == seq!["keys"@, "add"@, user@, alg@, key@, c@],
        comment is None ==> views(r@) == seq!["keys"@, "add"@, user@, alg@, key@],
{
    match comment {
        Some(c) => {
            let r = words_of(&["keys", "add", user, alg, key, c]);
            assert(views(r@) =~= seq!["keys"@, "add"@, user@, alg@, key@, c@]);
            r
        },
        None => {
            let r = words_of(&["keys", "add", user, alg, key]);
            assert(views(r@) =~= seq!["keys"@, "add"@, user@, alg@, key@]);
            r
        },
    }
}

/// The command of `keys enable`, `keys disable` or `keys delete`.
pub fn key_command(verb: &str, alg: &str, key: &str) -> (r: Vec<String>)
    ensures
        views(r@) == seq!["keys"@, verb@, alg@, key@],
{
    let r = words_of(&["keys", verb, alg, key]);
    assert(views(r@) =~= seq!["keys"@, verb@, alg@, key@]);
    r
}

/// The question an entry asks before it runs, for those that disable or
/// delete.
pub fn confirmation(entry: MenuEntry, name: &str) -> (r: Option<String>)
    ensures
        entry == MenuEntry::DisableUser ==> (r matches Some(q) && q@ == "确认禁用用户 "@ + name@ + " ?"@),
        entry == MenuEntry::DeleteUser ==> (r matches Some(q) && q@ == "确认删除用户 "@ + name@ + " ?"@),
        entry == MenuEntry::DisableKey ==> (r matches Some(q) && q@ == "确认禁用该公钥?"@),
        entry == MenuEntry::DeleteKey ==> (r matches Some(q) && q@ == "确认删除该公钥?"@),
        !(entry == MenuEntry::DisableUser || entry == MenuEntry::DeleteUser || entry == MenuEntry::DisableKey
            || entry == MenuEntry::DeleteKey) ==> r is None,
{
    match entry {
        MenuEntry::DisableUser => {
            let mut q = String::new();
            push_str(&mut q, "确认禁用用户 ");
            push_str(&mut q, name);
            push_str(&mut q, " ?");
            Some(q)
        },
        MenuEntry::DeleteUser => {
            let mut q = String::new();
            push_str(&mut q, "确认删除用户 ");
            push_str(&mut q, name);
            push_str(&mut q, " ?");
            Some(q)
        },
        MenuEntry::DisableKey => Some(String::from_str("确认禁用该公钥?")),
        MenuEntry::DeleteKey => Some(String::from_str("确认删除该公钥?")),
        _ => None,
    }
}

/// A character that a POSIX shell takes literally in a word.
pub open spec fn shell_safe(c: char) -> bool {
    ||| ('a' <= c && c <= 'z')
    ||| ('A' <= c && c <= 'Z')
    ||| ('0' <= c && c <= '9')
    ||| c == '-' || c == '_' || c == '=' || c == '/' || c == ',' || c == '.' || c == '+'
}

/// One character inside single quotes: `'` and `!` leave the quotes for a
/// backslash escape.
pub open spec fn quoted_char(c: char) -> Seq<char> {
    if c == '\'' || c == '!' {
        seq!['\'', '\\', c, '\'']
    } else {
        seq![c]
    }
}

/// The characters of `s` as they stand inside single quotes.
pub open spec fn quoted_body(s: Seq<char>) -> Seq<char>
    decreases s.len(),
{
    if s.len() == 0 {
        seq![]
    } else {
        quoted_body(s.drop_last()) + quoted_char(s.last())
    }
}

/// A word as a POSIX shell reads it back: unchanged when it is not empty and
/// holds only safe characters, else in single quotes.
pub open spec fn shell_escaped(s: Seq<char>) -> Seq<char> {
    if s.len() > 0 && forall|i: int| 0 <= i < s.len() ==> shell_safe(#[trigger] s[i]) {
        s
    } else {
        seq!['\''] + quoted_body(s) + seq!['\'']
    }
}

/// `shell_escape::unix::escape`: the word unchanged when it is not empty and
/// holds only letters, digits and `-_=/,.+`; else the word in single quotes,
/// each `'` and `!` in it written `'\'` and `'\!'` (see [`shell_escaped`]).
#[verifier::external_body]
fn escape_word(s: &str) -> (r: String)
    ensures
        r@ == shell_escaped(s@),
{
    shell_escape::unix::escape(std::borrow::Cow::Borrowed(s)).into_owned()
}

/// The command line an admin request sends: each word escaped for the
/// server's shell, joined by spaces.
pub fn remote_command(args: &Vec<String>) -> (r: String)
    ensures
        r@ == join(views(args@).map_values(|a: Seq<char>| shell_escaped(a)), " "@),
{
    let mut escaped: Vec<String> = Vec::new();
    let mut i: usize = 0;
    while i < args.len()
        invariant
            i <= args@.len(),
            views(escaped@) == views(args@).take(i as int).map_values(|a: Seq<char>| shell_escaped(a)),
        decreases args@.len() - i,
    {
        let ghost before = escaped@;
        escaped.push(escape_word(args[i].as_str()));
        assert(views(escaped@) =~= views(before).push(shell_escaped(args@[i as int]@)));
        i = i + 1;
        assert(views(args@).take(i as int).map_values(|a: Seq<char>| shell_escaped(a)) =~= views(args@).take(
            i - 1,
        ).map_values(|a: Seq<char>| shell_escaped(a)).push(shell_escaped(args@[i - 1]@)));
    }
    assert(views(args@).take(args@.len() as int) =~= views(args@));
    join_strings(&escaped, " ")
}

proof fn lemma_verbs_differ()
    ensures
        "keys"@ != "users"@,
        "add"@ != "list"@,
        "enable"@ != "list"@,
        "enable"@ != "add"@,
        "disable"@ != "list"@,
        "disable"@ != "add"@,
        "disable"@ != "enable"@,
        "role"@ != "list"@,
        "role"@ != "add"@,
        "role"@ != "enable"@,
        "role"@ != "disable"@,
        "delete"@ != "list"@,
        "delete"@ != "add"@,
        "delete"@ != "enable"@,
        "delete"@ != "disable"@,
        "delete"@ != "role"@,
{
    reveal_strlit("keys");
    reveal_strlit("users");
    reveal_strlit("list");
    reveal_strlit("add");
    reveal_strlit("enable");
    reveal_strlit("disable");
    reveal_strlit("role");
    reveal_strlit("delete");
    lemma_seq_differ("keys"@, "users"@, 0);
    lemma_seq_differ("add"@, "list"@, 0);
    lemma_seq_differ("enable"@, "list"@, 0);
    lemma_seq_differ("enable"@, "add"@, 0);
    lemma_seq_differ("disable"@, "list"@, 0);
    lemma_seq_differ("disable"@, "add"@, 0);
    lemma_seq_differ("disable"@, "enable"@, 0);
    lemma_seq_differ("role"@, "list"@, 0);
    lemma_seq_differ("role"@, "add"@, 0);
    lemma_seq_differ("role"@, "enable"@, 0);
    lemma_seq_differ("role"@, "disable"@, 0);
    lemma_seq_differ("delete"@, "list"@, 0);
    lemma_seq_differ("delete"@, "add"@, 0);
    lemma_seq_differ("delete"@, "enable"@, 0);
    lemma_seq_differ("delete"@, "disable"@, 0);
    lemma_seq_differ("delete"@, "role"@, 0);
}

/// What the console sends for the user entries, the server reads as meant:
/// the account named, and the role lower-cased when it is `admin` or `user`.
pub proof fn law_console_user_requests(name: Seq<char>, role: Seq<char>)
    ensures
        admin_request(seq!["users"@, "list"@]) == Ok::<AdminCommandView, AdminError>(AdminCommandView::ListUsers),
        admin_request(seq!["users"@, "add"@, name, role]) == match role_of(role) {
            Some(r) => Ok::<AdminCommandView, AdminError>(AdminCommandView::AddUser { name, role: r }),
            None => Err(AdminError::BadRole),
        },
        admin_request(seq!["users"@, "enable"@, name]) == Ok::<AdminCommandView, AdminError>(
            AdminCommandView::EnableUser { name },
        ),
        admin_request(seq!["users"@, "disable"@, name]) == Ok::<AdminCommandView, AdminError>(
            AdminCommandView::DisableUser { name },
        ),
        admin_request(seq!["users"@, "role"@, name, role]) == match role_of(role) {
            Some(r) => Ok::<AdminCommandView, AdminError>(AdminCommandView::SetRole { name, role: r }),
            None => Err(AdminError::BadRole),
        },
        admin_request(seq!["users"@, "delete"@, name]) == Ok::<AdminCommandView, AdminError>(
            AdminCommandView::DeleteUser { name },
        ),
{
    lemma_verbs_differ();
}

/// What the console sends for the key entries, the server reads as meant.
pub proof fn law_console_key_requests(user: Seq<char>, alg: Seq<char>, key: Seq<char>, comment: Seq<char>)
    ensures
        admin_request(seq!["keys"@, "list"@]) == Ok::<AdminCommandView, AdminError>(
            AdminCommandView::ListKeys { user: None },
        ),
        admin_request(seq!["keys"@, "list"@, user]) == Ok::<AdminCommandView, AdminError>(
            AdminCommandView::ListKeys { user: Some(user) },
        ),
        admin_request(seq!["keys"@, "add"@, user, alg, key]) == Ok::<AdminCommandView, AdminError>(
            AdminCommandView::AddKey { user, alg, key, comment: None },
        ),
        admin_request(seq!["keys"@, "add"@, user, alg, key, comment]) == Ok::<AdminCommandView, AdminError>(
            AdminCommandView::AddKey { user, alg, key, comment: Some(comment) },
        ),
        admin_request(seq!["keys"@, "enable"@, alg, key]) == Ok::<AdminCommandView, AdminError>(
            AdminCommandView::EnableKey { alg, key },
        ),
        admin_request(seq!["keys"@, "disable"@, alg, key]) == Ok::<AdminCommandView, AdminError>(
            AdminCommandView::DisableKey { alg, key },
        ),
        admin_request(seq!["keys"@, "delete"@, alg, key]) == Ok::<AdminCommandView, AdminError>(
            AdminCommandView::DeleteKey { alg, key },
        ),
{
    lemma_verbs_differ();
    let w = seq!["keys"@, "add"@, user, alg, key, comment];
    assert(w.skip(5) =~= seq![comment]);
    assert(join(seq![comment], " "@) == comment);
}

/// A message on the channel of a request, as the client reads it.
#[derive(Clone, Debug)]
pub enum ChannelEvent {
    /// Output.
    Data(Vec<u8>),
    /// Error output.
    ExtendedData(Vec<u8>),
    /// The request's exit status.
    ExitStatus(u32),
    /// Anything else.
    Other,
}

/// What an admin request has given back so far.
#[derive(Clone, Debug)]
pub struct AdminReply {
    pub out: Vec<u8>,
    pub err: Vec<u8>,
    pub exit_code: Option<u32>,
}

impl AdminReply {
    /// Nothing received yet.
    pub fn new() -> (r: AdminReply)
        ensures
            r.out@.len() == 0,
            r.err@.len() == 0,
            r.exit_code is None,
    {
        AdminReply { out: Vec::new(), err: Vec::new(), exit_code: None }
    }

    /// Takes one message in; true when the exit status came and reading stops.
    pub fn receive(&mut self, event: ChannelEvent) -> (stop: bool)
        ensures
            event matches ChannelEvent::Data(d) ==> final(self).out@ == old(self).out@ + d@ && final(self).err@
                == old(self).err@ && final(self).exit_code == old(self).exit_code && !stop,
            event matches ChannelEvent::ExtendedData(d) ==> final(self).err@ == old(self).err@ + d@
                && final(self).out@ == old(self).out@ && final(self).exit_code == old(self).exit_code && !stop,
            event matches ChannelEvent::ExitStatus(c) ==> final(self).exit_code == Some(c) && final(self).out@
                == old(self).out@ && final(self).err@ == old(self).err@ && stop,
            event is Other ==> final(self).out@ == old(self).out@ && final(self).err@ == old(self).err@
                && final(self).exit_code == old(self).exit_code && !stop,
    {
        match event {
            ChannelEvent::Data(mut d) => {
                self.out.append(&mut d);
                false
            },
            ChannelEvent::ExtendedData(mut d) => {
                self.err.append(&mut d);
                false
            },
            ChannelEvent::ExitStatus(c) => {
                self.exit_code = Some(c);
                true
            },
            ChannelEvent::Other => false,
        }
    }
}


/// The number the printed menu shows for each entry (`1) users list` ...
/// `11) keys delete`, `0) exit`).
pub open spec fn menu_number(e: MenuEntry) -> Seq<char> {
    match e {
        MenuEntry::Exit => "0"@,
        MenuEntry::ListUsers => "1"@,
        MenuEntry::AddUser => "2"@,
        MenuEntry::EnableUser => "3"@,
        MenuEntry::DisableUser => "4"@,
        MenuEntry::SetRole => "5"@,
        MenuEntry::DeleteUser => "6"@,
        MenuEntry::ListKeys => "7"@,
        MenuEntry::AddKey => "8"@,
        MenuEntry::EnableKey => "9"@,
        MenuEntry::DisableKey => "10"@,
        MenuEntry::DeleteKey => "11"@,
    }
}

/// Law: each number of the printed menu selects its own entry, and a choice
/// that selects an entry other than leaving is that entry's number; so no
/// two numbers share an entry.
pub proof fn law_menu_numbers(e: MenuEntry, c: Seq<char>)
    ensures
        menu_entry_for(menu_number(e)) == Some(e),
        (menu_entry_for(c) is Some && menu_entry_for(c)->0 != MenuEntry::Exit) ==> c == menu_number(
            menu_entry_for(c)->0,
        ),
{
    reveal_strlit("0");
    assert("0"@.len() == 1 && "0"@[0] == '0');
    reveal_strlit("1");
    assert("1"@.len() == 1 && "1"@[0] == '1');
    reveal_strlit("2");
    assert("2"@.len() == 1 && "2"@[0] == '2');
    reveal_strlit("3");
    assert("3"@.len() == 1 && "3"@[0] == '3');
    reveal_strlit("4");
    assert("4"@.len() == 1 && "4"@[0] == '4');
    reveal_strlit("5");
    assert("5"@.len() == 1 && "5"@[0] == '5');
    reveal_strlit("6");
    assert("6"@.len() == 1 && "6"@[0] == '6');
    reveal_strlit("7");
    assert("7"@.len() == 1 && "7"@[0] == '7');
    reveal_strlit("8");
    assert("8"@.len() == 1 && "8"@[0] == '8');
    reveal_strlit("9");
    assert("9"@.len() == 1 && "9"@[0] == '9');
    reveal_strlit("10");
    assert("10"@.len() == 2 && "10"@[0] == '1' && "10"@[1] == '0');
    reveal_strlit("11");
    assert("11"@.len() == 2 && "11"@[0] == '1' && "11"@[1] == '1');
    reveal_strlit("q");
    assert("q"@.len() == 1 && "q"@[0] == 'q');
    reveal_strlit("quit");
    assert("quit"@.len() == 4 && "quit"@[0] == 'q' && "quit"@[1] == 'u');
    reveal_strlit("exit");
    assert("exit"@.len() == 4 && "exit"@[0] == 'e' && "exit"@[1] == 'x');
}

} // verus!
