//! The server's handling of a session: the variables a client sets, the
//! command it sends, and the action its login names.
use vstd::prelude::*;
use crate::paths::{dot_dot, file_name_of, final_name, lemma_file_name_of_name};
use crate::text::{
    decimal, decimal_u64, join, join_strings, push_chars, push_str, str_equals,
    views,
};

verus! {

/// What `str::to_uppercase` makes of a string (full Unicode case mapping).
pub uninterp spec fn upper_cased(s: Seq<char>) -> Seq<char>;

/// `str::to_uppercase`. Nothing is claimed of the result but that it is the
/// function of the string named [`upper_cased`].
#[verifier::external_body]
fn to_uppercase(s: &str) -> (r: String)
    ensures
        r@ == upper_cased(s@),
{
    s.to_uppercase()
}

/// The value bound to `k` in `entries`: that of the last binding of `k`.
pub open spec fn lookup(entries: Seq<(String, String)>, k: Seq<char>) -> Option<Seq<char>>
    decreases entries.len(),
{
    if entries.len() == 0 {
        None
    } else if entries.last().0@ == k {
        Some(entries.last().1@)
    } else {
        lookup(entries.drop_last(), k)
    }
}

/// The variables a client set for its session. Names are kept upper-cased.
pub struct SessionEnv {
    entries: Vec<(String, String)>,
}

impl SessionEnv {
    /// The value of a variable.
    pub closed spec fn value(&self, k: Seq<char>) -> Option<Seq<char>> {
        lookup(self.entries@, k)
    }

    /// No variable is set.
    pub fn new() -> (r: SessionEnv)
        ensures
            forall|k: Seq<char>| r.value(k) is None,
    {
        SessionEnv { entries: Vec::new() }
    }

    /// Sets a variable, its name upper-cased; any earlier value is replaced.
    /// Every other variable keeps its value.
    pub fn set(&mut self, key: &str, value: &str)
        ensures
            final(self).value(upper_cased(key@)) == Some(value@),
            forall|k: Seq<char>| k != upper_cased(key@) ==> final(self).value(k) == old(self).value(k),
    {
        let ghost key_view = key@;
        let key = to_uppercase(key);
        let ghost old_entries = self.entries@;
        let mut kept: Vec<(String, String)> = Vec::new();
        let mut i: usize = 0;
        while i < self.entries.len()
            invariant
                i <= self.entries@.len(),
                self.entries@ == old_entries,
                lookup(kept@, key@) is None,
                forall|k: Seq<char>| k != key@ ==> lookup(kept@, k) == lookup(old_entries.take(i as int), k),
            decreases self.entries@.len() - i,
        {
            let (name, v) = &self.entries[i];
            assert(old_entries.take(i + 1).drop_last() =~= old_entries.take(i as int));
            assert(old_entries.take(i + 1).last() == old_entries[i as int]);
            let ghost before = kept@;
            if !str_equals(name.as_str(), key.as_str()) {
                kept.push((name.clone(), v.clone()));
                assert(kept@.drop_last() =~= before);
            }
            assert forall|k: Seq<char>| k != key@ implies lookup(kept@, k) == lookup(
                old_entries.take(i + 1),
                k,
            ) by {
                assert(lookup(old_entries.take(i + 1), k) == (if old_entries[i as int].0@ == k {
                    Some(old_entries[i as int].1@)
                } else {
                    lookup(old_entries.take(i as int), k)
                }));
                if kept@.len() > before.len() {
                    assert(lookup(kept@, k) == (if kept@.last().0@ == k {
                        Some(kept@.last().1@)
                    } else {
                        lookup(before, k)
                    }));
                }
            }
            i = i + 1;
        }
        assert(old_entries.take(old_entries.len() as int) =~= old_entries);
        let ghost before = kept@;
        let k = key;
        kept.push((k, String::from_str(value)));
        assert(kept@.drop_last() =~= before);
        assert forall|k: Seq<char>| k != upper_cased(key_view) implies lookup(kept@, k) == lookup(
            old_entries,
            k,
        ) by {
            assert(lookup(kept@, k) == (if kept@.last().0@ == k {
                Some(kept@.last().1@)
            } else {
                lookup(before, k)
            }));
        }
        self.entries = kept;
    }

    /// The value of a variable.
    pub fn get(&self, key: &str) -> (r: Option<String>)
        ensures
            r matches Some(v) ==> self.value(key@) == Some(v@),
            r is None ==> self.value(key@) is None,
    {
        let mut i = self.entries.len();
        assert(self.entries@.take(i as int) =~= self.entries@);
        while i > 0
            invariant
                i <= self.entries@.len(),
                forall|j: int| i <= j < self.entries@.len() ==> self.entries@[j].0@ != key@,
                lookup(self.entries@, key@) == lookup(self.entries@.take(i as int), key@),
            decreases i,
        {
            let (name, v) = &self.entries[i - 1];
            assert(self.entries@.take(i as int).drop_last() =~= self.entries@.take(i - 1));
            if str_equals(name.as_str(), key) {
                return Some(v.clone());
            }
            i = i - 1;
        }
        None
    }

    /// Every variable with its value, for a command's environment (a name
    /// appears once).
    pub fn bindings(&self) -> (r: &Vec<(String, String)>)
        ensures
            forall|k: Seq<char>| #[trigger] self.value(k) == lookup(r@, k),
    {
        &self.entries
    }

    /// The trace identifier the client sent, or the empty string.
    pub fn trace_id(&self) -> (r: String)
        ensures
            self.value("HORSE_TRACE_ID"@) matches Some(t) ==> r@ == t,
            self.value("HORSE_TRACE_ID"@) is None ==> r@.len() == 0,
    {
        match self.get("HORSE_TRACE_ID") {
            Some(t) => t,
            None => String::new(),
        }
    }

    /// Whether the session is traced: it has a non-empty trace identifier.
    pub fn debug_enabled(&self) -> (r: bool)
        ensures
            r == (self.value("HORSE_TRACE_ID"@) matches Some(t) && t.len() > 0),
    {
        let t = self.trace_id();
        !t.as_str().is_empty()
    }
}

/// The action a session's login names.
#[derive(Clone, Debug)]
pub enum Action {
    Health,
    Ping,
    Logs,
    Cargo,
    Apply,
    Just,
    Git,
    Cmd,
    Get,
    Scp,
    Put,
    Admin,
    Job,
    Ssh,
    /// Any other name.
    Unsupported(String),
}

/// The action of each login name.
pub open spec fn action_named(n: Seq<char>) -> Action {
    if n == "health"@ {
        Action::Health
    } else if n == "ping"@ {
        Action::Ping
    } else if n == "logs"@ {
        Action::Logs
    } else if n == "cargo"@ {
        Action::Cargo
    } else if n == "apply"@ {
        Action::Apply
    } else if n == "just"@ {
        Action::Just
    } else if n == "git"@ {
        Action::Git
    } else if n == "cmd"@ {
        Action::Cmd
    } else if n == "get"@ {
        Action::Get
    } else if n == "scp"@ {
        Action::Scp
    } else if n == "put"@ {
        Action::Put
    } else if n == "admin"@ {
        Action::Admin
    } else if n == "job"@ {
        Action::Job
    } else if n == "ssh"@ {
        Action::Ssh
    } else {
        Action::Unsupported(arbitrary())
    }
}

/// The action a login name selects.
pub fn action_of(name: &str) -> (r: Action)
    ensures
        !(action_named(name@) is Unsupported) ==> r == action_named(name@),
        action_named(name@) is Unsupported ==> (r matches Action::Unsupported(n) && n@ == name@),
{
    if str_equals(name, "health") {
        Action::Health
    } else if str_equals(name, "ping") {
        Action::Ping
    } else if str_equals(name, "logs") {
        Action::Logs
    } else if str_equals(name, "cargo") {
        Action::Cargo
    } else if str_equals(name, "apply") {
        Action::Apply
    } else if str_equals(name, "just") {
        Action::Just
    } else if str_equals(name, "git") {
        Action::Git
    } else if str_equals(name, "cmd") {
        Action::Cmd
    } else if str_equals(name, "get") {
        Action::Get
    } else if str_equals(name, "scp") {
        Action::Scp
    } else if str_equals(name, "put") {
        Action::Put
    } else if str_equals(name, "admin") {
        Action::Admin
    } else if str_equals(name, "job") {
        Action::Job
    } else if str_equals(name, "ssh") {
        Action::Ssh
    } else {
        Action::Unsupported(String::from_str(name))
    }
}

impl Action {
    /// The error code an unsupported action is answered with.
    pub fn unsupported_code() -> (r: &'static str)
        ensures
            r@ == "HSSH_ACTION_UNSUPPORTED"@,
    {
        "HSSH_ACTION_UNSUPPORTED"
    }

    /// The message an unsupported action is answered with.
    pub fn unsupported_message(name: &str) -> (r: String)
        ensures
            r@ == "不支持的命令: "@ + name@,
    {
        let mut m = String::new();
        push_str(&mut m, "不支持的命令: ");
        push_str(&mut m, name);
        m
    }
}

/// `shellwords::MismatchedQuotes`, the error of a command line whose quotes
/// do not close.
#[verifier::external_type_specification]
#[verifier::external_body]
pub struct ExMismatchedQuotes(shellwords::MismatchedQuotes);

/// What `shellwords::split` makes of a command line: its words, or none when
/// its quotes do not close.
pub uninterp spec fn shell_words(line: Seq<char>) -> Option<Seq<Seq<char>>>;

/// `shellwords::split`. Nothing is claimed of the words but that they are the
/// function of the line named [`shell_words`].
#[verifier::external_body]
fn split_words(line: &str) -> (r: Result<Vec<String>, shellwords::MismatchedQuotes>)
    ensures
        r matches Ok(w) ==> shell_words(line@) == Some(views(w@)),
        r is Err ==> shell_words(line@) is None,
{
    shellwords::split(line)
}

/// Whether `bytes` are valid UTF-8, and the text they encode.
#[verifier::external_body]
fn utf8_text(bytes: &[u8]) -> (r: Option<String>)
    ensures
        r is Some <==> vstd::utf8::valid_utf8(bytes@),
        r matches Some(s) ==> s@ == vstd::utf8::decode_utf8(bytes@),
{
    match std::str::from_utf8(bytes) {
        Ok(s) => Some(s.to_string()),
        Err(_) => None,
    }
}

/// Why a command sent with `exec` is refused.
#[derive(Clone, Debug)]
pub enum ExecRequestError {
    /// The bytes are not UTF-8; it holds them.
    NotUtf8(Vec<u8>),
    /// The quotes of the command line do not close; it holds the line.
    MismatchedQuotes(String),
}

/// The `Debug` form of a byte slice: `[1, 2, 3]`.
pub open spec fn bytes_debug(b: Seq<u8>) -> Seq<char> {
    seq!['['] + join(b.map_values(|x: u8| decimal(x as nat)), ", "@) + seq![']']
}

impl ExecRequestError {
    /// The message the refusal carries.
    pub fn message(&self) -> (r: String)
        ensures
            self matches ExecRequestError::NotUtf8(b) ==> r@ == "无效请求: "@ + bytes_debug(b@),
            self matches ExecRequestError::MismatchedQuotes(l) ==> r@ == "无效命令: "@ + l@,
    {
        let mut m = String::new();
        match self {
            ExecRequestError::NotUtf8(b) => {
                push_str(&mut m, "无效请求: ");
                let mut parts: Vec<String> = Vec::new();
                let mut i: usize = 0;
                while i < b.len()
                    invariant
                        i <= b@.len(),
                        views(parts@) == b@.take(i as int).map_values(|x: u8| decimal(x as nat)),
                    decreases b@.len() - i,
                {
                    let mut d = String::new();
                    push_chars(&mut d, &decimal_u64(b[i] as u64));
                    let ghost before = parts@;
                    parts.push(d);
                    assert(views(parts@) =~= views(before).push(decimal(b@[i as int] as nat)));
                    i = i + 1;
                    assert(b@.take(i as int).map_values(|x: u8| decimal(x as nat)) =~= b@.take(i - 1).map_values(
                        |x: u8| decimal(x as nat),
                    ).push(decimal(b@[i - 1] as nat)));
                }
                assert(b@.take(b@.len() as int) =~= b@);
                m.push('[');
                push_str(&mut m, join_strings(&parts, ", ").as_str());
                m.push(']');
            },
            ExecRequestError::MismatchedQuotes(l) => {
                push_str(&mut m, "无效命令: ");
                push_str(&mut m, l.as_str());
            },
        }
        m
    }
}

/// Reads the command of an `exec` request: UTF-8 text split into words as a
/// shell would (quotes and backslashes).
pub fn parse_exec_request(data: &[u8]) -> (r: Result<Vec<String>, ExecRequestError>)
    ensures
        !vstd::utf8::valid_utf8(data@) ==> (r matches Err(ExecRequestError::NotUtf8(b)) && b@ == data@),
        vstd::utf8::valid_utf8(data@) ==> {
            let line = vstd::utf8::decode_utf8(data@);
            &&& shell_words(line) matches Some(w) ==> (r matches Ok(v) && views(v@) == w)
            &&& shell_words(line) is None ==> (r matches Err(ExecRequestError::MismatchedQuotes(l)) && l@
                == line)
        },
{
    match utf8_text(data) {
        None => {
            let mut b: Vec<u8> = Vec::new();
            let mut i: usize = 0;
            while i < data.len()
                invariant
                    i <= data@.len(),
                    b@ == data@.take(i as int),
                decreases data@.len() - i,
            {
                b.push(data[i]);
                i = i + 1;
                assert(b@ =~= data@.take(i as int));
            }
            assert(data@.take(data@.len() as int) =~= data@);
            Err(ExecRequestError::NotUtf8(b))
        },
        Some(line) => match split_words(line.as_str()) {
            Ok(words) => Ok(words),
            Err(_) => Err(ExecRequestError::MismatchedQuotes(line)),
        },
    }
}

/// The shell a `cmd` request runs in: the client's `SHELL`, else `bash`
/// (`powershell.exe` on Windows).
pub fn cmd_shell(env_shell: Option<&str>, on_windows: bool) -> (r: String)
    ensures
        env_shell matches Some(sh) ==> r@ == sh@,
        env_shell is None && on_windows ==> r@ == "powershell.exe"@,
        env_shell is None && !on_windows ==> r@ == "bash"@,
{
    match env_shell {
        Some(sh) => String::from_str(sh),
        None => if on_windows {
            String::from_str("powershell.exe")
        } else {
            String::from_str("bash")
        },
    }
}

/// The option that makes a shell run a command line: `-ic` for `bash` and
/// `zsh`, so that they read their start-up files, `-c` for the others. The
/// shell is known by its file name, or by the whole path when it has none.
pub open spec fn shell_flag(shell: Seq<char>) -> Seq<char> {
    let name = match file_name_of(shell) {
        Some(n) => n,
        None => shell,
    };
    if name == "bash"@ || name == "zsh"@ {
        "-ic"@
    } else {
        "-c"@
    }
}

/// The option that makes `shell` run a command line (see [`shell_flag`]).
pub fn cmd_shell_arg(shell: &str) -> (r: &'static str)
    ensures
        r@ == shell_flag(shell@),
{
    let name = match final_name(shell) {
        Some(n) => n,
        None => String::from_str(shell),
    };
    if str_equals(name.as_str(), "bash") || str_equals(name.as_str(), "zsh") {
        "-ic"
    } else {
        "-c"
    }
}

/// The cargo sub-commands a `cargo` request may run.
#[derive(Clone, Copy, Debug, PartialEq, Eq, Structural)]
pub enum CargoSubcommand {
    Build,
    Check,
    Clean,
    Clippy,
    Doc,
    Install,
    Metadata,
    Run,
    Rustc,
    Test,
}

/// The sub-command each request word runs; `zigbuild` runs a build.
pub open spec fn cargo_subcommand_named(w: Seq<char>) -> Option<CargoSubcommand> {
    if w == "zigbuild"@ || w == "build"@ {
        Some(CargoSubcommand::Build)
    } else if w == "check"@ {
        Some(CargoSubcommand::Check)
    } else if w == "clean"@ {
        Some(CargoSubcommand::Clean)
    } else if w == "clippy"@ {
        Some(CargoSubcommand::Clippy)
    } else if w == "doc"@ {
        Some(CargoSubcommand::Doc)
    } else if w == "install"@ {
        Some(CargoSubcommand::Install)
    } else if w == "metadata"@ {
        Some(CargoSubcommand::Metadata)
    } else if w == "run"@ {
        Some(CargoSubcommand::Run)
    } else if w == "rustc"@ {
        Some(CargoSubcommand::Rustc)
    } else if w == "test"@ {
        Some(CargoSubcommand::Test)
    } else {
        None
    }
}

/// The sub-command a request word runs (see [`cargo_subcommand_named`]).
pub fn cargo_subcommand(w: &str) -> (r: Option<CargoSubcommand>)
    ensures
        r == cargo_subcommand_named(w@),
{
    if str_equals(w, "zigbuild") || str_equals(w, "build") {
        Some(CargoSubcommand::Build)
    } else if str_equals(w, "check") {
        Some(CargoSubcommand::Check)
    } else if str_equals(w, "clean") {
        Some(CargoSubcommand::Clean)
    } else if str_equals(w, "clippy") {
        Some(CargoSubcommand::Clippy)
    } else if str_equals(w, "doc") {
        Some(CargoSubcommand::Doc)
    } else if str_equals(w, "install") {
        Some(CargoSubcommand::Install)
    } else if str_equals(w, "metadata") {
        Some(CargoSubcommand::Metadata)
    } else if str_equals(w, "run") {
        Some(CargoSubcommand::Run)
    } else if str_equals(w, "rustc") {
        Some(CargoSubcommand::Rustc)
    } else if str_equals(w, "test") {
        Some(CargoSubcommand::Test)
    } else {
        None
    }
}

/// The word cargo knows each sub-command by.
pub open spec fn cargo_word(c: CargoSubcommand) -> Seq<char> {
    match c {
        CargoSubcommand::Build => "build"@,
        CargoSubcommand::Check => "check"@,
        CargoSubcommand::Clean => "clean"@,
        CargoSubcommand::Clippy => "clippy"@,
        CargoSubcommand::Doc => "doc"@,
        CargoSubcommand::Install => "install"@,
        CargoSubcommand::Metadata => "metadata"@,
        CargoSubcommand::Run => "run"@,
        CargoSubcommand::Rustc => "rustc"@,
        CargoSubcommand::Test => "test"@,
    }
}

impl CargoSubcommand {
    /// The word cargo knows the sub-command by.
    pub fn name(&self) -> (r: &'static str)
        ensures
            r@ == cargo_word(*self),
    {
        match *self {
            CargoSubcommand::Build => "build",
            CargoSubcommand::Check => "check",
            CargoSubcommand::Clean => "clean",
            CargoSubcommand::Clippy => "clippy",
            CargoSubcommand::Doc => "doc",
            CargoSubcommand::Install => "install",
            CargoSubcommand::Metadata => "metadata",
            CargoSubcommand::Run => "run",
            CargoSubcommand::Rustc => "rustc",
            CargoSubcommand::Test => "test",
        }
    }
}

/// The job action of a `cargo` request: `cargo.` and its first word
/// (`unknown` when it has none).
pub fn cargo_action(command: &Vec<String>) -> (r: String)
    ensures
        command@.len() > 0 ==> r@ == "cargo."@ + command@[0]@,
        command@.len() == 0 ==> r@ == "cargo.unknown"@,
{
    let mut r = String::new();
    push_str(&mut r, "cargo.");
    if command.len() > 0 {
        push_str(&mut r, command[0].as_str());
    } else {
        push_str(&mut r, "unknown");
        proof {
            reveal_strlit("cargo.");
            reveal_strlit("unknown");
            reveal_strlit("cargo.unknown");
            assert(r@ =~= "cargo.unknown"@);
        }
    }
    r
}

/// Whether a `cargo` build goes through `cargo zigbuild`: the client's
/// `ZIGBUILD` reads as the boolean `true` (`str::parse::<bool>`); anything
/// else, or nothing, means no.
pub fn zigbuild_enabled(env_zigbuild: Option<&str>) -> (r: bool)
    ensures
        r == (env_zigbuild matches Some(v) && v@ == "true"@),
{
    match env_zigbuild {
        Some(v) => str_equals(v, "true"),
        None => false,
    }
}

/// The message of a `cargo` request whose first word names no sub-command.
pub fn unknown_cargo_message(command: &Vec<String>) -> (r: String)
    ensures
        r@ == "未实现的 cargo 命令: "@ + join(views(command@), " "@),
{
    let mut m = String::new();
    push_str(&mut m, "未实现的 cargo 命令: ");
    push_str(&mut m, join_strings(command, " ").as_str());
    m
}

/// The justfile named for the operating system `os`: `justfile.<os>`.
pub fn os_justfile(os: &str) -> (r: String)
    ensures
        r@ == "justfile."@ + os@,
{
    let mut r = String::new();
    push_str(&mut r, "justfile.");
    push_str(&mut r, os);
    r
}

/// The arguments of `just` for a `just` request: `-f` and the client's
/// `JUSTFILE` when it set one, else `-f` and the justfile of the operating
/// system when that exists, then `--color=always`, then the request's words.
pub fn just_args(justfile: Option<String>, os_justfile: Option<String>, command: &Vec<String>) -> (r: Vec<String>)
    ensures
        views(r@) == (match (justfile, os_justfile) {
            (Some(f), _) => seq!["-f"@, f@],
            (None, Some(f)) => seq!["-f"@, f@],
            (None, None) => Seq::<Seq<char>>::empty(),
        }) + seq!["--color=always"@] + views(command@),
{
    let mut r: Vec<String> = Vec::new();
    let chosen = match justfile {
        Some(f) => Some(f),
        None => os_justfile,
    };
    match chosen {
        Some(f) => {
            r.push(String::from_str("-f"));
            r.push(f);
        },
        None => {},
    }
    r.push(String::from_str("--color=always"));
    let ghost head = views(r@);
    let mut i: usize = 0;
    while i < command.len()
        invariant
            i <= command@.len(),
            views(r@) == head + views(command@).take(i as int),
        decreases command@.len() - i,
    {
        let ghost before = r@;
        r.push(command[i].clone());
        assert(views(r@) =~= views(before).push(command@[i as int]@));
        i = i + 1;
        assert(views(command@).take(i as int) =~= views(command@).take(i - 1).push(command@[i - 1]@));
    }
    assert(views(command@).take(command@.len() as int) =~= views(command@));
    r
}

/// What an `ssh` request runs: its first word as the shell (`bash`, or
/// `powershell.exe` on Windows, when there is none) and the other words as
/// the shell's arguments.
pub fn ssh_invocation(commands: Vec<String>, on_windows: bool) -> (r: (String, Vec<String>))
    ensures
        commands@.len() > 0 ==> r.0@ == commands@[0]@ && views(r.1@) == views(commands@).skip(1),
        commands@.len() == 0 && on_windows ==> r.0@ == "powershell.exe"@ && r.1@.len() == 0,
        commands@.len() == 0 && !on_windows ==> r.0@ == "bash"@ && r.1@.len() == 0,
{
    let mut rest = commands;
    if rest.len() == 0 {
        let shell = if on_windows {
            String::from_str("powershell.exe")
        } else {
            String::from_str("bash")
        };
        (shell, rest)
    } else {
        let ghost all = rest@;
        let shell = rest.remove(0);
        assert(views(rest@) =~= views(all).skip(1));
        (shell, rest)
    }
}

/// Whether a `logs` request follows the log: one of its words is `-f`.
pub fn follow_logs(commands: &Vec<String>) -> (r: bool)
    ensures
        r == views(commands@).contains("-f"@),
{
    let mut i: usize = 0;
    while i < commands.len()
        invariant
            i <= commands@.len(),
            forall|j: int| 0 <= j < i ==> commands@[j]@ != "-f"@,
        decreases commands@.len() - i,
    {
        if str_equals(commands[i].as_str(), "-f") {
            assert(views(commands@)[i as int] == "-f"@);
            return true;
        }
        i = i + 1;
    }
    assert forall|j: int| 0 <= j < views(commands@).len() implies views(commands@)[j] != "-f"@ by {
        assert(views(commands@)[j] == commands@[j]@);
    }
    false
}

/// The exit status a request reports for a process that ended with `code`
/// (none when a signal ended it): the code as an unsigned number, 128 without
/// one.
pub fn exit_status_of(code: Option<i32>) -> (r: u32)
    ensures
        code matches Some(c) ==> r == c as u32,
        code is None ==> r == 128,
{
    match code {
        Some(c) => c as u32,
        None => 128,
    }
}

/// The exit code a job records for a process that ended with `code`: 128
/// when a signal ended it.
pub fn job_exit_code(code: Option<i32>) -> (r: i32)
    ensures
        code matches Some(c) ==> r == c,
        code is None ==> r == 128,
{
    match code {
        Some(c) => c,
        None => 128,
    }
}

/// How a request that the server accepted can still fail, as the client is
/// told: an exit status and an error code.
#[derive(Clone, Copy, Debug, PartialEq, Eq, Structural)]
pub enum Failure {
    /// The repository name cannot be given the `.git` extension.
    RepoPathInvalid,
    /// The shell of a `cmd` request did not start.
    ShellSpawnFailed,
    /// The program of an `ssh` request did not start on its terminal.
    PtySpawnFailed,
    /// Copying between an `ssh` request and its terminal failed.
    PtyIoFailed,
    /// Waiting for the program of an `ssh` request failed.
    PtyWaitFailed,
    /// `just` did not start.
    JustSpawnFailed,
    /// `cargo` did not start.
    CargoSpawnFailed,
    /// Writing an uploaded file failed.
    PutFailed,
}

impl Failure {
    /// The exit status: 127 when a program did not start, 2 for a bad
    /// repository path, 1 otherwise.
    pub fn exit_status(&self) -> (r: u32)
        ensures
            (*self == Failure::ShellSpawnFailed || *self == Failure::PtySpawnFailed || *self
                == Failure::JustSpawnFailed || *self == Failure::CargoSpawnFailed) ==> r == 127,
            *self == Failure::RepoPathInvalid ==> r == 2,
            (*self == Failure::PtyIoFailed || *self == Failure::PtyWaitFailed || *self == Failure::PutFailed)
                ==> r == 1,
    {
        match *self {
            Failure::RepoPathInvalid => 2,
            Failure::ShellSpawnFailed => 127,
            Failure::PtySpawnFailed => 127,
            Failure::PtyIoFailed => 1,
            Failure::PtyWaitFailed => 1,
            Failure::JustSpawnFailed => 127,
            Failure::CargoSpawnFailed => 127,
            Failure::PutFailed => 1,
        }
    }

    /// The error code.
    pub fn code(&self) -> (r: &'static str)
        ensures
            *self == Failure::RepoPathInvalid ==> r@ == "HSSH_REPO_PATH_INVALID"@,
            *self == Failure::ShellSpawnFailed ==> r@ == "HSSH_SHELL_SPAWN_FAILED"@,
            *self == Failure::PtySpawnFailed ==> r@ == "HSSH_PTY_SPAWN_FAILED"@,
            *self == Failure::PtyIoFailed ==> r@ == "HSSH_PTY_IO_FAILED"@,
            *self == Failure::PtyWaitFailed ==> r@ == "HSSH_PTY_WAIT_FAILED"@,
            *self == Failure::JustSpawnFailed ==> r@ == "HSSH_JUST_SPAWN_FAILED"@,
            *self == Failure::CargoSpawnFailed ==> r@ == "HSSH_CARGO_SPAWN_FAILED"@,
            *self == Failure::PutFailed ==> r@ == "HSSH_PUT_FAILED"@,
    {
        match *self {
            Failure::RepoPathInvalid => "HSSH_REPO_PATH_INVALID",
            Failure::ShellSpawnFailed => "HSSH_SHELL_SPAWN_FAILED",
            Failure::PtySpawnFailed => "HSSH_PTY_SPAWN_FAILED",
            Failure::PtyIoFailed => "HSSH_PTY_IO_FAILED",
            Failure::PtyWaitFailed => "HSSH_PTY_WAIT_FAILED",
            Failure::JustSpawnFailed => "HSSH_JUST_SPAWN_FAILED",
            Failure::CargoSpawnFailed => "HSSH_CARGO_SPAWN_FAILED",
            Failure::PutFailed => "HSSH_PUT_FAILED",
        }
    }
}

/// The message of a program that did not start: ``spawn: `<program>` failed: <error>``.
pub fn spawn_failure_message(program: &str, error: &str) -> (r: String)
    ensures
        r@ == "spawn: `"@ + program@ + "` failed: "@ + error@,
{
    let mut m = String::new();
    push_str(&mut m, "spawn: `");
    push_str(&mut m, program);
    push_str(&mut m, "` failed: ");
    push_str(&mut m, error);
    m
}


/// The login name of each supported action: the handler it runs is named by
/// it (`get@server` downloads, `put@server` uploads, ...).
pub open spec fn action_word(a: Action) -> Seq<char> {
    match a {
        Action::Health => "health"@,
        Action::Ping => "ping"@,
        Action::Logs => "logs"@,
        Action::Cargo => "cargo"@,
        Action::Apply => "apply"@,
        Action::Just => "just"@,
        Action::Git => "git"@,
        Action::Cmd => "cmd"@,
        Action::Get => "get"@,
        Action::Scp => "scp"@,
        Action::Put => "put"@,
        Action::Admin => "admin"@,
        Action::Job => "job"@,
        Action::Ssh => "ssh"@,
        Action::Unsupported(n) => n@,
    }
}

/// Law: each login name selects its own action. The action of a supported
/// action's name is that action, and a name that selects a supported action
/// is that action's name; so no two names share an action.
pub proof fn law_action_names(a: Action, n: Seq<char>)
    ensures
        !(a is Unsupported) ==> action_named(action_word(a)) == a,
        !(action_named(n) is Unsupported) ==> action_word(action_named(n)) == n,
{
    reveal_strlit("health");
    assert("health"@.len() == 6 && "health"@[0] == 'h' && "health"@[1] == 'e' && "health"@[2] == 'a');
    reveal_strlit("ping");
    assert("ping"@.len() == 4 && "ping"@[0] == 'p' && "ping"@[1] == 'i' && "ping"@[2] == 'n');
    reveal_strlit("logs");
    assert("logs"@.len() == 4 && "logs"@[0] == 'l' && "logs"@[1] == 'o' && "logs"@[2] == 'g');
    reveal_strlit("cargo");
    assert("cargo"@.len() == 5 && "cargo"@[0] == 'c' && "cargo"@[1] == 'a' && "cargo"@[2] == 'r');
    reveal_strlit("apply");
    assert("apply"@.len() == 5 && "apply"@[0] == 'a' && "apply"@[1] == 'p' && "apply"@[2] == 'p');
    reveal_strlit("just");
    assert("just"@.len() == 4 && "just"@[0] == 'j' && "just"@[1] == 'u' && "just"@[2] == 's');
    reveal_strlit("git");
    assert("git"@.len() == 3 && "git"@[0] == 'g' && "git"@[1] == 'i' && "git"@[2] == 't');
    reveal_strlit("cmd");
    assert("cmd"@.len() == 3 && "cmd"@[0] == 'c' && "cmd"@[1] == 'm' && "cmd"@[2] == 'd');
    reveal_strlit("get");
    assert("get"@.len() == 3 && "get"@[0] == 'g' && "get"@[1] == 'e' && "get"@[2] == 't');
    reveal_strlit("scp");
    assert("scp"@.len() == 3 && "scp"@[0] == 's' && "scp"@[1] == 'c' && "scp"@[2] == 'p');
    reveal_strlit("put");
    assert("put"@.len() == 3 && "put"@[0] == 'p' && "put"@[1] == 'u' && "put"@[2] == 't');
    reveal_strlit("admin");
    assert("admin"@.len() == 5 && "admin"@[0] == 'a' && "admin"@[1] == 'd' && "admin"@[2] == 'm');
    reveal_strlit("job");
    assert("job"@.len() == 3 && "job"@[0] == 'j' && "job"@[1] == 'o' && "job"@[2] == 'b');
    reveal_strlit("ssh");
    assert("ssh"@.len() == 3 && "ssh"@[0] == 's' && "ssh"@[1] == 's' && "ssh"@[2] == 'h');
}

/// Law: a cargo request's word runs the sub-command cargo knows by that word,
/// and `zigbuild` runs a build; any word that selects a sub-command is that
/// sub-command's word, or `zigbuild` for a build.
pub proof fn law_cargo_words(c: CargoSubcommand, w: Seq<char>)
    ensures
        cargo_subcommand_named(cargo_word(c)) == Some(c),
        cargo_subcommand_named("zigbuild"@) == Some(CargoSubcommand::Build),
        cargo_subcommand_named(w) matches Some(d) ==> (w == cargo_word(d) || (w == "zigbuild"@ && d
            == CargoSubcommand::Build)),
{
    reveal_strlit("zigbuild");
    assert("zigbuild"@.len() == 8 && "zigbuild"@[0] == 'z' && "zigbuild"@[1] == 'i' && "zigbuild"@[2] == 'g');
    reveal_strlit("build");
    assert("build"@.len() == 5 && "build"@[0] == 'b' && "build"@[1] == 'u' && "build"@[2] == 'i');
    reveal_strlit("check");
    assert("check"@.len() == 5 && "check"@[0] == 'c' && "check"@[1] == 'h' && "check"@[2] == 'e');
    reveal_strlit("clean");
    assert("clean"@.len() == 5 && "clean"@[0] == 'c' && "clean"@[1] == 'l' && "clean"@[2] == 'e');
    reveal_strlit("clippy");
    assert("clippy"@.len() == 6 && "clippy"@[0] == 'c' && "clippy"@[1] == 'l' && "clippy"@[2] == 'i');
    reveal_strlit("doc");
    assert("doc"@.len() == 3 && "doc"@[0] == 'd' && "doc"@[1] == 'o' && "doc"@[2] == 'c');
    reveal_strlit("install");
    assert("install"@.len() == 7 && "install"@[0] == 'i' && "install"@[1] == 'n' && "install"@[2] == 's');
    reveal_strlit("metadata");
    assert("metadata"@.len() == 8 && "metadata"@[0] == 'm' && "metadata"@[1] == 'e' && "metadata"@[2] == 't');
    reveal_strlit("run");
    assert("run"@.len() == 3 && "run"@[0] == 'r' && "run"@[1] == 'u' && "run"@[2] == 'n');
    reveal_strlit("rustc");
    assert("rustc"@.len() == 5 && "rustc"@[0] == 'r' && "rustc"@[1] == 'u' && "rustc"@[2] == 's');
    reveal_strlit("test");
    assert("test"@.len() == 4 && "test"@[0] == 't' && "test"@[1] == 'e' && "test"@[2] == 's');
}

/// Law: the option a shell gets depends on its file name alone: a shell named
/// `n` (no `/`, not `.` or `..`) gets the same option wherever it lives, and
/// it is `-ic` exactly when `n` is `bash` or `zsh`, `-c` otherwise.
pub proof fn law_shell_flag_by_name(d: Seq<char>, n: Seq<char>)
    requires
        n.len() > 0,
        forall|i: int| 0 <= i < n.len() ==> n[i] != '/',
        n != seq!['.'],
        n != dot_dot(),
    ensures
        shell_flag(d + seq!['/'] + n) == shell_flag(n),
        (shell_flag(d + seq!['/'] + n) == "-ic"@) <==> (n == "bash"@ || n == "zsh"@),
        !(n == "bash"@ || n == "zsh"@) ==> shell_flag(d + seq!['/'] + n) == "-c"@,
{
    lemma_file_name_of_name(d, n);
    reveal_strlit("-ic");
    reveal_strlit("-c");
    assert("-ic"@.len() != "-c"@.len());
}

} // verus!
