//! Repositories on the server's disk and the git commands run on them, the
//! server's host key file, and what the server reports of itself.
use vstd::prelude::*;
use crate::client::{split_by, split_on};
use crate::text::{blank, is_blank, views};

verus! {

/// Whether a path names something on disk (`Path::exists`). Nothing is
/// claimed of the answer: it depends on the disk.
#[verifier::external_body]
fn path_exists(path: &str) -> (r: bool) {
    std::path::Path::new(path).exists()
}

/// A git repository directory.
#[derive(Clone, Debug)]
pub struct Repo {
    dir: String,
}

impl Repo {
    /// The repository at `path`.
    pub fn from(path: &str) -> (r: Repo)
        ensures
            r.dir() == path@,
    {
        Repo { dir: String::from_str(path) }
    }

    /// The repository's directory.
    pub closed spec fn dir(&self) -> Seq<char> {
        self.dir@
    }

    /// The repository's directory.
    pub fn path(&self) -> (r: &str)
        ensures
            r@ == self.dir(),
    {
        self.dir.as_str()
    }

    /// Whether the directory exists.
    pub fn exists_on_disk(&self) -> bool {
        path_exists(self.dir.as_str())
    }

    /// The arguments of `git` that create a bare repository at `path`.
    pub fn init_bare_args(path: &str) -> (r: Vec<String>)
        ensures
            views(r@) == seq!["init"@, "--bare"@, path@],
    {
        let r = vec![String::from_str("init"), String::from_str("--bare"), String::from_str(path)];
        assert(views(r@) =~= seq!["init"@, "--bare"@, path@]);
        r
    }

    /// The arguments of `git` that clone `from` into `to`, on `branch`
    /// (`master` when none is named).
    pub fn clone_args(from: &str, to: &str, branch: Option<&str>) -> (r: Vec<String>)
        ensures
            views(r@) == seq![
                "clone"@,
                "--branch"@,
                match branch {
                    Some(b) => b@,
                    None => "master"@,
                },
                from@,
                to@,
            ],
    {
        let b = match branch {
            Some(b) => String::from_str(b),
            None => String::from_str("master"),
        };
        let r = vec![
            String::from_str("clone"),
            String::from_str("--branch"),
            b,
            String::from_str(from),
            String::from_str(to),
        ];
        assert(views(r@) =~= seq![
            "clone"@,
            "--branch"@,
            match branch {
                Some(b) => b@,
                None => "master"@,
            },
            from@,
            to@,
        ]);
        r
    }

    /// The arguments of `git`, run in the repository, that check `branch`
    /// (`HEAD` when none is named) out into the work tree `to`, overwriting it.
    pub fn checkout_args(&self, to: &str, branch: Option<&str>) -> (r: Vec<String>)
        ensures
            views(r@) == seq![
                "--work-tree"@,
                to@,
                "checkout"@,
                "-f"@,
                match branch {
                    Some(b) => b@,
                    None => "HEAD"@,
                },
            ],
    {
        let b = match branch {
            Some(b) => String::from_str(b),
            None => String::from_str("HEAD"),
        };
        let r = vec![
            String::from_str("--work-tree"),
            String::from_str(to),
            String::from_str("checkout"),
            String::from_str("-f"),
            b,
        ];
        assert(views(r@) =~= seq![
            "--work-tree"@,
            to@,
            "checkout"@,
            "-f"@,
            match branch {
                Some(b) => b@,
                None => "HEAD"@,
            },
        ]);
        r
    }

    /// The arguments of `git`, run in a work tree, that apply the patch on its
    /// standard input; an empty patch is accepted.
    pub fn apply_args() -> (r: Vec<String>)
        ensures
            views(r@) == seq!["apply"@, "--allow-empty"@],
    {
        let r = vec![String::from_str("apply"), String::from_str("--allow-empty")];
        assert(views(r@) =~= seq!["apply"@, "--allow-empty"@]);
        r
    }

    /// The three `git` commands, run in the repository, that commit every
    /// change with `message` and push it.
    pub fn push_changes_steps(message: &str) -> (r: Vec<Vec<String>>)
        ensures
            r@.len() == 3,
            views(r@[0]@) == seq!["add"@, "."@],
            views(r@[1]@) == seq!["commit"@, "-m"@, message@],
            views(r@[2]@) == seq!["push"@],
    {
        let a = vec![String::from_str("add"), String::from_str(".")];
        let c = vec![String::from_str("commit"), String::from_str("-m"), String::from_str(message)];
        let p = vec![String::from_str("push")];
        assert(views(a@) =~= seq!["add"@, "."@]);
        assert(views(c@) =~= seq!["commit"@, "-m"@, message@]);
        assert(views(p@) =~= seq!["push"@]);
        vec![a, c, p]
    }
}

/// Whether the file `horsed.key`, which holds the server's host key, exists.
pub fn key_exists() -> bool {
    path_exists("horsed.key")
}

/// How a process ended: its exit code, none when a signal ended it.
#[derive(Clone, Copy, Debug, PartialEq, Eq, Structural)]
pub struct ProcessExit {
    pub code: Option<i32>,
}

/// Why a process counts as failed.
#[derive(Clone, Debug)]
pub struct ExitError;

impl ExitError {
    /// The message of the failure.
    pub fn message(&self) -> (r: &'static str)
        ensures
            r@ == "process exited with non-zero status code"@,
    {
        "process exited with non-zero status code"
    }
}

/// Turns how a process ended into success or failure.
pub trait ExitOk {
    fn exit_ok(self) -> Result<(), ExitError>;
}

impl ExitOk for ProcessExit {
    /// Success exactly when the process exited with code 0.
    fn exit_ok(self) -> (r: Result<(), ExitError>)
        ensures
            r is Ok <==> self.code == Some(0i32),
    {
        match self.code {
            Some(c) => if c == 0 {
                Ok(())
            } else {
                Err(ExitError)
            },
            None => Err(ExitError),
        }
    }
}

/// The soft limit on open files, as `getrlimit` reported it: none when the
/// call failed (a non-zero status).
pub fn get_ulimit_n(status: i32, soft_limit: u64) -> (r: Option<u64>)
    ensures
        status == 0 ==> r == Some(soft_limit),
        status != 0 ==> r is None,
{
    if status == 0 {
        Some(soft_limit)
    } else {
        None
    }
}

/// The commit the server was built from, `unknown` when the build did not
/// record one.
pub fn horsed_commit(build_sha: Option<&'static str>) -> (r: &'static str)
    ensures
        build_sha matches Some(s) ==> r@ == s@,
        build_sha is None ==> r@ == "unknown"@,
{
    match build_sha {
        Some(s) => s,
        None => "unknown",
    }
}

/// The server's default shell, as its health report gives it: the configured
/// one (`SHELL`; on Windows `ComSpec`, else `COMSPEC`), unless it is blank.
pub fn default_shell(configured: Option<String>) -> (r: Option<String>)
    ensures
        configured matches Some(s) ==> (if is_blank(s@) {
            r is None
        } else {
            r matches Some(x) && x@ == s@
        }),
        configured is None ==> r is None,
{
    match configured {
        Some(s) => if blank(s.as_str()) {
            None
        } else {
            Some(s)
        },
        None => None,
    }
}

/// A user's public key as `user add --key` takes it.
#[derive(Clone, Debug)]
pub struct UserKey {
    /// The key's algorithm.
    pub method: String,
    /// The key's body.
    pub key: String,
    /// Its comment.
    pub comment: Option<String>,
}

/// Reads `<method> <key> [comment]`, split at single spaces: the first two
/// pieces are required, the third is the comment and the rest is ignored. The
/// error holds the text.
pub fn parse_user_key(pk: &str) -> (r: Result<UserKey, String>)
    ensures
        ({
            let p = split_on(pk@, ' ');
            &&& p.len() < 2 ==> (r matches Err(e) && e@ == pk@)
            &&& p.len() >= 2 ==> (r matches Ok(k) && k.method@ == p[0] && k.key@ == p[1] && (if p.len()
                > 2 {
                k.comment matches Some(c) && c@ == p[2]
            } else {
                k.comment is None
            }))
        }),
{
    let parts = split_by(pk, ' ');
    if parts.len() < 2 {
        return Err(String::from_str(pk));
    }
    assert(views(parts@)[0] == parts@[0]@);
    assert(views(parts@)[1] == parts@[1]@);
    let comment = if parts.len() > 2 {
        assert(views(parts@)[2] == parts@[2]@);
        Some(parts[2].clone())
    } else {
        None
    };
    Ok(UserKey { method: parts[0].clone(), key: parts[1].clone(), comment })
}

/// The `user` maintenance command of the server.
#[derive(Clone, Debug)]
pub struct User {
    pub commands: UserCommand,
}

/// The sub-commands of `user`.
#[derive(Clone, Debug)]
pub enum UserCommand {
    Add(AddUser),
    Del(DelUser),
    Mod(ModUser),
    List(ListUser),
}

/// `user add`: a new account with an optional nickname, e-mail and key.
#[derive(Clone, Debug)]
pub struct AddUser {
    pub name: String,
    pub nick: Option<String>,
    pub email: Option<String>,
    pub key: Option<UserKey>,
}

/// `user del`.
#[derive(Clone, Debug)]
pub struct DelUser {}

/// `user mod`.
#[derive(Clone, Debug)]
pub struct ModUser {}

/// `user list`.
#[derive(Clone, Debug)]
pub struct ListUser {}

/// A message between the server and its helper processes.
#[derive(Clone, Debug)]
pub enum Data {
    /// A git hook ran, with its kind and arguments.
    GitHook { kind: String, args: Vec<String> },
    /// The server is to exit.
    Exit,
}

} // verus!
