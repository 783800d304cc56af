//! Where the server keeps things: bare repositories under `repos/`, working
//! copies under `workspace/`, both below the directory the server runs in.
//!
//! Clients name a repository (the `REPO` variable, or the path of a git
//! request) and files inside its working copy; these functions turn such names
//! into paths, or refuse them.
use vstd::prelude::*;
use crate::paths::{
    absolute, clean, cleaned, drop_extension, first_component, first_component_of, first_is_parent,
    git_extended, has_parent_component, is_absolute, is_within, join, joined, mentions_parent,
    root_stripped, starts_with_parent, strip_root, with_git_extension, within, without_extension,
};
use crate::text::{push_str, str_equals};

verus! {

/// Why a repository path is refused.
#[derive(Clone, Debug)]
pub enum RepoPathError {
    /// A git request named a path that does not begin at the root.
    NotRooted,
    /// The path's first component is `..`; it holds the cleaned path.
    Escapes(String),
    /// The path has no file name to carry the `.git` extension; it holds the
    /// path. (The message shows it in `Debug` form, which the caller prints.)
    NoFileName(String),
}

/// The relative, cleaned form of a repository name.
pub open spec fn repo_relative(repo: Seq<char>) -> Seq<char> {
    cleaned(root_stripped(repo))
}

/// The working copy for a repository name, as `cmd`, `get`, `scp`, `ssh` and
/// `put` compute it: `<cwd>/workspace/<repo>` without the extension, or none
/// when the name cannot be given the `.git` extension.
pub open spec fn working_copy(cwd: Seq<char>, repo: Seq<char>) -> Option<Seq<char>> {
    match with_git_extension(repo_relative(repo)) {
        None => None,
        Some(g) => Some(without_extension(joined(joined(cwd, "workspace"@), g))),
    }
}

/// The working copy for a repository name (see [`working_copy`]). The error
/// holds the cleaned name that could not be given the extension.
pub fn working_copy_of(cwd: &str, repo: &str) -> (r: Result<String, RepoPathError>)
    ensures
        r matches Ok(w) ==> working_copy(cwd@, repo@) == Some(w@),
        r is Err ==> working_copy(cwd@, repo@) is None,
        r matches Err(e) ==> (e matches RepoPathError::NoFileName(p) && p@ == repo_relative(repo@)),
{
    let rel = clean(strip_root(repo).as_str());
    match git_extended(rel.as_str()) {
        None => Err(RepoPathError::NoFileName(rel)),
        Some(g) => {
            let ws = join(cwd, "workspace");
            let full = join(ws.as_str(), g.as_str());
            Ok(drop_extension(full.as_str()))
        },
    }
}

/// The working copy a `cmd` request runs in, when the client named both a
/// repository and a branch; none otherwise (the caller then runs in its own
/// directory, as it does when the copy does not exist).
pub fn cmd_working_copy(cwd: &str, repo: Option<&str>, branch_set: bool) -> (r: Result<
    Option<String>,
    RepoPathError,
>)
    ensures
        repo is None || !branch_set ==> r matches Ok(None),
        branch_set ==> (repo matches Some(x) ==> (match working_copy(cwd@, x@) {
            Some(w) => r matches Ok(Some(s)) && s@ == w,
            None => r matches Err(RepoPathError::NoFileName(p)) && p@ == repo_relative(x@),
        })),
{
    match repo {
        Some(x) => if branch_set {
            match working_copy_of(cwd, x) {
                Ok(w) => Ok(Some(w)),
                Err(e) => Err(e),
            }
        } else {
            Ok(None)
        },
        None => Ok(None),
    }
}

/// The bare repository a git request or a `just` request names, under
/// `<cwd>/repos` unless the name already begins with `repos`.
pub open spec fn stored_repo(cwd: Seq<char>, rel: Seq<char>) -> Seq<char> {
    if rel.len() == 0 {
        rel
    } else if first_component(rel) == "repos"@ {
        cleaned(joined(cwd, rel))
    } else {
        cleaned(joined(joined(cwd, "repos"@), rel))
    }
}

/// What a repository path turns into: the bare repository's path, or why the
/// path is refused.
pub open spec fn repo_store(cwd: Seq<char>, path: Seq<char>, rooted: bool) -> Result<
    Seq<char>,
    RepoPathError,
> {
    let rel = repo_relative(path);
    if rooted && !is_absolute(path) {
        Err(RepoPathError::NotRooted)
    } else if first_is_parent(rel) {
        Err(RepoPathError::Escapes(arbitrary()))
    } else {
        match with_git_extension(stored_repo(cwd, rel)) {
            Some(g) => Ok(g),
            None => Err(RepoPathError::NoFileName(arbitrary())),
        }
    }
}

/// The same outcome, up to the text an error holds.
pub open spec fn same_outcome(r: Result<String, RepoPathError>, s: Result<Seq<char>, RepoPathError>) -> bool {
    match (r, s) {
        (Ok(a), Ok(b)) => a@ == b,
        (Err(RepoPathError::NotRooted), Err(RepoPathError::NotRooted)) => true,
        (Err(RepoPathError::Escapes(_)), Err(RepoPathError::Escapes(_))) => true,
        (Err(RepoPathError::NoFileName(_)), Err(RepoPathError::NoFileName(_))) => true,
        _ => false,
    }
}

/// The bare repository that a repository path names (see [`repo_store`]).
/// A git request's path must begin at the root (`rooted`); a `just` request's
/// may. A refusal for `..` holds the cleaned relative path; one for a missing
/// file name holds the path that lacked it.
pub fn repo_store_of(cwd: &str, path: &str, rooted: bool) -> (r: Result<String, RepoPathError>)
    ensures
        same_outcome(r, repo_store(cwd@, path@, rooted)),
        r matches Err(RepoPathError::Escapes(p)) ==> p@ == repo_relative(path@),
        r matches Err(RepoPathError::NoFileName(p)) ==> p@ == stored_repo(cwd@, repo_relative(path@)),
{
    if rooted && !absolute(path) {
        return Err(RepoPathError::NotRooted);
    }
    let rel = clean(strip_root(path).as_str());
    if starts_with_parent(rel.as_str()) {
        return Err(RepoPathError::Escapes(rel));
    }
    let full = if rel.as_str().is_empty() {
        proof {
            assert(rel@.len() == 0);
        }
        rel
    } else {
        let first = first_component_of(rel.as_str());
        if str_equals(first.as_str(), "repos") {
            clean(join(cwd, rel.as_str()).as_str())
        } else {
            let base = join(cwd, "repos");
            clean(join(base.as_str(), rel.as_str()).as_str())
        }
    };
    match git_extended(full.as_str()) {
        Some(g) => Ok(g),
        None => Err(RepoPathError::NoFileName(full)),
    }
}

/// The working copy of a `just` request: `<cwd>/workspace/<repo>` without
/// the extension of its last component.
pub open spec fn just_working_copy(cwd: Seq<char>, repo: Seq<char>) -> Seq<char> {
    without_extension(joined(joined(cwd, "workspace"@), repo_relative(repo)))
}

/// The working copy of a `just` request (see [`just_working_copy`]).
pub fn just_working_copy_of(cwd: &str, repo: &str) -> (r: String)
    ensures
        r@ == just_working_copy(cwd@, repo@),
{
    let rel = clean(strip_root(repo).as_str());
    let ws = join(cwd, "workspace");
    let full = join(ws.as_str(), rel.as_str());
    drop_extension(full.as_str())
}

/// The bare repository a `cargo` or `apply` request builds from:
/// `<cwd>/repos/<repo>` with the extension `git` where it has a file name,
/// cleaned.
pub open spec fn build_repo(cwd: Seq<char>, repo: Seq<char>) -> Seq<char> {
    let p = joined(joined(cwd, "repos"@), repo);
    match with_git_extension(p) {
        Some(g) => cleaned(g),
        None => cleaned(p),
    }
}

/// The working copy a `cargo` or `apply` request builds in:
/// `<cwd>/workspace/<repo>` without the extension, cleaned.
pub open spec fn build_working_copy(cwd: Seq<char>, repo: Seq<char>) -> Seq<char> {
    cleaned(without_extension(joined(joined(cwd, "workspace"@), repo)))
}

/// The bare repository and the working copy of a `cargo` or `apply` request.
pub fn build_paths(cwd: &str, repo: &str) -> (r: (String, String))
    ensures
        r.0@ == build_repo(cwd@, repo@),
        r.1@ == build_working_copy(cwd@, repo@),
{
    let repos = join(cwd, "repos");
    let p = join(repos.as_str(), repo);
    let stored = match git_extended(p.as_str()) {
        Some(g) => clean(g.as_str()),
        None => clean(p.as_str()),
    };
    let ws = join(cwd, "workspace");
    let w = join(ws.as_str(), repo);
    let work = clean(drop_extension(w.as_str()).as_str());
    (stored, work)
}

/// Why the target of a `put` is refused.
#[derive(Clone, Debug)]
pub enum PutPathError {
    /// The target is absolute or has a `..` component; it holds the target.
    Invalid(String),
    /// The target leaves the working copy; it holds the cleaned target.
    Outside(String),
}

impl PutPathError {
    /// The error code sent to the client.
    pub fn code(&self) -> (r: &'static str)
        ensures
            self is Invalid ==> r@ == "HSSH_PUT_PATH_INVALID"@,
            self is Outside ==> r@ == "HSSH_PUT_PATH_OUTSIDE_WORKDIR"@,
    {
        match self {
            PutPathError::Invalid(_) => "HSSH_PUT_PATH_INVALID",
            PutPathError::Outside(_) => "HSSH_PUT_PATH_OUTSIDE_WORKDIR",
        }
    }

    /// The message sent to the client.
    pub fn message(&self) -> (r: String)
        ensures
            self matches PutPathError::Invalid(p) ==> r@ == "非法目标路径: "@ + p@,
            self matches PutPathError::Outside(p) ==> r@ == "目标路径超出工作目录: "@ + p@,
    {
        let mut m = String::new();
        match self {
            PutPathError::Invalid(p) => {
                push_str(&mut m, "非法目标路径: ");
                push_str(&mut m, p.as_str());
            },
            PutPathError::Outside(p) => {
                push_str(&mut m, "目标路径超出工作目录: ");
                push_str(&mut m, p.as_str());
            },
        }
        m
    }
}

/// Where a `put` writes: the target below the working copy `work` (in clean
/// form), cleaned; refused when the target is absolute, names `..`, or lands
/// outside `work`.
pub fn put_target(work: &str, target: &str) -> (r: Result<String, PutPathError>)
    ensures
        (is_absolute(target@) || has_parent_component(target@)) ==> (r matches Err(
            PutPathError::Invalid(p),
        ) && p@ == target@),
        !(is_absolute(target@) || has_parent_component(target@)) ==> {
            let t = cleaned(joined(work@, target@));
            &&& within(t, work@) ==> (r matches Ok(p) && p@ == t)
            &&& !within(t, work@) ==> (r matches Err(PutPathError::Outside(p)) && p@ == t)
        },
{
    if absolute(target) || mentions_parent(target) {
        return Err(PutPathError::Invalid(String::from_str(target)));
    }
    let t = clean(join(work, target).as_str());
    if is_within(t.as_str(), work) {
        Ok(t)
    } else {
        Err(PutPathError::Outside(t))
    }
}

/// Why a file request of `get` or `scp` is refused.
#[derive(Clone, Debug)]
pub enum FileRequestError {
    /// No file was named.
    NoFile,
    /// The file's first component is `..`; it holds the name as given.
    Escapes(String),
}

impl FileRequestError {
    /// The message sent to the client.
    pub fn message(&self) -> (r: String)
        ensures
            self is NoFile ==> r@ == "FIXME: NO FILE"@,
            self matches FileRequestError::Escapes(f) ==> r@ == "拒绝文件请求, 路径不合法: "@ + f@,
    {
        let mut m = String::new();
        match self {
            FileRequestError::NoFile => push_str(&mut m, "FIXME: NO FILE"),
            FileRequestError::Escapes(f) => {
                push_str(&mut m, "拒绝文件请求, 路径不合法: ");
                push_str(&mut m, f.as_str());
            },
        }
        m
    }
}

/// The file a `get` (`cleaned` true) or `scp` request names below the working
/// copy `work`: the first argument joined to `work`, cleaned for `get`.
pub fn requested_file(work: &str, files: &Vec<String>, cleaned_path: bool) -> (r: Result<
    String,
    FileRequestError,
>)
    ensures
        files@.len() == 0 ==> r matches Err(FileRequestError::NoFile),
        files@.len() > 0 && first_is_parent(files@[0]@) ==> (r matches Err(
            FileRequestError::Escapes(f),
        ) && f@ == files@[0]@),
        files@.len() > 0 && !first_is_parent(files@[0]@) ==> (r matches Ok(p) && p@ == (if cleaned_path {
            cleaned(joined(work@, files@[0]@))
        } else {
            joined(work@, files@[0]@)
        })),
{
    if files.len() == 0 {
        return Err(FileRequestError::NoFile);
    }
    let file = files[0].as_str();
    if starts_with_parent(file) {
        return Err(FileRequestError::Escapes(files[0].clone()));
    }
    let p = join(work, file);
    if cleaned_path {
        Ok(clean(p.as_str()))
    } else {
        Ok(p)
    }
}

/// The git services a git request runs.
#[derive(Clone, Copy, Debug, PartialEq, Eq, Structural)]
pub enum GitService {
    /// `git-upload-pack`: a clone or a fetch.
    UploadPack,
    /// `git-receive-pack`: a push.
    ReceivePack,
}

/// Why a git request is refused.
#[derive(Clone, Debug)]
pub enum GitRequestError {
    /// The request lacks the service or the repository.
    MissingArguments,
    /// The repository path is refused.
    Path(RepoPathError),
    /// The service is neither upload-pack nor receive-pack; it holds its name.
    UnknownService(String),
}

/// What a git request asks (`git-upload-pack '/repos/a'`): the service and the
/// bare repository (see [`repo_store`], rooted). The path is checked before
/// the service.
pub fn git_request(cwd: &str, command: &Vec<String>) -> (r: Result<(GitService, String), GitRequestError>)
    ensures
        command@.len() < 2 ==> r matches Err(GitRequestError::MissingArguments),
        command@.len() >= 2 && repo_store(cwd@, command@[1]@, true) is Err ==> (r matches Err(
            GitRequestError::Path(e),
        ) && same_outcome(Err(e), repo_store(cwd@, command@[1]@, true))),
        command@.len() >= 2 && repo_store(cwd@, command@[1]@, true) is Ok ==> {
            let path = repo_store(cwd@, command@[1]@, true)->Ok_0;
            &&& command@[0]@ == "git-upload-pack"@ ==> (r matches Ok((s, p)) && s == GitService::UploadPack
                && p@ == path)
            &&& command@[0]@ == "git-receive-pack"@ ==> (r matches Ok((s, p)) && s == GitService::ReceivePack
                && p@ == path)
            &&& (command@[0]@ != "git-upload-pack"@ && command@[0]@ != "git-receive-pack"@) ==> (r matches Err(
                GitRequestError::UnknownService(n),
            ) && n@ == command@[0]@)
        },
{
    if command.len() < 2 {
        return Err(GitRequestError::MissingArguments);
    }
    let path = match repo_store_of(cwd, command[1].as_str(), true) {
        Ok(p) => p,
        Err(e) => {
            return Err(GitRequestError::Path(e));
        },
    };
    proof {
        reveal_strlit("git-upload-pack");
        reveal_strlit("git-receive-pack");
        assert("git-upload-pack"@.len() != "git-receive-pack"@.len());
    }
    if str_equals(command[0].as_str(), "git-upload-pack") {
        Ok((GitService::UploadPack, path))
    } else if str_equals(command[0].as_str(), "git-receive-pack") {
        Ok((GitService::ReceivePack, path))
    } else {
        Err(GitRequestError::UnknownService(command[0].clone()))
    }
}

/// What the server does for a git service, given whether the repository
/// exists.
#[derive(Clone, Copy, Debug, PartialEq, Eq, Structural)]
pub enum GitPlan {
    /// Run the service.
    Serve,
    /// Create the bare repository (a first push), then run the service.
    CreateThenServe,
    /// Do nothing: there is nothing to clone.
    Skip,
}

/// What the server does for a git service: a clone of a missing repository
/// does nothing; a push to one creates it first.
pub fn git_plan(service: GitService, exists: bool) -> (r: GitPlan)
    ensures
        exists ==> r == GitPlan::Serve,
        !exists && service == GitService::UploadPack ==> r == GitPlan::Skip,
        !exists && service == GitService::ReceivePack ==> r == GitPlan::CreateThenServe,
{
    if exists {
        GitPlan::Serve
    } else {
        match service {
            GitService::UploadPack => GitPlan::Skip,
            GitService::ReceivePack => GitPlan::CreateThenServe,
        }
    }
}

} // verus!
