use workhorse::layout::{
    build_paths, cmd_working_copy, git_plan, git_request, just_working_copy_of, put_target, repo_store_of,
    requested_file, working_copy_of, FileRequestError, GitPlan, GitRequestError, GitService, PutPathError,
    RepoPathError,
};
use workhorse::paths::{
    drop_extension, final_name, git_extended, join, mentions_parent, set_extension_to, starts_with_parent,
    strip_root,
};

fn args(w: &[&str]) -> Vec<String> {
    w.iter().map(|s| s.to_string()).collect()
}

#[test]
fn cleaning_follows_the_crate() {
    assert_eq!(requested_file("/", &args(&["foo/../../bar"]), true).unwrap(), "/bar");
    assert_eq!(requested_file("w", &args(&["foo/../../bar"]), true).unwrap(), "bar");
    assert_eq!(requested_file("/", &args(&["a//b/./c/"]), true).unwrap(), "/a/b/c");
    assert_eq!(working_copy_of("/srv", "a/../../b").unwrap(), "/srv/workspace/../b");
}

#[test]
fn path_pieces() {
    assert_eq!(strip_root("///a/b"), "a/b");
    assert_eq!(strip_root("a"), "a");
    assert!(starts_with_parent(".."));
    assert!(starts_with_parent("../x"));
    assert!(!starts_with_parent("..x"));
    assert!(!starts_with_parent("./.."));
    assert!(mentions_parent("a/../b"));
    assert!(mentions_parent(".."));
    assert!(!mentions_parent("a/..b/c"));
    assert_eq!(join("/srv", "a"), "/srv/a");
    assert_eq!(join("/srv/", "a"), "/srv/a");
    assert_eq!(join("/srv", "/etc"), "/etc");
    assert_eq!(join("", "a"), "a");
}

#[test]
fn extensions() {
    assert_eq!(git_extended("repos/app").as_deref(), Some("repos/app.git"));
    assert_eq!(git_extended("repos/app.git").as_deref(), Some("repos/app.git"));
    assert_eq!(git_extended("repos/app.rs").as_deref(), Some("repos/app.git"));
    assert_eq!(git_extended("repos/.hidden").as_deref(), Some("repos/.hidden.git"));
    assert_eq!(git_extended("/"), None);
    assert_eq!(git_extended(".."), None);
    assert_eq!(drop_extension("/w/app.git"), "/w/app");
    assert_eq!(drop_extension("/w/.hidden"), "/w/.hidden");
    assert_eq!(set_extension_to("out/dir", "tar"), "out/dir.tar");
    assert_eq!(set_extension_to("out/a.b.c", "tar"), "out/a.b.tar");
}

#[test]
fn file_names() {
    assert_eq!(final_name("/bin/bash").as_deref(), Some("bash"));
    assert_eq!(final_name("/bin/bash/").as_deref(), Some("bash"));
    assert_eq!(final_name("a/.").as_deref(), Some("a"));
    assert_eq!(final_name("a/.."), None);
    assert_eq!(final_name("/"), None);
    assert_eq!(final_name("."), None);
    assert_eq!(final_name(""), None);
}

#[test]
fn working_copies() {
    assert_eq!(working_copy_of("/srv", "/team/app").unwrap(), "/srv/workspace/team/app");
    assert_eq!(working_copy_of("/srv", "app.git").unwrap(), "/srv/workspace/app");
    match working_copy_of("/srv", "/") {
        Err(RepoPathError::NoFileName(p)) => assert_eq!(p, "."),
        other => panic!("unexpected: {:?}", other),
    }
    assert_eq!(just_working_copy_of("/srv", "/team/app"), "/srv/workspace/team/app");
    assert_eq!(cmd_working_copy("/srv", Some("app"), true).unwrap().as_deref(), Some("/srv/workspace/app"));
    assert_eq!(cmd_working_copy("/srv", Some("app"), false).unwrap(), None);
    assert_eq!(cmd_working_copy("/srv", None, true).unwrap(), None);
}

#[test]
fn bare_repositories() {
    assert_eq!(repo_store_of("/srv", "/repos/a", true).unwrap(), "/srv/repos/a.git");
    assert_eq!(repo_store_of("/srv", "/team/a.git", true).unwrap(), "/srv/repos/team/a.git");
    assert!(matches!(repo_store_of("/srv", "repos/a", true), Err(RepoPathError::NotRooted)));
    assert_eq!(repo_store_of("/srv", "repos/a", false).unwrap(), "/srv/repos/a.git");
    match repo_store_of("/srv", "/../etc", true) {
        Err(RepoPathError::Escapes(p)) => assert_eq!(p, "../etc"),
        other => panic!("unexpected: {:?}", other),
    }
    let (stored, work) = build_paths("/srv", "team/app");
    assert_eq!(stored, "/srv/repos/team/app.git");
    assert_eq!(work, "/srv/workspace/team/app");
}

#[test]
fn put_targets() {
    assert_eq!(put_target("/srv/workspace/app", "dir/./f.txt").unwrap(), "/srv/workspace/app/dir/f.txt");
    match put_target("/srv/workspace/app", "../x") {
        Err(e @ PutPathError::Invalid(_)) => {
            assert_eq!(e.code(), "HSSH_PUT_PATH_INVALID");
            assert_eq!(e.message(), "非法目标路径: ../x");
        }
        other => panic!("unexpected: {:?}", other),
    }
    assert!(matches!(put_target("/srv/workspace/app", "/etc/passwd"), Err(PutPathError::Invalid(_))));
    assert_eq!(
        PutPathError::Outside("/x".into()).message(),
        "目标路径超出工作目录: /x"
    );
}

#[test]
fn requested_files() {
    assert_eq!(requested_file("/w", &args(&["a/../b"]), true).unwrap(), "/w/b");
    assert_eq!(requested_file("/w", &args(&["a/../b"]), false).unwrap(), "/w/a/../b");
    match requested_file("/w", &args(&["../secret"]), true) {
        Err(e @ FileRequestError::Escapes(_)) => assert_eq!(e.message(), "拒绝文件请求, 路径不合法: ../secret"),
        other => panic!("unexpected: {:?}", other),
    }
    assert!(matches!(requested_file("/w", &args(&[]), true), Err(FileRequestError::NoFile)));
}

#[test]
fn git_requests() {
    let (s, p) = git_request("/srv", &args(&["git-upload-pack", "/repos/a"])).unwrap();
    assert_eq!(s, GitService::UploadPack);
    assert_eq!(p, "/srv/repos/a.git");
    let (s, _) = git_request("/srv", &args(&["git-receive-pack", "/a"])).unwrap();
    assert_eq!(s, GitService::ReceivePack);
    assert!(matches!(git_request("/srv", &args(&["git-upload-pack"])), Err(GitRequestError::MissingArguments)));
    assert!(matches!(
        git_request("/srv", &args(&["git-upload-archive", "/a"])),
        Err(GitRequestError::UnknownService(n)) if n == "git-upload-archive"
    ));
    assert!(matches!(
        git_request("/srv", &args(&["git-upload-pack", "/../a"])),
        Err(GitRequestError::Path(RepoPathError::Escapes(_)))
    ));
    assert_eq!(git_plan(GitService::UploadPack, false), GitPlan::Skip);
    assert_eq!(git_plan(GitService::ReceivePack, false), GitPlan::CreateThenServe);
    assert_eq!(git_plan(GitService::UploadPack, true), GitPlan::Serve);
}

#[test]
fn git_extension_is_given_once() {
    for p in ["repos/app", "repos/app.rs", "repos/.x", "a.b.c"] {
        let g = git_extended(p).unwrap();
        assert_eq!(git_extended(&g).unwrap(), g);
    }
}
