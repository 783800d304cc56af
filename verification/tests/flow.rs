use workhorse::flow::{
    build_step, cmd_step, exec_step, require_cargo_options, require_repo_branch, BuildAction, BuildEvent, BuildKind,
    BuildStage, CmdAction, CmdEvent, CmdStage, ExecEvent,
    ExecStage, ExecStep, MissingSetting,
};
use workhorse::server::{Action, Failure};

#[test]
fn repository_and_branch_are_required_in_order() {
    assert_eq!(require_repo_branch(None, None), Err(MissingSetting::Repo));
    assert_eq!(require_repo_branch(None, Some("b".to_string())), Err(MissingSetting::Repo));
    assert_eq!(require_repo_branch(Some("r".to_string()), None), Err(MissingSetting::Branch));
    assert_eq!(require_repo_branch(Some("r".to_string()), Some("b".to_string())), Ok(("r".to_string(), "b".to_string())));
    assert_eq!(MissingSetting::Branch.message(), "BRANCH 环境变量未设置");
    assert_eq!(require_cargo_options(None), Err(MissingSetting::CargoOptions));
    assert_eq!(MissingSetting::CargoOptions.message(), "CARGO_OPTIONS 环境变量未设置");
}

#[test]
fn unsupported_actions_are_refused() {
    let (stage, step) = exec_step(ExecStage::Dispatching, ExecEvent::Dispatch(Action::Unsupported("foo".to_string())));
    assert!(matches!(stage, ExecStage::Answered));
    match step {
        ExecStep::Refuse { code, message } => {
            assert_eq!(code, "HSSH_ACTION_UNSUPPORTED");
            assert_eq!(message, "不支持的命令: foo");
        }
        other => panic!("unexpected step {other:?}"),
    }
}

#[test]
fn handlers_decide_the_answer() {
    let (stage, step) = exec_step(ExecStage::Dispatching, ExecEvent::Dispatch(Action::Cmd));
    assert!(matches!(stage, ExecStage::Handling));
    assert!(matches!(step, ExecStep::RunHandler(Action::Cmd)));
    let (_, ok) = exec_step(ExecStage::Handling, ExecEvent::Handled(true));
    assert!(matches!(ok, ExecStep::Confirm));
    let (_, err) = exec_step(ExecStage::Handling, ExecEvent::Handled(false));
    assert!(matches!(err, ExecStep::PassError));
}

#[test]
fn cmd_in_an_existing_working_copy() {
    let request = CmdEvent::Request {
        cwd: "/srv".to_string(),
        repo: Some("/uuhan/workhorse".to_string()),
        branch_set: true,
    };
    let (stage, action) = cmd_step(CmdStage::Start, request);
    match action {
        CmdAction::CheckWorkCopy(w) => assert_eq!(w, "/srv/workspace/uuhan/workhorse"),
        other => panic!("unexpected action {other:?}"),
    }
    let (stage, action) = cmd_step(stage, CmdEvent::WorkCopyExists(true));
    assert!(matches!(action, CmdAction::CreateJob));
    let (stage, action) = cmd_step(stage, CmdEvent::JobCreated("job-1-1".to_string()));
    match action {
        CmdAction::AnnounceAndSpawn { info, dir } => {
            assert_eq!(info, "job_id=job-1-1");
            assert_eq!(dir, "/srv/workspace/uuhan/workhorse");
        }
        other => panic!("unexpected action {other:?}"),
    }
    let (stage, action) = cmd_step(stage, CmdEvent::Spawned);
    assert!(matches!(action, CmdAction::Nothing));
    let (stage, action) = cmd_step(stage, CmdEvent::Ended(None));
    assert!(matches!(action, CmdAction::ExitAndFinish { status: 128, job_code: 128 }));
    assert!(matches!(stage, CmdStage::Done));
}

#[test]
fn cmd_falls_back_to_the_server_directory() {
    let request = CmdEvent::Request { cwd: "/srv".to_string(), repo: Some("r".to_string()), branch_set: true };
    let (stage, _) = cmd_step(CmdStage::Start, request);
    let (stage, _) = cmd_step(stage, CmdEvent::WorkCopyExists(false));
    match stage {
        CmdStage::Ready { dir } => assert_eq!(dir, "/srv"),
        other => panic!("unexpected stage {other:?}"),
    }
    let (stage, action) = cmd_step(CmdStage::Start, CmdEvent::Request { cwd: "/srv".to_string(), repo: None, branch_set: true });
    assert!(matches!(action, CmdAction::CreateJob));
    assert!(matches!(stage, CmdStage::Ready { .. }));
}

#[test]
fn cmd_refuses_a_repository_without_a_name() {
    let request = CmdEvent::Request { cwd: "/srv".to_string(), repo: Some("/".to_string()), branch_set: true };
    let (stage, action) = cmd_step(CmdStage::Start, request);
    assert!(matches!(stage, CmdStage::Done));
    assert!(matches!(action, CmdAction::RefuseRepoPath(_)));
}

#[test]
fn cmd_shell_failures_and_stream_failures() {
    let (_, action) = cmd_step(
        CmdStage::Launching { dir: "/srv".to_string() },
        CmdEvent::SpawnFailed { shell: "nu".to_string(), error: "not found".to_string() },
    );
    match action {
        CmdAction::FailAndFinish { failure, message, job_code } => {
            assert_eq!(failure, Failure::ShellSpawnFailed);
            assert_eq!(message, "spawn: `nu` failed: not found");
            assert_eq!(job_code, 127);
        }
        other => panic!("unexpected action {other:?}"),
    }
    let (_, action) = cmd_step(CmdStage::Running, CmdEvent::StreamFailed);
    assert!(matches!(action, CmdAction::Finish(1)));
    let (_, action) = cmd_step(CmdStage::Running, CmdEvent::Ended(Some(3)));
    assert!(matches!(action, CmdAction::ExitAndFinish { status: 3, job_code: 3 }));
}

#[test]
fn cargo_records_its_job_before_checking_the_repository() {
    let request = BuildEvent::Request {
        kind: BuildKind::Cargo,
        cwd: "/srv".to_string(),
        repo: Some("uuhan/workhorse".to_string()),
        branch: Some("master".to_string()),
    };
    let (stage, action) = build_step(BuildStage::Start, request);
    assert!(matches!(action, BuildAction::CreateJob));
    let (stage, action) = build_step(stage, BuildEvent::JobCreated("job-1-1".to_string()));
    match action {
        BuildAction::CheckStore { announce, store } => {
            assert_eq!(announce, Some("job_id=job-1-1".to_string()));
            assert_eq!(store, "/srv/repos/uuhan/workhorse.git");
        }
        other => panic!("unexpected action {other:?}"),
    }
    let (_, action) = build_step(stage.clone(), BuildEvent::StoreExists(false));
    assert!(matches!(action, BuildAction::Refuse(m) if m == "仓库不存在"));
    let (stage, action) = build_step(stage, BuildEvent::StoreExists(true));
    assert!(matches!(action, BuildAction::Configure));
    let (stage, _) = build_step(stage, BuildEvent::Configured(true));
    let (_, action) = build_step(stage.clone(), BuildEvent::CheckedOut(false));
    assert!(matches!(action, BuildAction::Finish(1)));
    let (stage, _) = build_step(stage, BuildEvent::CheckedOut(true));
    let (stage, action) = build_step(stage, BuildEvent::Applied(true));
    assert!(matches!(action, BuildAction::Spawn));
    let (_, action) = build_step(stage, BuildEvent::SpawnFailed("no such file".to_string()));
    match action {
        BuildAction::FailAndFinish { failure, message, job_code } => {
            assert_eq!(failure, Failure::CargoSpawnFailed);
            assert_eq!(message, "spawn: `cargo` failed: no such file");
            assert_eq!(job_code, 127);
        }
        other => panic!("unexpected action {other:?}"),
    }
}

#[test]
fn just_checks_its_path_first() {
    let request = BuildEvent::Request {
        kind: BuildKind::Just,
        cwd: "/srv".to_string(),
        repo: Some("../x".to_string()),
        branch: Some("master".to_string()),
    };
    let (_, action) = build_step(BuildStage::Start, request);
    assert!(matches!(action, BuildAction::RefusePath(_)));
    let missing = BuildEvent::Request { kind: BuildKind::Just, cwd: "/srv".to_string(), repo: Some("x".to_string()), branch: None };
    let (_, action) = build_step(BuildStage::Start, missing);
    assert!(matches!(action, BuildAction::Missing(MissingSetting::Branch)));
    let (_, action) = build_step(
        BuildStage::Checking { kind: BuildKind::Just, id: "job-1-2".to_string() },
        BuildEvent::StoreExists(true),
    );
    assert!(matches!(action, BuildAction::CheckOut { announce: Some(a) } if a == "job_id=job-1-2"));
    let (_, action) = build_step(BuildStage::CheckingOut { kind: BuildKind::Just }, BuildEvent::CheckedOut(false));
    assert!(matches!(action, BuildAction::Refuse(m) if m == "检出代码失败"));
    let (_, action) = build_step(BuildStage::Running, BuildEvent::StreamFailed);
    assert!(matches!(action, BuildAction::Finish(1)));
}
