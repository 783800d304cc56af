use workhorse::attach::{
    attach_target, parse_choice, parse_job_command, running_jobs, selection, should_prompt_attach_selection,
    shown_or_dash, AttachError, JobCommand, JobListRow, JobRequestError, Selection,
};
use workhorse::attach::{attach_command, attach_preamble, follow_step, wants_no_follow, Received};
use workhorse::jobs::{JobEvent, JobRegistry};

fn words(w: &[&str]) -> Vec<String> {
    w.iter().map(|s| s.to_string()).collect()
}

#[test]
fn should_prompt_attach_for_attach_without_id() {
    let command = vec!["attach".to_string()];
    assert!(should_prompt_attach_selection(&command));
}

#[test]
fn should_prompt_attach_for_attach_with_no_follow_only() {
    let command = vec!["attach".to_string(), "--no-follow".to_string()];
    assert!(should_prompt_attach_selection(&command));
}

#[test]
fn should_not_prompt_attach_for_explicit_id() {
    let command = vec!["attach".to_string(), "job-1".to_string()];
    assert!(!should_prompt_attach_selection(&command));
}

#[test]
fn should_not_prompt_attach_for_other_subcommands() {
    let command = vec!["list".to_string()];
    assert!(!should_prompt_attach_selection(&command));
}

#[test]
fn parse_running_jobs_filters_non_running_rows() {
    let raw = br#"[
            {"id":"job-1","running":true,"action":"cargo","command":"build"},
            {"id":"job-2","running":false,"action":"cmd","command":"ls"}
        ]"#;
    let values: Vec<serde_json::Value> = serde_json::from_slice(raw).unwrap();
    let rows: Vec<JobListRow> = values
        .iter()
        .map(|v| JobListRow {
            id: v["id"].as_str().unwrap().to_string(),
            running: v["running"].as_bool().unwrap_or(false),
            action: v["action"].as_str().unwrap_or("").to_string(),
            command: v["command"].as_str().unwrap_or("").to_string(),
        })
        .collect();

    let running = running_jobs(rows);
    assert_eq!(running.len(), 1);
    assert_eq!(running[0].id, "job-1");
}

#[test]
fn job_registry_filters_by_owner_and_admin() {
    let mut jobs = JobRegistry::new(16, 1024);
    let _a = jobs.create_job("alice", "cargo", "build");
    let _b = jobs.create_job("bob", "cmd", "ls");

    let alice = jobs.list_visible("alice", false);
    assert_eq!(alice.len(), 1);
    assert_eq!(alice[0].owner, "alice");

    let admin = jobs.list_visible("admin", true);
    assert_eq!(admin.len(), 2);
}

#[test]
fn job_record_keeps_bounded_buffer_and_exit_code() {
    let mut jobs = JobRegistry::new(16, 4);
    let job = jobs.create_job("alice", "cargo", "test");
    jobs.append_output(&job, b"abcdef");

    let (snapshot, exit_code, finished_at_ms, dropped_bytes) =
        jobs.get_visible(&job, "alice", false).unwrap().snapshot();
    assert_eq!(snapshot, b"cdef");
    assert_eq!(dropped_bytes, 2);
    assert_eq!(exit_code, None);
    assert_eq!(finished_at_ms, None);

    jobs.finish(&job, 7);
    let (_, exit_code, finished_at_ms, _) = jobs.get_visible(&job, "alice", false).unwrap().snapshot();
    assert_eq!(exit_code, Some(7));
    assert!(finished_at_ms.is_some());
}

#[test]
fn finished_jobs_are_evicted_first() {
    let mut jobs = JobRegistry::new(2, 16);
    let a = jobs.create_job_at("alice", "cmd", "a", 1);
    jobs.finish_at(&a, 0, 2);
    let b = jobs.create_job_at("alice", "cmd", "b", 3);
    let c = jobs.create_job_at("alice", "cmd", "c", 4);
    assert_eq!(jobs.len(), 2);
    assert!(jobs.get_visible(&a, "alice", false).is_none());
    assert!(jobs.get_visible(&b, "alice", false).is_some());
    assert!(jobs.get_visible(&c, "alice", false).is_some());
}

#[test]
fn finishing_twice_keeps_the_first_exit_code() {
    let mut jobs = JobRegistry::new(4, 16);
    let a = jobs.create_job_at("alice", "cmd", "a", 1);
    assert!(jobs.finish_at(&a, 3, 5).is_some());
    assert!(jobs.finish_at(&a, 9, 6).is_none());
    let (_, code, at, _) = jobs.get_visible(&a, "alice", false).unwrap().snapshot();
    assert_eq!(code, Some(3));
    assert_eq!(at, Some(5));
}

#[test]
fn other_users_do_not_see_a_job() {
    let mut jobs = JobRegistry::new(4, 16);
    let a = jobs.create_job_at("alice", "cmd", "a", 1);
    assert!(jobs.get_visible(&a, "bob", false).is_none());
    assert!(jobs.get_visible(&a, "bob", true).is_some());
}

#[test]
fn job_command_list_is_the_default() {
    assert!(matches!(parse_job_command(&vec![]), Ok(JobCommand::List)));
    assert!(matches!(parse_job_command(&words(&["list"])), Ok(JobCommand::List)));
}

#[test]
fn job_command_attach_reads_id_and_follow() {
    match parse_job_command(&words(&["attach", "job-7", "--no-follow"])) {
        Ok(JobCommand::Attach { id, follow }) => {
            assert_eq!(id.as_deref(), Some("job-7"));
            assert!(!follow);
        }
        _ => panic!("expected attach"),
    }
    match parse_job_command(&words(&["attach", "  "])) {
        Ok(JobCommand::Attach { id, follow }) => {
            assert_eq!(id, None);
            assert!(follow);
        }
        _ => panic!("expected attach"),
    }
}

#[test]
fn job_command_refusals() {
    match parse_job_command(&words(&["attach", "--tail"])) {
        Err(e @ JobRequestError::UnsupportedArgument(_)) => {
            assert_eq!(e.message(), "不支持的参数: --tail, 用法: attach [job_id] [--no-follow]");
            assert_eq!(e.code(), "HSSH_JOB_BAD_REQUEST");
            assert_eq!(e.exit_status(), 2);
        }
        _ => panic!("expected refusal"),
    }
    assert!(matches!(
        parse_job_command(&words(&["attach", "a", "b"])),
        Err(JobRequestError::UnsupportedArgument(a)) if a == "b"
    ));
    match parse_job_command(&words(&["kill"])) {
        Err(e @ JobRequestError::UnknownCommand(_)) => assert_eq!(e.message(), "不支持的 job 命令: kill"),
        _ => panic!("expected refusal"),
    }
}

#[test]
fn attach_target_picks_the_only_running_job() {
    let mut jobs = JobRegistry::new(8, 16);
    let a = jobs.create_job_at("alice", "cmd", "a", 1);
    let b = jobs.create_job_at("alice", "cmd", "b", 2);
    jobs.finish_at(&a, 0, 3);
    let visible = jobs.list_visible("alice", false);
    assert_eq!(attach_target(None, &visible).unwrap(), b);
    assert_eq!(attach_target(Some("x".to_string()), &visible).unwrap(), "x");
}

#[test]
fn attach_target_errors() {
    let mut jobs = JobRegistry::new(8, 16);
    let none = jobs.list_visible("alice", false);
    match attach_target(None, &none) {
        Err(e @ AttachError::NoRunningJob) => {
            assert_eq!(e.code(), "HSSH_JOB_NOT_FOUND");
            assert_eq!(e.message(), "没有运行中的任务");
        }
        _ => panic!("expected no running job"),
    }
    jobs.create_job_at("alice", "cmd", "a", 1);
    jobs.create_job_at("alice", "cmd", "b", 2);
    let two = jobs.list_visible("alice", false);
    match attach_target(None, &two) {
        Err(e @ AttachError::Ambiguous(_)) => {
            assert_eq!(e.code(), "HSSH_JOB_AMBIGUOUS");
            assert_eq!(e.message(), "存在多个运行中的任务，请指定 job_id");
        }
        _ => panic!("expected ambiguity"),
    }
}

#[test]
fn client_selection_and_choice() {
    let row = |id: &str, running: bool| JobListRow {
        id: id.to_string(),
        running,
        action: String::new(),
        command: String::new(),
    };
    assert!(matches!(selection(&vec![]), Selection::Nothing));
    assert!(matches!(selection(&vec![row("j1", true)]), Selection::Only(id) if id == "j1"));
    assert!(matches!(selection(&vec![row("j1", true), row("j2", true)]), Selection::Choose));
    assert_eq!(parse_choice(" 2 ", 3), Some(1));
    assert_eq!(parse_choice("0", 3), None);
    assert_eq!(parse_choice("4", 3), None);
    assert_eq!(parse_choice("x", 3), None);
    assert_eq!(shown_or_dash(""), "-");
    assert_eq!(shown_or_dash("cargo"), "cargo");
}

#[test]
fn attach_preamble_notes_drops_and_exit() {
    let (out, follow) = attach_preamble(&b"abc".to_vec(), Some(3), 2, true);
    assert!(!follow);
    assert_eq!(out, b"[JOB] dropped_bytes=2\nabc\n[JOB] exit_code=3\n".to_vec());
    let (out, follow) = attach_preamble(&b"x".to_vec(), None, 0, true);
    assert!(follow);
    assert_eq!(out, b"x".to_vec());
}

#[test]
fn follow_steps() {
    assert_eq!(follow_step(&Received::Event(JobEvent::Output(b"hi".to_vec()))), (b"hi".to_vec(), false));
    assert_eq!(follow_step(&Received::Event(JobEvent::Done(-1))), (b"\n[JOB] exit_code=-1\n".to_vec(), true));
    assert_eq!(follow_step(&Received::Closed), (Vec::new(), true));
    assert_eq!(follow_step(&Received::Lagged(4)), (b"\n[JOB] lagged_frames=4\n".to_vec(), false));
}

#[test]
fn attach_command_keeps_no_follow() {
    assert!(wants_no_follow(&words(&["attach", "--no-follow"])));
    assert!(!wants_no_follow(&words(&["attach"])));
    assert_eq!(attach_command("j1".to_string(), true), words(&["attach", "j1", "--no-follow"]));
    assert_eq!(attach_command("j1".to_string(), false), words(&["attach", "j1"]));
}

#[test]
fn listing_is_newest_first() {
    let mut jobs = JobRegistry::new(8, 16);
    let a = jobs.create_job_at("alice", "cmd", "a", 10);
    let b = jobs.create_job_at("alice", "cmd", "b", 30);
    let c = jobs.create_job_at("alice", "cmd", "c", 20);
    let rows = jobs.list_visible("alice", false);
    let ids: Vec<&str> = rows.iter().map(|r| r.id.as_str()).collect();
    assert_eq!(ids, vec![b.as_str(), c.as_str(), a.as_str()]);
    assert_eq!(a, "job-a-1");
    assert_eq!(b, "job-1e-2");
}

#[test]
fn ids_made_at_the_same_time_differ() {
    let mut jobs = JobRegistry::new(8, 16);
    let a = jobs.create_job_at("alice", "cmd", "a", 26);
    let b = jobs.create_job_at("alice", "cmd", "b", 26);
    assert_eq!(a, "job-1a-1");
    assert_eq!(b, "job-1a-2");
    assert_ne!(a, b);
}

#[test]
fn running_jobs_outlast_the_bound() {
    let mut jobs = JobRegistry::new(2, 16);
    let a = jobs.create_job_at("alice", "cmd", "a", 1);
    let b = jobs.create_job_at("alice", "cmd", "b", 2);
    let c = jobs.create_job_at("alice", "cmd", "c", 3);
    assert_eq!(jobs.len(), 3);
    jobs.finish_at(&b, 0, 4);
    jobs.finish_at(&a, 0, 5);
    let d = jobs.create_job_at("alice", "cmd", "d", 6);
    assert_eq!(jobs.len(), 2);
    assert!(jobs.get_visible(&a, "alice", false).is_none());
    assert!(jobs.get_visible(&b, "alice", false).is_none());
    assert!(jobs.get_visible(&c, "alice", false).is_some());
    assert!(jobs.get_visible(&d, "alice", false).is_some());
}
