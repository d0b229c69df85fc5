use certbot_api::app::app_ctx::{start_or_find, StartTaskOutcome, StartedTask};
use certbot_api::app::cert_tasks::{CertTask, CertTasks, TaskKind, TaskStatus};
use certbot_api::app::reports::{
    fail_status, fix_symlinks_fail_status, outcome_str, output_and_error, start_http_01_response, start_renew_reply,
    task_report, text_contains, StartTaskReply,
};

fn v(items: &[&str]) -> Vec<String> {
    items.iter().map(|x| x.to_string()).collect()
}

fn is_running(t: &CertTask) -> bool {
    matches!(t.status, TaskStatus::Running)
}

#[test]
fn status_and_kind_names() {
    assert_eq!(TaskStatus::Running.as_str(), "running");
    assert_eq!(TaskStatus::Completed { output: "o".to_string() }.as_str(), "completed");
    assert_eq!(TaskStatus::Failed { error: "e".to_string() }.as_str(), "failed");
    assert_eq!(TaskKind::IssueHttp01.as_str(), "issue-http-01");
    assert_eq!(TaskKind::ReissueHttp01.as_str(), "reissue-http-01");
    assert_eq!(TaskKind::RenewDns.as_str(), "renew-dns");
}

#[test]
fn create_running_assigns_sequential_ids() {
    let mut tasks = CertTasks::new();
    assert_eq!(tasks.len(), 0);
    let t1 = tasks.create_running("a.com".to_string(), v(&["a.com"]), TaskKind::IssueHttp01, 100);
    let t2 = tasks.create_running("b.com".to_string(), v(&["b.com", "*.b.com"]), TaskKind::RenewDns, 200);
    assert_eq!(t1.id, "task-1");
    assert_eq!(t2.id, "task-2");
    assert!(is_running(&t1));
    assert_eq!((t2.created_at, t2.updated_at), (200, 200));
    assert_eq!(t2.domains, v(&["b.com", "*.b.com"]));
    assert_eq!(tasks.len(), 2);
}

#[test]
fn lineage_matching_ignores_wildcard_spelling_but_not_sans() {
    let mut tasks = CertTasks::new();
    let t = tasks.create_running("example.com".to_string(), v(&["example.com", "www.other.com"]), TaskKind::RenewDns, 1);
    assert!(t.matches_domain("*.example.com"));
    assert!(t.matches_domain(" example.com "));
    assert!(!t.matches_domain("www.other.com"));
    assert_eq!(tasks.find_running("*.example.com").map(|t| t.id.clone()), Some("task-1".to_string()));
    assert!(tasks.find_running("www.other.com").is_none());
}

#[test]
fn set_status_finishes_task() {
    let mut tasks = CertTasks::new();
    tasks.create_running("a.com".to_string(), v(&["a.com"]), TaskKind::IssueHttp01, 10);
    tasks.set_status("task-1", TaskStatus::Completed { output: "done".to_string() }, 20);
    assert!(tasks.find_running("a.com").is_none());
    let latest = tasks.latest_for("a.com").unwrap();
    assert!(matches!(&latest.status, TaskStatus::Completed { output } if output == "done"));
    assert_eq!((latest.created_at, latest.updated_at), (10, 20));
}

#[test]
fn set_status_unknown_id_changes_nothing() {
    let mut tasks = CertTasks::new();
    tasks.create_running("a.com".to_string(), v(&["a.com"]), TaskKind::IssueHttp01, 10);
    tasks.set_status("task-9", TaskStatus::Failed { error: "x".to_string() }, 20);
    let t = tasks.find_running("a.com").unwrap();
    assert_eq!((t.id.as_str(), t.updated_at), ("task-1", 10));
    assert!(is_running(t));
}

#[test]
fn latest_for_picks_newest_of_lineage() {
    let mut tasks = CertTasks::new();
    tasks.create_running("a.com".to_string(), v(&["a.com"]), TaskKind::IssueHttp01, 10);
    tasks.set_status("task-1", TaskStatus::Failed { error: "x".to_string() }, 11);
    tasks.create_running("b.com".to_string(), v(&["b.com"]), TaskKind::IssueHttp01, 12);
    tasks.create_running("a.com".to_string(), v(&["a.com"]), TaskKind::ReissueHttp01, 13);
    assert_eq!(tasks.latest_for("a.com").unwrap().id, "task-3");
    assert_eq!(tasks.latest_for("b.com").unwrap().id, "task-2");
    assert!(tasks.latest_for("c.com").is_none());
}

#[test]
fn all_sorted_is_newest_first() {
    let mut tasks = CertTasks::new();
    tasks.create_running("a".to_string(), v(&["a"]), TaskKind::RenewDns, 30);
    tasks.create_running("b".to_string(), v(&["b"]), TaskKind::RenewDns, 10);
    tasks.create_running("c".to_string(), v(&["c"]), TaskKind::RenewDns, 20);
    let ids: Vec<String> = tasks.all_sorted().iter().map(|t| t.id.clone()).collect();
    assert_eq!(ids, v(&["task-1", "task-3", "task-2"]));
}

#[test]
fn start_twice_returns_running_task() {
    let mut tasks = CertTasks::new();
    let first = start_or_find(&mut tasks, "example.com".to_string(), v(&["example.com", "*.example.com"]), TaskKind::RenewDns, 5);
    assert_eq!(first.outcome, StartTaskOutcome::Started);
    let second = start_or_find(&mut tasks, "*.example.com".to_string(), v(&["x"]), TaskKind::RenewDns, 6);
    assert_eq!(second.outcome, StartTaskOutcome::AlreadyRunning);
    assert_eq!(second.task.id, first.task.id);
    assert_eq!(second.task.domains, v(&["example.com", "*.example.com"]));
    assert_eq!(tasks.len(), 1);
}

#[test]
fn finished_task_frees_lineage() {
    let mut tasks = CertTasks::new();
    let first = start_or_find(&mut tasks, "a.com".to_string(), v(&["a.com"]), TaskKind::IssueHttp01, 5);
    tasks.set_status(&first.task.id, TaskStatus::Completed { output: String::new() }, 7);
    let again = start_or_find(&mut tasks, "a.com".to_string(), v(&["a.com"]), TaskKind::IssueHttp01, 8);
    assert_eq!(again.outcome, StartTaskOutcome::Started);
    assert_eq!(again.task.id, "task-2");
}

fn started(outcome: StartTaskOutcome) -> StartedTask {
    let mut tasks = CertTasks::new();
    let task = tasks.create_running("a.com".to_string(), v(&["a.com"]), TaskKind::IssueHttp01, 1);
    StartedTask { outcome, task }
}

#[test]
fn outcome_names() {
    assert_eq!(outcome_str(StartTaskOutcome::Started), "started");
    assert_eq!(outcome_str(StartTaskOutcome::AlreadyRunning), "already_running");
}

#[test]
fn http_01_start_replies() {
    let r = start_http_01_response(&started(StartTaskOutcome::Started));
    assert_eq!((r.status.as_str(), r.task_id.as_str(), r.cert_name.as_str()), ("started", "task-1", "a.com"));
    assert_eq!(r.message, "HTTP-01 task for 'a.com' started. Poll /api/http01/v1/status?domain=a.com to read the result.");
    let r = start_http_01_response(&started(StartTaskOutcome::AlreadyRunning));
    assert_eq!(r.status, "already_running");
    assert_eq!(r.message, "A certificate task for 'a.com' is already in progress. Poll /api/http01/v1/status?domain=a.com to read the result.");
}

#[test]
fn tool_start_replies() {
    let hint = "Poll get_http_01_status with the same domain to read the result.";
    let r = StartTaskReply::from_started(&started(StartTaskOutcome::Started), hint);
    assert_eq!(r.message, format!("Task for 'a.com' started. {}", hint));
    let r = StartTaskReply::from_started(&started(StartTaskOutcome::AlreadyRunning), hint);
    assert_eq!(r.message, format!("A certificate task for 'a.com' is already in progress. {}", hint));
}

#[test]
fn renew_start_replies() {
    let r = start_renew_reply(&started(StartTaskOutcome::Started), "/api/certbot/v1/check-renew");
    assert_eq!(r.message, "Renewal for 'a.com' started. Poll /api/certbot/v1/check-renew to read the result.");
    let r = start_renew_reply(&started(StartTaskOutcome::AlreadyRunning), "get_renew_status");
    assert_eq!(r.status, "already_running");
    assert_eq!(r.message, "Renewal for 'a.com' is already in progress. Poll get_renew_status to read the result.");
}

#[test]
fn task_reports() {
    let none = task_report(None);
    assert_eq!(none.status, "not_found");
    assert_eq!((none.task_id, none.output, none.error), (None, None, None));
    let mut tasks = CertTasks::new();
    tasks.create_running("a.com".to_string(), v(&["a.com"]), TaskKind::IssueHttp01, 1);
    tasks.set_status("task-1", TaskStatus::Failed { error: "bad".to_string() }, 2);
    let r = task_report(tasks.latest_for("a.com"));
    assert_eq!(r.status, "failed");
    assert_eq!(r.task_id, Some("task-1".to_string()));
    assert_eq!((r.output, r.error), (None, Some("bad".to_string())));
    assert_eq!(
        output_and_error(&TaskStatus::Completed { output: "ok".to_string() }),
        (Some("ok".to_string()), None)
    );
    assert_eq!(output_and_error(&TaskStatus::Running), (None, None));
}

#[test]
fn failure_statuses() {
    assert_eq!(fail_status("Fullchain file not found for domain: a.com", false), 404);
    assert_eq!(fail_status("Failed to read fullchain file: denied", false), 500);
    assert_eq!(fail_status("lineage does not exist", false), 500);
    assert_eq!(fail_status("lineage does not exist", true), 404);
    assert_eq!(fail_status("", true), 500);
}

#[test]
fn substring_search() {
    assert!(text_contains("abcabd", "abd"));
    assert!(text_contains("abc", ""));
    assert!(!text_contains("ab", "abc"));
    assert!(!text_contains("aXbXc", "abc"));
}

#[test]
fn fix_symlinks_failure_statuses() {
    assert_eq!(fix_symlinks_fail_status("Archive directory not found: /x. Nothing to restore symlinks from — re-issue the certificate."), 404);
    assert_eq!(fix_symlinks_fail_status("No certN.pem files found in /x. Nothing to restore symlinks from — re-issue the certificate."), 404);
    assert_eq!(fix_symlinks_fail_status("Archive file not found: /x/cert1.pem. Archive is incomplete — re-issue the certificate instead of fixing symlinks."), 404);
    assert_eq!(fix_symlinks_fail_status("Failed to remove /x: busy"), 500);
}
