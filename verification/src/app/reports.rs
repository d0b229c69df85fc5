//! What the service answers about tasks: the status report of a lineage's
//! latest task, the reply to a start request, and the HTTP status a failure
//! message maps to.
use vstd::prelude::*;

use crate::app::app_ctx::{StartTaskOutcome, StartedTask};
use crate::app::cert_tasks::{status_name, CertTask, CertTaskView, TaskStatus, TaskStatusView};
use crate::scripts::fix_cert_symlinks::{
    archive_incomplete_message, archive_missing_message, no_versions_message,
};
use crate::text::{chars_of, copy_str};

verus! {

/// The output and error a status carries: the output only when completed,
/// the error only when failed.
pub open spec fn status_fields(s: TaskStatusView) -> (Option<Seq<char>>, Option<Seq<char>>) {
    match s {
        TaskStatusView::Running => (None, None),
        TaskStatusView::Completed(o) => (Some(o), None),
        TaskStatusView::Failed(e) => (None, Some(e)),
    }
}

/// The model of an optional string.
pub open spec fn opt_view(o: Option<String>) -> Option<Seq<char>> {
    match o {
        Some(s) => Some(s@),
        None => None,
    }
}

/// The output and error of a status.
pub fn output_and_error(status: &TaskStatus) -> (r: (Option<String>, Option<String>))
    ensures
        (opt_view(r.0), opt_view(r.1)) == status_fields(status@),
{
    match status {
        TaskStatus::Running => (None, None),
        TaskStatus::Completed { output } => (Some(output.clone()), None),
        TaskStatus::Failed { error } => (None, Some(error.clone())),
    }
}

/// The status of a lineage's latest task: `running`, `completed`, `failed`,
/// or `not_found` when there is none.
pub struct TaskReport {
    pub status: String,
    pub task_id: Option<String>,
    pub output: Option<String>,
    pub error: Option<String>,
}

/// The model of a [`TaskReport`].
pub struct TaskReportView {
    pub status: Seq<char>,
    pub task_id: Option<Seq<char>>,
    pub output: Option<Seq<char>>,
    pub error: Option<Seq<char>>,
}

impl View for TaskReport {
    type V = TaskReportView;

    open spec fn view(&self) -> TaskReportView {
        TaskReportView {
            status: self.status@,
            task_id: opt_view(self.task_id),
            output: opt_view(self.output),
            error: opt_view(self.error),
        }
    }
}

/// The report for a task, or for none.
pub open spec fn report_of(task: Option<CertTaskView>) -> TaskReportView {
    match task {
        None => TaskReportView { status: "not_found"@, task_id: None, output: None, error: None },
        Some(t) => TaskReportView {
            status: status_name(t.status),
            task_id: Some(t.id),
            output: status_fields(t.status).0,
            error: status_fields(t.status).1,
        },
    }
}

/// The report of the latest task of a lineage (`None`: there is no task).
pub fn task_report(task: Option<&CertTask>) -> (r: TaskReport)
    ensures
        r@ == report_of(
            match task {
                Some(t) => Some(t@),
                None => None,
            },
        ),
{
    match task {
        None => TaskReport { status: copy_str("not_found"), task_id: None, output: None, error: None },
        Some(t) => {
            let (output, error) = output_and_error(&t.status);
            TaskReport {
                status: copy_str(t.status.as_str()),
                task_id: Some(t.id.clone()),
                output,
                error,
            }
        },
    }
}

/// The reply to a request that starts a task.
pub struct StartTaskReply {
    /// `started`, or `already_running` when a task of the lineage was
    /// already in flight.
    pub status: String,
    pub task_id: String,
    pub cert_name: String,
    pub message: String,
}

/// The model of a [`StartTaskReply`].
pub struct StartReplyView {
    pub status: Seq<char>,
    pub task_id: Seq<char>,
    pub cert_name: Seq<char>,
    pub message: Seq<char>,
}

impl View for StartTaskReply {
    type V = StartReplyView;

    open spec fn view(&self) -> StartReplyView {
        StartReplyView {
            status: self.status@,
            task_id: self.task_id@,
            cert_name: self.cert_name@,
            message: self.message@,
        }
    }
}

/// The name an outcome is reported under.
pub open spec fn outcome_name(o: StartTaskOutcome) -> Seq<char> {
    match o {
        StartTaskOutcome::Started => "started"@,
        StartTaskOutcome::AlreadyRunning => "already_running"@,
    }
}

/// The name an outcome is reported under.
pub fn outcome_str(o: StartTaskOutcome) -> (r: String)
    ensures
        r@ == outcome_name(o),
{
    match o {
        StartTaskOutcome::Started => copy_str("started"),
        StartTaskOutcome::AlreadyRunning => copy_str("already_running"),
    }
}

/// The message of the HTTP reply to an HTTP-01 start.
pub open spec fn http_01_start_message(o: StartTaskOutcome, c: Seq<char>) -> Seq<char> {
    match o {
        StartTaskOutcome::Started => "HTTP-01 task for '"@ + c + "' started. Poll /api/http01/v1/status?domain="@
            + c + " to read the result."@,
        StartTaskOutcome::AlreadyRunning => "A certificate task for '"@ + c
            + "' is already in progress. Poll /api/http01/v1/status?domain="@ + c
            + " to read the result."@,
    }
}

/// The HTTP reply to a started (or already running) HTTP-01 task.
pub fn start_http_01_response(started: &StartedTask) -> (r: StartTaskReply)
    ensures
        r@ == (StartReplyView {
            status: outcome_name(started.outcome),
            task_id: started.task.id@,
            cert_name: started.task.cert_name@,
            message: http_01_start_message(started.outcome, started.task.cert_name@),
        }),
{
    let c = started.task.cert_name.as_str();
    let mut message = match started.outcome {
        StartTaskOutcome::Started => copy_str("HTTP-01 task for '"),
        StartTaskOutcome::AlreadyRunning => copy_str("A certificate task for '"),
    };
    message.append(c);
    match started.outcome {
        StartTaskOutcome::Started => message.append("' started. Poll /api/http01/v1/status?domain="),
        StartTaskOutcome::AlreadyRunning => message.append(
            "' is already in progress. Poll /api/http01/v1/status?domain=",
        ),
    }
    message.append(c);
    message.append(" to read the result.");
    StartTaskReply {
        status: outcome_str(started.outcome),
        task_id: started.task.id.clone(),
        cert_name: started.task.cert_name.clone(),
        message,
    }
}

/// The message of the MCP reply to a start, with its polling hint.
pub open spec fn tool_start_message(o: StartTaskOutcome, c: Seq<char>, hint: Seq<char>) -> Seq<char> {
    match o {
        StartTaskOutcome::Started => "Task for '"@ + c + "' started. "@ + hint,
        StartTaskOutcome::AlreadyRunning => "A certificate task for '"@ + c
            + "' is already in progress. "@ + hint,
    }
}

impl StartTaskReply {
    /// The MCP reply to a started (or already running) task.
    pub fn from_started(started: &StartedTask, poll_hint: &str) -> (r: StartTaskReply)
        ensures
            r@ == (StartReplyView {
                status: outcome_name(started.outcome),
                task_id: started.task.id@,
                cert_name: started.task.cert_name@,
                message: tool_start_message(started.outcome, started.task.cert_name@, poll_hint@),
            }),
    {
        let c = started.task.cert_name.as_str();
        let mut message = match started.outcome {
            StartTaskOutcome::Started => copy_str("Task for '"),
            StartTaskOutcome::AlreadyRunning => copy_str("A certificate task for '"),
        };
        message.append(c);
        match started.outcome {
            StartTaskOutcome::Started => message.append("' started. "),
            StartTaskOutcome::AlreadyRunning => message.append("' is already in progress. "),
        }
        message.append(poll_hint);
        StartTaskReply {
            status: outcome_str(started.outcome),
            task_id: started.task.id.clone(),
            cert_name: started.task.cert_name.clone(),
            message,
        }
    }
}

/// The message of a reply to a renewal start; `poll` names where to poll
/// (the HTTP endpoint or the MCP tool).
pub open spec fn renew_start_message(o: StartTaskOutcome, c: Seq<char>, poll: Seq<char>) -> Seq<char> {
    match o {
        StartTaskOutcome::Started => "Renewal for '"@ + c + "' started. Poll "@ + poll
            + " to read the result."@,
        StartTaskOutcome::AlreadyRunning => "Renewal for '"@ + c + "' is already in progress. Poll "@
            + poll + " to read the result."@,
    }
}

/// The reply to a renewal start; `poll` is `/api/certbot/v1/check-renew`
/// over HTTP and `get_renew_status` over MCP.
pub fn start_renew_reply(started: &StartedTask, poll: &str) -> (r: StartTaskReply)
    ensures
        r@ == (StartReplyView {
            status: outcome_name(started.outcome),
            task_id: started.task.id@,
            cert_name: started.task.cert_name@,
            message: renew_start_message(started.outcome, started.task.cert_name@, poll@),
        }),
{
    let c = started.task.cert_name.as_str();
    let mut message = copy_str("Renewal for '");
    message.append(c);
    match started.outcome {
        StartTaskOutcome::Started => message.append("' started. Poll "),
        StartTaskOutcome::AlreadyRunning => message.append("' is already in progress. Poll "),
    }
    message.append(poll);
    message.append(" to read the result.");
    StartTaskReply {
        status: outcome_str(started.outcome),
        task_id: started.task.id.clone(),
        cert_name: started.task.cert_name.clone(),
        message,
    }
}

/// Whether `pat` occurs in `s`.
pub open spec fn contains_text(s: Seq<char>, pat: Seq<char>) -> bool {
    exists|i: int| 0 <= i && i + pat.len() <= s.len() && #[trigger] s.subrange(i, i + pat.len()) == pat
}

/// Whether `pat` occurs in `s` (`str::contains`).
pub fn text_contains(s: &str, pat: &str) -> (r: bool)
    ensures
        r == contains_text(s@, pat@),
{
    let v = chars_of(s);
    let p = chars_of(pat);
    if p.len() > v.len() {
        return false;
    }
    let mut i: usize = 0;
    while i <= v.len() - p.len()
        invariant
            v@ == s@,
            p@ == pat@,
            p.len() <= v.len(),
            i <= v.len() - p.len() + 1,
            forall|j: int| 0 <= j < i ==> #[trigger] v@.subrange(j, j + p@.len()) != p@,
        decreases v.len() - i,
    {
        let mut k: usize = 0;
        while k < p.len() && v[i + k] == p[k]
            invariant
                i + p.len() <= v.len(),
                k <= p.len(),
                forall|m: int| 0 <= m < k ==> v@[i + m] == p@[m],
            decreases p.len() - k,
        {
            k = k + 1;
        }
        if k == p.len() {
            assert(v@.subrange(i as int, i + p@.len()) =~= p@);
            return true;
        }
        assert(v@.subrange(i as int, i + p@.len())[k as int] != p@[k as int]);
        i = i + 1;
    }
    proof {
        assert forall|j: int| 0 <= j && j + pat@.len() <= s@.len() implies #[trigger] s@.subrange(
            j,
            j + pat@.len(),
        ) != pat@ by {
            assert(j < i);
        }
    }
    false
}

/// The HTTP status for a failure message: 404 when it says something was
/// not found (or, where `does_not_exist_too`, that something does not
/// exist), otherwise 500.
pub open spec fn fail_status_of(message: Seq<char>, does_not_exist_too: bool) -> u16 {
    if contains_text(message, "not found"@) || (does_not_exist_too && contains_text(
        message,
        "does not exist"@,
    )) {
        404
    } else {
        500
    }
}

/// The HTTP status for a failure message.
pub fn fail_status(message: &str, does_not_exist_too: bool) -> (r: u16)
    ensures
        r == fail_status_of(message@, does_not_exist_too),
{
    if text_contains(message, "not found") || (does_not_exist_too && text_contains(
        message,
        "does not exist",
    )) {
        404
    } else {
        500
    }
}

/// The HTTP status for a failed symlink repair: 404 when the archive it
/// restores from is missing, empty of `certN.pem` files, or incomplete (the
/// messages say "not found" or "No certN.pem files found"), otherwise 500.
pub open spec fn fix_symlinks_status_of(message: Seq<char>) -> u16 {
    if contains_text(message, "not found"@) || contains_text(message, "No certN.pem files found"@) {
        404
    } else {
        500
    }
}

/// The HTTP status for a failed symlink repair.
pub fn fix_symlinks_fail_status(message: &str) -> (r: u16)
    ensures
        r == fix_symlinks_status_of(message@),
{
    if text_contains(message, "not found") || text_contains(message, "No certN.pem files found") {
        404
    } else {
        500
    }
}

/// Every way the archive can be missing is answered 404: no archive
/// directory, no `certN.pem` in it, or a file of the chosen version absent.
pub proof fn law_archive_failures_are_not_found(dir: Seq<char>, path: Seq<char>)
    ensures
        fix_symlinks_status_of(archive_missing_message(dir)) == 404,
        fix_symlinks_status_of(no_versions_message(dir)) == 404,
        fix_symlinks_status_of(archive_incomplete_message(path)) == 404,
{
    reveal_strlit("not found");
    reveal_strlit("No certN.pem files found");
    reveal_strlit("Archive directory not found: ");
    reveal_strlit("No certN.pem files found in ");
    reveal_strlit("Archive file not found: ");
    let m1 = archive_missing_message(dir);
    assert(m1.subrange(18, 27) =~= "not found"@);
    assert(m1.subrange(18, 18 + "not found"@.len() as int) == "not found"@);
    assert(contains_text(m1, "not found"@));
    let m2 = no_versions_message(dir);
    let p2 = "No certN.pem files found"@;
    assert(m2.subrange(0, 24) =~= p2);
    assert(m2.subrange(0, 0 + p2.len() as int) == p2);
    assert(contains_text(m2, p2));
    let m3 = archive_incomplete_message(path);
    assert(m3.subrange(13, 22) =~= "not found"@);
    assert(m3.subrange(13, 13 + "not found"@.len() as int) == "not found"@);
    assert(contains_text(m3, "not found"@));
}

} // verus!
