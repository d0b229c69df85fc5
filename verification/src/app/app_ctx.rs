//! Starting a certificate task: create-or-find keyed by the lineage name, so
//! that a second request for a lineage whose task is still running gets that
//! task back instead of a second certbot run.
use vstd::prelude::*;

use crate::app::cert_tasks::{
    latest_match, names_lineage, with_new_task, with_status, CertTask, CertTaskView, CertTasks,
    TaskKind, TaskStatusView,
};
use crate::scripts::cert_name::cert_name_of;
use crate::text::strs;

verus! {

/// Whether a new task was started or a running one was found.
#[derive(Debug, Clone, Copy, PartialEq, Eq, Structural)]
pub enum StartTaskOutcome {
    Started,
    AlreadyRunning,
}

/// The result of starting a certificate task: whether a new task was
/// created, and the task itself.
pub struct StartedTask {
    pub outcome: StartTaskOutcome,
    pub task: CertTask,
}

/// What starting a task for `cert_name` does to the registry `ts`: a running
/// task of the same lineage is returned unchanged; otherwise a new running
/// task is created at `now`.
pub open spec fn start_outcome(
    ts: Seq<CertTaskView>,
    cert_name: Seq<char>,
    domains: Seq<Seq<char>>,
    kind: TaskKind,
    now: i64,
) -> (StartTaskOutcome, CertTaskView, Seq<CertTaskView>) {
    match latest_match(ts, cert_name, true) {
        Some(i) => (StartTaskOutcome::AlreadyRunning, ts[i], ts),
        None => {
            let next = with_new_task(ts, cert_name, domains, kind, now);
            (StartTaskOutcome::Started, next.last(), next)
        },
    }
}

/// Create-or-find: the running task of `cert_name`'s lineage if there is
/// one, else a new running task created at `now`.
pub fn start_or_find(
    tasks: &mut CertTasks,
    cert_name: String,
    domains: Vec<String>,
    kind: TaskKind,
    now: i64,
) -> (r: StartedTask)
    requires
        old(tasks).wf(),
        old(tasks)@.len() < u64::MAX,
    ensures
        final(tasks).wf(),
        (r.outcome, r.task@, final(tasks)@) == start_outcome(
            old(tasks)@,
            cert_name@,
            strs(domains@),
            kind,
            now,
        ),
{
    match tasks.find_running(cert_name.as_str()) {
        Some(existing) => {
            let task = existing.duplicate();
            StartedTask { outcome: StartTaskOutcome::AlreadyRunning, task }
        },
        None => {
            let task = tasks.create_running(cert_name, domains, kind, now);
            StartedTask { outcome: StartTaskOutcome::Started, task }
        },
    }
}

/// Starting twice for one lineage starts one task: right after a start for
/// `c1`, a start for any `c2` that names the same lineage (for example the
/// wildcard spelling of the apex) finds the task the first start returned and
/// leaves the registry as it was.
pub proof fn law_start_deduplicates(
    ts: Seq<CertTaskView>,
    c1: Seq<char>,
    d1: Seq<Seq<char>>,
    k1: TaskKind,
    now1: i64,
    c2: Seq<char>,
    d2: Seq<Seq<char>>,
    k2: TaskKind,
    now2: i64,
)
    requires
        cert_name_of(c1) == cert_name_of(c2),
    ensures
        ({
            let (o1, t1, ts1) = start_outcome(ts, c1, d1, k1, now1);
            let (o2, t2, ts2) = start_outcome(ts1, c2, d2, k2, now2);
            &&& o2 == StartTaskOutcome::AlreadyRunning
            &&& t2 == t1
            &&& ts2 == ts1
        }),
{
    crate::app::cert_tasks::lemma_latest_match(ts, c1, true);
    let (o1, t1, ts1) = start_outcome(ts, c1, d1, k1, now1);
    crate::app::cert_tasks::lemma_latest_match(ts1, c2, true);
    match latest_match(ts, c1, true) {
        Some(i) => {
            assert(ts1 == ts);
        },
        None => {
            let n = ts.len() as int;
            assert(ts1[n].cert_name == c1);
            assert(names_lineage(ts1[n].cert_name, c2));
            assert forall|j: int| 0 <= j < n implies !crate::app::cert_tasks::is_candidate(
                #[trigger] ts1[j],
                c2,
                true,
            ) by {
                assert(ts1[j] == ts[j]);
                assert(!crate::app::cert_tasks::is_candidate(ts[j], c1, true));
            }
            assert(crate::app::cert_tasks::is_candidate(ts1[n], c2, true));
        },
    }
}

/// Finishing the task a start created frees its lineage: once that task
/// has a status other than running, no running task of the lineage is left,
/// so the next start creates a new task.
pub proof fn law_finished_task_frees_lineage(
    ts: Seq<CertTaskView>,
    c: Seq<char>,
    d: Seq<Seq<char>>,
    k: TaskKind,
    now: i64,
    status: TaskStatusView,
    later: i64,
    c2: Seq<char>,
)
    requires
        start_outcome(ts, c, d, k, now).0 == StartTaskOutcome::Started,
        !(status is Running),
        cert_name_of(c) == cert_name_of(c2),
    ensures
        ({
            let (_, t, ts1) = start_outcome(ts, c, d, k, now);
            latest_match(with_status(ts1, t.id, status, later), c2, true) is None
        }),
{
    crate::app::cert_tasks::lemma_latest_match(ts, c, true);
    let (_, t, ts1) = start_outcome(ts, c, d, k, now);
    let after = with_status(ts1, t.id, status, later);
    crate::app::cert_tasks::lemma_latest_match(after, c2, true);
    let n = ts.len() as int;
    assert forall|j: int| 0 <= j < after.len() implies !crate::app::cert_tasks::is_candidate(
        #[trigger] after[j],
        c2,
        true,
    ) by {
        if j < n {
            assert(ts1[j] == ts[j]);
            assert(!crate::app::cert_tasks::is_candidate(ts[j], c, true));
            if ts1[j].id == t.id {
                assert(!(after[j].status is Running));
            } else {
                assert(after[j] == ts1[j]);
            }
        } else {
            assert(ts1[j].id == t.id);
            assert(!(after[j].status is Running));
        }
    }
}

/// Whether no two running tasks of `ts` belong to one lineage.
pub open spec fn one_running_per_lineage(ts: Seq<CertTaskView>) -> bool {
    forall|i: int, j: int|
        0 <= i < j < ts.len() && #[trigger] ts[i].status is Running && #[trigger] ts[j].status
            is Running ==> cert_name_of(ts[i].cert_name) != cert_name_of(ts[j].cert_name)
}

/// At most one task per lineage runs, whatever the sequence of starts and
/// finishes: an empty registry has none, a start keeps it so, and so does
/// recording a finished (non-running) status.
pub proof fn law_one_running_task_per_lineage(
    ts: Seq<CertTaskView>,
    c: Seq<char>,
    d: Seq<Seq<char>>,
    k: TaskKind,
    now: i64,
    id: Seq<char>,
    status: TaskStatusView,
    later: i64,
)
    requires
        one_running_per_lineage(ts),
        !(status is Running),
    ensures
        one_running_per_lineage(Seq::<CertTaskView>::empty()),
        one_running_per_lineage(start_outcome(ts, c, d, k, now).2),
        one_running_per_lineage(with_status(ts, id, status, later)),
{
    crate::app::cert_tasks::lemma_latest_match(ts, c, true);
    let ts1 = start_outcome(ts, c, d, k, now).2;
    if latest_match(ts, c, true) is None {
        let n = ts.len() as int;
        assert forall|i: int, j: int|
            0 <= i < j < ts1.len() && #[trigger] ts1[i].status is Running && #[trigger] ts1[j].status
                is Running implies cert_name_of(ts1[i].cert_name) != cert_name_of(ts1[j].cert_name) by {
            if j == n {
                assert(ts1[i] == ts[i]);
                assert(!crate::app::cert_tasks::is_candidate(ts[i], c, true));
            } else {
                assert(ts1[i] == ts[i] && ts1[j] == ts[j]);
            }
        }
    }
    let ts2 = with_status(ts, id, status, later);
    assert forall|i: int, j: int|
        0 <= i < j < ts2.len() && #[trigger] ts2[i].status is Running && #[trigger] ts2[j].status
            is Running implies cert_name_of(ts2[i].cert_name) != cert_name_of(ts2[j].cert_name) by {
        assert(ts2[i] == ts[i] && ts2[j] == ts[j]);
    }
}

/// While a lineage has a running task, every start for that lineage (in
/// either spelling) returns that very task and changes nothing; with the
/// registry's lock making each start atomic, concurrent starts for one
/// lineage all get the same task id.
pub proof fn law_start_returns_running_task(
    ts: Seq<CertTaskView>,
    i: int,
    c: Seq<char>,
    d: Seq<Seq<char>>,
    k: TaskKind,
    now: i64,
)
    requires
        one_running_per_lineage(ts),
        0 <= i < ts.len(),
        ts[i].status is Running,
        cert_name_of(ts[i].cert_name) == cert_name_of(c),
    ensures
        start_outcome(ts, c, d, k, now) == (StartTaskOutcome::AlreadyRunning, ts[i], ts),
{
    crate::app::cert_tasks::lemma_latest_match(ts, c, true);
    assert(crate::app::cert_tasks::is_candidate(ts[i], c, true));
    let j = latest_match(ts, c, true)->0;
    assert(ts[j].status is Running);
    if j != i {
        if j < i {
            assert(cert_name_of(ts[j].cert_name) != cert_name_of(ts[i].cert_name));
        } else {
            assert(cert_name_of(ts[i].cert_name) != cert_name_of(ts[j].cert_name));
        }
    }
}

} // verus!
