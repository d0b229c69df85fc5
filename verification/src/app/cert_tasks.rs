//! The in-memory registry of certificate tasks (issue / reissue / renew).
//! It lives in memory only and resets when the service restarts: it exists to
//! show what is running now and how recent runs ended.
use vstd::prelude::*;

use crate::scripts::cert_name::{cert_name_of, normalize_cert_name};
use crate::text::{copy_str, decimal, push_decimal, strs};

verus! {

/// State of a single certificate task.
#[derive(Debug, Clone)]
pub enum TaskStatus {
    Running,
    Completed { output: String },
    Failed { error: String },
}

/// The model of a [`TaskStatus`].
pub enum TaskStatusView {
    Running,
    Completed(Seq<char>),
    Failed(Seq<char>),
}

impl View for TaskStatus {
    type V = TaskStatusView;

    open spec fn view(&self) -> TaskStatusView {
        match self {
            TaskStatus::Running => TaskStatusView::Running,
            TaskStatus::Completed { output } => TaskStatusView::Completed(output@),
            TaskStatus::Failed { error } => TaskStatusView::Failed(error@),
        }
    }
}

/// The name a status is reported under.
pub open spec fn status_name(s: TaskStatusView) -> Seq<char> {
    match s {
        TaskStatusView::Running => "running"@,
        TaskStatusView::Completed(_) => "completed"@,
        TaskStatusView::Failed(_) => "failed"@,
    }
}

impl TaskStatus {
    /// The name the status is reported under.
    pub fn as_str(&self) -> (r: &'static str)
        ensures
            r@ == status_name(self@),
    {
        match self {
            TaskStatus::Running => "running",
            TaskStatus::Completed { .. } => "completed",
            TaskStatus::Failed { .. } => "failed",
        }
    }

    /// A copy of the status.
    pub fn duplicate(&self) -> (r: TaskStatus)
        ensures
            r@ == self@,
    {
        match self {
            TaskStatus::Running => TaskStatus::Running,
            TaskStatus::Completed { output } => TaskStatus::Completed { output: output.clone() },
            TaskStatus::Failed { error } => TaskStatus::Failed { error: error.clone() },
        }
    }
}

/// Which operation a task represents.
#[derive(Debug, Clone, Copy, PartialEq, Eq, Structural)]
pub enum TaskKind {
    IssueHttp01,
    ReissueHttp01,
    RenewDns,
}

/// The name a kind is reported under.
pub open spec fn kind_name(k: TaskKind) -> Seq<char> {
    match k {
        TaskKind::IssueHttp01 => "issue-http-01"@,
        TaskKind::ReissueHttp01 => "reissue-http-01"@,
        TaskKind::RenewDns => "renew-dns"@,
    }
}

impl TaskKind {
    /// The name the kind is reported under.
    pub fn as_str(&self) -> (r: &'static str)
        ensures
            r@ == kind_name(*self),
    {
        match self {
            TaskKind::IssueHttp01 => "issue-http-01",
            TaskKind::ReissueHttp01 => "reissue-http-01",
            TaskKind::RenewDns => "renew-dns",
        }
    }
}

/// One certificate operation tracked by the service. Times are Unix
/// microseconds.
#[derive(Debug, Clone)]
pub struct CertTask {
    pub id: String,
    /// Lineage / primary domain the task is keyed under.
    pub cert_name: String,
    /// Full domain (SAN) set the operation targets.
    pub domains: Vec<String>,
    pub kind: TaskKind,
    pub status: TaskStatus,
    pub created_at: i64,
    pub updated_at: i64,
}

/// The model of a [`CertTask`].
pub struct CertTaskView {
    pub id: Seq<char>,
    pub cert_name: Seq<char>,
    pub domains: Seq<Seq<char>>,
    pub kind: TaskKind,
    pub status: TaskStatusView,
    pub created_at: i64,
    pub updated_at: i64,
}

impl View for CertTask {
    type V = CertTaskView;

    open spec fn view(&self) -> CertTaskView {
        CertTaskView {
            id: self.id@,
            cert_name: self.cert_name@,
            domains: strs(self.domains@),
            kind: self.kind,
            status: self.status@,
            created_at: self.created_at,
            updated_at: self.updated_at,
        }
    }
}

/// Whether `domain` names the lineage `cert_name`: both sides normalized, so
/// the apex and wildcard spellings of a DNS certificate name the same one.
pub open spec fn names_lineage(cert_name: Seq<char>, domain: Seq<char>) -> bool {
    cert_name_of(cert_name) == cert_name_of(domain)
}

/// A copy of a list of strings.
pub fn copy_strings(v: &Vec<String>) -> (r: Vec<String>)
    ensures
        r@ == v@,
{
    let mut r: Vec<String> = Vec::new();
    let mut i: usize = 0;
    while i < v.len()
        invariant
            i <= v.len(),
            r@ == v@.take(i as int),
        decreases v.len() - i,
    {
        r.push(v[i].clone());
        i = i + 1;
        assert(r@ =~= v@.take(i as int));
    }
    assert(v@.take(v.len() as int) =~= v@);
    r
}

impl CertTask {
    /// True when `domain` and the task's lineage name normalize to the same
    /// name. Only the lineage name counts, never the SAN set: two requests
    /// with different primary domains stay different certificates even when
    /// they share a secondary SAN.
    pub fn matches_domain(&self, domain: &str) -> (r: bool)
        ensures
            r == names_lineage(self.cert_name@, domain@),
    {
        normalize_cert_name(self.cert_name.as_str()) == normalize_cert_name(domain)
    }

    /// A copy of the task.
    pub fn duplicate(&self) -> (r: CertTask)
        ensures
            r@ == self@,
    {
        CertTask {
            id: self.id.clone(),
            cert_name: self.cert_name.clone(),
            domains: copy_strings(&self.domains),
            kind: self.kind,
            status: self.status.duplicate(),
            created_at: self.created_at,
            updated_at: self.updated_at,
        }
    }
}

/// The id of the `n`-th task created: `task-<n>`.
pub open spec fn task_id(n: nat) -> Seq<char> {
    "task-"@ + decimal(n)
}

/// Whether a task takes part in a search for `domain`'s lineage; with
/// `running_only`, finished tasks do not.
pub open spec fn is_candidate(t: CertTaskView, domain: Seq<char>, running_only: bool) -> bool {
    &&& (running_only ==> t.status is Running)
    &&& names_lineage(t.cert_name, domain)
}

/// The position of the candidate created last (`max_by_key` on the creation
/// time, which keeps the later of two equal keys).
pub open spec fn latest_match(ts: Seq<CertTaskView>, domain: Seq<char>, running_only: bool) -> Option<
    int,
>
    decreases ts.len(),
{
    if ts.len() == 0 {
        None
    } else {
        let prev = latest_match(ts.drop_last(), domain, running_only);
        if is_candidate(ts.last(), domain, running_only) && (match prev {
            Some(p) => ts[p].created_at <= ts.last().created_at,
            None => true,
        }) {
            Some(ts.len() - 1)
        } else {
            prev
        }
    }
}

/// What `latest_match` means: no candidate at all, or the candidate with
/// the greatest creation time, the last one among equals.
pub proof fn lemma_latest_match(ts: Seq<CertTaskView>, domain: Seq<char>, running_only: bool)
    ensures
        match latest_match(ts, domain, running_only) {
            None => forall|j: int|
                0 <= j < ts.len() ==> !is_candidate(#[trigger] ts[j], domain, running_only),
            Some(i) => {
                &&& 0 <= i < ts.len()
                &&& is_candidate(ts[i], domain, running_only)
                &&& forall|j: int|
                    0 <= j < ts.len() && is_candidate(#[trigger] ts[j], domain, running_only)
                        ==> ts[j].created_at <= ts[i].created_at
                &&& forall|j: int|
                    i < j < ts.len() && is_candidate(#[trigger] ts[j], domain, running_only)
                        ==> ts[j].created_at < ts[i].created_at
            },
        },
    decreases ts.len(),
{
    if ts.len() > 0 {
        let init = ts.drop_last();
        lemma_latest_match(init, domain, running_only);
        assert(forall|j: int| 0 <= j < init.len() ==> init[j] == ts[j]);
    }
}

/// The model of the registry: its tasks, oldest first.
pub open spec fn view_tasks(v: Seq<CertTask>) -> Seq<CertTaskView> {
    v.map_values(|t: CertTask| t@)
}

/// The registry after a new running task is created with the given creation
/// time.
pub open spec fn with_new_task(
    ts: Seq<CertTaskView>,
    cert_name: Seq<char>,
    domains: Seq<Seq<char>>,
    kind: TaskKind,
    now: i64,
) -> Seq<CertTaskView> {
    ts.push(
        CertTaskView {
            id: task_id((ts.len() + 1) as nat),
            cert_name,
            domains,
            kind,
            status: TaskStatusView::Running,
            created_at: now,
            updated_at: now,
        },
    )
}

/// The registry after the task with id `id` (if any) gets `status` at time
/// `now`.
pub open spec fn with_status(
    ts: Seq<CertTaskView>,
    id: Seq<char>,
    status: TaskStatusView,
    now: i64,
) -> Seq<CertTaskView> {
    Seq::new(
        ts.len(),
        |i: int|
            if ts[i].id == id {
                CertTaskView { status: status, updated_at: now, ..ts[i] }
            } else {
                ts[i]
            },
    )
}

/// Whether `ts` is ordered newest first.
pub open spec fn newest_first(ts: Seq<CertTaskView>) -> bool {
    forall|i: int, j: int| 0 <= i < j < ts.len() ==> ts[j].created_at <= ts[i].created_at
}

/// In-memory registry of certificate tasks.
pub struct CertTasks {
    tasks: Vec<CertTask>,
    seq: u64,
}

impl View for CertTasks {
    type V = Seq<CertTaskView>;

    closed spec fn view(&self) -> Seq<CertTaskView> {
        view_tasks(self.tasks@)
    }
}

/// The ids of a registry: task `i` (from zero) is `task-<i + 1>`.
pub open spec fn ids_in_order(ts: Seq<CertTaskView>) -> bool {
    forall|i: int| 0 <= i < ts.len() ==> #[trigger] ts[i].id == task_id((i + 1) as nat)
}

impl CertTasks {
    /// The registry's invariant: one task per id handed out, ids in order.
    pub closed spec fn wf(&self) -> bool {
        &&& self.seq == self.tasks@.len()
        &&& ids_in_order(self@)
    }

    /// An empty registry.
    pub fn new() -> (r: CertTasks)
        ensures
            r.wf(),
            r@ == Seq::<CertTaskView>::empty(),
    {
        let r = CertTasks { tasks: Vec::new(), seq: 0 };
        assert(r@ =~= Seq::<CertTaskView>::empty());
        r
    }

    /// The number of tasks.
    pub fn len(&self) -> (r: usize)
        ensures
            r == self@.len(),
    {
        self.tasks.len()
    }

    /// The id the next task will get.
    fn next_id(&mut self) -> (r: String)
        requires
            old(self).seq < u64::MAX,
        ensures
            final(self).seq == old(self).seq + 1,
            final(self).tasks == old(self).tasks,
            r@ == task_id(final(self).seq as nat),
    {
        self.seq = self.seq + 1;
        let mut r = copy_str("task-");
        push_decimal(&mut r, self.seq);
        r
    }

    /// The position of the latest candidate for `domain`.
    fn latest_index(&self, domain: &str, running_only: bool) -> (r: Option<usize>)
        ensures
            match r {
                Some(i) => i < self@.len() && latest_match(self@, domain@, running_only) == Some(
                    i as int,
                ),
                None => latest_match(self@, domain@, running_only) is None,
            },
    {
        let ghost all = self@;
        let mut best: Option<usize> = None;
        let mut i: usize = 0;
        assert(all.take(0) =~= Seq::<CertTaskView>::empty());
        while i < self.tasks.len()
            invariant
                i <= self.tasks.len(),
                all == self@,
                match best {
                    Some(b) => b < i && latest_match(all.take(i as int), domain@, running_only)
                        == Some(b as int),
                    None => latest_match(all.take(i as int), domain@, running_only) is None,
                },
            decreases self.tasks.len() - i,
        {
            let t = &self.tasks[i];
            let ghost pre = all.take(i as int);
            assert(all.take(i + 1).drop_last() =~= pre);
            assert(all.take(i + 1).last() == t@);
            let running = match t.status {
                TaskStatus::Running => true,
                _ => false,
            };
            if (!running_only || running) && t.matches_domain(domain) {
                match best {
                    Some(b) => {
                        assert(all.take(i + 1)[b as int] == all[b as int]);
                        if self.tasks[b].created_at <= t.created_at {
                            best = Some(i);
                        }
                    },
                    None => {
                        best = Some(i);
                    },
                }
            }
            i = i + 1;
        }
        assert(all.take(self.tasks.len() as int) =~= all);
        best
    }

    /// The running task that owns `domain`'s lineage, if any; the latest
    /// created one if there are several.
    pub fn find_running(&self, domain: &str) -> (r: Option<&CertTask>)
        ensures
            match r {
                Some(t) => latest_match(self@, domain@, true) matches Some(i) && t@ == self@[i],
                None => latest_match(self@, domain@, true) is None,
            },
    {
        match self.latest_index(domain, true) {
            Some(i) => Some(&self.tasks[i]),
            None => None,
        }
    }

    /// The most recent task (any status) for `domain`'s lineage.
    pub fn latest_for(&self, domain: &str) -> (r: Option<&CertTask>)
        ensures
            match r {
                Some(t) => latest_match(self@, domain@, false) matches Some(i) && t@ == self@[i],
                None => latest_match(self@, domain@, false) is None,
            },
    {
        match self.latest_index(domain, false) {
            Some(i) => Some(&self.tasks[i]),
            None => None,
        }
    }

    /// Insert a new task in the `Running` state, created at `now`, and
    /// return a copy of it.
    pub fn create_running(
        &mut self,
        cert_name: String,
        domains: Vec<String>,
        kind: TaskKind,
        now: i64,
    ) -> (r: CertTask)
        requires
            old(self).wf(),
            old(self)@.len() < u64::MAX,
        ensures
            final(self).wf(),
            final(self)@ == with_new_task(old(self)@, cert_name@, strs(domains@), kind, now),
            r@ == final(self)@.last(),
    {
        let id = self.next_id();
        let task = CertTask {
            id,
            cert_name,
            domains,
            kind,
            status: TaskStatus::Running,
            created_at: now,
            updated_at: now,
        };
        let copy = task.duplicate();
        let ghost before = self@;
        self.tasks.push(task);
        assert(self@ =~= before.push(copy@));
        assert(ids_in_order(self@)) by {
            assert forall|i: int| 0 <= i < self@.len() implies #[trigger] self@[i].id == task_id(
                (i + 1) as nat,
            ) by {
                if i < before.len() {
                    assert(self@[i] == before[i]);
                }
            }
        }
        copy
    }

    /// Record a new status for the task with id `id`, at time `now`. An
    /// unknown id changes nothing.
    pub fn set_status(&mut self, id: &str, status: TaskStatus, now: i64)
        requires
            old(self).wf(),
        ensures
            final(self).wf(),
            final(self)@ == with_status(old(self)@, id@, status@, now),
    {
        let ghost before = self@;
        let target = copy_str(id);
        let mut i: usize = 0;
        while i < self.tasks.len()
            invariant
                self.seq == old(self).seq,
                self.tasks@.len() == before.len(),
                i <= self.tasks.len(),
                target@ == id@,
                before == old(self)@,
                ids_in_order(before),
                forall|j: int| 0 <= j < i ==> #[trigger] self@[j] == with_status(before, id@, status@, now)[j],
                forall|j: int| i <= j < self.tasks@.len() ==> #[trigger] self@[j] == before[j],
            decreases self.tasks.len() - i,
        {
            let ghost ws = with_status(before, id@, status@, now);
            assert(self@[i as int] == before[i as int]);
            assert(self@[i as int] == self.tasks@[i as int]@);
            if self.tasks[i].id == target {
                let mut t = self.tasks[i].duplicate();
                t.status = status.duplicate();
                t.updated_at = now;
                let ghost mid = self@;
                let ghost mid_tasks = self.tasks@;
                self.tasks.set(i, t);
                assert(self.tasks@ == mid_tasks.update(i as int, t));
                assert(self@[i as int] == t@);
                assert(ws[i as int] == (CertTaskView {
                    status: status@,
                    updated_at: now,
                    ..before[i as int]
                }));
                assert(self@[i as int] =~= ws[i as int]);
                assert forall|j: int| 0 <= j < self.tasks@.len() && j != i implies #[trigger] self@[j]
                    == mid[j] by {
                    assert(self.tasks@[j] == mid_tasks[j]);
                }
            } else {
                assert(before[i as int].id != id@);
                assert(self@[i as int] == ws[i as int]);
            }
            i = i + 1;
        }
        assert(self@ =~= with_status(before, id@, status@, now));
        assert(ids_in_order(self@)) by {
            assert forall|j: int| 0 <= j < self@.len() implies #[trigger] self@[j].id == task_id(
                (j + 1) as nat,
            ) by {
                assert(self@[j] == with_status(before, id@, status@, now)[j]);
                assert(before[j].id == task_id((j + 1) as nat));
            }
        }
    }

    /// All tasks, newest first.
    pub fn all_sorted(&self) -> (r: Vec<CertTask>)
        ensures
            newest_first(view_tasks(r@)),
            view_tasks(r@).to_multiset() == self@.to_multiset(),
    {
        broadcast use vstd::seq_lib::group_to_multiset_ensures;

        let ghost all = self@;
        let mut r: Vec<CertTask> = Vec::new();
        let mut i: usize = 0;
        assert(all.take(0) =~= Seq::<CertTaskView>::empty());
        assert(view_tasks(r@) =~= Seq::<CertTaskView>::empty());
        while i < self.tasks.len()
            invariant
                i <= self.tasks.len(),
                all == self@,
                newest_first(view_tasks(r@)),
                view_tasks(r@).to_multiset() == all.take(i as int).to_multiset(),
            decreases self.tasks.len() - i,
        {
            let x = self.tasks[i].duplicate();
            let mut p: usize = 0;
            while p < r.len() && x.created_at <= r[p].created_at
                invariant
                    i < self.tasks.len(),
                    all == self@,
                    x@ == all[i as int],
                    newest_first(view_tasks(r@)),
                    view_tasks(r@).to_multiset() == all.take(i as int).to_multiset(),
                    p <= r.len(),
                    forall|j: int| 0 <= j < p ==> x.created_at <= #[trigger] r@[j].created_at,
                decreases r.len() - p,
            {
                p = p + 1;
            }
            let ghost old_r = view_tasks(r@);
            assert(forall|j: int| 0 <= j < r@.len() ==> #[trigger] old_r[j] == r@[j]@);
            r.insert(p, x);
            proof {
                let nr = view_tasks(r@);
                assert(nr =~= old_r.insert(p as int, all[i as int]));
                vstd::seq_lib::to_multiset_insert(old_r, p as int, all[i as int]);
                assert(all.take(i + 1) =~= all.take(i as int).push(all[i as int]));
                vstd::seq_lib::to_multiset_build(all.take(i as int), all[i as int]);
                assert forall|a: int, b: int| 0 <= a < b < nr.len() implies nr[b].created_at
                    <= nr[a].created_at by {
                    if a < p && b < p {
                        assert(nr[a] == old_r[a] && nr[b] == old_r[b]);
                    } else if a < p && b == p {
                        assert(nr[a] == old_r[a]);
                    } else if a < p && b > p {
                        assert(nr[a] == old_r[a] && nr[b] == old_r[b - 1]);
                        if p < old_r.len() {
                            assert(old_r[p as int].created_at < all[i as int].created_at);
                        }
                    } else if a == p {
                        assert(nr[b] == old_r[b - 1]);
                        assert(old_r[p as int].created_at < all[i as int].created_at);
                    } else {
                        assert(nr[a] == old_r[a - 1] && nr[b] == old_r[b - 1]);
                    }
                }
            }
            i = i + 1;
        }
        assert(all.take(self.tasks.len() as int) =~= all);
        r
    }
}


/// Task ids are never reused: in a well-formed registry no two tasks share
/// an id, so a status update reaches exactly one task.
pub proof fn law_task_ids_unique(r: &CertTasks)
    requires
        r.wf(),
    ensures
        forall|i: int, j: int| 0 <= i < j < r@.len() ==> r@[i].id != r@[j].id,
{
    assert forall|i: int, j: int| 0 <= i < j < r@.len() implies r@[i].id != r@[j].id by {
        if r@[i].id == r@[j].id {
            reveal_strlit("task-");
            assert("task-"@.len() == 5);
            assert(r@[i].id == task_id((i + 1) as nat));
            assert(r@[j].id == task_id((j + 1) as nat));
            assert(decimal((i + 1) as nat) =~= task_id((i + 1) as nat).skip(5));
            assert(decimal((j + 1) as nat) =~= task_id((j + 1) as nat).skip(5));
            crate::text::lemma_decimal_injective((i + 1) as nat, (j + 1) as nat);
        }
    }
}

/// A status update for an id that no task has changes nothing.
pub proof fn law_unknown_id_changes_nothing(
    ts: Seq<CertTaskView>,
    id: Seq<char>,
    status: TaskStatusView,
    now: i64,
)
    requires
        forall|i: int| 0 <= i < ts.len() ==> #[trigger] ts[i].id != id,
    ensures
        with_status(ts, id, status, now) == ts,
{
    assert(with_status(ts, id, status, now) =~= ts);
}

} // verus!
