//! Deployment records and the in-memory deployment queue.

use std::collections::VecDeque;
use vstd::prelude::*;
use vstd::string::*;
use crate::project_config::ProjectConfig;
use crate::text::str_equal;

verus! {

/// Deployment status
#[derive(Debug, Clone, Copy, PartialEq, Eq, Structural)]
pub enum DeploymentStatus {
    Pending,
    Running,
    Success,
    Failed,
    Cancelled,
}

/// The display name of a status.
pub open spec fn status_label(s: DeploymentStatus) -> Seq<char> {
    match s {
        DeploymentStatus::Pending => "Pending"@,
        DeploymentStatus::Running => "Running"@,
        DeploymentStatus::Success => "Success"@,
        DeploymentStatus::Failed => "Failed"@,
        DeploymentStatus::Cancelled => "Cancelled"@,
    }
}

/// The stored (lowercase) name of a status.
pub open spec fn status_db_name(s: DeploymentStatus) -> Seq<char> {
    match s {
        DeploymentStatus::Pending => "pending"@,
        DeploymentStatus::Running => "running"@,
        DeploymentStatus::Success => "success"@,
        DeploymentStatus::Failed => "failed"@,
        DeploymentStatus::Cancelled => "cancelled"@,
    }
}

/// The status a stored name denotes; unknown names read as `Pending`.
pub open spec fn status_from_db_name(t: Seq<char>) -> DeploymentStatus {
    if t == "pending"@ {
        DeploymentStatus::Pending
    } else if t == "running"@ {
        DeploymentStatus::Running
    } else if t == "success"@ {
        DeploymentStatus::Success
    } else if t == "failed"@ {
        DeploymentStatus::Failed
    } else if t == "cancelled"@ {
        DeploymentStatus::Cancelled
    } else {
        DeploymentStatus::Pending
    }
}

impl DeploymentStatus {
    /// Waiting or in progress: such a deployment blocks a second one of the
    /// same project and branch.
    pub open spec fn is_active(self) -> bool {
        self is Pending || self is Running
    }

    /// Finished, one way or the other.
    pub open spec fn is_terminal(self) -> bool {
        self is Success || self is Failed || self is Cancelled
    }

    /// The display name ("Pending", "Running", ...).
    pub fn to_string(&self) -> (s: String)
        ensures
            s@ == status_label(*self),
    {
        match self {
            DeploymentStatus::Pending => String::from_str("Pending"),
            DeploymentStatus::Running => String::from_str("Running"),
            DeploymentStatus::Success => String::from_str("Success"),
            DeploymentStatus::Failed => String::from_str("Failed"),
            DeploymentStatus::Cancelled => String::from_str("Cancelled"),
        }
    }

    /// The stored name: the display name in lowercase.
    pub fn db_name(&self) -> (s: String)
        ensures
            s@ == status_db_name(*self),
    {
        match self {
            DeploymentStatus::Pending => String::from_str("pending"),
            DeploymentStatus::Running => String::from_str("running"),
            DeploymentStatus::Success => String::from_str("success"),
            DeploymentStatus::Failed => String::from_str("failed"),
            DeploymentStatus::Cancelled => String::from_str("cancelled"),
        }
    }

    /// The status of a stored name; unknown names read as `Pending`.
    pub fn from_db_name(t: &str) -> (s: DeploymentStatus)
        ensures
            s == status_from_db_name(t@),
    {
        if str_equal(t, "pending") {
            DeploymentStatus::Pending
        } else if str_equal(t, "running") {
            DeploymentStatus::Running
        } else if str_equal(t, "success") {
            DeploymentStatus::Success
        } else if str_equal(t, "failed") {
            DeploymentStatus::Failed
        } else if str_equal(t, "cancelled") {
            DeploymentStatus::Cancelled
        } else {
            DeploymentStatus::Pending
        }
    }
}

/// Reading back the stored name of a status gives the same status.
pub proof fn lemma_status_db_name_roundtrip(s: DeploymentStatus)
    ensures
        status_from_db_name(status_db_name(s)) == s,
{
    reveal_strlit("pending");
    reveal_strlit("running");
    reveal_strlit("success");
    reveal_strlit("failed");
    reveal_strlit("cancelled");
    assert("running"@ != "pending"@) by { assert("running"@[0] != "pending"@[0]); }
    assert("success"@ != "pending"@) by { assert("success"@[0] != "pending"@[0]); }
    assert("success"@ != "running"@) by { assert("success"@[0] != "running"@[0]); }
    assert("failed"@ != "pending"@) by { assert("failed"@[0] != "pending"@[0]); }
    assert("failed"@ != "running"@) by { assert("failed"@[0] != "running"@[0]); }
    assert("failed"@ != "success"@) by { assert("failed"@[0] != "success"@[0]); }
    assert("cancelled"@ != "pending"@) by { assert("cancelled"@[0] != "pending"@[0]); }
    assert("cancelled"@ != "running"@) by { assert("cancelled"@[0] != "running"@[0]); }
    assert("cancelled"@ != "success"@) by { assert("cancelled"@[0] != "success"@[0]); }
    assert("cancelled"@ != "failed"@) by { assert("cancelled"@[0] != "failed"@[0]); }
}

/// Deployment task. Times are nanoseconds since the Unix epoch, UTC.
#[derive(Debug, Clone)]
pub struct Deployment {
    pub id: String,
    pub project_name: String,
    pub project: ProjectConfig,
    pub status: DeploymentStatus,
    pub created_at: i64,
    pub started_at: Option<i64>,
    pub finished_at: Option<i64>,
}

/// The shift from UTC to the displayed local time (UTC+8), in seconds.
pub const LOCAL_OFFSET_SECS: i64 = 28_800;

/// The `%Y-%m-%d %H:%M:%S` rendering of the UTC instant `secs` seconds and
/// `nsecs` nanoseconds after the epoch.
pub uninterp spec fn datetime_text(secs: int, nsecs: int) -> Seq<char>;

/// Renders a UTC instant as `%Y-%m-%d %H:%M:%S`.
///
/// Trusted: `chrono::DateTime::from_timestamp(secs, nsecs)` then
/// `format(..)` and `to_string`. The text is named by `datetime_text`; its
/// characters are not stated. `from_timestamp` gives no instant for
/// nanoseconds of a second or more, or for seconds beyond chrono's range of
/// dates (about 262,000 years either side of the epoch), so within eight
/// trillion seconds of the epoch it always gives one.
#[verifier::external_body]
fn format_utc(secs: i64, nsecs: u32) -> (s: Option<String>)
    ensures
        s matches Some(t) ==> t@ == datetime_text(secs as int, nsecs as int),
        -8_000_000_000_000 <= secs <= 8_000_000_000_000 && nsecs < 1_000_000_000 ==> s is Some,
{
    match chrono::DateTime::from_timestamp(secs, nsecs) {
        Some(d) => Some(d.format("%Y-%m-%d %H:%M:%S").to_string()),
        None => None,
    }
}

/// The local (UTC+8) rendering of an instant in nanoseconds since the epoch.
pub open spec fn local_time_text(t: i64) -> Seq<char> {
    datetime_text((t as int) / 1_000_000_000 + LOCAL_OFFSET_SECS, (t as int) % 1_000_000_000)
}

/// Renders an instant in local time (UTC+8).
pub fn local_time(t: i64) -> (s: String)
    ensures
        s@ == local_time_text(t),
{
    let q = t / 1_000_000_000;
    let m = t % 1_000_000_000;
    let (secs, nsecs) = if m < 0 {
        (q - 1, (m + 1_000_000_000) as u32)
    } else {
        (q, m as u32)
    };
    assert(secs * 1_000_000_000 + nsecs == t);
    assert(secs == (t as int) / 1_000_000_000 && nsecs == (t as int) % 1_000_000_000) by (nonlinear_arith)
        requires
            secs * 1_000_000_000 + nsecs == t,
            0 <= nsecs < 1_000_000_000,
    ;
    assert(-10_000_000_000 <= secs <= 10_000_000_000) by (nonlinear_arith)
        requires
            secs * 1_000_000_000 + nsecs == t,
            0 <= nsecs < 1_000_000_000,
            i64::MIN <= t <= i64::MAX,
    ;
    match format_utc(secs + LOCAL_OFFSET_SECS, nsecs) {
        Some(s) => s,
        None => String::new(),
    }
}

impl Deployment {
    /// Get started_at as local time string (UTC+8)
    pub fn started_at_local(&self) -> (r: Option<String>)
        ensures
            match self.started_at {
                Some(t) => r matches Some(s) && s@ == local_time_text(t),
                None => r is None,
            },
    {
        match self.started_at {
            Some(t) => Some(local_time(t)),
            None => None,
        }
    }

    /// Get finished_at as local time string (UTC+8)
    pub fn finished_at_local(&self) -> (r: Option<String>)
        ensures
            match self.finished_at {
                Some(t) => r matches Some(s) && s@ == local_time_text(t),
                None => r is None,
            },
    {
        match self.finished_at {
            Some(t) => Some(local_time(t)),
            None => None,
        }
    }

    /// Get created_at as local time string (UTC+8)
    pub fn created_at_local(&self) -> (r: String)
        ensures
            r@ == local_time_text(self.created_at),
    {
        local_time(self.created_at)
    }
}

/// The current time in nanoseconds since the epoch, when it fits in `i64`.
///
/// Trusted: `chrono::Utc::now().timestamp_nanos_opt()`. Nothing is stated:
/// the result depends on the clock.
#[verifier::external_body]
fn current_time_nanos() -> Option<i64> {
    chrono::Utc::now().timestamp_nanos_opt()
}

/// The time a clock reading stands for: the reading itself, or the largest
/// value when the instant did not fit in `i64` nanoseconds.
pub open spec fn reading_nanos(reading: Option<i64>) -> i64 {
    match reading {
        Some(n) => n,
        None => i64::MAX,
    }
}

/// The time a clock reading stands for.
pub fn nanos_from_reading(reading: Option<i64>) -> (t: i64)
    ensures
        t == reading_nanos(reading),
{
    match reading {
        Some(n) => n,
        None => i64::MAX,
    }
}

/// The current time in nanoseconds since the epoch; past the year 2262,
/// where the count no longer fits, the largest value.
pub fn now_nanos() -> i64 {
    nanos_from_reading(current_time_nanos())
}

/// A fresh random identifier for a deployment.
///
/// Trusted: `uuid::Uuid::new_v4().to_string()`, the hyphenated form of a
/// random version-4 UUID, which is 36 characters long.
#[verifier::external_body]
fn new_deployment_id() -> (s: String)
    ensures
        s@.len() == 36,
{
    uuid::Uuid::new_v4().to_string()
}

} // verus!

verus! {

/// `i` is the position of the first element of `q` that satisfies `p`.
pub open spec fn is_first_where(q: Seq<Deployment>, p: spec_fn(Deployment) -> bool, i: int) -> bool {
    0 <= i < q.len() && p(q[i]) && forall|j: int| 0 <= j < i ==> !p(#[trigger] q[j])
}

/// The position of the first element of `q` that satisfies `p`, or -1.
pub open spec fn first_where(q: Seq<Deployment>, p: spec_fn(Deployment) -> bool) -> int {
    if exists|i: int| is_first_where(q, p, i) {
        choose|i: int| is_first_where(q, p, i)
    } else {
        -1
    }
}

/// The first position is found where the first match stands, and is -1
/// when nothing matches.
pub proof fn lemma_first_where(q: Seq<Deployment>, p: spec_fn(Deployment) -> bool, i: int)
    requires
        (0 <= i < q.len() && p(q[i])) || i == q.len(),
        0 <= i <= q.len(),
        forall|j: int| 0 <= j < i ==> !p(#[trigger] q[j]),
    ensures
        i < q.len() ==> first_where(q, p) == i,
        i == q.len() ==> first_where(q, p) == -1,
{
    if i < q.len() {
        assert(is_first_where(q, p, i));
        let k = choose|k: int| is_first_where(q, p, k);
        assert(k == i) by {
            if k < i {
                assert(!p(q[k]));
            }
            if i < k {
                assert(!p(q[i]));
            }
        }
    } else {
        assert forall|k: int| !is_first_where(q, p, k) by {
            if 0 <= k < q.len() {
                assert(!p(q[k]));
            }
        }
    }
}

/// Matches a deployment by identifier.
pub open spec fn has_id(id: Seq<char>) -> spec_fn(Deployment) -> bool {
    |d: Deployment| d.id@ == id
}

/// Matches a waiting deployment.
pub open spec fn is_pending() -> spec_fn(Deployment) -> bool {
    |d: Deployment| d.status is Pending
}

/// Matches a deployment by identifier and status.
pub open spec fn has_id_and_status(id: Seq<char>, s: DeploymentStatus) -> spec_fn(Deployment) -> bool {
    |d: Deployment| d.id@ == id && d.status == s
}

/// `d` is an active deployment of the given project and branch.
pub open spec fn is_duplicate_of(d: Deployment, name: Seq<char>, branch: Seq<char>) -> bool {
    d.project_name@ == name && d.project.branch@ == branch && d.status.is_active()
}

/// Some active deployment of `q` has the given project and branch.
pub open spec fn has_duplicate(q: Seq<Deployment>, name: Seq<char>, branch: Seq<char>) -> bool {
    exists|i: int| 0 <= i < q.len() && is_duplicate_of(#[trigger] q[i], name, branch)
}

/// No two active deployments of `q` share project and branch.
pub open spec fn no_active_duplicates(q: Seq<Deployment>) -> bool {
    forall|i: int, j: int|
        0 <= i < j < q.len() && (#[trigger] q[i]).status.is_active() && (#[trigger] q[j]).status.is_active()
            ==> !(q[i].project_name@ == q[j].project_name@ && q[i].project.branch@ == q[j].project.branch@)
}

/// No two deployments of `q` share an identifier.
pub open spec fn unique_ids(q: Seq<Deployment>) -> bool {
    forall|i: int, j: int| 0 <= i < j < q.len() ==> (#[trigger] q[i]).id@ != (#[trigger] q[j]).id@
}

/// A new deployment as queued: waiting, created at `now`, never started.
pub open spec fn new_pending(id: String, name: String, project: ProjectConfig, now: i64) -> Deployment {
    Deployment {
        id,
        project_name: name,
        project,
        status: DeploymentStatus::Pending,
        created_at: now,
        started_at: None,
        finished_at: None,
    }
}

/// A deployment after its status changes at `now`: starting records the
/// start time, finishing records the end time, going back to waiting
/// changes the status alone.
pub open spec fn with_status(d: Deployment, status: DeploymentStatus, now: i64) -> Deployment {
    if status is Running {
        Deployment { status, started_at: Some(now), ..d }
    } else if status.is_terminal() {
        Deployment { status, finished_at: Some(now), ..d }
    } else {
        Deployment { status, ..d }
    }
}

/// The start and end times stored with a status change of a queued
/// deployment.
pub open spec fn stored_times(d: Deployment, status: DeploymentStatus, now: i64) -> (Option<i64>, Option<i64>) {
    if status is Running {
        (Some(now), None)
    } else if status.is_terminal() {
        (d.started_at, Some(now))
    } else {
        (None, None)
    }
}

/// The start and end times stored with a status change of a deployment
/// that is no longer queued, from the stored ones.
pub open spec fn stored_times_unqueued(
    status: DeploymentStatus,
    started: Option<i64>,
    finished: Option<i64>,
    now: i64,
) -> (Option<i64>, Option<i64>) {
    if status is Running {
        (
            match started {
                Some(t) => Some(t),
                None => Some(now),
            },
            None,
        )
    } else if status.is_terminal() {
        (started, Some(now))
    } else {
        (started, finished)
    }
}

/// A failed deployment put back into the queue at `now`.
pub open spec fn requeued(d: Deployment, now: i64) -> Deployment {
    Deployment {
        status: DeploymentStatus::Pending,
        created_at: now,
        started_at: None,
        finished_at: None,
        ..d
    }
}

/// A failed deployment made to wait again in place.
pub open spec fn reset_for_retry(d: Deployment) -> Deployment {
    Deployment { status: DeploymentStatus::Pending, started_at: None, finished_at: None, ..d }
}

/// Whether a stored deployment that is no longer queued may be deleted:
/// only one that is still waiting.
pub fn stored_deletable(record: &Deployment) -> (r: bool)
    ensures
        r == record.status is Pending,
{
    record.status == DeploymentStatus::Pending
}

/// The times stored for a status change of a deployment that is no longer
/// queued.
pub fn status_times_unqueued(
    status: DeploymentStatus,
    started: Option<i64>,
    finished: Option<i64>,
    now: i64,
) -> (r: (Option<i64>, Option<i64>))
    ensures
        r == stored_times_unqueued(status, started, finished, now),
{
    match status {
        DeploymentStatus::Running => (
            match started {
                Some(t) => Some(t),
                None => Some(now),
            },
            None,
        ),
        DeploymentStatus::Success | DeploymentStatus::Failed | DeploymentStatus::Cancelled => (
            started,
            Some(now),
        ),
        DeploymentStatus::Pending => (started, finished),
    }
}

/// The deployments waiting or running, in the order they were queued.
pub struct DeploymentQueue {
    items: VecDeque<Deployment>,
}

impl View for DeploymentQueue {
    type V = Seq<Deployment>;

    closed spec fn view(&self) -> Seq<Deployment> {
        self.items@
    }
}

impl DeploymentQueue {
    /// An empty queue.
    pub fn new() -> (q: DeploymentQueue)
        ensures
            q@ == Seq::<Deployment>::empty(),
    {
        DeploymentQueue { items: VecDeque::new() }
    }

    /// Number of queued deployments.
    pub fn len(&self) -> (n: usize)
        ensures
            n == self@.len(),
    {
        self.items.len()
    }

    /// The deployment at position `i`.
    pub fn get(&self, i: usize) -> (d: &Deployment)
        requires
            i < self@.len(),
        ensures
            *d == self@[i as int],
    {
        &self.items[i]
    }

    /// The position of the first deployment with the given identifier.
    pub fn position_of(&self, id: &str) -> (r: Option<usize>)
        ensures
            match r {
                Some(i) => i == first_where(self@, has_id(id@)),
                None => first_where(self@, has_id(id@)) == -1,
            },
    {
        let mut i: usize = 0;
        while i < self.items.len()
            invariant
                i <= self@.len(),
                self@ == self.items@,
                forall|j: int| 0 <= j < i ==> !has_id(id@)(#[trigger] self@[j]),
            decreases self@.len() - i,
        {
            if str_equal(self.items[i].id.as_str(), id) {
                proof {
                    lemma_first_where(self@, has_id(id@), i as int);
                }
                return Some(i);
            }
            i = i + 1;
        }
        proof {
            lemma_first_where(self@, has_id(id@), i as int);
        }
        None
    }

    /// The first queued deployment with the given identifier.
    pub fn find(&self, id: &str) -> (r: Option<&Deployment>)
        ensures
            match r {
                Some(d) => first_where(self@, has_id(id@)) >= 0 && *d == self@[first_where(
                    self@,
                    has_id(id@),
                )],
                None => first_where(self@, has_id(id@)) == -1,
            },
    {
        match self.position_of(id) {
            Some(i) => Some(&self.items[i]),
            None => None,
        }
    }

    /// Queues a new deployment unless an active one of the same project and
    /// branch is queued: returns its identifier, or `None` for a duplicate.
    pub fn queue_deployment_with(
        &mut self,
        project_name: String,
        project: ProjectConfig,
        id: String,
        now: i64,
    ) -> (r: Option<String>)
        ensures
            has_duplicate(old(self)@, project_name@, project.branch@) ==> r is None && final(self)@
                == old(self)@,
            !has_duplicate(old(self)@, project_name@, project.branch@) ==> (r matches Some(rid)
                && rid@ == id@ && final(self)@ == old(self)@.push(
                new_pending(id, project_name, project, now),
            )),
    {
        let mut i: usize = 0;
        while i < self.items.len()
            invariant
                i <= self.items@.len(),
                forall|j: int|
                    0 <= j < i ==> !is_duplicate_of(
                        #[trigger] self.items@[j],
                        project_name@,
                        project.branch@,
                    ),
            decreases self.items@.len() - i,
        {
            let d = &self.items[i];
            if str_equal(d.project_name.as_str(), project_name.as_str()) && str_equal(
                d.project.branch.as_str(),
                project.branch.as_str(),
            ) && (d.status == DeploymentStatus::Pending || d.status == DeploymentStatus::Running) {
                return None;
            }
            i = i + 1;
        }
        let rid = id.clone();
        let deployment = Deployment {
            id,
            project_name,
            project,
            status: DeploymentStatus::Pending,
            created_at: now,
            started_at: None,
            finished_at: None,
        };
        self.items.push_back(deployment);
        Some(rid)
    }

    /// Queues a new deployment with a fresh random identifier, created now;
    /// `None` when an active deployment of the same project and branch is
    /// queued.
    pub fn queue_deployment(&mut self, project_name: String, project: ProjectConfig) -> (r: Option<
        String,
    >)
        ensures
            has_duplicate(old(self)@, project_name@, project.branch@) ==> r is None && final(self)@
                == old(self)@,
            !has_duplicate(old(self)@, project_name@, project.branch@) ==> (r matches Some(rid)
                && rid@.len() == 36 && final(self)@.len() == old(self)@.len() + 1
                && final(self)@.drop_last() == old(self)@ && ({
                let d = final(self)@.last();
                &&& d.id@ == rid@
                &&& d.project_name == project_name
                &&& d.project == project
                &&& d.status is Pending
                &&& d.started_at is None
                &&& d.finished_at is None
            })),
    {
        let id = new_deployment_id();
        let now = now_nanos();
        let r = self.queue_deployment_with(project_name, project, id, now);
        proof {
            if r is Some {
                assert(final(self)@.drop_last() =~= old(self)@);
            }
        }
        r
    }

    /// Removes and returns the first waiting deployment.
    pub fn pop_deployment(&mut self) -> (r: Option<Deployment>)
        ensures
            ({
                let i = first_where(old(self)@, is_pending());
                if i < 0 {
                    r is None && final(self)@ == old(self)@
                } else {
                    r == Some(old(self)@[i]) && final(self)@ == old(self)@.remove(i)
                }
            }),
    {
        let mut i: usize = 0;
        while i < self.items.len()
            invariant
                i <= self.items@.len(),
                self.items@ == old(self)@,
                forall|j: int| 0 <= j < i ==> !is_pending()(#[trigger] self.items@[j]),
            decreases self.items@.len() - i,
        {
            if self.items[i].status == DeploymentStatus::Pending {
                proof {
                    lemma_first_where(old(self)@, is_pending(), i as int);
                }
                return self.items.remove(i);
            }
            i = i + 1;
        }
        proof {
            lemma_first_where(old(self)@, is_pending(), i as int);
        }
        None
    }

    /// Changes the status of the first queued deployment with the given
    /// identifier at time `now`: returns the start and end times to store
    /// with it, or `None` when no such deployment is queued.
    pub fn update_status_at(&mut self, id: &str, status: DeploymentStatus, now: i64) -> (r: Option<
        (Option<i64>, Option<i64>),
    >)
        ensures
            ({
                let i = first_where(old(self)@, has_id(id@));
                if i < 0 {
                    r is None && final(self)@ == old(self)@
                } else {
                    &&& r == Some(stored_times(old(self)@[i], status, now))
                    &&& final(self)@ == old(self)@.update(i, with_status(old(self)@[i], status, now))
                }
            }),
    {
        match self.position_of(id) {
            None => None,
            Some(i) => {
                let mut d = match self.items.remove(i) {
                    Some(d) => d,
                    None => {
                        return None;
                    },
                };
                let ghost d0 = d;
                let times = match status {
                    DeploymentStatus::Running => {
                        d.started_at = Some(now);
                        (Some(now), None)
                    },
                    DeploymentStatus::Success
                    | DeploymentStatus::Failed
                    | DeploymentStatus::Cancelled => {
                        d.finished_at = Some(now);
                        (d.started_at, Some(now))
                    },
                    DeploymentStatus::Pending => (None, None),
                };
                d.status = status;
                assert(d == with_status(d0, status, now));
                self.items.insert(i, d);
                assert(self.items@ =~= old(self)@.update(i as int, with_status(d0, status, now)));
                Some(times)
            },
        }
    }

    /// Changes the status of the first queued deployment with the given
    /// identifier, now; see `update_status_at`.
    pub fn update_status(&mut self, id: &str, status: DeploymentStatus) -> (r: Option<
        (Option<i64>, Option<i64>),
    >)
        ensures
            ({
                let i = first_where(old(self)@, has_id(id@));
                if i < 0 {
                    r is None && final(self)@ == old(self)@
                } else {
                    exists|now: i64|
                        {
                            &&& r == Some(stored_times(old(self)@[i], status, now))
                            &&& final(self)@ == old(self)@.update(
                                i,
                                with_status(old(self)@[i], status, now),
                            )
                        }
                }
            }),
    {
        let now = now_nanos();
        self.update_status_at(id, status, now)
    }

    /// Cancels the first queued deployment with the given identifier if it
    /// is still waiting, at time `now`: returns the times to store, or
    /// `None` when nothing was cancelled.
    pub fn cancel_deployment_at(&mut self, id: &str, now: i64) -> (r: Option<(Option<i64>, Option<i64>)>)
        ensures
            ({
                let i = first_where(old(self)@, has_id(id@));
                if i >= 0 && old(self)@[i].status is Pending {
                    &&& r == Some((old(self)@[i].started_at, Some(now)))
                    &&& final(self)@ == old(self)@.update(
                        i,
                        with_status(old(self)@[i], DeploymentStatus::Cancelled, now),
                    )
                } else {
                    r is None && final(self)@ == old(self)@
                }
            }),
    {
        match self.position_of(id) {
            None => None,
            Some(i) => {
                if self.items[i].status == DeploymentStatus::Pending {
                    self.update_status_at(id, DeploymentStatus::Cancelled, now)
                } else {
                    None
                }
            },
        }
    }

    /// Removes the first queued deployment with the given identifier that is
    /// still waiting; `false` when there is none.
    pub fn delete_pending(&mut self, id: &str) -> (r: bool)
        ensures
            ({
                let i = first_where(old(self)@, has_id_and_status(id@, DeploymentStatus::Pending));
                if i < 0 {
                    !r && final(self)@ == old(self)@
                } else {
                    r && final(self)@ == old(self)@.remove(i)
                }
            }),
    {
        let ghost p = has_id_and_status(id@, DeploymentStatus::Pending);
        let mut i: usize = 0;
        while i < self.items.len()
            invariant
                i <= self.items@.len(),
                self.items@ == old(self)@,
                p == has_id_and_status(id@, DeploymentStatus::Pending),
                forall|j: int| 0 <= j < i ==> !p(#[trigger] self.items@[j]),
            decreases self.items@.len() - i,
        {
            if str_equal(self.items[i].id.as_str(), id) && self.items[i].status
                == DeploymentStatus::Pending {
                proof {
                    lemma_first_where(old(self)@, p, i as int);
                }
                let _ = self.items.remove(i);
                return true;
            }
            i = i + 1;
        }
        proof {
            lemma_first_where(old(self)@, p, i as int);
        }
        false
    }

    /// Makes the first queued failed deployment with the given identifier
    /// wait again, with its times cleared; `false` when there is none.
    pub fn retry_in_queue(&mut self, id: &str) -> (r: bool)
        ensures
            ({
                let i = first_where(old(self)@, has_id_and_status(id@, DeploymentStatus::Failed));
                if i < 0 {
                    !r && final(self)@ == old(self)@
                } else {
                    r && final(self)@ == old(self)@.update(i, reset_for_retry(old(self)@[i]))
                }
            }),
    {
        let ghost p = has_id_and_status(id@, DeploymentStatus::Failed);
        let mut i: usize = 0;
        while i < self.items.len()
            invariant
                i <= self.items@.len(),
                self.items@ == old(self)@,
                p == has_id_and_status(id@, DeploymentStatus::Failed),
                forall|j: int| 0 <= j < i ==> !p(#[trigger] self.items@[j]),
            decreases self.items@.len() - i,
        {
            if str_equal(self.items[i].id.as_str(), id) && self.items[i].status
                == DeploymentStatus::Failed {
                proof {
                    lemma_first_where(old(self)@, p, i as int);
                }
                let mut d = match self.items.remove(i) {
                    Some(d) => d,
                    None => {
                        return false;
                    },
                };
                d.status = DeploymentStatus::Pending;
                d.started_at = None;
                d.finished_at = None;
                self.items.insert(i, d);
                assert(self.items@ =~= old(self)@.update(i as int, reset_for_retry(old(self)@[i as int])));
                return true;
            }
            i = i + 1;
        }
        proof {
            lemma_first_where(old(self)@, p, i as int);
        }
        false
    }

    /// Puts a stored deployment back into the queue, created anew at `now`,
    /// if it failed; `false` (and no change) for any other status.
    pub fn requeue_failed_at(&mut self, record: Deployment, now: i64) -> (r: bool)
        ensures
            record.status is Failed ==> r && final(self)@ == old(self)@.push(requeued(record, now)),
            !(record.status is Failed) ==> !r && final(self)@ == old(self)@,
    {
        if record.status == DeploymentStatus::Failed {
            let d = Deployment {
                id: record.id,
                project_name: record.project_name,
                project: record.project,
                status: DeploymentStatus::Pending,
                created_at: now,
                started_at: None,
                finished_at: None,
            };
            self.items.push_back(d);
            true
        } else {
            false
        }
    }

    /// Puts a stored failed deployment back into the queue, created now.
    pub fn requeue_failed(&mut self, record: Deployment) -> (r: bool)
        ensures
            record.status is Failed ==> r && exists|now: i64|
                final(self)@ == old(self)@.push(#[trigger] requeued(record, now)),
            !(record.status is Failed) ==> !r && final(self)@ == old(self)@,
    {
        let now = now_nanos();
        self.requeue_failed_at(record, now)
    }

    /// The queue's deployments, in order.
    pub fn items(&self) -> (r: &VecDeque<Deployment>)
        ensures
            r@ == self@,
    {
        &self.items
    }
}

} // verus!

verus! {

/// Some deployment of `s` has the identifier `id`.
pub open spec fn contains_id(s: Seq<Deployment>, id: Seq<char>) -> bool {
    exists|i: int| 0 <= i < s.len() && (#[trigger] s[i]).id@ == id
}

/// `acc` with a queued deployment put in: in place of the first deployment
/// with the same identifier, which it supersedes, or at the end when there
/// is none.
pub open spec fn put_queued(acc: Seq<Deployment>, m: Deployment) -> Seq<Deployment>
    decreases acc.len(),
{
    if acc.len() == 0 {
        seq![m]
    } else if acc[0].id@ == m.id@ {
        seq![m] + acc.drop_first()
    } else {
        seq![acc[0]] + put_queued(acc.drop_first(), m)
    }
}

/// The stored deployments `acc` with the queued ones `mem` put in, one after
/// another: a queued deployment, being the more current, replaces the
/// stored one with its identifier; one that is not stored is added.
pub open spec fn merge_spec(acc: Seq<Deployment>, mem: Seq<Deployment>) -> Seq<Deployment>
    decreases mem.len(),
{
    if mem.len() == 0 {
        acc
    } else {
        merge_spec(put_queued(acc, mem[0]), mem.drop_first())
    }
}

/// `x` placed in front of the first deployment of `s` that was not created
/// later than `x`.
pub open spec fn insert_desc(s: Seq<Deployment>, x: Deployment) -> Seq<Deployment>
    decreases s.len(),
{
    if s.len() == 0 {
        seq![x]
    } else if s[0].created_at > x.created_at {
        seq![s[0]] + insert_desc(s.drop_first(), x)
    } else {
        seq![x] + s
    }
}

/// `s` ordered by creation time, latest first; deployments created at the
/// same time keep their order (a stable sort).
pub open spec fn sort_desc(s: Seq<Deployment>) -> Seq<Deployment>
    decreases s.len(),
{
    if s.len() == 0 {
        s
    } else {
        insert_desc(sort_desc(s.drop_first()), s[0])
    }
}

/// The position of the first deployment of `all` with the identifier `id`.
fn position_of_id(all: &Vec<Deployment>, id: &str) -> (r: Option<usize>)
    ensures
        match r {
            Some(i) => i < all@.len() && all@[i as int].id@ == id@ && forall|j: int|
                0 <= j < i ==> (#[trigger] all@[j]).id@ != id@,
            None => forall|j: int| 0 <= j < all@.len() ==> (#[trigger] all@[j]).id@ != id@,
        },
{
    let mut i: usize = 0;
    while i < all.len()
        invariant
            i <= all@.len(),
            forall|j: int| 0 <= j < i ==> (#[trigger] all@[j]).id@ != id@,
        decreases all@.len() - i,
    {
        if str_equal(all[i].id.as_str(), id) {
            return Some(i);
        }
        i = i + 1;
    }
    None
}

/// Where `put_queued` puts a deployment: in place of the first one with its
/// identifier, or at the end.
proof fn lemma_put_queued_at(acc: Seq<Deployment>, m: Deployment, i: int)
    requires
        0 <= i <= acc.len(),
        forall|j: int| 0 <= j < i ==> (#[trigger] acc[j]).id@ != m.id@,
        i < acc.len() ==> acc[i].id@ == m.id@,
    ensures
        i < acc.len() ==> put_queued(acc, m) == acc.update(i, m),
        i == acc.len() ==> put_queued(acc, m) == acc.push(m),
    decreases acc.len(),
{
    if acc.len() > 0 && i > 0 {
        let t = acc.drop_first();
        assert forall|j: int| 0 <= j < i - 1 implies (#[trigger] t[j]).id@ != m.id@ by {
            assert(t[j] == acc[j + 1]);
        }
        if i < acc.len() {
            assert(t[i - 1] == acc[i]);
        }
        lemma_put_queued_at(t, m, i - 1);
        if i < acc.len() {
            assert(put_queued(acc, m) =~= acc.update(i, m));
        } else {
            assert(put_queued(acc, m) =~= acc.push(m));
        }
    } else if acc.len() > 0 {
        assert(put_queued(acc, m) =~= acc.update(0, m));
    } else {
        assert(put_queued(acc, m) =~= acc.push(m));
    }
}

/// Puts a queued deployment into `all` as `put_queued` does.
fn put_queued_exec(all: &mut Vec<Deployment>, m: Deployment)
    ensures
        final(all)@ == put_queued(old(all)@, m),
{
    match position_of_id(all, m.id.as_str()) {
        Some(i) => {
            proof {
                lemma_put_queued_at(old(all)@, m, i as int);
            }
            all.set(i, m);
        },
        None => {
            proof {
                lemma_put_queued_at(old(all)@, m, old(all)@.len() as int);
            }
            all.push(m);
        },
    }
}

/// Where `insert_desc` puts `x`: before the first deployment not created
/// later than it.
proof fn lemma_insert_desc_at(s: Seq<Deployment>, x: Deployment, j: int)
    requires
        0 <= j <= s.len(),
        forall|t: int| 0 <= t < j ==> (#[trigger] s[t]).created_at > x.created_at,
        j < s.len() ==> s[j].created_at <= x.created_at,
    ensures
        insert_desc(s, x) == s.insert(j, x),
    decreases s.len(),
{
    if j == 0 {
        assert(insert_desc(s, x) =~= s.insert(0, x));
    } else {
        let t = s.drop_first();
        assert forall|u: int| 0 <= u < j - 1 implies (#[trigger] t[u]).created_at > x.created_at by {
            assert(t[u] == s[u + 1]);
        }
        if j < s.len() {
            assert(t[j - 1] == s[j]);
        }
        lemma_insert_desc_at(t, x, j - 1);
        assert(insert_desc(s, x) =~= s.insert(j, x));
    }
}

/// Orders deployments by creation time, latest first, keeping the order of
/// deployments created at the same time.
pub fn sort_by_created_desc(v: Vec<Deployment>) -> (r: Vec<Deployment>)
    ensures
        r@ == sort_desc(v@),
{
    let ghost s = v@;
    let mut input = v;
    let mut r: Vec<Deployment> = Vec::new();
    assert(s.subrange(s.len() as int, s.len() as int) =~= Seq::<Deployment>::empty());
    assert(s.subrange(0, s.len() as int) =~= s);
    while input.len() > 0
        invariant
            input@.len() <= s.len(),
            input@ == s.subrange(0, input@.len() as int),
            r@ == sort_desc(s.subrange(input@.len() as int, s.len() as int)),
        decreases input@.len(),
    {
        let ghost k = input@.len() as int;
        let x = match input.pop() {
            Some(x) => x,
            None => {
                return r;
            },
        };
        let mut j: usize = 0;
        while j < r.len() && r[j].created_at > x.created_at
            invariant
                j <= r@.len(),
                forall|t: int| 0 <= t < j ==> (#[trigger] r@[t]).created_at > x.created_at,
            decreases r@.len() - j,
        {
            j = j + 1;
        }
        let ghost before = r@;
        proof {
            lemma_insert_desc_at(before, x, j as int);
        }
        r.insert(j, x);
        proof {
            let tail = s.subrange(k - 1, s.len() as int);
            assert(tail.drop_first() =~= s.subrange(k, s.len() as int));
            assert(tail[0] == x);
            assert(input@ =~= s.subrange(0, input@.len() as int));
        }
    }
    r
}

/// Merges stored deployments with queued ones, preferring the queued copy
/// (the more current) of a deployment that is in both; the whole ordered by
/// creation time, latest first.
pub fn merge_deployments(from_db: Vec<Deployment>, in_memory: VecDeque<Deployment>) -> (r: Vec<
    Deployment,
>)
    ensures
        r@ == sort_desc(merge_spec(from_db@, in_memory@)),
{
    let ghost target = merge_spec(from_db@, in_memory@);
    let mut all = from_db;
    let mut mem = in_memory;
    while mem.len() > 0
        invariant
            merge_spec(all@, mem@) == target,
        decreases mem@.len(),
    {
        let ghost before = mem@;
        let m = match mem.pop_front() {
            Some(m) => m,
            None => {
                return sort_by_created_desc(all);
            },
        };
        assert(mem@ =~= before.drop_first());
        put_queued_exec(&mut all, m);
    }
    assert(mem@.len() == 0);
    sort_by_created_desc(all)
}

} // verus!

verus! {

/// `s` is ordered by creation time, latest first.
pub open spec fn is_sorted_desc(s: Seq<Deployment>) -> bool {
    forall|i: int, j: int| 0 <= i < j < s.len() ==> (#[trigger] s[i]).created_at >= (#[trigger] s[j]).created_at
}

/// The deployments of `s` created at time `t`, in order.
pub open spec fn created_at_time(s: Seq<Deployment>, t: i64) -> Seq<Deployment>
    decreases s.len(),
{
    if s.len() == 0 {
        s
    } else if s[0].created_at == t {
        seq![s[0]] + created_at_time(s.drop_first(), t)
    } else {
        created_at_time(s.drop_first(), t)
    }
}

proof fn lemma_insert_desc_facts(s: Seq<Deployment>, x: Deployment)
    requires
        is_sorted_desc(s),
    ensures
        is_sorted_desc(insert_desc(s, x)),
        insert_desc(s, x).to_multiset() == s.to_multiset().insert(x),
        insert_desc(s, x).len() == s.len() + 1,
        forall|t: i64|
            #![trigger created_at_time(insert_desc(s, x), t)]
            created_at_time(insert_desc(s, x), t) == if x.created_at == t {
                seq![x] + created_at_time(s, t)
            } else {
                created_at_time(s, t)
            },
    decreases s.len(),
{
    broadcast use vstd::seq_lib::group_to_multiset_ensures;
    let r = insert_desc(s, x);
    if s.len() == 0 {
        assert(r =~= seq![x]);
        assert(seq![x].drop_first() =~= s);
        assert forall|t: i64| #![trigger created_at_time(insert_desc(s, x), t)]
            created_at_time(insert_desc(s, x), t) == if x.created_at == t {
                seq![x] + created_at_time(s, t)
            } else {
                created_at_time(s, t)
            } by {
            assert((seq![x] + created_at_time(s, t)) =~= seq![x]);
        }
    } else if s[0].created_at > x.created_at {
        let t0 = s.drop_first();
        assert(is_sorted_desc(t0)) by {
            assert forall|i: int, j: int| 0 <= i < j < t0.len() implies (#[trigger] t0[i]).created_at
                >= (#[trigger] t0[j]).created_at by {
                assert(t0[i] == s[i + 1]);
                assert(t0[j] == s[j + 1]);
            }
        }
        lemma_insert_desc_facts(t0, x);
        let rest = insert_desc(t0, x);
        assert(r == seq![s[0]] + rest);
        assert forall|i: int, j: int| 0 <= i < j < r.len() implies (#[trigger] r[i]).created_at >= (
        #[trigger] r[j]).created_at by {
            if i == 0 {
                assert(r[j] == rest[j - 1]);
                assert(rest.to_multiset().count(rest[j - 1]) > 0);
                assert(rest.to_multiset() == t0.to_multiset().insert(x));
                if rest[j - 1] != x {
                    assert(t0.to_multiset().count(rest[j - 1]) > 0);
                    assert(t0.contains(rest[j - 1]));
                    let k = choose|k: int| 0 <= k < t0.len() && t0[k] == rest[j - 1];
                    assert(t0[k] == s[k + 1]);
                }
            } else {
                assert(r[i] == rest[i - 1]);
                assert(r[j] == rest[j - 1]);
            }
        }
        assert(s =~= seq![s[0]] + t0);
        vstd::seq_lib::lemma_multiset_commutative(seq![s[0]], rest);
        vstd::seq_lib::lemma_multiset_commutative(seq![s[0]], t0);
        assert(r.to_multiset() =~= s.to_multiset().insert(x));
        assert forall|t: i64| #![trigger created_at_time(insert_desc(s, x), t)]
            created_at_time(insert_desc(s, x), t) == if x.created_at == t {
                seq![x] + created_at_time(s, t)
            } else {
                created_at_time(s, t)
            } by {
            assert(r.drop_first() =~= rest);
            assert(r[0] == s[0]);
            assert(s.drop_first() == t0);
            assert(created_at_time(rest, t) == if x.created_at == t {
                seq![x] + created_at_time(t0, t)
            } else {
                created_at_time(t0, t)
            });
            if s[0].created_at == t {
                assert(x.created_at != t);
            } else {
            }
        }
    } else {
        assert(r == seq![x] + s);
        assert forall|i: int, j: int| 0 <= i < j < r.len() implies (#[trigger] r[i]).created_at >= (
        #[trigger] r[j]).created_at by {
            if i == 0 {
                assert(r[j] == s[j - 1]);
                if j - 1 > 0 {
                    assert(s[0].created_at >= s[j - 1].created_at);
                }
            } else {
                assert(r[i] == s[i - 1]);
                assert(r[j] == s[j - 1]);
            }
        }
        vstd::seq_lib::lemma_multiset_commutative(seq![x], s);
        assert(r.to_multiset() =~= s.to_multiset().insert(x));
        assert forall|t: i64| #![trigger created_at_time(insert_desc(s, x), t)]
            created_at_time(insert_desc(s, x), t) == if x.created_at == t {
                seq![x] + created_at_time(s, t)
            } else {
                created_at_time(s, t)
            } by {
            assert(r.drop_first() =~= s);
            assert(r[0] == x);
        }
    }
}

/// Sorting yields the same deployments, ordered latest first, and keeps
/// the relative order of deployments created at the same time.
pub proof fn lemma_sort_desc(s: Seq<Deployment>)
    ensures
        is_sorted_desc(sort_desc(s)),
        sort_desc(s).to_multiset() == s.to_multiset(),
        sort_desc(s).len() == s.len(),
        forall|t: i64| #[trigger] created_at_time(sort_desc(s), t) == created_at_time(s, t),
    decreases s.len(),
{
    broadcast use vstd::seq_lib::group_to_multiset_ensures;
    if s.len() == 0 {
    } else {
        let t0 = s.drop_first();
        lemma_sort_desc(t0);
        lemma_insert_desc_facts(sort_desc(t0), s[0]);
        assert(s =~= seq![s[0]] + t0);
        vstd::seq_lib::lemma_multiset_commutative(seq![s[0]], t0);
        assert(sort_desc(s).to_multiset() =~= s.to_multiset());
        assert forall|t: i64| #[trigger] created_at_time(sort_desc(s), t) == created_at_time(s, t) by {
            assert(created_at_time(sort_desc(t0), t) == created_at_time(t0, t));
        }
    }
}

} // verus!

verus! {

/// Putting in a queued deployment: it is present afterwards; the
/// identifiers present are those before and its own; a deployment with
/// another identifier keeps its place; distinct identifiers stay distinct.
proof fn lemma_put_queued(acc: Seq<Deployment>, m: Deployment)
    ensures
        put_queued(acc, m).len() >= acc.len(),
        exists|j: int| 0 <= j < put_queued(acc, m).len() && #[trigger] put_queued(acc, m)[j] == m,
        forall|id: Seq<char>|
            #[trigger] contains_id(put_queued(acc, m), id) <==> (contains_id(acc, id) || m.id@ == id),
        forall|j: int| 0 <= j < acc.len() && (#[trigger] acc[j]).id@ != m.id@ ==> put_queued(acc, m)[j] == acc[j],
        unique_ids(acc) ==> unique_ids(put_queued(acc, m)),
    decreases acc.len(),
{
    let r = put_queued(acc, m);
    if acc.len() == 0 {
        assert(r[0] == m);
        assert forall|id: Seq<char>| #[trigger] contains_id(r, id) <==> (contains_id(acc, id) || m.id@ == id) by {
            if m.id@ == id {
                assert(r[0].id@ == id);
            }
        }
    } else if acc[0].id@ == m.id@ {
        let t = acc.drop_first();
        assert(r[0] == m);
        assert forall|j: int| 0 < j < r.len() implies r[j] == acc[j] by {
            assert(r[j] == t[j - 1]);
        }
        assert forall|id: Seq<char>| #[trigger] contains_id(r, id) <==> (contains_id(acc, id) || m.id@ == id) by {
            if contains_id(r, id) {
                let k = choose|k: int| 0 <= k < r.len() && (#[trigger] r[k]).id@ == id;
                if k > 0 {
                    assert(acc[k].id@ == id);
                }
            }
            if contains_id(acc, id) {
                let k = choose|k: int| 0 <= k < acc.len() && (#[trigger] acc[k]).id@ == id;
                if k == 0 {
                    assert(r[0].id@ == id);
                } else {
                    assert(r[k].id@ == id);
                }
            }
            if m.id@ == id {
                assert(r[0].id@ == id);
            }
        }
        if unique_ids(acc) {
            assert forall|i: int, j: int| 0 <= i < j < r.len() implies (#[trigger] r[i]).id@
                != (#[trigger] r[j]).id@ by {
                assert(r[j] == acc[j]);
                if i > 0 {
                    assert(r[i] == acc[i]);
                } else {
                    assert(acc[0].id@ != acc[j].id@);
                }
            }
        }
    } else {
        let t = acc.drop_first();
        let rt = put_queued(t, m);
        lemma_put_queued(t, m);
        assert(r == seq![acc[0]] + rt);
        assert(r[0] == acc[0]);
        assert forall|j: int| 0 < j < r.len() implies r[j] == rt[j - 1] by {}
        let w = choose|w: int| 0 <= w < rt.len() && #[trigger] rt[w] == m;
        assert(r[w + 1] == m);
        assert forall|j: int| 0 <= j < acc.len() && (#[trigger] acc[j]).id@ != m.id@ implies r[j] == acc[j] by {
            if j > 0 {
                assert(acc[j] == t[j - 1]);
            }
        }
        assert forall|id: Seq<char>| #[trigger] contains_id(r, id) <==> (contains_id(acc, id) || m.id@ == id) by {
            if contains_id(r, id) {
                let k = choose|k: int| 0 <= k < r.len() && (#[trigger] r[k]).id@ == id;
                if k == 0 {
                    assert(acc[0].id@ == id);
                } else {
                    assert(rt[k - 1].id@ == id);
                    assert(contains_id(rt, id));
                    assert(contains_id(t, id) || m.id@ == id);
                    if contains_id(t, id) {
                        let q = choose|q: int| 0 <= q < t.len() && (#[trigger] t[q]).id@ == id;
                        assert(acc[q + 1].id@ == id);
                    }
                }
            }
            if contains_id(acc, id) {
                let k = choose|k: int| 0 <= k < acc.len() && (#[trigger] acc[k]).id@ == id;
                if k == 0 {
                    assert(r[0].id@ == id);
                } else {
                    assert(t[k - 1].id@ == id);
                    assert(contains_id(rt, id));
                    let q = choose|q: int| 0 <= q < rt.len() && (#[trigger] rt[q]).id@ == id;
                    assert(r[q + 1].id@ == id);
                }
            }
            if m.id@ == id {
                assert(r[w + 1].id@ == id);
            }
        }
        if unique_ids(acc) {
            assert(unique_ids(t)) by {
                assert forall|i: int, j: int| 0 <= i < j < t.len() implies (#[trigger] t[i]).id@
                    != (#[trigger] t[j]).id@ by {
                    assert(t[i] == acc[i + 1]);
                    assert(t[j] == acc[j + 1]);
                }
            }
            assert forall|i: int, j: int| 0 <= i < j < r.len() implies (#[trigger] r[i]).id@
                != (#[trigger] r[j]).id@ by {
                if i == 0 {
                    assert(r[j] == rt[j - 1]);
                    if rt[j - 1].id@ == acc[0].id@ {
                        assert(contains_id(rt, acc[0].id@));
                        assert(contains_id(t, acc[0].id@));
                        let q = choose|q: int| 0 <= q < t.len() && (#[trigger] t[q]).id@ == acc[0].id@;
                        assert(acc[q + 1].id@ == acc[0].id@);
                    }
                } else {
                    assert(r[i] == rt[i - 1]);
                    assert(r[j] == rt[j - 1]);
                }
            }
        }
    }
}

/// Merging: an identifier is present in the result exactly when it is
/// stored or queued; a stored deployment that is not queued keeps its
/// place; when the stored identifiers are distinct, so are those of the
/// result; and when the queued identifiers are distinct too, every queued
/// deployment is in the result — the queued copy, not the stored one, is
/// the one kept.
pub proof fn lemma_merge_spec(acc: Seq<Deployment>, mem: Seq<Deployment>)
    ensures
        merge_spec(acc, mem).len() >= acc.len(),
        forall|id: Seq<char>|
            #[trigger] contains_id(merge_spec(acc, mem), id) <==> (contains_id(acc, id)
                || contains_id(mem, id)),
        forall|j: int|
            0 <= j < acc.len() && !contains_id(mem, (#[trigger] acc[j]).id@) ==> merge_spec(acc, mem)[j]
                == acc[j],
        unique_ids(acc) ==> unique_ids(merge_spec(acc, mem)),
        unique_ids(acc) && unique_ids(mem) ==> forall|k: int|
            0 <= k < mem.len() ==> exists|j: int|
                0 <= j < merge_spec(acc, mem).len() && merge_spec(acc, mem)[j] == #[trigger] mem[k],
    decreases mem.len(),
{
    if mem.len() > 0 {
        let m = mem[0];
        let next = put_queued(acc, m);
        let rest = mem.drop_first();
        let r = merge_spec(acc, mem);
        lemma_put_queued(acc, m);
        lemma_merge_spec(next, rest);
        assert(r == merge_spec(next, rest));
        assert forall|id: Seq<char>| #[trigger] contains_id(mem, id) <==> (m.id@ == id || contains_id(rest, id)) by {
            if contains_id(mem, id) {
                let i = choose|i: int| 0 <= i < mem.len() && (#[trigger] mem[i]).id@ == id;
                if i > 0 {
                    assert(rest[i - 1] == mem[i]);
                }
            }
            if contains_id(rest, id) {
                let i = choose|i: int| 0 <= i < rest.len() && (#[trigger] rest[i]).id@ == id;
                assert(mem[i + 1] == rest[i]);
            }
            if m.id@ == id {
                assert(mem[0].id@ == id);
            }
        }
        assert forall|id: Seq<char>| #[trigger] contains_id(r, id) <==> (contains_id(acc, id)
            || contains_id(mem, id)) by {
            assert(contains_id(next, id) <==> (contains_id(acc, id) || m.id@ == id));
            assert(contains_id(mem, id) <==> (m.id@ == id || contains_id(rest, id)));
        }
        assert forall|j: int| 0 <= j < acc.len() && !contains_id(mem, (#[trigger] acc[j]).id@) implies r[j] == acc[j] by {
            assert(contains_id(mem, acc[j].id@) <==> (m.id@ == acc[j].id@ || contains_id(rest, acc[j].id@)));
            assert(next[j] == acc[j]);
        }
        if unique_ids(acc) && unique_ids(mem) {
            assert(unique_ids(rest)) by {
                assert forall|i: int, j: int| 0 <= i < j < rest.len() implies (#[trigger] rest[i]).id@
                    != (#[trigger] rest[j]).id@ by {
                    assert(rest[i] == mem[i + 1]);
                    assert(rest[j] == mem[j + 1]);
                }
            }
            assert forall|k: int| 0 <= k < mem.len() implies exists|j: int|
                0 <= j < r.len() && r[j] == #[trigger] mem[k] by {
                if k > 0 {
                    assert(rest[k - 1] == mem[k]);
                } else {
                    let w = choose|w: int| 0 <= w < next.len() && #[trigger] next[w] == m;
                    assert(!contains_id(rest, m.id@)) by {
                        if contains_id(rest, m.id@) {
                            let q = choose|q: int| 0 <= q < rest.len() && (#[trigger] rest[q]).id@ == m.id@;
                            assert(mem[q + 1].id@ == mem[0].id@);
                        }
                    }
                    assert(r[w] == next[w]);
                }
            }
        }
    }
}

/// Queueing a deployment that is not a duplicate keeps the queue free of
/// two active deployments of the same project and branch.
pub proof fn lemma_queue_keeps_no_active_duplicates(
    q: Seq<Deployment>,
    id: String,
    name: String,
    project: ProjectConfig,
    now: i64,
)
    requires
        no_active_duplicates(q),
        !has_duplicate(q, name@, project.branch@),
    ensures
        no_active_duplicates(q.push(new_pending(id, name, project, now))),
{
    let r = q.push(new_pending(id, name, project, now));
    assert forall|i: int, j: int|
        0 <= i < j < r.len() && (#[trigger] r[i]).status.is_active() && (
        #[trigger] r[j]).status.is_active() implies !(r[i].project_name@ == r[j].project_name@
        && r[i].project.branch@ == r[j].project.branch@) by {
        if j == q.len() {
            assert(r[i] == q[i]);
            if r[i].project_name@ == r[j].project_name@ && r[i].project.branch@
                == r[j].project.branch@ {
                assert(is_duplicate_of(q[i], name@, project.branch@));
            }
        } else {
            assert(r[i] == q[i]);
            assert(r[j] == q[j]);
        }
    }
}

/// Taking a deployment out of the queue keeps it free of active duplicates.
pub proof fn lemma_remove_keeps_no_active_duplicates(q: Seq<Deployment>, i: int)
    requires
        no_active_duplicates(q),
        0 <= i < q.len(),
    ensures
        no_active_duplicates(q.remove(i)),
{
    let r = q.remove(i);
    assert forall|a: int, b: int|
        0 <= a < b < r.len() && (#[trigger] r[a]).status.is_active() && (
        #[trigger] r[b]).status.is_active() implies !(r[a].project_name@ == r[b].project_name@
        && r[a].project.branch@ == r[b].project.branch@) by {
        let qa = if a < i { a } else { a + 1 };
        let qb = if b < i { b } else { b + 1 };
        assert(r[a] == q[qa]);
        assert(r[b] == q[qb]);
    }
}

/// Finishing a queued deployment keeps the queue free of active duplicates.
pub proof fn lemma_finish_keeps_no_active_duplicates(
    q: Seq<Deployment>,
    i: int,
    status: DeploymentStatus,
    now: i64,
)
    requires
        no_active_duplicates(q),
        0 <= i < q.len(),
        status.is_terminal(),
    ensures
        no_active_duplicates(q.update(i, with_status(q[i], status, now))),
{
    let r = q.update(i, with_status(q[i], status, now));
    assert forall|a: int, b: int|
        0 <= a < b < r.len() && (#[trigger] r[a]).status.is_active() && (
        #[trigger] r[b]).status.is_active() implies !(r[a].project_name@ == r[b].project_name@
        && r[a].project.branch@ == r[b].project.branch@) by {
        assert(a != i && b != i);
        assert(r[a] == q[a]);
        assert(r[b] == q[b]);
    }
}

/// A queued deployment is found by its identifier, waiting and never
/// started, when no queued deployment had that identifier before.
pub proof fn lemma_find_after_queue(
    q: Seq<Deployment>,
    id: String,
    name: String,
    project: ProjectConfig,
    now: i64,
)
    requires
        !contains_id(q, id@),
    ensures
        ({
            let r = q.push(new_pending(id, name, project, now));
            &&& first_where(r, has_id(id@)) == q.len()
            &&& r[q.len() as int].status is Pending
            &&& r[q.len() as int].project_name == name
            &&& r[q.len() as int].started_at is None
        }),
{
    let r = q.push(new_pending(id, name, project, now));
    assert forall|j: int| 0 <= j < q.len() implies !has_id(id@)(#[trigger] r[j]) by {
        assert(r[j] == q[j]);
    }
    lemma_first_where(r, has_id(id@), q.len() as int);
}

/// A waiting deployment with a unique identifier can be deleted, after
/// which no queued deployment has that identifier.
pub proof fn lemma_delete_pending_removes(q: Seq<Deployment>, i: int)
    requires
        unique_ids(q),
        0 <= i < q.len(),
        q[i].status is Pending,
    ensures
        first_where(q, has_id_and_status(q[i].id@, DeploymentStatus::Pending)) == i,
        first_where(q.remove(i), has_id(q[i].id@)) == -1,
{
    let id = q[i].id@;
    let p = has_id_and_status(id, DeploymentStatus::Pending);
    assert forall|j: int| 0 <= j < i implies !p(#[trigger] q[j]) by {}
    lemma_first_where(q, p, i);
    let r = q.remove(i);
    assert forall|j: int| 0 <= j < r.len() implies !has_id(id)(#[trigger] r[j]) by {
        if j < i {
            assert(r[j] == q[j]);
        } else {
            assert(r[j] == q[j + 1]);
        }
    }
    lemma_first_where(r, has_id(id), r.len() as int);
}

/// A deployment marked running can no longer be deleted as waiting.
pub proof fn lemma_running_not_deletable(q: Seq<Deployment>, i: int, now: i64)
    requires
        unique_ids(q),
        0 <= i < q.len(),
    ensures
        ({
            let r = q.update(i, with_status(q[i], DeploymentStatus::Running, now));
            first_where(r, has_id_and_status(q[i].id@, DeploymentStatus::Pending)) == -1
        }),
{
    let id = q[i].id@;
    let r = q.update(i, with_status(q[i], DeploymentStatus::Running, now));
    let p = has_id_and_status(id, DeploymentStatus::Pending);
    assert forall|j: int| 0 <= j < r.len() implies !p(#[trigger] r[j]) by {
        if j != i {
            assert(r[j] == q[j]);
        }
    }
    lemma_first_where(r, p, r.len() as int);
}

/// A deployment marked failed can be retried, and waits again with its
/// times cleared.
pub proof fn lemma_failed_then_retry(q: Seq<Deployment>, i: int, now: i64)
    requires
        unique_ids(q),
        0 <= i < q.len(),
    ensures
        ({
            let r = q.update(i, with_status(q[i], DeploymentStatus::Failed, now));
            &&& first_where(r, has_id_and_status(q[i].id@, DeploymentStatus::Failed)) == i
            &&& reset_for_retry(r[i]).status is Pending
            &&& reset_for_retry(r[i]).started_at is None
            &&& reset_for_retry(r[i]).finished_at is None
            &&& reset_for_retry(r[i]).id == q[i].id
        }),
{
    let id = q[i].id@;
    let r = q.update(i, with_status(q[i], DeploymentStatus::Failed, now));
    let p = has_id_and_status(id, DeploymentStatus::Failed);
    assert forall|j: int| 0 <= j < i implies !p(#[trigger] r[j]) by {
        assert(r[j] == q[j]);
    }
    lemma_first_where(r, p, i);
}

/// Finishing a queued deployment, whichever way, stores the start time it
/// has on record and the finishing time, and keeps that start time on the
/// deployment in the queue: what is stored agrees with what is kept.
pub proof fn lemma_finish_keeps_start_time(d: Deployment, status: DeploymentStatus, now: i64)
    requires
        status is Success || status is Failed || status is Cancelled,
    ensures
        stored_times(d, status, now) == (d.started_at, Some(now)),
        with_status(d, status, now).started_at == d.started_at,
        with_status(d, status, now).finished_at == Some(now),
        stored_times(d, status, now) == (
            with_status(d, status, now).started_at,
            with_status(d, status, now).finished_at,
        ),
{
}

/// A queued deployment started at `started` and then finished at `finished`
/// is stored with both times.
pub proof fn lemma_start_then_finish(
    d: Deployment,
    started: i64,
    status: DeploymentStatus,
    finished: i64,
)
    requires
        status is Success || status is Failed || status is Cancelled,
    ensures
        stored_times(d, DeploymentStatus::Running, started) == (Some(started), None::<i64>),
        stored_times(with_status(d, DeploymentStatus::Running, started), status, finished) == (
            Some(started),
            Some(finished),
        ),
{
}

} // verus!
