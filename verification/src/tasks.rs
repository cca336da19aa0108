//! The list of download tasks: adding a task, recording its host and the
//! players tried, moving it through its statuses, cancelling and forgetting
//! it; and the figures shown while a file downloads.
use vstd::prelude::*;
use crate::providers::ScraperError;
use crate::text::{owned, push_str, str_eq};

verus! {

/// How far a download has gone: bytes received, total bytes (0 when
/// unknown), speed in bytes per second, seconds left, and the resolution of
/// the stream when known.
pub struct DownloadProgress {
    pub id: String,
    pub downloaded: u64,
    pub total: u64,
    pub speed_bytes_per_sec: u64,
    pub eta_seconds: u64,
    pub resolution: Option<String>,
}

/// Where a task stands.
pub enum DownloadStatus {
    Queued,
    Extracting,
    Downloading(DownloadProgress),
    Completed,
    Failed(String),
    Cancelled,
}

/// A download task: its id, the address being downloaded, the file it
/// writes, its status, the host being tried and the players tried so far.
pub struct DownloadTask {
    pub id: String,
    pub url: String,
    pub output_path: String,
    pub status: DownloadStatus,
    pub host: Option<String>,
    pub attempted_lecteurs: Vec<u64>,
}

/// How far a download has gone, as plain values: its id, bytes received,
/// total bytes, speed, seconds left and resolution.
pub struct ProgressView {
    pub id: Seq<char>,
    pub downloaded: u64,
    pub total: u64,
    pub speed_bytes_per_sec: u64,
    pub eta_seconds: u64,
    pub resolution: Option<Seq<char>>,
}

pub open spec fn progress_view(p: DownloadProgress) -> ProgressView {
    ProgressView {
        id: p.id@,
        downloaded: p.downloaded,
        total: p.total,
        speed_bytes_per_sec: p.speed_bytes_per_sec,
        eta_seconds: p.eta_seconds,
        resolution: p.resolution.deep_view(),
    }
}

/// The status of a task, as plain values: its kind, its progress and its message.
pub enum StatusKind {
    Queued,
    Extracting,
    Downloading(ProgressView),
    Completed,
    Failed(Seq<char>),
    Cancelled,
}

pub open spec fn status_kind(s: DownloadStatus) -> StatusKind {
    match s {
        DownloadStatus::Queued => StatusKind::Queued,
        DownloadStatus::Extracting => StatusKind::Extracting,
        DownloadStatus::Downloading(p) => StatusKind::Downloading(progress_view(p)),
        DownloadStatus::Completed => StatusKind::Completed,
        DownloadStatus::Failed(m) => StatusKind::Failed(m@),
        DownloadStatus::Cancelled => StatusKind::Cancelled,
    }
}

/// What a task holds, as plain values.
pub struct TaskView {
    pub id: Seq<char>,
    pub url: Seq<char>,
    pub output_path: Seq<char>,
    pub status: StatusKind,
    pub host: Option<Seq<char>>,
    pub attempted: Seq<u64>,
}

pub open spec fn task_view(t: DownloadTask) -> TaskView {
    TaskView {
        id: t.id@,
        url: t.url@,
        output_path: t.output_path@,
        status: status_kind(t.status),
        host: t.host.deep_view(),
        attempted: t.attempted_lecteurs@,
    }
}

pub open spec fn tasks_view(s: Seq<DownloadTask>) -> Seq<TaskView> {
    Seq::new(s.len(), |i: int| task_view(s[i]))
}

/// The position of the first task with id `id`.
pub open spec fn task_index(ts: Seq<TaskView>, id: Seq<char>) -> Option<int>
    decreases ts.len(),
{
    if ts.len() == 0 {
        None
    } else {
        match task_index(ts.drop_last(), id) {
            Some(i) => Some(i),
            None => if ts.last().id == id {
                Some(ts.len() - 1)
            } else {
                None
            },
        }
    }
}

pub proof fn lemma_task_index(ts: Seq<TaskView>, id: Seq<char>)
    ensures
        task_index(ts, id) matches Some(i) ==> 0 <= i < ts.len() && ts[i].id == id && forall|j: int|
            0 <= j < i ==> #[trigger] ts[j].id != id,
        task_index(ts, id) is None ==> forall|j: int| 0 <= j < ts.len() ==> #[trigger] ts[j].id != id,
    decreases ts.len(),
{
    if ts.len() > 0 {
        let d = ts.drop_last();
        lemma_task_index(d, id);
        match task_index(d, id) {
            Some(i) => {
                assert(d[i] == ts[i]);
                assert forall|j: int| 0 <= j < i implies #[trigger] ts[j].id != id by {
                    assert(d[j] == ts[j]);
                }
            },
            None => {
                assert forall|j: int| 0 <= j < ts.len() - 1 implies #[trigger] ts[j].id != id by {
                    assert(d[j] == ts[j]);
                }
            },
        }
    }
}

/// The tasks whose id is not `id`, in order.
pub open spec fn without_task(ts: Seq<TaskView>, id: Seq<char>) -> Seq<TaskView> {
    ts.filter(|t: TaskView| t.id != id)
}

/// `ts` with the task at `i` replaced by `t`.
pub open spec fn with_task(ts: Seq<TaskView>, i: int, t: TaskView) -> Seq<TaskView> {
    ts.update(i, t)
}

/// The tasks, in the order they were added.
pub struct TaskList {
    pub tasks: Vec<DownloadTask>,
}

/// A new task id: a random UUID, from `uuid::Uuid::new_v4`.
#[verifier::external_body]
fn new_task_id() -> (r: String) {
    uuid::Uuid::new_v4().to_string()
}

/// The message of a task that cannot be found.
pub open spec fn missing_task(id: Seq<char>, word: Seq<char>) -> Seq<char> {
    "Task "@ + id + " "@ + word
}

fn missing_task_error(id: &str, word: &str) -> (r: ScraperError)
    ensures
        r matches ScraperError::IoError(m) && m@ == missing_task(id@, word@),
{
    let mut m = owned("Task ");
    push_str(&mut m, id);
    push_str(&mut m, " ");
    push_str(&mut m, word);
    ScraperError::IoError(m)
}

fn copy_progress(p: &DownloadProgress) -> (r: DownloadProgress)
    ensures
        r.downloaded == p.downloaded,
        r.total == p.total,
        r.speed_bytes_per_sec == p.speed_bytes_per_sec,
        r.eta_seconds == p.eta_seconds,
        r.id@ == p.id@,
        r.resolution.deep_view() == p.resolution.deep_view(),
{
    DownloadProgress {
        id: owned(p.id.as_str()),
        downloaded: p.downloaded,
        total: p.total,
        speed_bytes_per_sec: p.speed_bytes_per_sec,
        eta_seconds: p.eta_seconds,
        resolution: match &p.resolution {
            Some(r) => Some(owned(r.as_str())),
            None => None,
        },
    }
}

/// A copy of a task.
pub fn copy_task(t: &DownloadTask) -> (r: DownloadTask)
    ensures
        task_view(r) == task_view(*t),
{
    let status = match &t.status {
        DownloadStatus::Queued => DownloadStatus::Queued,
        DownloadStatus::Extracting => DownloadStatus::Extracting,
        DownloadStatus::Downloading(p) => DownloadStatus::Downloading(copy_progress(p)),
        DownloadStatus::Completed => DownloadStatus::Completed,
        DownloadStatus::Failed(m) => DownloadStatus::Failed(owned(m.as_str())),
        DownloadStatus::Cancelled => DownloadStatus::Cancelled,
    };
    let mut attempted: Vec<u64> = Vec::new();
    let mut i: usize = 0;
    while i < t.attempted_lecteurs.len()
        invariant
            i <= t.attempted_lecteurs@.len(),
            attempted@ == t.attempted_lecteurs@.take(i as int),
        decreases t.attempted_lecteurs@.len() - i,
    {
        attempted.push(t.attempted_lecteurs[i]);
        i = i + 1;
        assert(attempted@ =~= t.attempted_lecteurs@.take(i as int));
    }
    assert(t.attempted_lecteurs@.take(i as int) =~= t.attempted_lecteurs@);
    DownloadTask {
        id: owned(t.id.as_str()),
        url: owned(t.url.as_str()),
        output_path: owned(t.output_path.as_str()),
        status,
        host: match &t.host {
            Some(h) => Some(owned(h.as_str())),
            None => None,
        },
        attempted_lecteurs: attempted,
    }
}

impl TaskList {
    /// No task.
    pub fn new() -> (r: Self)
        ensures
            tasks_view(r.tasks@) == Seq::<TaskView>::empty(),
    {
        let r = TaskList { tasks: Vec::new() };
        assert(tasks_view(r.tasks@) =~= Seq::<TaskView>::empty());
        r
    }

    /// The position of the first task with the id.
    pub fn find(&self, id: &str) -> (r: Option<usize>)
        ensures
            r matches Some(i) ==> task_index(tasks_view(self.tasks@), id@) == Some(i as int),
            r is None ==> task_index(tasks_view(self.tasks@), id@) is None,
    {
        let ghost tv = tasks_view(self.tasks@);
        proof {
            lemma_task_index(tv, id@);
        }
        let mut i: usize = 0;
        while i < self.tasks.len()
            invariant
                i <= self.tasks@.len(),
                tv == tasks_view(self.tasks@),
                forall|j: int| 0 <= j < i ==> #[trigger] tv[j].id != id@,
            decreases self.tasks@.len() - i,
        {
            if str_eq(self.tasks[i].id.as_str(), id) {
                assert(tv[i as int] == task_view(self.tasks@[i as int]));
                assert(tv[i as int].id == id@);
                proof {
                    lemma_task_index(tv, id@);
                }
                return Some(i);
            }
            i = i + 1;
        }
        None
    }

    /// Records the host being tried on the task with the id; the position of
    /// the task changed, if there is one.
    pub fn set_task_host(&mut self, id: &str, host: Option<String>) -> (r: Option<usize>)
        ensures
            r == (match task_index(tasks_view(old(self).tasks@), id@) {
                Some(i) => Some(i as usize),
                None => None,
            }),
            match task_index(tasks_view(old(self).tasks@), id@) {
                Some(i) => tasks_view(final(self).tasks@) == with_task(
                    tasks_view(old(self).tasks@),
                    i,
                    TaskView { host: host.deep_view(), ..tasks_view(old(self).tasks@)[i] },
                ),
                None => tasks_view(final(self).tasks@) == tasks_view(old(self).tasks@),
            },
    {
        proof {
            lemma_task_index(tasks_view(self.tasks@), id@);
        }
        match self.find(id) {
            Some(i) => {
                let ghost before = self.tasks@;
                let mut t = self.tasks.remove(i);
                t.host = host;
                self.tasks.insert(i, t);
                assert(tasks_view(self.tasks@) =~= with_task(
                    tasks_view(before),
                    i as int,
                    TaskView { host: host.deep_view(), ..tasks_view(before)[i as int] },
                ));
                Some(i)
            },
            None => None,
        }
    }

    /// Records that a player was tried on the task with the id, once.
    pub fn add_attempted_lecteur(&mut self, id: &str, lecteur: u64) -> (r: Option<usize>)
        ensures
            r == (match task_index(tasks_view(old(self).tasks@), id@) {
                Some(i) => Some(i as usize),
                None => None,
            }),
            match task_index(tasks_view(old(self).tasks@), id@) {
                Some(i) => {
                    let t = tasks_view(old(self).tasks@)[i];
                    tasks_view(final(self).tasks@) == with_task(
                        tasks_view(old(self).tasks@),
                        i,
                        TaskView {
                            attempted: if t.attempted.contains(lecteur) {
                                t.attempted
                            } else {
                                t.attempted.push(lecteur)
                            },
                            ..t
                        },
                    )
                },
                None => tasks_view(final(self).tasks@) == tasks_view(old(self).tasks@),
            },
    {
        proof {
            lemma_task_index(tasks_view(self.tasks@), id@);
        }
        match self.find(id) {
            Some(i) => {
                let ghost before = self.tasks@;
                let mut t = self.tasks.remove(i);
                let mut seen = false;
                let mut k: usize = 0;
                while k < t.attempted_lecteurs.len()
                    invariant
                        k <= t.attempted_lecteurs@.len(),
                        seen == exists|j: int| 0 <= j < k && #[trigger] t.attempted_lecteurs@[j] == lecteur,
                    decreases t.attempted_lecteurs@.len() - k,
                {
                    if t.attempted_lecteurs[k] == lecteur {
                        seen = true;
                    }
                    k = k + 1;
                }
                assert(seen == t.attempted_lecteurs@.contains(lecteur));
                if !seen {
                    t.attempted_lecteurs.push(lecteur);
                }
                let ghost tv = task_view(t);
                self.tasks.insert(i, t);
                let ghost old_t = tasks_view(before)[i as int];
                assert(tv == TaskView {
                    attempted: if old_t.attempted.contains(lecteur) {
                        old_t.attempted
                    } else {
                        old_t.attempted.push(lecteur)
                    },
                    ..old_t
                });
                assert(tasks_view(self.tasks@) =~= with_task(tasks_view(before), i as int, tv));
                Some(i)
            },
            None => None,
        }
    }

    /// Adds a task for the file, waiting for the address of its video; its
    /// new id is returned.
    pub fn add_pending(&mut self, output_path: String) -> (id: String)
        ensures
            tasks_view(final(self).tasks@) == tasks_view(old(self).tasks@).push(
                TaskView {
                    id: id@,
                    url: Seq::empty(),
                    output_path: output_path@,
                    status: StatusKind::Extracting,
                    host: None,
                    attempted: Seq::empty(),
                },
            ),
    {
        let id = new_task_id();
        let t = DownloadTask {
            id: owned(id.as_str()),
            url: String::new(),
            output_path,
            status: DownloadStatus::Extracting,
            host: None,
            attempted_lecteurs: Vec::new(),
        };
        let ghost before = self.tasks@;
        self.tasks.push(t);
        assert(tasks_view(self.tasks@) =~= tasks_view(before).push(task_view(t)));
        id
    }

    /// Sets the status of the task with the id, if there is one.
    pub fn update_task_status(&mut self, id: &str, status: DownloadStatus) -> (r: Option<usize>)
        ensures
            r == (match task_index(tasks_view(old(self).tasks@), id@) {
                Some(i) => Some(i as usize),
                None => None,
            }),
            match task_index(tasks_view(old(self).tasks@), id@) {
                Some(i) => tasks_view(final(self).tasks@) == with_task(
                    tasks_view(old(self).tasks@),
                    i,
                    TaskView { status: status_kind(status), ..tasks_view(old(self).tasks@)[i] },
                ),
                None => tasks_view(final(self).tasks@) == tasks_view(old(self).tasks@),
            },
    {
        proof {
            lemma_task_index(tasks_view(self.tasks@), id@);
        }
        match self.find(id) {
            Some(i) => {
                let ghost before = self.tasks@;
                let ghost sk = status_kind(status);
                let mut t = self.tasks.remove(i);
                t.status = status;
                self.tasks.insert(i, t);
                assert(tasks_view(self.tasks@) =~= with_task(
                    tasks_view(before),
                    i as int,
                    TaskView { status: sk, ..tasks_view(before)[i as int] },
                ));
                Some(i)
            },
            None => None,
        }
    }

    /// Marks the task with the id failed with the message.
    pub fn mark_failed(&mut self, id: &str, msg: String) -> (r: Option<usize>)
        ensures
            match task_index(tasks_view(old(self).tasks@), id@) {
                Some(i) => r == Some(i as usize) && tasks_view(final(self).tasks@) == with_task(
                    tasks_view(old(self).tasks@),
                    i,
                    TaskView { status: StatusKind::Failed(msg@), ..tasks_view(old(self).tasks@)[i] },
                ),
                None => r is None && tasks_view(final(self).tasks@) == tasks_view(old(self).tasks@),
            },
    {
        self.update_task_status(id, DownloadStatus::Failed(msg))
    }

    /// Marks the task with the id cancelled (the caller wakes up its download).
    pub fn cancel(&mut self, id: &str) -> (r: Option<usize>)
        ensures
            match task_index(tasks_view(old(self).tasks@), id@) {
                Some(i) => r == Some(i as usize) && tasks_view(final(self).tasks@) == with_task(
                    tasks_view(old(self).tasks@),
                    i,
                    TaskView { status: StatusKind::Cancelled, ..tasks_view(old(self).tasks@)[i] },
                ),
                None => r is None && tasks_view(final(self).tasks@) == tasks_view(old(self).tasks@),
            },
    {
        self.update_task_status(id, DownloadStatus::Cancelled)
    }

    /// The first task with the id is cancelled.
    pub fn is_cancelled(&self, id: &str) -> (b: bool)
        ensures
            b == (match task_index(tasks_view(self.tasks@), id@) {
                Some(i) => tasks_view(self.tasks@)[i].status is Cancelled,
                None => false,
            }),
    {
        proof {
            lemma_task_index(tasks_view(self.tasks@), id@);
        }
        match self.find(id) {
            Some(i) => {
                assert(tasks_view(self.tasks@)[i as int] == task_view(self.tasks@[i as int]));
                match self.tasks[i].status {
                    DownloadStatus::Cancelled => true,
                    _ => false,
                }
            },
            None => false,
        }
    }

    /// Removes every task with the id.
    pub fn forget(&mut self, id: &str)
        ensures
            tasks_view(final(self).tasks@) == without_task(tasks_view(old(self).tasks@), id@),
    {
        let ghost start = tasks_view(self.tasks@);
        let mut kept: Vec<DownloadTask> = Vec::new();
        let mut rest: Vec<DownloadTask> = Vec::new();
        std::mem::swap(&mut rest, &mut self.tasks);
        assert(tasks_view(rest@) == start);
        let n0: usize = rest.len();
        let ghost n = n0 as nat;
        let mut k: usize = 0;
        reveal(Seq::filter);
        assert(start.take(0).filter(|t: TaskView| t.id != id@) =~= Seq::<TaskView>::empty());
        while rest.len() > 0
            invariant
                k + rest@.len() == n,
                n == start.len(),
                tasks_view(rest@) == start.skip(k as int),
                tasks_view(kept@) == start.take(k as int).filter(|t: TaskView| t.id != id@),
                n <= usize::MAX,
            decreases rest@.len(),
        {
            reveal(Seq::filter);
            let ghost rv = tasks_view(rest@);
            let t = rest.remove(0);
            assert(task_view(t) == start[k as int]) by {
                assert(rv[0] == start.skip(k as int)[0]);
            }
            assert forall|j: int| 0 <= j < rest@.len() implies #[trigger] tasks_view(rest@)[j] == start.skip(k + 1)[j] by {
                assert(rv[j + 1] == start.skip(k as int)[j + 1]);
            }
            assert(tasks_view(rest@) =~= start.skip(k + 1));
            assert(start.take(k + 1).drop_last() =~= start.take(k as int));
            assert(start.take(k + 1).last() == start[k as int]);
            if !str_eq(t.id.as_str(), id) {
                let ghost before = tasks_view(kept@);
                kept.push(t);
                assert(tasks_view(kept@) =~= before.push(task_view(t)));
            }
            k = k + 1;
        }
        assert(start.take(k as int) =~= start);
        self.tasks = kept;
    }

    /// The file of the task with the id, or an error when it is gone.
    pub fn output_path_of(&self, id: &str) -> (r: Result<String, ScraperError>)
        ensures
            match task_index(tasks_view(self.tasks@), id@) {
                Some(i) => r matches Ok(p) && p@ == tasks_view(self.tasks@)[i].output_path,
                None => r matches Err(ScraperError::IoError(m)) && m@ == missing_task(id@, "disparue"@),
            },
    {
        proof {
            lemma_task_index(tasks_view(self.tasks@), id@);
        }
        match self.find(id) {
            Some(i) => {
                assert(tasks_view(self.tasks@)[i as int] == task_view(self.tasks@[i as int]));
                Ok(owned(self.tasks[i].output_path.as_str()))
            },
            None => Err(missing_task_error(id, "disparue")),
        }
    }

    /// Starts working on the task with the id: records the address and the
    /// status; an error when the task does not exist.
    pub fn begin(&mut self, id: &str, url: String, status: DownloadStatus) -> (r: Result<usize, ScraperError>)
        ensures
            match task_index(tasks_view(old(self).tasks@), id@) {
                Some(i) => r == Ok::<usize, ScraperError>(i as usize) && tasks_view(final(self).tasks@) == with_task(
                    tasks_view(old(self).tasks@),
                    i,
                    TaskView { url: url@, status: status_kind(status), ..tasks_view(old(self).tasks@)[i] },
                ),
                None => r matches Err(ScraperError::IoError(m)) && m@ == missing_task(id@, "introuvable"@)
                    && tasks_view(final(self).tasks@) == tasks_view(old(self).tasks@),
            },
    {
        proof {
            lemma_task_index(tasks_view(self.tasks@), id@);
        }
        match self.find(id) {
            Some(i) => {
                let ghost before = self.tasks@;
                let ghost sk = status_kind(status);
                let mut t = self.tasks.remove(i);
                t.url = url;
                t.status = status;
                self.tasks.insert(i, t);
                assert(tasks_view(self.tasks@) =~= with_task(
                    tasks_view(before),
                    i as int,
                    TaskView { url: url@, status: sk, ..tasks_view(before)[i as int] },
                ));
                Ok(i)
            },
            None => Err(missing_task_error(id, "introuvable")),
        }
    }

    /// A download finished: the task is completed unless it was cancelled meanwhile.
    pub fn complete_unless_cancelled(&mut self, id: &str) -> (r: Option<usize>)
        ensures
            match task_index(tasks_view(old(self).tasks@), id@) {
                Some(i) => if tasks_view(old(self).tasks@)[i].status is Cancelled {
                    r is None && tasks_view(final(self).tasks@) == tasks_view(old(self).tasks@)
                } else {
                    r == Some(i as usize) && tasks_view(final(self).tasks@) == with_task(
                        tasks_view(old(self).tasks@),
                        i,
                        TaskView { status: StatusKind::Completed, ..tasks_view(old(self).tasks@)[i] },
                    )
                },
                None => r is None && tasks_view(final(self).tasks@) == tasks_view(old(self).tasks@),
            },
    {
        if self.is_cancelled(id) {
            None
        } else {
            self.update_task_status(id, DownloadStatus::Completed)
        }
    }
}

// ---------------------------------------------------------------------------
// Laws
// ---------------------------------------------------------------------------

/// After a task is forgotten no task has its id, and the other tasks stay in
/// their order.
pub proof fn lemma_forget_removes(ts: Seq<TaskView>, id: Seq<char>)
    ensures
        forall|i: int| 0 <= i < without_task(ts, id).len() ==> #[trigger] without_task(ts, id)[i].id != id,
        task_index(without_task(ts, id), id) is None,
{
    let f = without_task(ts, id);
    broadcast use vstd::seq_lib::group_filter_ensures;
    assert forall|i: int| 0 <= i < f.len() implies #[trigger] f[i].id != id by {
        assert((|t: TaskView| t.id != id)(f[i]));
    }
    lemma_task_index(f, id);
}

/// Recording a player twice records it once.
pub proof fn lemma_attempted_once(attempted: Seq<u64>, l: u64)
    ensures
        ({
            let once = if attempted.contains(l) {
                attempted
            } else {
                attempted.push(l)
            };
            &&& once.contains(l)
            &&& (if once.contains(l) {
                once
            } else {
                once.push(l)
            }) == once
        }),
{
    if !attempted.contains(l) {
        assert(attempted.push(l)[attempted.len() as int] == l);
    }
}

// ---------------------------------------------------------------------------
// Figures of a download
// ---------------------------------------------------------------------------

/// The smallest file accepted as a video.
pub const MIN_VALID_DOWNLOAD_BYTES: u64 = 100_000;

/// Seconds left at the current speed: the bytes left over the speed, or 0
/// when the speed or the total is unknown or everything arrived.
pub fn eta_seconds(total: u64, downloaded: u64, speed: u64) -> (r: u64)
    ensures
        r == (if speed > 0 && total > downloaded {
            ((total - downloaded) / (speed as int)) as u64
        } else {
            0
        }),
{
    if speed > 0 && total > downloaded {
        (total - downloaded) / speed
    } else {
        0
    }
}

/// Progress is reported at most every quarter of a second, and once more when everything arrived.
pub fn should_report_progress(ms_since_last: u64, total: u64, downloaded: u64) -> (b: bool)
    ensures
        b == (ms_since_last >= 250 || (total > 0 && downloaded >= total)),
{
    ms_since_last >= 250 || (total > 0 && downloaded >= total)
}

/// A content type that is not a video: HTML, JSON, plain text or XML.
pub open spec fn non_video_content_type(ct_lower: Seq<char>) -> bool {
    crate::text::contains(ct_lower, "text/html"@) || crate::text::contains(ct_lower, "application/json"@)
        || crate::text::contains(ct_lower, "text/plain"@) || crate::text::contains(
        ct_lower,
        "application/xml"@,
    )
}

/// A response is refused when its content type, in lower case, is not a video.
pub fn check_content_type(content_type: &str) -> (r: Result<(), ScraperError>)
    ensures
        non_video_content_type(crate::text::lowercase(content_type@)) <==> r is Err,
        r matches Err(e) ==> (e matches ScraperError::NetworkError(m) && m@ == "réponse non-vidéo (Content-Type: "@
            + crate::text::lowercase(content_type@) + ")"@),
{
    let ct = crate::text::to_lowercase(content_type);
    let c = ct.as_str();
    if crate::text::str_contains(c, "text/html") || crate::text::str_contains(c, "application/json")
        || crate::text::str_contains(c, "text/plain") || crate::text::str_contains(c, "application/xml") {
        let mut m = owned("réponse non-vidéo (Content-Type: ");
        push_str(&mut m, c);
        push_str(&mut m, ")");
        Err(ScraperError::NetworkError(m))
    } else {
        Ok(())
    }
}

/// A written file smaller than `MIN_VALID_DOWNLOAD_BYTES` is refused (and removed by the caller).
pub fn check_written_size(written: u64) -> (r: Result<(), ScraperError>)
    ensures
        written < MIN_VALID_DOWNLOAD_BYTES <==> r is Err,
        r matches Err(e) ==> (e matches ScraperError::NetworkError(m) && m@ == "fichier trop petit ("@
            + crate::num::decimal(written as nat) + " octets), source probablement invalide"@),
{
    if written < MIN_VALID_DOWNLOAD_BYTES {
        let mut m = owned("fichier trop petit (");
        crate::num::push_decimal(&mut m, written);
        push_str(&mut m, " octets), source probablement invalide");
        Err(ScraperError::NetworkError(m))
    } else {
        Ok(())
    }
}

/// A failed download is tried again while fewer than `max_retries` retries were made.
pub fn should_retry(attempts: u32, max_retries: u32) -> (b: bool)
    ensures
        b == (attempts < max_retries),
{
    attempts < max_retries
}

/// The next wait between two tries: the scaled wait, capped at the most allowed.
pub fn capped_delay(scaled: u64, max_delay_ms: u64) -> (r: u64)
    ensures
        r == (if scaled < max_delay_ms {
            scaled
        } else {
            max_delay_ms
        }),
{
    if scaled < max_delay_ms {
        scaled
    } else {
        max_delay_ms
    }
}

/// Where a run of tries of one download stands: the retries made so far and
/// the wait before the next one.
pub struct RetryRun {
    pub attempts: u32,
    pub delay_ms: u64,
}

/// What to do after a failed try.
pub enum RetryStep {
    /// No retry is left: the error of this try is the result.
    GiveUp,
    /// Wait this many milliseconds, then try again.
    WaitThenRetry(u64),
}

impl RetryRun {
    /// No retry made yet; the first wait is `initial_delay_ms`.
    pub fn new(initial_delay_ms: u64) -> (r: Self)
        ensures
            r.attempts == 0,
            r.delay_ms == initial_delay_ms,
    {
        RetryRun { attempts: 0, delay_ms: initial_delay_ms }
    }

    /// A try failed.  When `max_retries` retries were made the run gives up
    /// and stays as it is; otherwise it waits the current delay, counts one
    /// retry more, and the next delay is `scaled` (the current delay times the
    /// backoff factor) capped at `max_delay_ms`.
    pub fn after_failure(&mut self, max_retries: u32, scaled: u64, max_delay_ms: u64) -> (step: RetryStep)
        ensures
            old(self).attempts >= max_retries ==> step is GiveUp && *final(self) == *old(self),
            old(self).attempts < max_retries ==> step == RetryStep::WaitThenRetry(old(self).delay_ms)
                && final(self).attempts == old(self).attempts + 1 && final(self).delay_ms == capped_delay_spec(
                scaled,
                max_delay_ms,
            ),
    {
        if !should_retry(self.attempts, max_retries) {
            return RetryStep::GiveUp;
        }
        let wait = self.delay_ms;
        self.attempts = self.attempts + 1;
        self.delay_ms = capped_delay(scaled, max_delay_ms);
        RetryStep::WaitThenRetry(wait)
    }
}

/// The capped wait, as `capped_delay` computes it.
pub open spec fn capped_delay_spec(scaled: u64, max_delay_ms: u64) -> u64 {
    if scaled < max_delay_ms {
        scaled
    } else {
        max_delay_ms
    }
}

/// A run of tries where the first `fails` tries fail and the next succeeds,
/// `attempts` retries being made already, stepped as `RetryRun::after_failure`
/// decides: the number of tries made and whether the run ends in success.
pub open spec fn retry_run(attempts: nat, fails: nat, max_retries: nat) -> (nat, bool)
    decreases fails,
{
    if fails == 0 {
        (1, true)
    } else if attempts >= max_retries {
        (1, false)
    } else {
        let (n, ok) = retry_run(attempts + 1, (fails - 1) as nat, max_retries);
        (n + 1, ok)
    }
}

/// A download whose first `fails` tries fail is tried `min(fails,
/// max_retries) + 1` times, and succeeds exactly when `fails <= max_retries`;
/// otherwise the result is the error of the last try.
pub proof fn lemma_retry_count(fails: nat, max_retries: nat)
    ensures
        retry_run(0, fails, max_retries) == (if fails <= max_retries { fails + 1 } else { max_retries + 1 },
            fails <= max_retries),
{
    lemma_retry_run_from(0, fails, max_retries);
}

proof fn lemma_retry_run_from(attempts: nat, fails: nat, max_retries: nat)
    requires
        attempts <= max_retries,
    ensures
        retry_run(attempts, fails, max_retries) == (if fails <= max_retries - attempts {
            fails + 1
        } else {
            (max_retries - attempts + 1) as nat
        }, fails <= max_retries - attempts),
    decreases fails,
{
    if fails > 0 && attempts < max_retries {
        lemma_retry_run_from(attempts + 1, (fails - 1) as nat, max_retries);
    }
}

} // verus!
