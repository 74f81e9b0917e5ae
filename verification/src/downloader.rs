//! File requirements and the download task queue. A [`FileInfo`] names one
//! file that must exist at a path with a given size (and, when known, a
//! content hash); the [`Downloader`] drains submitted requirements with a
//! bounded pool of workers, tracking a monotone per-task status and
//! emitting an event stream for the caller.

use vstd::prelude::*;
use vstd::string::StrSliceExecFns;
use crate::error::Error;

verus! {

/// One file that must exist locally: where to fetch it from, where it
/// must land, its expected size in bytes, and — when the manifest declares
/// one — its expected content hash.
#[derive(Debug, PartialEq)]
pub struct FileInfo {
    pub url: String,
    pub path: String,
    pub size: u64,
    pub sha1: Option<String>,
}

impl FileInfo {
    /// A requirement without a declared content hash.
    pub fn new(url: String, path: String, size: u64) -> (r: Self)
        ensures
            r.url == url,
            r.path == path,
            r.size == size,
            r.sha1 is None,
    {
        Self { url, path, size, sha1: None }
    }

    /// A requirement with a declared content hash.
    pub fn with_sha1(url: String, path: String, size: u64, sha1: String) -> (r: Self)
        ensures
            r.url == url,
            r.path == path,
            r.size == size,
            r.sha1 == Some(sha1),
    {
        Self { url, path, size, sha1: Some(sha1) }
    }
}

impl Clone for FileInfo {
    fn clone(&self) -> (r: Self)
        ensures
            r == *self,
    {
        let sha1 = match &self.sha1 {
            Some(s) => Some(s.clone()),
            None => None,
        };
        FileInfo { url: self.url.clone(), path: self.path.clone(), size: self.size, sha1 }
    }
}

/// The sum of the expected sizes of a list of requirements.
pub open spec fn sum_sizes(s: Seq<FileInfo>) -> int
    decreases s.len(),
{
    if s.len() == 0 {
        0
    } else {
        sum_sizes(s.drop_last()) + s.last().size
    }
}

proof fn lemma_sum_sizes_nonneg(s: Seq<FileInfo>)
    ensures
        sum_sizes(s) >= 0,
    decreases s.len(),
{
    if s.len() > 0 {
        lemma_sum_sizes_nonneg(s.drop_last());
    }
}

/// The total number of bytes a list of requirements asks for, saturating
/// at the largest representable count.
pub fn total_size(reqs: &Vec<FileInfo>) -> (r: u64)
    ensures
        r as int == if sum_sizes(reqs@) <= u64::MAX {
            sum_sizes(reqs@)
        } else {
            u64::MAX as int
        },
{
    let mut acc: u64 = 0;
    let mut i: usize = 0;
    proof {
        assert(reqs@.take(0) =~= Seq::<FileInfo>::empty());
    }
    while i < reqs.len()
        invariant
            i <= reqs@.len(),
            acc as int == if sum_sizes(reqs@.take(i as int)) <= u64::MAX {
                sum_sizes(reqs@.take(i as int))
            } else {
                u64::MAX as int
            },
        decreases reqs@.len() - i,
    {
        proof {
            assert(reqs@.take(i as int + 1).drop_last() =~= reqs@.take(i as int));
            assert(reqs@.take(i as int + 1).last() == reqs@[i as int]);
            lemma_sum_sizes_nonneg(reqs@.take(i as int));
        }
        let size = reqs[i].size;
        if u64::MAX - acc >= size {
            acc = acc + size;
        } else {
            acc = u64::MAX;
        }
        i += 1;
    }
    proof {
        assert(reqs@.take(reqs@.len() as int) =~= reqs@);
    }
    acc
}

/// The character-level content of a requirement, for specifications.
#[verifier::ext_equal]
pub struct ReqView {
    pub url: Seq<char>,
    pub path: Seq<char>,
    pub size: u64,
    pub sha1: Option<Seq<char>>,
}

/// What a requirement says, character by character.
pub open spec fn req_view(f: FileInfo) -> ReqView {
    ReqView {
        url: f.url@,
        path: f.path@,
        size: f.size,
        sha1: match f.sha1 {
            Some(s) => Some(s@),
            None => None,
        },
    }
}

/// How many leading characters of a path form its directory part: up to
/// and including the last `/`, or none when the path has no `/`.
pub open spec fn dir_prefix_len(s: Seq<char>) -> int
    decreases s.len(),
{
    if s.len() == 0 {
        0
    } else if s.last() == '/' {
        s.len() as int
    } else {
        dir_prefix_len(s.drop_last())
    }
}

/// The directory part of a path: everything up to and including the last
/// `/`; the empty string when the path has no `/`.
pub fn just_path(path: &str) -> (r: &str)
    ensures
        r@ == path@.subrange(0, dir_prefix_len(path@)),
        0 <= dir_prefix_len(path@) <= path@.len(),
{
    proof {
        lemma_dir_prefix_len_bound(path@);
    }
    let n = path.unicode_len();
    let mut i: usize = n;
    proof {
        assert(path@.take(path@.len() as int) =~= path@);
    }
    while i > 0
        invariant
            i <= n,
            n == path@.len(),
            dir_prefix_len(path@) == dir_prefix_len(path@.take(i as int)),
            0 <= dir_prefix_len(path@) <= path@.len(),
        decreases i,
    {
        proof {
            assert(path@.take(i as int).drop_last() =~= path@.take(i as int - 1));
        }
        if path.get_char(i - 1) == '/' {
            proof {
                assert(path@.take(i as int).last() == path@[i as int - 1]);
            }
            return path.substring_char(0, i);
        }
        i -= 1;
    }
    proof {
        reveal_strlit("");
        assert(path@.take(0) =~= Seq::<char>::empty());
        assert(""@ =~= path@.subrange(0, 0));
    }
    ""
}

proof fn lemma_dir_prefix_len_bound(s: Seq<char>)
    ensures
        0 <= dir_prefix_len(s) <= s.len(),
    decreases s.len(),
{
    if s.len() > 0 && s.last() != '/' {
        lemma_dir_prefix_len_bound(s.drop_last());
    }
}

/// The lifecycle snapshot of one task. Transitions are monotone: Queued,
/// then InProgress with a non-decreasing percentage, then exactly one of
/// Completed or Failed, which never changes again.
#[derive(Debug, PartialEq)]
pub enum TaskStatus {
    Queued,
    InProgress(u8),
    Completed,
    Failed(Error),
}

impl Clone for TaskStatus {
    fn clone(&self) -> (r: Self)
        ensures
            r == *self,
    {
        match self {
            TaskStatus::Queued => TaskStatus::Queued,
            TaskStatus::InProgress(p) => TaskStatus::InProgress(*p),
            TaskStatus::Completed => TaskStatus::Completed,
            TaskStatus::Failed(e) => TaskStatus::Failed(e.clone()),
        }
    }
}

/// One requirement admitted into the queue: its id equals its admission
/// index, so ids are unique for the queue's lifetime and admission order
/// is preserved.
#[derive(Debug, PartialEq)]
pub struct DownloadTask {
    pub id: u64,
    pub info: FileInfo,
    pub bytes: u64,
    pub status: TaskStatus,
}

/// One entry of the status stream: which task, and the status it entered.
#[derive(Debug, PartialEq)]
pub struct TaskEvent {
    pub id: u64,
    pub status: TaskStatus,
}

impl Clone for TaskEvent {
    fn clone(&self) -> (r: Self)
        ensures
            r == *self,
    {
        TaskEvent { id: self.id, status: self.status.clone() }
    }
}

/// The status order: a later status never falls behind an earlier one.
/// A terminal status only ever equals itself.
pub open spec fn status_le(a: TaskStatus, b: TaskStatus) -> bool {
    match a {
        TaskStatus::Queued => true,
        TaskStatus::InProgress(p) => match b {
            TaskStatus::Queued => false,
            TaskStatus::InProgress(q) => p <= q,
            TaskStatus::Completed => true,
            TaskStatus::Failed(_) => true,
        },
        TaskStatus::Completed => b is Completed,
        TaskStatus::Failed(_) => a == b,
    }
}

pub proof fn lemma_status_le_refl(a: TaskStatus)
    ensures
        status_le(a, a),
{
}

pub proof fn lemma_status_le_trans(a: TaskStatus, b: TaskStatus, c: TaskStatus)
    requires
        status_le(a, b),
        status_le(b, c),
    ensures
        status_le(a, c),
{
}

/// The progress percentage: how much of the expected size has arrived,
/// clamped to 100; an empty file is complete as soon as it starts.
pub open spec fn percent_spec(bytes: int, size: int) -> int {
    if size <= 0 {
        100
    } else if bytes * 100 / size > 100 {
        100
    } else {
        bytes * 100 / size
    }
}

proof fn lemma_percent_monotone(b1: int, b2: int, s: int)
    requires
        0 <= b1 <= b2,
        s >= 0,
    ensures
        percent_spec(b1, s) <= percent_spec(b2, s),
{
    if s > 0 {
        assert(b1 * 100 <= b2 * 100) by (nonlinear_arith)
            requires
                0 <= b1 <= b2,
        ;
        assert(b1 * 100 / s <= b2 * 100 / s) by (nonlinear_arith)
            requires
                s > 0,
                0 <= b1 * 100 <= b2 * 100,
        ;
    }
}

fn percent(bytes: u64, size: u64) -> (r: u8)
    ensures
        r as int == percent_spec(bytes as int, size as int),
{
    if size == 0 {
        100
    } else {
        let p: u128 = (bytes as u128) * 100 / (size as u128);
        if p > 100 {
            100
        } else {
            p as u8
        }
    }
}

/// How many tasks are currently in flight.
pub open spec fn count_in_progress(s: Seq<DownloadTask>) -> int
    decreases s.len(),
{
    if s.len() == 0 {
        0
    } else {
        count_in_progress(s.drop_last()) + (if s.last().status is InProgress {
            1int
        } else {
            0int
        })
    }
}

proof fn lemma_count_update(s: Seq<DownloadTask>, i: int, t: DownloadTask)
    requires
        0 <= i < s.len(),
    ensures
        count_in_progress(s.update(i, t)) == count_in_progress(s) + (if t.status is InProgress {
            1int
        } else {
            0int
        }) - (if s[i].status is InProgress {
            1int
        } else {
            0int
        }),
    decreases s.len(),
{
    let u = s.update(i, t);
    if i == s.len() - 1 {
        assert(u.drop_last() =~= s.drop_last());
    } else {
        assert(u.drop_last() =~= s.drop_last().update(i, t));
        lemma_count_update(s.drop_last(), i, t);
        assert(u.last() == s.last());
    }
}

proof fn lemma_count_nonneg(s: Seq<DownloadTask>)
    ensures
        count_in_progress(s) >= 0,
    decreases s.len(),
{
    if s.len() > 0 {
        lemma_count_nonneg(s.drop_last());
    }
}

proof fn lemma_count_witness(s: Seq<DownloadTask>, i: int)
    requires
        0 <= i < s.len(),
        s[i].status is InProgress,
    ensures
        count_in_progress(s) >= 1,
    decreases s.len(),
{
    if i == s.len() - 1 {
        lemma_count_nonneg(s.drop_last());
    } else {
        lemma_count_witness(s.drop_last(), i);
    }
}

/// Each task's bookkeeping is consistent with its status.
pub open spec fn task_ok(t: DownloadTask) -> bool {
    match t.status {
        TaskStatus::Queued => t.bytes == 0,
        TaskStatus::InProgress(p) => p as int == percent_spec(t.bytes as int, t.info.size as int),
        TaskStatus::Completed => t.bytes == t.info.size,
        TaskStatus::Failed(_) => true,
    }
}

/// The newer task list never falls behind the older one: same tasks, same
/// requirements, statuses only advance and byte counts only grow.
pub open spec fn tasks_monotonic(a: Seq<DownloadTask>, b: Seq<DownloadTask>) -> bool {
    &&& b.len() >= a.len()
    &&& forall|i: int|
        0 <= i < a.len() ==> status_le((#[trigger] a[i]).status, b[i].status) && b[i].id == a[i].id
            && b[i].info == a[i].info && a[i].bytes <= b[i].bytes
}

/// The task queue and status table of one download run. Requirements are
/// admitted in submission order and drained FIFO by at most `width`
/// concurrent workers; per-task statuses move monotonically through
/// Queued, InProgress and one terminal state, and every transition is also
/// emitted on the event stream, which the caller drains through
/// [`Downloader::poll_event`]. One task's failure never touches the other
/// tasks: the queue keeps draining and each task reports independently.
#[derive(Debug)]
pub struct Downloader {
    pub tasks: Vec<DownloadTask>,
    pub started: usize,
    pub active: usize,
    pub width: usize,
    pub cancelled: bool,
    pub events: Vec<TaskEvent>,
    pub cursor: usize,
}

impl Downloader {
    /// The well-formedness of the queue: ids equal admission indexes;
    /// tasks start in admission order; at most `width` are in flight; the
    /// event stream only names real tasks, never runs ahead of the status
    /// table, and is monotone per task.
    pub open spec fn wf(self) -> bool {
        &&& self.width >= 1
        &&& self.started <= self.tasks@.len()
        &&& self.active == count_in_progress(self.tasks@)
        &&& self.active <= self.width
        &&& self.cursor <= self.events@.len()
        &&& forall|i: int| 0 <= i < self.tasks@.len() ==> (#[trigger] self.tasks@[i]).id == i as u64
        &&& forall|i: int| 0 <= i < self.started ==> !((#[trigger] self.tasks@[i]).status is Queued)
        &&& forall|i: int|
            self.started <= i < self.tasks@.len() ==> (#[trigger] self.tasks@[i]).status is Queued
        &&& forall|i: int| 0 <= i < self.tasks@.len() ==> task_ok(#[trigger] self.tasks@[i])
        &&& forall|k: int|
            0 <= k < self.events@.len() ==> (#[trigger] self.events@[k]).id < self.tasks@.len()
                && status_le(self.events@[k].status, self.tasks@[self.events@[k].id as int].status)
        &&& forall|k: int, l: int|
            0 <= k < l < self.events@.len() && (#[trigger] self.events@[k]).id == (
            #[trigger] self.events@[l]).id ==> status_le(
                self.events@[k].status,
                self.events@[l].status,
            )
    }

    /// An empty queue drained by at most `width` workers.
    pub fn new(width: usize) -> (r: Self)
        requires
            width >= 1,
        ensures
            r.wf(),
            r.tasks@.len() == 0,
            r.events@.len() == 0,
            r.width == width,
            !r.cancelled,
            r.started == 0,
            r.active == 0,
            r.cursor == 0,
    {
        Downloader {
            tasks: Vec::new(),
            started: 0,
            active: 0,
            width,
            cancelled: false,
            events: Vec::new(),
            cursor: 0,
        }
    }

    /// Admits requirements into the queue, in order: each becomes a Queued
    /// task whose id is its admission index, and a Queued event is
    /// emitted for each. Already-admitted tasks are untouched.
    pub fn submit(&mut self, reqs: &Vec<FileInfo>)
        requires
            old(self).wf(),
        ensures
            final(self).wf(),
            final(self).tasks@.len() == old(self).tasks@.len() + reqs@.len(),
            forall|i: int|
                0 <= i < old(self).tasks@.len() ==> #[trigger] final(self).tasks@[i] == old(
                    self,
                ).tasks@[i],
            forall|j: int|
                0 <= j < reqs@.len() ==> {
                    let t = #[trigger] final(self).tasks@[old(self).tasks@.len() + j];
                    t.info == reqs@[j] && t.status is Queued && t.bytes == 0
                },
            final(self).started == old(self).started,
            final(self).active == old(self).active,
            final(self).width == old(self).width,
            final(self).cancelled == old(self).cancelled,
            final(self).cursor == old(self).cursor,
            final(self).events@.len() == old(self).events@.len() + reqs@.len(),
            forall|k: int|
                0 <= k < old(self).events@.len() ==> #[trigger] final(self).events@[k] == old(
                    self,
                ).events@[k],
            forall|j: int|
                0 <= j < reqs@.len() ==> {
                    let e = #[trigger] final(self).events@[old(self).events@.len() + j];
                    e.id == old(self).tasks@.len() + j && e.status is Queued
                },
            tasks_monotonic(old(self).tasks@, final(self).tasks@),
    {
        let base = self.tasks.len();
        let ghost olds = *self;
        let mut j: usize = 0;
        while j < reqs.len()
            invariant
                olds.wf(),
                j <= reqs@.len(),
                base == olds.tasks@.len(),
                self.tasks@.len() == base + j,
                self.started == olds.started,
                self.active == olds.active,
                self.width == olds.width,
                self.cancelled == olds.cancelled,
                self.cursor == olds.cursor,
                self.events@.len() == olds.events@.len() + j,
                forall|i: int| 0 <= i < base ==> #[trigger] self.tasks@[i] == olds.tasks@[i],
                forall|i: int|
                    base <= i < self.tasks@.len() ==> {
                        let t = #[trigger] self.tasks@[i];
                        t.info == reqs@[i - base] && t.status is Queued && t.bytes == 0 && t.id
                            == i as u64
                    },
                forall|k: int|
                    0 <= k < olds.events@.len() ==> #[trigger] self.events@[k] == olds.events@[k],
                forall|k: int|
                    olds.events@.len() <= k < self.events@.len() ==> {
                        let e = #[trigger] self.events@[k];
                        e.id == base + (k - olds.events@.len()) && e.status is Queued
                    },
                count_in_progress(self.tasks@) == olds.active,
            decreases reqs@.len() - j,
        {
            let id = self.tasks.len() as u64;
            let ghost oldt = self.tasks@;
            self.tasks.push(
                DownloadTask {
                    id,
                    info: reqs[j].clone(),
                    bytes: 0,
                    status: TaskStatus::Queued,
                },
            );
            self.events.push(TaskEvent { id, status: TaskStatus::Queued });
            proof {
                assert(self.tasks@.drop_last() =~= oldt);
            }
            j += 1;
        }
        proof {
            assert forall|k: int|
                0 <= k < self.events@.len() implies (#[trigger] self.events@[k]).id
                < self.tasks@.len() && status_le(
                self.events@[k].status,
                self.tasks@[self.events@[k].id as int].status,
            ) by {
                if k < olds.events@.len() {
                    assert(olds.events@[k] == self.events@[k]);
                    let t = olds.events@[k].id as int;
                    assert(status_le(olds.events@[k].status, olds.tasks@[t].status));
                }
            }
            assert forall|k: int, l: int|
                0 <= k < l < self.events@.len() && (#[trigger] self.events@[k]).id == (
                #[trigger] self.events@[l]).id implies status_le(
                self.events@[k].status,
                self.events@[l].status,
            ) by {
                if l >= olds.events@.len() {
                    assert(self.events@[l].status is Queued);
                    if k < olds.events@.len() {
                        let t = self.events@[k].id as int;
                        assert(status_le(self.events@[k].status, olds.tasks@[t].status));
                        assert(olds.tasks@[t].status is Queued);
                        assert(self.events@[k].status is Queued);
                    }
                }
            }
        }
    }

    /// Hands the next queued task to a worker: the earliest still-queued
    /// task, and only while the run is not cancelled and fewer than
    /// `width` tasks are in flight. After a cancel, no further task ever
    /// starts. Statuses of all other tasks are untouched.
    pub fn start_next(&mut self) -> (r: Option<u64>)
        requires
            old(self).wf(),
        ensures
            final(self).wf(),
            tasks_monotonic(old(self).tasks@, final(self).tasks@),
            final(self).width == old(self).width,
            final(self).cancelled == old(self).cancelled,
            final(self).cursor == old(self).cursor,
            (old(self).cancelled || old(self).active >= old(self).width || old(self).started == old(
                self,
            ).tasks@.len()) ==> r is None && *final(self) == *old(self),
            !(old(self).cancelled || old(self).active >= old(self).width || old(self).started
                == old(self).tasks@.len()) ==> {
                &&& r == Some(old(self).started as u64)
                &&& final(self).started == old(self).started + 1
                &&& final(self).active == old(self).active + 1
                &&& final(self).tasks@.len() == old(self).tasks@.len()
                &&& (forall|i: int|
                    0 <= i < old(self).tasks@.len() && i != old(self).started
                        ==> #[trigger] final(self).tasks@[i] == old(self).tasks@[i])
                &&& final(self).tasks@[old(self).started as int].status is InProgress
                &&& final(self).events@ == old(self).events@.push(
                    TaskEvent {
                        id: old(self).started as u64,
                        status: final(self).tasks@[old(self).started as int].status,
                    },
                )
            },
    {
        if self.cancelled || self.active >= self.width || self.started >= self.tasks.len() {
            return None;
        }
        let i = self.started;
        let id = self.tasks[i].id;
        proof {
            assert(self.tasks@[i as int].id == i as u64);
        }
        let st = TaskStatus::InProgress(percent(0, self.tasks[i].info.size));
        let nt = DownloadTask {
            id,
            info: self.tasks[i].info.clone(),
            bytes: 0,
            status: st,
        };
        let ghost oldt = self.tasks@;
        let ghost ne = TaskEvent { id, status: nt.status };
        self.tasks.set(i, nt);
        self.events.push(TaskEvent { id, status: TaskStatus::InProgress(percent(0, self.tasks[i].info.size)) });
        self.started = i + 1;
        self.active = self.active + 1;
        proof {
            lemma_count_update(oldt, i as int, self.tasks@[i as int]);
            assert(tasks_monotonic(oldt, self.tasks@));
            lemma_events_advance(old(self).events@, oldt, self.tasks@);
            assert(self.events@.drop_last() =~= old(self).events@);
            assert forall|k: int, l: int|
                0 <= k < l < self.events@.len() && (#[trigger] self.events@[k]).id == (
                #[trigger] self.events@[l]).id implies status_le(
                self.events@[k].status,
                self.events@[l].status,
            ) by {
                if l == self.events@.len() - 1 {
                    assert(status_le(
                        self.events@[k].status,
                        self.tasks@[self.events@[k].id as int].status,
                    ));
                }
            }
        }
        Some(id)
    }

    fn apply_transition(&mut self, i: usize, bytes: u64, st: TaskStatus) -> (r: TaskStatus)
        requires
            old(self).wf(),
            i < old(self).tasks@.len(),
            old(self).tasks@[i as int].status is InProgress,
            status_le(old(self).tasks@[i as int].status, st),
            !(st is Queued),
            old(self).tasks@[i as int].bytes <= bytes,
            task_ok(
                DownloadTask {
                    id: old(self).tasks@[i as int].id,
                    info: old(self).tasks@[i as int].info,
                    bytes,
                    status: st,
                },
            ),
        ensures
            final(self).wf(),
            tasks_monotonic(old(self).tasks@, final(self).tasks@),
            final(self).width == old(self).width,
            final(self).cancelled == old(self).cancelled,
            final(self).cursor == old(self).cursor,
            final(self).started == old(self).started,
            final(self).tasks@.len() == old(self).tasks@.len(),
            forall|j: int|
                0 <= j < old(self).tasks@.len() && j != i ==> #[trigger] final(self).tasks@[j]
                    == old(self).tasks@[j],
            final(self).tasks@[i as int].status == st,
            final(self).tasks@[i as int].bytes == bytes,
            final(self).tasks@[i as int].info == old(self).tasks@[i as int].info,
            final(self).tasks@[i as int].id == old(self).tasks@[i as int].id,
            final(self).active == old(self).active - (if st is InProgress {
                0int
            } else {
                1int
            }),
            final(self).events@ == old(self).events@.push(
                TaskEvent { id: old(self).tasks@[i as int].id, status: st },
            ),
            r == st,
    {
        let nt = DownloadTask {
            id: self.tasks[i].id,
            info: self.tasks[i].info.clone(),
            bytes,
            status: st.clone(),
        };
        let ghost oldt = self.tasks@;
        let ev = TaskEvent { id: self.tasks[i].id, status: st.clone() };
        let out = st;
        self.tasks.set(i, nt);
        self.events.push(ev);
        proof {
            lemma_count_witness(oldt, i as int);
        }
        if !(matches!(out, TaskStatus::InProgress(_))) {
            self.active = self.active - 1;
        }
        proof {
            lemma_count_update(oldt, i as int, self.tasks@[i as int]);
            assert(tasks_monotonic(oldt, self.tasks@));
            lemma_events_advance(old(self).events@, oldt, self.tasks@);
            assert(self.events@.drop_last() =~= old(self).events@);
            assert forall|k: int, l: int|
                0 <= k < l < self.events@.len() && (#[trigger] self.events@[k]).id == (
                #[trigger] self.events@[l]).id implies status_le(
                self.events@[k].status,
                self.events@[l].status,
            ) by {
                if l == self.events@.len() - 1 {
                    assert(status_le(
                        self.events@[k].status,
                        self.tasks@[self.events@[k].id as int].status,
                    ));
                }
            }
        }
        out
    }

    /// Records that a worker received `len` more bytes for a task: its
    /// byte count grows (saturating) and its percentage is recomputed,
    /// never decreasing. Anything but an in-flight task is left untouched.
    pub fn record_chunk(&mut self, id: u64, len: u64) -> (r: bool)
        requires
            old(self).wf(),
        ensures
            final(self).wf(),
            tasks_monotonic(old(self).tasks@, final(self).tasks@),
            final(self).width == old(self).width,
            final(self).cancelled == old(self).cancelled,
            final(self).started == old(self).started,
            final(self).cursor == old(self).cursor,
            final(self).active == old(self).active,
            r <==> (id < old(self).tasks@.len() && old(self).tasks@[id as int].status
                is InProgress),
            !r ==> *final(self) == *old(self),
            r ==> {
                &&& final(self).tasks@.len() == old(self).tasks@.len()
                &&& (forall|j: int|
                    0 <= j < old(self).tasks@.len() && j != id ==> #[trigger] final(self).tasks@[j]
                        == old(self).tasks@[j])
                &&& final(self).tasks@[id as int].bytes == (if old(self).tasks@[id as int].bytes
                    + len <= u64::MAX {
                    old(self).tasks@[id as int].bytes + len
                } else {
                    u64::MAX as int
                })
                &&& final(self).tasks@[id as int].status is InProgress
                &&& final(self).events@ == old(self).events@.push(
                    TaskEvent { id, status: final(self).tasks@[id as int].status },
                )
            },
    {
        if id >= self.tasks.len() as u64 {
            return false;
        }
        let i = id as usize;
        let in_flight = matches!(&self.tasks[i].status, TaskStatus::InProgress(_));
        if !in_flight {
            return false;
        }
        let old_bytes = self.tasks[i].bytes;
        let nb = if u64::MAX - old_bytes >= len {
            old_bytes + len
        } else {
            u64::MAX
        };
        let st = TaskStatus::InProgress(percent(nb, self.tasks[i].info.size));
        proof {
            lemma_percent_monotone(
                old(self).tasks@[i as int].bytes as int,
                nb as int,
                old(self).tasks@[i as int].info.size as int,
            );
        }
        self.apply_transition(i, nb, st);
        true
    }

    /// A worker reports that a task's transfer ended. Completion is owed
    /// only to a task whose byte count equals the expected size, and whose
    /// content hash agrees with the declared one where both are known;
    /// anything else is an integrity mismatch, a failure of that one
    /// download alone.
    pub fn complete(&mut self, id: u64, computed_sha1: Option<&String>) -> (r: Option<TaskStatus>)
        requires
            old(self).wf(),
        ensures
            final(self).wf(),
            tasks_monotonic(old(self).tasks@, final(self).tasks@),
            final(self).width == old(self).width,
            final(self).cancelled == old(self).cancelled,
            final(self).started == old(self).started,
            final(self).cursor == old(self).cursor,
            r is Some <==> (id < old(self).tasks@.len() && old(self).tasks@[id as int].status
                is InProgress),
            r is None ==> *final(self) == *old(self),
            r matches Some(st) ==> {
                &&& (forall|j: int|
                    0 <= j < old(self).tasks@.len() && j != id ==> #[trigger] final(self).tasks@[j]
                        == old(self).tasks@[j])
                &&& final(self).tasks@.len() == old(self).tasks@.len()
                &&& final(self).tasks@[id as int].status == st
                &&& (st is Completed <==> (old(self).tasks@[id as int].bytes == old(
                    self,
                ).tasks@[id as int].info.size && hash_ok(
                    match old(self).tasks@[id as int].info.sha1 {
                        Some(w) => Some(w@),
                        None => None,
                    },
                    match computed_sha1 {
                        Some(g) => Some(g@),
                        None => None,
                    },
                )))
                &&& (!(st is Completed) ==> st == TaskStatus::Failed(Error::IntegrityMismatch))
                &&& final(self).active == old(self).active - 1
                &&& final(self).events@ == old(self).events@.push(TaskEvent { id, status: st })
            },
    {
        if id >= self.tasks.len() as u64 {
            return None;
        }
        let i = id as usize;
        let in_flight = matches!(&self.tasks[i].status, TaskStatus::InProgress(_));
        if !in_flight {
            return None;
        }
        let size_ok = self.tasks[i].bytes == self.tasks[i].info.size;
        let hash_matches = match (&self.tasks[i].info.sha1, computed_sha1) {
            (Some(w), Some(g)) => *w == *g,
            _ => true,
        };
        let st = if size_ok && hash_matches {
            TaskStatus::Completed
        } else {
            TaskStatus::Failed(Error::IntegrityMismatch)
        };
        let bytes = self.tasks[i].bytes;
        let out = self.apply_transition(i, bytes, st);
        Some(out)
    }

    /// A worker reports that a task's transfer failed. Only that task
    /// moves to Failed; every other task is untouched, and the queue keeps
    /// draining — one task's failure never cancels its siblings.
    pub fn fail(&mut self, id: u64, err: Error) -> (r: bool)
        requires
            old(self).wf(),
        ensures
            final(self).wf(),
            tasks_monotonic(old(self).tasks@, final(self).tasks@),
            final(self).width == old(self).width,
            final(self).cancelled == old(self).cancelled,
            final(self).started == old(self).started,
            final(self).cursor == old(self).cursor,
            r <==> (id < old(self).tasks@.len() && old(self).tasks@[id as int].status
                is InProgress),
            !r ==> *final(self) == *old(self),
            r ==> {
                &&& (forall|j: int|
                    0 <= j < old(self).tasks@.len() && j != id ==> #[trigger] final(self).tasks@[j]
                        == old(self).tasks@[j])
                &&& final(self).tasks@.len() == old(self).tasks@.len()
                &&& final(self).tasks@[id as int].status == TaskStatus::Failed(err)
                &&& final(self).active == old(self).active - 1
                &&& final(self).events@ == old(self).events@.push(
                    TaskEvent { id, status: TaskStatus::Failed(err) },
                )
            },
    {
        if id >= self.tasks.len() as u64 {
            return false;
        }
        let i = id as usize;
        let in_flight = matches!(&self.tasks[i].status, TaskStatus::InProgress(_));
        if !in_flight {
            return false;
        }
        let bytes = self.tasks[i].bytes;
        self.apply_transition(i, bytes, TaskStatus::Failed(err));
        true
    }

    /// Stops admitting tasks: no further task ever starts, while tasks
    /// already in flight finish or fail on their own. Statuses are
    /// untouched.
    pub fn cancel(&mut self)
        requires
            old(self).wf(),
        ensures
            final(self).wf(),
            final(self).cancelled,
            final(self).tasks == old(self).tasks,
            final(self).events == old(self).events,
            final(self).started == old(self).started,
            final(self).active == old(self).active,
            final(self).width == old(self).width,
            final(self).cursor == old(self).cursor,
    {
        self.cancelled = true;
    }

    /// The current status of a task, by id.
    pub fn status_of(&self, id: u64) -> (r: Option<TaskStatus>)
        requires
            self.wf(),
        ensures
            r is Some <==> id < self.tasks@.len(),
            r matches Some(st) ==> st == self.tasks@[id as int].status,
    {
        if id >= self.tasks.len() as u64 {
            return None;
        }
        let i = id as usize;
        Some(self.tasks[i].status.clone())
    }

    /// Non-blocking poll of the status stream: the next event not yet
    /// seen, if any. Events are consumed in emission order; consumers must
    /// correlate by task id, never by arrival order, since workers finish
    /// out of admission order.
    pub fn poll_event(&mut self) -> (r: Option<TaskEvent>)
        requires
            old(self).wf(),
        ensures
            final(self).wf(),
            final(self).tasks == old(self).tasks,
            final(self).events == old(self).events,
            r is Some <==> old(self).cursor < old(self).events@.len(),
            r matches Some(e) ==> (e == old(self).events@[old(self).cursor as int] && final(self).cursor == old(self).cursor + 1),
            r is None ==> *final(self) == *old(self),
    {
        if self.cursor < self.events.len() {
            let e = self.events[self.cursor].clone();
            self.cursor = self.cursor + 1;
            Some(e)
        } else {
            None
        }
    }
}

/// A declared hash is checked only when the worker computed one: both
/// present means they must agree.
pub open spec fn hash_ok(want: Option<Seq<char>>, got: Option<Seq<char>>) -> bool {
    match want {
        Some(w) => match got {
            Some(g) => w == g,
            None => true,
        },
        None => true,
    }
}

/// Events that respected the old status table still respect a newer one
/// that is monotonically ahead of it.
proof fn lemma_events_advance(
    evs: Seq<TaskEvent>,
    a: Seq<DownloadTask>,
    b: Seq<DownloadTask>,
)
    requires
        forall|k: int|
            0 <= k < evs.len() ==> (#[trigger] evs[k]).id < a.len() && status_le(
                evs[k].status,
                a[evs[k].id as int].status,
            ),
        tasks_monotonic(a, b),
    ensures
        forall|k: int|
            0 <= k < evs.len() ==> (#[trigger] evs[k]).id < b.len() && status_le(
                evs[k].status,
                b[evs[k].id as int].status,
            ),
{
    assert forall|k: int|
        0 <= k < evs.len() implies (#[trigger] evs[k]).id < b.len() && status_le(
        evs[k].status,
        b[evs[k].id as int].status,
    ) by {
        let t = evs[k].id as int;
        lemma_status_le_trans(evs[k].status, a[t].status, b[t].status);
    }
}

/// For any task, the emitted status stream is monotone: a subsequence of
/// Queued, then InProgress with non-decreasing percentage, then one
/// terminal status that never changes.
pub proof fn lemma_status_stream_monotonic(d: Downloader, i: int, j: int)
    requires
        d.wf(),
        0 <= i <= j < d.events@.len(),
        d.events@[i].id == d.events@[j].id,
    ensures
        status_le(d.events@[i].status, d.events@[j].status),
{
    if i == j {
        lemma_status_le_refl(d.events@[i].status);
    }
}

/// A Completed event is never emitted before all expected bytes were
/// reported: whenever the stream says Completed, that task's byte count
/// equals its expected size.
pub proof fn lemma_completed_event_full_bytes(d: Downloader, k: int)
    requires
        d.wf(),
        0 <= k < d.events@.len(),
        d.events@[k].status is Completed,
    ensures
        d.tasks@[d.events@[k].id as int].bytes == d.tasks@[d.events@[k].id as int].info.size,
{
    let t = d.events@[k].id as int;
    assert(status_le(d.events@[k].status, d.tasks@[t].status));
    assert(d.tasks@[t].status is Completed);
}

} // verus!
