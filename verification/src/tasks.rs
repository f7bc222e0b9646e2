//! The background task table and the batch jobs that fill it: a folder
//! scan's statistics by file extension, and the bookkeeping of batch OCR
//! and batch upscaling (which files they take, how many went well, what
//! they report). Batch jobs run only after the user confirmed them.
use crate::stamps::{new_uuid, random_failure_prefix, starts_with};
use crate::text::{append_str, spec_lowercase, str_eq, str_views, to_lowercase, u64_to_string, decimal};
use crate::text::{all_ascii, ascii_lower, bare_file_name, last_index};
use vstd::prelude::*;

verus! {

/// One task of the table (its progress is kept by the caller).
pub struct TaskRecord {
    pub id: String,
    pub kind: String,
    pub title: String,
    /// `kuyrukta`, `çalışıyor`, `tamamlandı`, `hata` or `iptal edildi`.
    pub status: String,
    pub log: Vec<String>,
    pub result: Option<String>,
}

/// The tasks, each under its own id.
pub struct TaskTable {
    tasks: Vec<TaskRecord>,
}

/// Statistics of one file extension in a folder scan.
pub struct ExtStat {
    pub ext: String,
    pub count: u64,
    pub bytes: u64,
}

/// The running tally of a batch job.
#[derive(Clone, Copy)]
pub struct BatchTally {
    pub total: usize,
    pub done: usize,
    pub failed: usize,
}

// ---------------------------------------------------------------------
// Specifications: the task table
// ---------------------------------------------------------------------

/// `(kind, title, status, log, result)` of a task.
pub type TaskView = (Seq<char>, Seq<char>, Seq<char>, Seq<Seq<char>>, Option<Seq<char>>);

/// A task as plain values.
pub open spec fn task_view(t: TaskRecord) -> TaskView {
    (t.kind@, t.title@, t.status@, str_views(t.log@), crate::json::opt_str(t.result))
}

/// The task stored under `id` among `s`.
pub open spec fn lookup(s: Seq<TaskRecord>, id: Seq<char>) -> Option<TaskView>
    decreases s.len(),
{
    if s.len() == 0 {
        None
    } else if s.last().id@ == id {
        Some(task_view(s.last()))
    } else {
        lookup(s.drop_last(), id)
    }
}

/// No id occurs twice.
pub open spec fn ids_distinct(s: Seq<TaskRecord>) -> bool {
    forall|i: int, j: int| 0 <= i < j < s.len() ==> (#[trigger] s[i]).id@ != (#[trigger] s[j]).id@
}

/// A new task: queued, no log, no result.
pub open spec fn fresh_task(kind: Seq<char>, title: Seq<char>) -> TaskView {
    (kind, title, "kuyrukta"@, Seq::empty(), None)
}

impl TaskTable {
    /// The task stored under `id`.
    pub closed spec fn task(&self, id: Seq<char>) -> Option<TaskView> {
        lookup(self.tasks@, id)
    }

    /// Ids are unique.
    pub closed spec fn wf(&self) -> bool {
        ids_distinct(self.tasks@)
    }
}

/// `after` is `before` with the task under `id`, if there is one, changed
/// by `f`, and every other task as it was.
pub open spec fn updated(before: TaskTable, after: TaskTable, id: Seq<char>, f: spec_fn(TaskView) -> TaskView) -> bool {
    &&& forall|k: Seq<char>| k != id ==> #[trigger] after.task(k) == before.task(k)
    &&& match before.task(id) {
        Some(t) => after.task(id) == Some(f(t)),
        None => after.task(id) is None,
    }
}

/// Whether the task under `id` exists and was cancelled.
pub open spec fn is_cancelled(t: TaskTable, id: Seq<char>) -> bool {
    t.task(id) matches Some(v) && v.2 == "iptal edildi"@
}

/// The status set to `s`.
pub open spec fn with_status(s: Seq<char>) -> spec_fn(TaskView) -> TaskView {
    |t: TaskView| (t.0, t.1, s, t.3, t.4)
}

/// `line` added to the log.
pub open spec fn with_log_line(line: Seq<char>) -> spec_fn(TaskView) -> TaskView {
    |t: TaskView| (t.0, t.1, t.2, t.3.push(line), t.4)
}

/// The status set to `s` and the result to `r`.
pub open spec fn with_outcome(s: Seq<char>, r: Seq<char>) -> spec_fn(TaskView) -> TaskView {
    |t: TaskView| (t.0, t.1, s, t.3, Some(r))
}

// ---------------------------------------------------------------------
// Task table lemmas
// ---------------------------------------------------------------------

proof fn lemma_lookup_at(s: Seq<TaskRecord>, i: int)
    requires
        ids_distinct(s),
        0 <= i < s.len(),
    ensures
        lookup(s, s[i].id@) == Some(task_view(s[i])),
    decreases s.len(),
{
    if i < s.len() - 1 {
        assert(s[i].id@ != s[s.len() - 1].id@);
        let d = s.drop_last();
        assert(d[i] == s[i]);
        lemma_lookup_at(d, i);
    }
}

proof fn lemma_lookup_none(s: Seq<TaskRecord>, id: Seq<char>)
    requires
        forall|i: int| 0 <= i < s.len() ==> (#[trigger] s[i]).id@ != id,
    ensures
        lookup(s, id) is None,
    decreases s.len(),
{
    if s.len() > 0 {
        let d = s.drop_last();
        assert forall|i: int| 0 <= i < d.len() implies (#[trigger] d[i]).id@ != id by {
            assert(d[i] == s[i]);
        }
        lemma_lookup_none(d, id);
    }
}

/// Looking up any id in terms of the positions of `s`.
proof fn lemma_lookup_cases(s: Seq<TaskRecord>, id: Seq<char>)
    requires
        ids_distinct(s),
    ensures
        (exists|i: int| 0 <= i < s.len() && (#[trigger] s[i]).id@ == id) || lookup(s, id) is None,
        forall|i: int| 0 <= i < s.len() && (#[trigger] s[i]).id@ == id ==> lookup(s, id) == Some(task_view(s[i])),
{
    assert forall|i: int| 0 <= i < s.len() && (#[trigger] s[i]).id@ == id implies lookup(s, id) == Some(
        task_view(s[i]),
    ) by {
        lemma_lookup_at(s, i);
    }
    if !(exists|i: int| 0 <= i < s.len() && (#[trigger] s[i]).id@ == id) {
        lemma_lookup_none(s, id);
    }
}

/// Replacing the task at position `i` by one with the same id changes only
/// that id's entry.
proof fn lemma_replace(s: Seq<TaskRecord>, i: int, x: TaskRecord)
    requires
        ids_distinct(s),
        0 <= i < s.len(),
        x.id@ == s[i].id@,
    ensures
        ids_distinct(s.update(i, x)),
        lookup(s.update(i, x), x.id@) == Some(task_view(x)),
        forall|k: Seq<char>| k != x.id@ ==> #[trigger] lookup(s.update(i, x), k) == lookup(s, k),
{
    let u = s.update(i, x);
    assert forall|a: int, b: int| 0 <= a < b < u.len() implies (#[trigger] u[a]).id@ != (#[trigger] u[b]).id@ by {
        assert(s[a].id@ != s[b].id@);
    }
    lemma_lookup_at(u, i);
    assert forall|k: Seq<char>| k != x.id@ implies #[trigger] lookup(u, k) == lookup(s, k) by {
        lemma_lookup_cases(s, k);
        lemma_lookup_cases(u, k);
        if exists|j: int| 0 <= j < s.len() && (#[trigger] s[j]).id@ == k {
            let j = choose|j: int| 0 <= j < s.len() && (#[trigger] s[j]).id@ == k;
            assert(u[j] == s[j]);
        }
        if exists|j: int| 0 <= j < u.len() && (#[trigger] u[j]).id@ == k {
            let j = choose|j: int| 0 <= j < u.len() && (#[trigger] u[j]).id@ == k;
            assert(u[j] == s[j]);
        }
    }
}

/// Adding a task under a new id changes only that id's entry.
proof fn lemma_push(s: Seq<TaskRecord>, x: TaskRecord)
    requires
        ids_distinct(s),
        forall|i: int| 0 <= i < s.len() ==> (#[trigger] s[i]).id@ != x.id@,
    ensures
        ids_distinct(s.push(x)),
        lookup(s.push(x), x.id@) == Some(task_view(x)),
        forall|k: Seq<char>| k != x.id@ ==> #[trigger] lookup(s.push(x), k) == lookup(s, k),
{
    let u = s.push(x);
    assert(u.drop_last() =~= s);
    assert forall|a: int, b: int| 0 <= a < b < u.len() implies (#[trigger] u[a]).id@ != (#[trigger] u[b]).id@ by {
        if b == s.len() {
            assert(u[a] == s[a]);
        } else {
            assert(s[a].id@ != s[b].id@);
        }
    }
}

// ---------------------------------------------------------------------
// Task table operations
// ---------------------------------------------------------------------

impl TaskTable {
    /// An empty table.
    pub fn new() -> (r: TaskTable)
        ensures
            r.wf(),
            forall|k: Seq<char>| #[trigger] r.task(k) is None,
    {
        TaskTable { tasks: Vec::new() }
    }

    /// Position of the task with id `id`.
    fn position(&self, id: &str) -> (r: Option<usize>)
        requires
            self.wf(),
        ensures
            match r {
                Some(i) => i < self.tasks@.len() && self.tasks@[i as int].id@ == id@,
                None => forall|i: int| 0 <= i < self.tasks@.len() ==> (#[trigger] self.tasks@[i]).id@ != id@,
            },
    {
        let mut i: usize = 0;
        while i < self.tasks.len()
            invariant
                i <= self.tasks@.len(),
                forall|j: int| 0 <= j < i ==> (#[trigger] self.tasks@[j]).id@ != id@,
            decreases self.tasks.len() - i,
        {
            if str_eq(self.tasks[i].id.as_str(), id) {
                return Some(i);
            }
            i = i + 1;
        }
        None
    }

    /// Stores a new queued task under `id`, replacing any task stored
    /// there before.
    pub fn insert_manual_task(&mut self, id: &str, kind: &str, title: &str)
        requires
            old(self).wf(),
        ensures
            final(self).wf(),
            final(self).task(id@) == Some(fresh_task(kind@, title@)),
            forall|k: Seq<char>| k != id@ ==> #[trigger] final(self).task(k) == old(self).task(k),
    {
        let t = TaskRecord {
            id: id.to_owned(),
            kind: kind.to_owned(),
            title: title.to_owned(),
            status: "kuyrukta".to_owned(),
            log: Vec::new(),
            result: None,
        };
        proof {
            assert(str_views(t.log@) =~= Seq::<Seq<char>>::empty());
        }
        match self.position(id) {
            Some(i) => {
                proof {
                    lemma_replace(self.tasks@, i as int, t);
                }
                self.tasks.set(i, t);
            },
            None => {
                proof {
                    lemma_push(self.tasks@, t);
                }
                self.tasks.push(t);
            },
        }
    }

    /// Sets the status of the task under `id`.
    pub fn set_status(&mut self, id: &str, status: &str)
        requires
            old(self).wf(),
        ensures
            final(self).wf(),
            updated(*old(self), *final(self), id@, with_status(status@)),
    {
        if let Some(i) = self.position(id) {
            let mut t = self.tasks.remove(i);
            let ghost s0 = old(self).tasks@;
            proof {
                assert(t == s0[i as int]);
            }
            t.status = status.to_owned();
            let ghost t1 = t;
            self.tasks.insert(i, t);
            proof {
                assert(self.tasks@ =~= s0.update(i as int, t1));
                lemma_replace(s0, i as int, t1);
                lemma_lookup_at(s0, i as int);
            }
        } else {
            proof {
                lemma_lookup_none(self.tasks@, id@);
            }
        }
    }

    /// Adds `line` to the log of the task under `id`.
    pub fn push_log(&mut self, id: &str, line: &str)
        requires
            old(self).wf(),
        ensures
            final(self).wf(),
            updated(*old(self), *final(self), id@, with_log_line(line@)),
    {
        if let Some(i) = self.position(id) {
            let ghost s0 = old(self).tasks@;
            let mut t = self.tasks.remove(i);
            proof {
                assert(t == s0[i as int]);
            }
            let ghost log0 = t.log@;
            t.log.push(line.to_owned());
            proof {
                assert(str_views(t.log@) =~= str_views(log0).push(line@));
            }
            let ghost t1 = t;
            self.tasks.insert(i, t);
            proof {
                assert(self.tasks@ =~= s0.update(i as int, t1));
                lemma_replace(s0, i as int, t1);
                lemma_lookup_at(s0, i as int);
            }
        } else {
            proof {
                lemma_lookup_none(self.tasks@, id@);
            }
        }
    }

    /// Gives the task under `id` the status `status` and the result `result`.
    fn finish(&mut self, id: &str, status: &str, result: &str)
        requires
            old(self).wf(),
        ensures
            final(self).wf(),
            updated(*old(self), *final(self), id@, with_outcome(status@, result@),
            ),
    {
        if let Some(i) = self.position(id) {
            let ghost s0 = old(self).tasks@;
            let mut t = self.tasks.remove(i);
            proof {
                assert(t == s0[i as int]);
            }
            t.status = status.to_owned();
            t.result = Some(result.to_owned());
            let ghost t1 = t;
            self.tasks.insert(i, t);
            proof {
                assert(self.tasks@ =~= s0.update(i as int, t1));
                lemma_replace(s0, i as int, t1);
                lemma_lookup_at(s0, i as int);
            }
        } else {
            proof {
                lemma_lookup_none(self.tasks@, id@);
            }
        }
    }

    /// Marks the task under `id` as failed with the error as its result.
    pub fn fail_task(&mut self, id: &str, err: &str)
        requires
            old(self).wf(),
        ensures
            final(self).wf(),
            updated(*old(self), *final(self), id@, with_outcome("hata"@, err@)),
    {
        self.finish(id, "hata", err);
    }

    /// Marks the task under `id` as completed with `result`.
    pub fn complete_task(&mut self, id: &str, result: &str)
        requires
            old(self).wf(),
        ensures
            final(self).wf(),
            updated(*old(self), *final(self), id@, with_outcome("tamamlandı"@, result@),
            ),
    {
        self.finish(id, "tamamlandı", result);
    }

    /// Marks the task under `id` as cancelled.
    pub fn cancel_task(&mut self, id: &str)
        requires
            old(self).wf(),
        ensures
            final(self).wf(),
            updated(*old(self), *final(self), id@, with_status("iptal edildi"@)),
    {
        self.set_status(id, "iptal edildi");
    }

    /// Whether the task under `id` was cancelled.
    pub fn cancelled(&self, id: &str) -> (r: bool)
        requires
            self.wf(),
        ensures
            r == is_cancelled(*self, id@),
    {
        match self.position(id) {
            Some(i) => {
                proof {
                    lemma_lookup_at(self.tasks@, i as int);
                }
                str_eq(self.tasks[i].status.as_str(), "iptal edildi")
            },
            None => {
                proof {
                    lemma_lookup_none(self.tasks@, id@);
                }
                false
            },
        }
    }

    /// All tasks, each once; the order is the table's own.
    pub fn list_tasks(&self) -> (r: Vec<TaskRecord>)
        requires
            self.wf(),
        ensures
            ids_distinct(r@),
            forall|k: Seq<char>| #[trigger] lookup(r@, k) == self.task(k),
    {
        let mut out: Vec<TaskRecord> = Vec::new();
        let mut i: usize = 0;
        while i < self.tasks.len()
            invariant
                i <= self.tasks@.len(),
                ids_distinct(self.tasks@),
                out@.len() == i,
                forall|j: int| 0 <= j < i ==> task_view(#[trigger] out@[j]) == task_view(self.tasks@[j])
                    && out@[j].id@ == self.tasks@[j].id@,
            decreases self.tasks.len() - i,
        {
            let t = &self.tasks[i];
            let c = TaskRecord {
                id: t.id.clone(),
                kind: t.kind.clone(),
                title: t.title.clone(),
                status: t.status.clone(),
                log: clone_strings(&t.log),
                result: match &t.result {
                    Some(r) => Some(r.clone()),
                    None => None,
                },
            };
            out.push(c);
            i = i + 1;
        }
        proof {
            assert forall|a: int, b: int| 0 <= a < b < out@.len() implies (#[trigger] out@[a]).id@
                != (#[trigger] out@[b]).id@ by {
                assert(self.tasks@[a].id@ != self.tasks@[b].id@);
            }
            assert forall|k: Seq<char>| #[trigger] lookup(out@, k) == lookup(self.tasks@, k) by {
                lemma_lookup_cases(out@, k);
                lemma_lookup_cases(self.tasks@, k);
                if exists|j: int| 0 <= j < out@.len() && (#[trigger] out@[j]).id@ == k {
                    let j = choose|j: int| 0 <= j < out@.len() && (#[trigger] out@[j]).id@ == k;
                    assert(self.tasks@[j].id@ == k);
                }
                if exists|j: int| 0 <= j < self.tasks@.len() && (#[trigger] self.tasks@[j]).id@ == k {
                    let j = choose|j: int| 0 <= j < self.tasks@.len() && (#[trigger] self.tasks@[j]).id@ == k;
                    assert(out@[j].id@ == k);
                }
            }
        }
        out
    }
}

/// A copy of a list of strings.
fn clone_strings(v: &Vec<String>) -> (r: Vec<String>)
    ensures
        str_views(r@) == str_views(v@),
{
    let mut r: Vec<String> = Vec::new();
    let mut i: usize = 0;
    while i < v.len()
        invariant
            i <= v.len(),
            str_views(r@) == str_views(v@).take(i as int),
        decreases v.len() - i,
    {
        let ghost r0 = r@;
        r.push(v[i].clone());
        proof {
            assert(r@ =~= r0.push(v@[i as int]));
            assert(str_views(r@) =~= str_views(r0).push(v@[i as int]@));
            assert(str_views(v@).take(i + 1) =~= str_views(v@).take(i as int).push(v@[i as int]@));
        }
        i = i + 1;
    }
    assert(str_views(v@).take(v.len() as int) =~= str_views(v@));
    r
}

// ---------------------------------------------------------------------
// Task table laws
// ---------------------------------------------------------------------

/// What a cancel does is seen by `cancelled`: a task that exists is
/// cancelled right after `cancel_task`, and whether any other task is
/// cancelled stays as it was.
pub proof fn lemma_cancel_is_seen(before: TaskTable, after: TaskTable, id: Seq<char>)
    requires
        updated(before, after, id, with_status("iptal edildi"@)),
        before.task(id) is Some,
    ensures
        is_cancelled(after, id),
        forall|k: Seq<char>| k != id ==> #[trigger] is_cancelled(after, k) == is_cancelled(before, k),
{
    assert forall|k: Seq<char>| k != id implies #[trigger] is_cancelled(after, k) == is_cancelled(before, k) by {
        assert(after.task(k) == before.task(k));
    }
}

/// Finishing a task (completed or failed) keeps its kind, title and log,
/// and sets its status and result.
pub proof fn lemma_finish_keeps_log(
    before: TaskTable,
    after: TaskTable,
    id: Seq<char>,
    status: Seq<char>,
    result: Seq<char>,
)
    requires
        updated(before, after, id, with_outcome(status, result)),
        before.task(id) is Some,
    ensures
        after.task(id) matches Some(t) && t.0 == before.task(id)->Some_0.0 && t.1 == before.task(id)->Some_0.1
            && t.3 == before.task(id)->Some_0.3 && t.2 == status && t.4 == Some(result),
{
}

// ---------------------------------------------------------------------
// Files of a batch
// ---------------------------------------------------------------------

/// Result of `Path::extension` (then `to_str`) on a path.
pub uninterp spec fn spec_extension(p: Seq<char>) -> Option<Seq<char>>;

/// `Path::extension` of a path given as text. As std documents it, the
/// extension of a bare file name is the part after its last `.`, and there
/// is none when the only `.` starts the name or there is no `.`.
#[verifier::external_body]
fn path_extension(p: &str) -> (r: Option<String>)
    ensures
        match r {
            Some(s) => spec_extension(p@) == Some(s@),
            None => spec_extension(p@) is None,
        },
        bare_file_name(p@) ==> (if last_index(p@, '.') > 0 {
            r is Some && r->Some_0@ == p@.skip(last_index(p@, '.') + 1)
        } else {
            r is None
        }),
{
    std::path::Path::new(p).extension().and_then(|e| e.to_str()).map(|e| e.to_string())
}

/// The extension of a path in lower case; empty when it has none.
pub open spec fn ext_lower_spec(p: Seq<char>) -> Seq<char> {
    spec_lowercase(
        match spec_extension(p) {
            Some(e) => e,
            None => Seq::empty(),
        },
    )
}

/// The extension of `path` in lower case, empty when it has none.
pub fn ext_lower(path: &str) -> (r: String)
    ensures
        r@ == ext_lower_spec(path@),
        bare_file_name(path@) && last_index(path@, '.') <= 0 ==> r@.len() == 0,
        bare_file_name(path@) && last_index(path@, '.') > 0 && all_ascii(path@) ==> r@ == path@.skip(
            last_index(path@, '.') + 1,
        ).map_values(|c: char| ascii_lower(c)),
{
    let e = match path_extension(path) {
        Some(e) => e,
        None => String::new(),
    };
    proof {
        crate::text::lemma_last_index_range(path@, '.');
        if bare_file_name(path@) && last_index(path@, '.') > 0 && all_ascii(path@) {
            let k = last_index(path@, '.');
            assert forall|i: int| 0 <= i < e@.len() implies (#[trigger] e@[i] as u32) < 128 by {
                assert(e@[i] == path@[i + k + 1]);
            }
        }
    }
    to_lowercase(e.as_str())
}

/// The video extensions a batch upscale takes.
pub open spec fn is_video_ext_spec(e: Seq<char>) -> bool {
    e == "mp4"@ || e == "mkv"@ || e == "webm"@ || e == "avi"@ || e == "mov"@
}

/// Whether a (lower-case) extension is one of a video.
pub fn is_video_ext(ext: &str) -> (r: bool)
    ensures
        r == is_video_ext_spec(ext@),
{
    str_eq(ext, "mp4") || str_eq(ext, "mkv") || str_eq(ext, "webm") || str_eq(ext, "avi") || str_eq(ext, "mov")
}

/// The paths of `paths` that satisfy `keep` on their lower-case extension,
/// in order.
pub open spec fn select_by_ext(paths: Seq<Seq<char>>, keep: spec_fn(Seq<char>) -> bool) -> Seq<Seq<char>>
    decreases paths.len(),
{
    if paths.len() == 0 {
        Seq::empty()
    } else {
        let r = select_by_ext(paths.drop_last(), keep);
        if keep(ext_lower_spec(paths.last())) {
            r.push(paths.last())
        } else {
            r
        }
    }
}

pub open spec fn video_keep() -> spec_fn(Seq<char>) -> bool {
    |e: Seq<char>| is_video_ext_spec(e)
}

pub open spec fn pdf_keep() -> spec_fn(Seq<char>) -> bool {
    |e: Seq<char>| e == "pdf"@
}

/// The files of a folder that a batch upscale works on: those with a video
/// extension, in order.
pub fn video_files(paths: &Vec<String>) -> (r: Vec<String>)
    ensures
        str_views(r@) == select_by_ext(str_views(paths@), video_keep()),
{
    let mut r: Vec<String> = Vec::new();
    let mut i: usize = 0;
    while i < paths.len()
        invariant
            i <= paths.len(),
            str_views(r@) == select_by_ext(str_views(paths@).take(i as int), video_keep()),
        decreases paths.len() - i,
    {
        let ghost t = str_views(paths@).take(i + 1);
        proof {
            assert(t.drop_last() =~= str_views(paths@).take(i as int));
            assert(t.last() == paths@[i as int]@);
        }
        let e = ext_lower(paths[i].as_str());
        let ghost r0 = r@;
        if is_video_ext(e.as_str()) {
            r.push(paths[i].clone());
            proof {
                assert(str_views(r@) =~= str_views(r0).push(paths@[i as int]@));
            }
        }
        i = i + 1;
    }
    assert(str_views(paths@).take(paths.len() as int) =~= str_views(paths@));
    r
}

/// The files of a folder that a batch OCR works on: the PDFs, in order.
pub fn pdf_files(paths: &Vec<String>) -> (r: Vec<String>)
    ensures
        str_views(r@) == select_by_ext(str_views(paths@), pdf_keep()),
{
    let mut r: Vec<String> = Vec::new();
    let mut i: usize = 0;
    while i < paths.len()
        invariant
            i <= paths.len(),
            str_views(r@) == select_by_ext(str_views(paths@).take(i as int), pdf_keep()),
        decreases paths.len() - i,
    {
        let ghost t = str_views(paths@).take(i + 1);
        proof {
            assert(t.drop_last() =~= str_views(paths@).take(i as int));
            assert(t.last() == paths@[i as int]@);
        }
        let e = ext_lower(paths[i].as_str());
        let ghost r0 = r@;
        if str_eq(e.as_str(), "pdf") {
            r.push(paths[i].clone());
            proof {
                assert(str_views(r@) =~= str_views(r0).push(paths@[i as int]@));
            }
        }
        i = i + 1;
    }
    assert(str_views(paths@).take(paths.len() as int) =~= str_views(paths@));
    r
}

/// A batch upscale takes exactly the folder's files whose lower-case
/// extension is `mp4`, `mkv`, `webm`, `avi` or `mov`, and a batch OCR
/// exactly those whose lower-case extension is `pdf`; `e` is a video
/// extension exactly when it is one of those five.
pub proof fn lemma_batch_selection(paths: Seq<Seq<char>>, p: Seq<char>, e: Seq<char>)
    ensures
        is_video_ext_spec(e) <==> set!["mp4"@, "mkv"@, "webm"@, "avi"@, "mov"@].contains(e),
        select_by_ext(paths, video_keep()).contains(p) <==> paths.contains(p) && set![
            "mp4"@,
            "mkv"@,
            "webm"@,
            "avi"@,
            "mov"@,
        ].contains(ext_lower_spec(p)),
        select_by_ext(paths, pdf_keep()).contains(p) <==> paths.contains(p) && ext_lower_spec(p) == "pdf"@,
{
    lemma_select_contains(paths, video_keep(), p);
    lemma_select_contains(paths, pdf_keep(), p);
}

/// A path is selected exactly when it is among the paths and its extension
/// is kept.
proof fn lemma_select_contains(paths: Seq<Seq<char>>, keep: spec_fn(Seq<char>) -> bool, p: Seq<char>)
    ensures
        select_by_ext(paths, keep).contains(p) <==> paths.contains(p) && keep(ext_lower_spec(p)),
    decreases paths.len(),
{
    if paths.len() > 0 {
        let d = paths.drop_last();
        let x = paths.last();
        let r = select_by_ext(d, keep);
        lemma_select_contains(d, keep, p);
        if d.contains(p) {
            let i = choose|i: int| 0 <= i < d.len() && d[i] == p;
            assert(paths[i] == p);
        }
        if paths.contains(p) && x != p {
            let i = choose|i: int| 0 <= i < paths.len() && paths[i] == p;
            assert(i < d.len() && d[i] == p);
        }
        if x == p {
            assert(paths[paths.len() - 1] == p);
        }
        if keep(ext_lower_spec(x)) {
            let rp = r.push(x);
            if r.contains(p) {
                let i = choose|i: int| 0 <= i < r.len() && r[i] == p;
                assert(rp[i] == p);
            }
            if x == p {
                assert(rp[r.len() as int] == p);
            }
            if rp.contains(p) && x != p {
                let i = choose|i: int| 0 <= i < rp.len() && rp[i] == p;
                assert(i < r.len() && r[i] == p);
            }
        }
    }
}

// ---------------------------------------------------------------------
// Batch bookkeeping
// ---------------------------------------------------------------------

/// The refusal of an unconfirmed batch job.
pub fn confirm_batch(confirmed: bool) -> (r: Result<(), String>)
    ensures
        r is Ok <==> confirmed,
        r matches Err(e) ==> e@ == "Onaylanmamış toplu işlem — güvenlik nedeniyle çalıştırılmadı."@,
{
    if confirmed {
        Ok(())
    } else {
        Err("Onaylanmamış toplu işlem — güvenlik nedeniyle çalıştırılmadı.".to_owned())
    }
}

impl BatchTally {
    /// Nothing processed yet out of `total` files.
    pub fn start(total: usize) -> (r: BatchTally)
        ensures
            r.total == total,
            r.done == 0,
            r.failed == 0,
    {
        BatchTally { total, done: 0, failed: 0 }
    }

    /// Counts one more file, as done or as failed.
    pub fn record(&mut self, ok: bool)
        requires
            old(self).done + old(self).failed < old(self).total,
        ensures
            final(self).total == old(self).total,
            ok ==> final(self).done == old(self).done + 1 && final(self).failed == old(self).failed,
            !ok ==> final(self).failed == old(self).failed + 1 && final(self).done == old(self).done,
    {
        if ok {
            self.done = self.done + 1;
        } else {
            self.failed = self.failed + 1;
        }
    }
}

/// The summary of a batch: `{total} {noun} işlendi, {done} başarılı,
/// {failed} hatalı.`
pub open spec fn batch_summary_spec(t: BatchTally, noun: Seq<char>) -> Seq<char> {
    decimal(t.total as nat) + " "@ + noun + " işlendi, "@ + decimal(t.done as nat) + " başarılı, "@ + decimal(
        t.failed as nat,
    ) + " hatalı."@
}

/// The summary of a batch; `noun` names what it processed (`PDF`,
/// `video`).
pub fn batch_summary(t: &BatchTally, noun: &str) -> (r: String)
    ensures
        r@ == batch_summary_spec(*t, noun@),
{
    let mut r = u64_to_string(t.total as u64);
    append_str(&mut r, " ");
    append_str(&mut r, noun);
    append_str(&mut r, " işlendi, ");
    let d = u64_to_string(t.done as u64);
    append_str(&mut r, d.as_str());
    append_str(&mut r, " başarılı, ");
    let f = u64_to_string(t.failed as u64);
    append_str(&mut r, f.as_str());
    append_str(&mut r, " hatalı.");
    r
}

/// The status a batch ends in.
pub fn batch_final_status(cancelled: bool) -> (r: String)
    ensures
        r@ == (if cancelled {
            "iptal edildi"@
        } else {
            "tamamlandı"@
        }),
{
    if cancelled {
        "iptal edildi".to_owned()
    } else {
        "tamamlandı".to_owned()
    }
}

/// The log line of a processed file: `✓ {output}`.
pub fn done_line(output: &str) -> (r: String)
    ensures
        r@ == "✓ "@ + output@,
{
    let mut r = "✓ ".to_owned();
    append_str(&mut r, output);
    r
}

/// The log line of a failed file: `✗ {path}: {error}`.
pub fn failed_line(path: &str, error: &str) -> (r: String)
    ensures
        r@ == "✗ "@ + path@ + ": "@ + error@,
{
    let mut r = "✗ ".to_owned();
    append_str(&mut r, path);
    append_str(&mut r, ": ");
    append_str(&mut r, error);
    r
}

/// The memory note of a batch job over `folder`; `what` names the job
/// (`toplu OCR`, `toplu video kalite artırma`).
pub fn batch_note(folder: &str, what: &str, summary: &str) -> (r: String)
    ensures
        r@ == "'"@ + folder@ + "' klasöründe "@ + what@ + " yaptı — "@ + summary@,
{
    let mut r = "'".to_owned();
    append_str(&mut r, folder);
    append_str(&mut r, "' klasöründe ");
    append_str(&mut r, what);
    append_str(&mut r, " yaptı — ");
    append_str(&mut r, summary);
    r
}

/// The title of a batch job's task: `{what}: {folder}`.
pub fn batch_title(what: &str, folder: &str) -> (r: String)
    ensures
        r@ == what@ + ": "@ + folder@,
{
    let mut r = what.to_owned();
    append_str(&mut r, ": ");
    append_str(&mut r, folder);
    r
}

impl TaskTable {
    /// Adds a new queued task under a fresh random id and returns the id;
    /// when the random source fails, the table is left as it was and the
    /// refusal is returned.
    pub fn create_task(&mut self, kind: &str, title: &str) -> (r: Result<String, String>)
        requires
            old(self).wf(),
        ensures
            final(self).wf(),
            r matches Ok(id) ==> id@.len() == 36 && final(self).task(id@) == Some(fresh_task(kind@, title@))
                && forall|k: Seq<char>| k != id@ ==> #[trigger] final(self).task(k) == old(self).task(k),
            r matches Err(e) ==> starts_with(e@, random_failure_prefix()) && forall|k: Seq<char>|
                #[trigger] final(self).task(k) == old(self).task(k),
    {
        let id = new_uuid()?;
        self.insert_manual_task(id.as_str(), kind, title);
        Ok(id)
    }
}

// ---------------------------------------------------------------------
// OCR of one PDF
// ---------------------------------------------------------------------

/// The arguments of `pdftoppm` that render each page of `pdf` as a PNG at
/// 200 dpi, named after `prefix`.
pub fn pdftoppm_args(pdf: &str, prefix: &str) -> (r: Vec<String>)
    ensures
        str_views(r@) == seq!["-r"@, "200"@, "-png"@, pdf@, prefix@],
{
    let r = vec!["-r".to_owned(), "200".to_owned(), "-png".to_owned(), pdf.to_owned(), prefix.to_owned()];
    assert(str_views(r@) =~= seq!["-r"@, "200"@, "-png"@, pdf@, prefix@]);
    r
}

/// The arguments of `tesseract` that print the Turkish and English text
/// of a page image.
pub fn tesseract_args(page: &str) -> (r: Vec<String>)
    ensures
        str_views(r@) == seq![page@, "stdout"@, "-l"@, "tur+eng"@],
{
    let r = vec![page.to_owned(), "stdout".to_owned(), "-l".to_owned(), "tur+eng".to_owned()];
    assert(str_views(r@) =~= seq![page@, "stdout"@, "-l"@, "tur+eng"@]);
    r
}

/// The text of the pages, each followed by an empty line.
pub open spec fn pages_text(pages: Seq<Seq<char>>) -> Seq<char>
    decreases pages.len(),
{
    if pages.len() == 0 {
        Seq::empty()
    } else {
        pages_text(pages.drop_last()) + pages.last() + "\n\n"@
    }
}

/// The recognized text of a document from the text of its pages.
pub fn ocr_text(pages: &Vec<String>) -> (r: String)
    ensures
        r@ == pages_text(str_views(pages@)),
{
    let mut r = String::new();
    let mut i: usize = 0;
    while i < pages.len()
        invariant
            i <= pages.len(),
            r@ == pages_text(str_views(pages@).take(i as int)),
        decreases pages.len() - i,
    {
        append_str(&mut r, pages[i].as_str());
        append_str(&mut r, "\n\n");
        proof {
            let t = str_views(pages@).take(i + 1);
            assert(t.drop_last() =~= str_views(pages@).take(i as int));
            assert(t.last() == pages@[i as int]@);
        }
        i = i + 1;
    }
    assert(str_views(pages@).take(pages.len() as int) =~= str_views(pages@));
    r
}

/// The text file written next to a PDF: `{pdf}.ocr.txt`.
pub fn ocr_output_path(pdf: &str) -> (r: String)
    ensures
        r@ == pdf@ + ".ocr.txt"@,
{
    let mut r = pdf.to_owned();
    append_str(&mut r, ".ocr.txt");
    r
}

/// The error when the pages could not be rendered.
pub fn ocr_render_error() -> (r: String)
    ensures
        r@ == "PDF sayfaları görsele çevrilemedi."@,
{
    "PDF sayfaları görsele çevrilemedi.".to_owned()
}

// ---------------------------------------------------------------------
// Folder scan
// ---------------------------------------------------------------------

/// `(extension, count, bytes)` of a statistic.
pub open spec fn stat_view(s: ExtStat) -> (Seq<char>, nat, nat) {
    (s.ext@, s.count as nat, s.bytes as nat)
}

pub open spec fn stat_views(v: Seq<ExtStat>) -> Seq<(Seq<char>, nat, nat)> {
    v.map_values(|s: ExtStat| stat_view(s))
}

/// Position of the statistic of `e` among `g`, or -1.
pub open spec fn stat_index(g: Seq<(Seq<char>, nat, nat)>, e: Seq<char>) -> int
    decreases g.len(),
{
    if g.len() == 0 {
        -1
    } else if g.last().0 == e {
        g.len() - 1
    } else {
        stat_index(g.drop_last(), e)
    }
}

/// Adds a file of extension `e` and `size` bytes to the statistics.
pub open spec fn add_file(g: Seq<(Seq<char>, nat, nat)>, e: Seq<char>, size: nat) -> Seq<(Seq<char>, nat, nat)> {
    let k = stat_index(g, e);
    if k < 0 {
        g.push((e, 1, size))
    } else {
        g.update(k, (e, g[k].1 + 1, g[k].2 + size))
    }
}

/// The statistics of files given as `(extension, size)`: one entry per
/// extension, in the order extensions first appear.
pub open spec fn ext_stats(files: Seq<(Seq<char>, nat)>) -> Seq<(Seq<char>, nat, nat)>
    decreases files.len(),
{
    if files.len() == 0 {
        Seq::empty()
    } else {
        add_file(ext_stats(files.drop_last()), files.last().0, files.last().1)
    }
}

/// The sum of the sizes.
pub open spec fn total_size(files: Seq<(Seq<char>, nat)>) -> nat
    decreases files.len(),
{
    if files.len() == 0 {
        0
    } else {
        total_size(files.drop_last()) + files.last().1
    }
}

/// A file as `(extension, size)`.
pub open spec fn file_views(v: Seq<(String, u64)>) -> Seq<(Seq<char>, nat)> {
    v.map_values(|f: (String, u64)| (f.0@, f.1 as nat))
}

proof fn lemma_stat_index_range(g: Seq<(Seq<char>, nat, nat)>, e: Seq<char>)
    ensures
        -1 <= stat_index(g, e) < g.len(),
        stat_index(g, e) >= 0 ==> g[stat_index(g, e)].0 == e,
        stat_index(g, e) < 0 ==> forall|i: int| 0 <= i < g.len() ==> (#[trigger] g[i]).0 != e,
    decreases g.len(),
{
    if g.len() > 0 && g.last().0 != e {
        lemma_stat_index_range(g.drop_last(), e);
        if stat_index(g, e) < 0 {
            assert forall|i: int| 0 <= i < g.len() implies (#[trigger] g[i]).0 != e by {
                if i < g.len() - 1 {
                    assert(g.drop_last()[i] == g[i]);
                }
            }
        }
    }
}

/// Each count and byte sum is at most the total.
proof fn lemma_stats_bounded(files: Seq<(Seq<char>, nat)>)
    ensures
        ext_stats(files).len() <= files.len(),
        forall|i: int| 0 <= i < ext_stats(files).len() ==> (#[trigger] ext_stats(files)[i]).1 <= files.len()
            && ext_stats(files)[i].2 <= total_size(files),
    decreases files.len(),
{
    if files.len() > 0 {
        let d = files.drop_last();
        lemma_stats_bounded(d);
        lemma_stat_index_range(ext_stats(d), files.last().0);
    }
}

/// The statistics by extension of the files given as `(lower-case
/// extension, size)`.
pub fn extension_stats(files: &Vec<(String, u64)>) -> (r: Vec<ExtStat>)
    requires
        total_size(file_views(files@)) <= u64::MAX,
    ensures
        stat_views(r@) == ext_stats(file_views(files@)),
{
    let ghost fv = file_views(files@);
    let mut out: Vec<ExtStat> = Vec::new();
    let mut i: usize = 0;
    while i < files.len()
        invariant
            i <= files.len(),
            fv == file_views(files@),
            total_size(fv) <= u64::MAX,
            stat_views(out@) == ext_stats(fv.take(i as int)),
        decreases files.len() - i,
    {
        let ghost t = fv.take(i + 1);
        let ghost g = stat_views(out@);
        proof {
            assert(t.drop_last() =~= fv.take(i as int));
            assert(t.last() == (files@[i as int].0@, files@[i as int].1 as nat));
            lemma_stats_bounded(t);
            lemma_total_prefix(fv, i + 1);
            lemma_stat_index_range(g, files@[i as int].0@);
        }
        let e = &files[i].0;
        let size = files[i].1;
        let mut k: usize = out.len();
        assert(g.take(k as int) =~= g);
        while k > 0 && !str_eq(out[k - 1].ext.as_str(), e.as_str())
            invariant
                k <= out@.len(),
                g == stat_views(out@),
                stat_index(g, e@) == stat_index(g.take(k as int), e@),
            decreases k,
        {
            assert(g.take(k as int).drop_last() =~= g.take(k - 1));
            k = k - 1;
        }
        if k == 0 {
            assert(g.take(0) =~= Seq::<(Seq<char>, nat, nat)>::empty());
            out.push(ExtStat { ext: e.clone(), count: 1, bytes: size });
            proof {
                assert(stat_views(out@) =~= g.push((e@, 1, size as nat)));
            }
        } else {
            let j = k - 1;
            proof {
                assert(g.take(k as int).last() == g[j as int]);
                assert(stat_index(g, e@) == j);
                assert(ext_stats(t)[j as int] == (e@, g[j as int].1 + 1, g[j as int].2 + size as nat));
            }
            let old_stat = out.remove(j);
            let updated = ExtStat { ext: old_stat.ext, count: old_stat.count + 1, bytes: old_stat.bytes + size };
            out.insert(j, updated);
            proof {
                assert(stat_views(out@) =~= g.update(j as int, (e@, g[j as int].1 + 1, g[j as int].2 + size as nat)));
            }
        }
        i = i + 1;
    }
    proof {
        assert(fv.take(files.len() as int) =~= fv);
    }
    out
}

/// The sizes of a prefix add up to at most the total.
proof fn lemma_total_prefix(files: Seq<(Seq<char>, nat)>, k: int)
    requires
        0 <= k <= files.len(),
    ensures
        total_size(files.take(k)) <= total_size(files),
    decreases files.len(),
{
    if k < files.len() {
        assert(files.drop_last().take(k) =~= files.take(k));
        lemma_total_prefix(files.drop_last(), k);
    } else {
        assert(files.take(k) =~= files);
    }
}

/// The total size of the files.
pub fn total_bytes(files: &Vec<(String, u64)>) -> (r: u64)
    requires
        total_size(file_views(files@)) <= u64::MAX,
    ensures
        r == total_size(file_views(files@)),
{
    let ghost fv = file_views(files@);
    let mut sum: u64 = 0;
    let mut i: usize = 0;
    while i < files.len()
        invariant
            i <= files.len(),
            fv == file_views(files@),
            total_size(fv) <= u64::MAX,
            sum == total_size(fv.take(i as int)),
        decreases files.len() - i,
    {
        proof {
            assert(fv.take(i + 1).drop_last() =~= fv.take(i as int));
            lemma_total_prefix(fv, i + 1);
        }
        sum = sum + files[i].1;
        i = i + 1;
    }
    proof {
        assert(fv.take(files.len() as int) =~= fv);
    }
    sum
}

/// A statistic as plain values.
pub type StatView = (Seq<char>, nat, nat);

/// `sorted` with `x` placed after the last element that has at least as
/// many bytes.
pub open spec fn insert_by_bytes(sorted: Seq<StatView>, x: StatView) -> Seq<StatView>
    decreases sorted.len(),
{
    if sorted.len() == 0 {
        seq![x]
    } else if sorted.last().2 >= x.2 {
        sorted.push(x)
    } else {
        insert_by_bytes(sorted.drop_last(), x).push(sorted.last())
    }
}

/// The statistics from the largest byte count down, ties kept in order
/// (a stable sort).
pub open spec fn sorted_by_bytes(s: Seq<StatView>) -> Seq<StatView>
    decreases s.len(),
{
    if s.len() == 0 {
        s
    } else {
        insert_by_bytes(sorted_by_bytes(s.drop_last()), s.last())
    }
}

/// Byte counts never increase.
pub open spec fn bytes_descending(s: Seq<StatView>) -> bool {
    forall|i: int, j: int| 0 <= i < j < s.len() ==> s[i].2 >= s[j].2
}

proof fn lemma_insert_bytes_at(s: Seq<StatView>, x: StatView, j: int)
    requires
        0 <= j <= s.len(),
        forall|k: int| j <= k < s.len() ==> s[k].2 < x.2,
        j == 0 || s[j - 1].2 >= x.2,
    ensures
        insert_by_bytes(s, x) == s.take(j) + seq![x] + s.skip(j),
    decreases s.len() - j,
{
    if s.len() == 0 {
        assert(s.take(j) + seq![x] + s.skip(j) =~= seq![x]);
    } else if j == s.len() {
        assert(s.take(j) + seq![x] + s.skip(j) =~= s.push(x));
    } else {
        let d = s.drop_last();
        lemma_insert_bytes_at(d, x, j);
        assert(d.take(j) + seq![x] + d.skip(j) + seq![s.last()] =~= s.take(j) + seq![x] + s.skip(j));
    }
}

/// Sorts the statistics from the largest byte count down; equal counts
/// keep their order.
pub fn sort_by_bytes(stats: Vec<ExtStat>) -> (r: Vec<ExtStat>)
    ensures
        stat_views(r@) == sorted_by_bytes(stat_views(stats@)),
{
    let ghost orig = stats@;
    let ghost ov = stat_views(orig);
    let mut rest = stats;
    let mut out: Vec<ExtStat> = Vec::new();
    let mut k: usize = 0;
    assert(orig.len() == rest.len());
    proof {
        assert(ov.take(0) =~= Seq::<StatView>::empty());
        assert(orig.skip(0) =~= orig);
    }
    while rest.len() > 0
        invariant
            k <= orig.len(),
            orig.len() <= usize::MAX,
            ov == stat_views(orig),
            rest@ == orig.skip(k as int),
            stat_views(out@) == sorted_by_bytes(ov.take(k as int)),
        decreases rest.len(),
    {
        let x = rest.remove(0);
        proof {
            assert(x == orig[k as int]);
            assert(orig.skip(k as int).remove(0) =~= orig.skip(k + 1));
            assert(ov.take(k + 1).drop_last() =~= ov.take(k as int));
            assert(ov.take(k + 1).last() == stat_view(x));
        }
        let mut j = out.len();
        while j > 0 && out[j - 1].bytes < x.bytes
            invariant
                j <= out.len(),
                forall|t: int| j <= t < out.len() ==> out@[t].bytes < x.bytes,
            decreases j,
        {
            j = j - 1;
        }
        let ghost ow = stat_views(out@);
        proof {
            lemma_insert_bytes_at(ow, stat_view(x), j as int);
        }
        out.insert(j, x);
        proof {
            assert(stat_views(out@) =~= ow.take(j as int) + seq![stat_view(x)] + ow.skip(j as int));
        }
        k = k + 1;
    }
    proof {
        assert(ov.take(k as int) =~= ov);
    }
    out
}

/// Sorting puts the byte counts in descending order and keeps every
/// statistic, each as often as before.
pub proof fn lemma_sorted_by_bytes(s: Seq<StatView>)
    ensures
        bytes_descending(sorted_by_bytes(s)),
        sorted_by_bytes(s).to_multiset() == s.to_multiset(),
    decreases s.len(),
{
    if s.len() > 0 {
        lemma_sorted_by_bytes(s.drop_last());
        lemma_insert_bytes_keeps(sorted_by_bytes(s.drop_last()), s.last());
        broadcast use vstd::seq_lib::group_seq_properties;
        assert(s =~= s.drop_last().push(s.last()));
    }
}

proof fn lemma_insert_bytes_keeps(s: Seq<StatView>, x: StatView)
    requires
        bytes_descending(s),
    ensures
        bytes_descending(insert_by_bytes(s, x)),
        insert_by_bytes(s, x).to_multiset() == s.to_multiset().insert(x),
        insert_by_bytes(s, x).len() == s.len() + 1,
        forall|i: int|
            0 <= i < insert_by_bytes(s, x).len() ==> #[trigger] insert_by_bytes(s, x)[i] == x || s.contains(
                insert_by_bytes(s, x)[i],
            ),
    decreases s.len(),
{
    broadcast use vstd::seq_lib::group_seq_properties;
    if s.len() == 0 {
        assert(seq![x] =~= Seq::<StatView>::empty().push(x));
    } else if s.last().2 >= x.2 {
    } else {
        let d = s.drop_last();
        lemma_insert_bytes_keeps(d, x);
        let r = insert_by_bytes(d, x);
        assert(s =~= d.push(s.last()));
        assert forall|i: int| 0 <= i < r.len() implies #[trigger] r[i].2 >= s.last().2 by {
            if r[i] == x {
            } else {
                assert(d.contains(r[i]));
                let k = choose|k: int| 0 <= k < d.len() && d[k] == r[i];
                assert(s[k] == d[k]);
            }
        }
        assert forall|i: int| 0 <= i < r.push(s.last()).len() implies #[trigger] r.push(s.last())[i] == x
            || s.contains(r.push(s.last())[i]) by {
            if i < r.len() {
                if r[i] != x {
                    assert(d.contains(r[i]));
                    let k = choose|k: int| 0 <= k < d.len() && d[k] == r[i];
                    assert(s[k] == d[k]);
                }
            } else {
                assert(s[s.len() - 1] == s.last());
            }
        }
    }
}

/// The rows of a folder report: the statistics by extension from the
/// largest byte count down, at most fifteen.
pub open spec fn report_rows_spec(files: Seq<(Seq<char>, nat)>) -> Seq<StatView> {
    let sorted = sorted_by_bytes(ext_stats(files));
    if sorted.len() <= 15 {
        sorted
    } else {
        sorted.take(15)
    }
}

/// The rows of a folder report for files given as `(lower-case extension,
/// size)`.
pub fn report_rows(files: &Vec<(String, u64)>) -> (r: Vec<ExtStat>)
    requires
        total_size(file_views(files@)) <= u64::MAX,
    ensures
        stat_views(r@) == report_rows_spec(file_views(files@)),
{
    let stats = extension_stats(files);
    let mut sorted = sort_by_bytes(stats);
    if sorted.len() > 15 {
        let ghost before = sorted@;
        sorted.truncate(15);
        proof {
            assert(sorted@ =~= before.take(15));
            assert(stat_views(sorted@) =~= stat_views(before).take(15));
        }
    }
    sorted
}

} // verus!
