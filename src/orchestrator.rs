use vstd::prelude::*;

use crate::error::LoaderError;

verus! {

/// The most fetches that are ever in flight at once.
pub const MAX_CONCURRENT_DOWNLOAD: usize = 8;

/// What the hub reports for a model: its files and the revision they belong to.
#[derive(Debug, Clone)]
pub struct ModelManifest {
    pub file_names: Vec<String>,
    pub revision: String,
}

/// One file to fetch.
#[derive(Debug, Clone)]
pub struct DownloadTask {
    pub model_id: String,
    pub file_name: String,
}

/// What comes back from the workers: one report per finished fetch, or the
/// news that none arrived before the deadline.
#[derive(Debug, Clone)]
pub enum Signal {
    Success(String),
    Failure(String),
    TimedOut,
}

/// What the driver of a download must do next.
#[derive(Debug, Clone)]
pub enum Action {
    /// Submit these fetches, then wait for the next signal.
    Await(Vec<DownloadTask>),
    /// Every file arrived: build the alias directory of this revision.
    Materialize(String),
    /// Give up: the download failed.
    Abort(LoaderError),
}

/// The abstract value of an `Action`; a task is a pair (model id, file name).
pub enum ActionView {
    Await(Seq<(Seq<char>, Seq<char>)>),
    Materialize(Seq<char>),
    Abort(LoaderError),
}

impl View for Action {
    type V = ActionView;

    open spec fn view(&self) -> ActionView {
        match self {
            Action::Await(tasks) => ActionView::Await(
                tasks@.map_values(|t: DownloadTask| (t.model_id@, t.file_name@)),
            ),
            Action::Materialize(rev) => ActionView::Materialize(rev@),
            Action::Abort(e) => ActionView::Abort(*e),
        }
    }
}

/// The abstract state of a download: which files, how many were handed out,
/// how many reports came back, and whether it failed.
pub struct OrchestratorView {
    pub model_id: Seq<char>,
    pub files: Seq<Seq<char>>,
    pub revision: Seq<char>,
    pub dispatched: nat,
    pub drained: nat,
    pub failed: bool,
}

impl OrchestratorView {
    /// Fetches handed out whose report has not come back.
    pub open spec fn active(self) -> int {
        self.dispatched - self.drained
    }

    /// The state invariant: files go out in order, no report comes back for a
    /// fetch never handed out, no more than the ceiling run at once, and while
    /// files still wait, the pool is kept full.
    pub open spec fn wf(self) -> bool {
        &&& self.dispatched <= self.files.len()
        &&& self.drained <= self.dispatched
        &&& self.active() <= MAX_CONCURRENT_DOWNLOAD
        &&& (!self.failed && self.dispatched < self.files.len()) ==> self.active()
            == MAX_CONCURRENT_DOWNLOAD
    }

    /// The download still expects a report from a worker.
    pub open spec fn awaiting(self) -> bool {
        !self.failed && self.drained < self.dispatched
    }

    /// Every file was handed out and reported back, and nothing failed.
    pub open spec fn complete(self) -> bool {
        !self.failed && self.dispatched == self.files.len() && self.drained == self.files.len()
    }
}

/// The tasks for a run of files of one model.
pub open spec fn tasks_of(model_id: Seq<char>, files: Seq<Seq<char>>) -> Seq<(Seq<char>, Seq<char>)> {
    files.map_values(|f: Seq<char>| (model_id, f))
}

/// The smaller of two naturals.
pub open spec fn min_nat(a: nat, b: nat) -> nat {
    if a <= b {
        a
    } else {
        b
    }
}

/// The first state of a download and its first action: the pool is filled
/// with as many files as it takes, or, with no files at all, the alias
/// directory is built straight away.
pub open spec fn start_spec(model_id: Seq<char>, files: Seq<Seq<char>>, revision: Seq<char>) -> (
    OrchestratorView,
    ActionView,
) {
    let k = min_nat(files.len(), MAX_CONCURRENT_DOWNLOAD as nat);
    let v = OrchestratorView { model_id, files, revision, dispatched: k, drained: 0, failed: false };
    if files.len() == 0 {
        (v, ActionView::Materialize(revision))
    } else {
        (v, ActionView::Await(tasks_of(model_id, files.subrange(0, k as int))))
    }
}

/// The state after one successful report: a slot frees up and the next
/// waiting file, if any, takes it.
pub open spec fn after_success(v: OrchestratorView) -> OrchestratorView {
    OrchestratorView {
        model_id: v.model_id,
        files: v.files,
        revision: v.revision,
        dispatched: if v.dispatched < v.files.len() {
            v.dispatched + 1
        } else {
            v.dispatched
        },
        drained: v.drained + 1,
        failed: v.failed,
    }
}

/// How a download reacts to one signal.
pub open spec fn step_spec(v: OrchestratorView, sig: Signal) -> (OrchestratorView, ActionView) {
    match sig {
        Signal::Success(_) => {
            let n = after_success(v);
            if v.dispatched < v.files.len() {
                (
                    n,
                    ActionView::Await(
                        tasks_of(v.model_id, v.files.subrange(v.dispatched as int, v.dispatched + 1int)),
                    ),
                )
            } else if n.drained == v.files.len() {
                (n, ActionView::Materialize(v.revision))
            } else {
                (n, ActionView::Await(Seq::empty()))
            }
        },
        Signal::Failure(msg) => (
            OrchestratorView {
                model_id: v.model_id,
                files: v.files,
                revision: v.revision,
                dispatched: v.dispatched,
                drained: v.drained + 1,
                failed: true,
            },
            ActionView::Abort(LoaderError::Registry(msg)),
        ),
        Signal::TimedOut => (
            OrchestratorView {
                model_id: v.model_id,
                files: v.files,
                revision: v.revision,
                dispatched: v.dispatched,
                drained: v.drained,
                failed: true,
            },
            ActionView::Abort(LoaderError::Timeout),
        ),
    }
}

/// The state after `k` successful reports in a row.
pub open spec fn after_successes(v: OrchestratorView, k: nat) -> OrchestratorView
    decreases k,
{
    if k == 0 {
        v
    } else {
        after_success(after_successes(v, (k - 1) as nat))
    }
}

/// Successes change only the two counters.
proof fn lemma_successes_keep(v: OrchestratorView, k: nat)
    ensures
        after_successes(v, k).model_id == v.model_id,
        after_successes(v, k).files == v.files,
        after_successes(v, k).revision == v.revision,
        after_successes(v, k).failed == v.failed,
    decreases k,
{
    if k > 0 {
        lemma_successes_keep(v, (k - 1) as nat);
    }
}

/// Each signal taken in a well-formed, waiting state leads to a well-formed
/// state: at no point are more than `MAX_CONCURRENT_DOWNLOAD` fetches in flight.
pub proof fn lemma_step_keeps_ceiling(v: OrchestratorView, sig: Signal)
    requires
        v.wf(),
        v.awaiting(),
    ensures
        step_spec(v, sig).0.wf(),
        step_spec(v, sig).0.active() <= MAX_CONCURRENT_DOWNLOAD,
{
}

/// A download of at most `MAX_CONCURRENT_DOWNLOAD` files hands all of them out
/// at once; a larger one hands out exactly `MAX_CONCURRENT_DOWNLOAD`.
pub proof fn lemma_start_fills_pool(model_id: Seq<char>, files: Seq<Seq<char>>, revision: Seq<char>)
    ensures
        start_spec(model_id, files, revision).0.wf(),
        files.len() <= MAX_CONCURRENT_DOWNLOAD ==> start_spec(model_id, files, revision).0.dispatched
            == files.len(),
        files.len() > MAX_CONCURRENT_DOWNLOAD ==> start_spec(model_id, files, revision).0.dispatched
            == MAX_CONCURRENT_DOWNLOAD,
        0 < files.len() <= MAX_CONCURRENT_DOWNLOAD ==> start_spec(model_id, files, revision).1
            == ActionView::Await(tasks_of(model_id, files)),
{
    if 0 < files.len() <= MAX_CONCURRENT_DOWNLOAD {
        assert(files.subrange(0, files.len() as int) =~= files);
    }
}

/// A download of `N > 0` files, fed only successes, hands out each file once
/// and drains exactly `N` reports: after `k < N` reports it still waits, each
/// success moves it on by one report, the alias directory is asked for by the
/// `N`-th report and by no earlier one, and by then all `N` were handed out.
pub proof fn lemma_all_dispatched_and_drained(
    model_id: Seq<char>,
    files: Seq<Seq<char>>,
    revision: Seq<char>,
    k: nat,
    name: String,
)
    requires
        files.len() > 0,
        k <= files.len(),
    ensures
        ({
            let v = after_successes(start_spec(model_id, files, revision).0, k);
            &&& v.wf()
            &&& v.drained == k
            &&& v.dispatched == min_nat(
                k + min_nat(files.len(), MAX_CONCURRENT_DOWNLOAD as nat),
                files.len(),
            )
            &&& k < files.len() ==> v.awaiting()
            &&& k < files.len() ==> step_spec(v, Signal::Success(name)).0 == after_successes(
                start_spec(model_id, files, revision).0,
                k + 1,
            )
            &&& k < files.len() ==> ((step_spec(v, Signal::Success(name)).1 is Materialize) <==> k
                + 1 == files.len())
            &&& k == files.len() ==> v.complete()
        }),
    decreases k,
{
    let v0 = start_spec(model_id, files, revision).0;
    let m = min_nat(files.len(), MAX_CONCURRENT_DOWNLOAD as nat);
    if k > 0 {
        lemma_all_dispatched_and_drained(model_id, files, revision, (k - 1) as nat, name);
        let p = after_successes(v0, (k - 1) as nat);
        assert(after_successes(v0, k) == after_success(p));
        assert(p.dispatched == min_nat(((k - 1) + m) as nat, files.len()));
    } else {
        assert(after_successes(v0, 0) == v0);
    }
    let v = after_successes(v0, k);
    assert(v.model_id == model_id && v.files == files && v.revision == revision && !v.failed)
        by {
        lemma_successes_keep(v0, k);
    }
    if k < files.len() {
        assert(after_successes(v0, k + 1) == after_success(v));
    }
}

/// A failed fetch ends the download: the failure is reported as it came, no
/// further report is taken, and the state is not complete, so the alias
/// directory is never asked for.
pub proof fn lemma_failure_aborts(v: OrchestratorView, msg: String)
    requires
        v.wf(),
        v.awaiting(),
    ensures
        step_spec(v, Signal::Failure(msg)).1 == ActionView::Abort(LoaderError::Registry(msg)),
        step_spec(v, Signal::Failure(msg)).0.failed,
        !step_spec(v, Signal::Failure(msg)).0.awaiting(),
        !step_spec(v, Signal::Failure(msg)).0.complete(),
{
}

/// The alias directory is asked for only once every file was handed out and
/// reported back, with no failure on the way.
pub proof fn lemma_materialize_only_when_complete(v: OrchestratorView, sig: Signal)
    requires
        v.wf(),
        v.awaiting(),
        step_spec(v, sig).1 is Materialize,
    ensures
        step_spec(v, sig).0.complete(),
        step_spec(v, sig).1 == ActionView::Materialize(v.revision),
{
}

/// The decisions of one bounded download: which files to hand to the worker
/// pool, and when all of them are in.
pub struct Orchestrator {
    model_id: String,
    files: Vec<String>,
    revision: String,
    dispatched: usize,
    drained: usize,
    failed: bool,
}

impl View for Orchestrator {
    type V = OrchestratorView;

    closed spec fn view(&self) -> OrchestratorView {
        OrchestratorView {
            model_id: self.model_id@,
            files: self.files@.map_values(|s: String| s@),
            revision: self.revision@,
            dispatched: self.dispatched as nat,
            drained: self.drained as nat,
            failed: self.failed,
        }
    }
}

impl Orchestrator {
    /// Hands out the files `lo..hi` as tasks.
    fn tasks_between(&self, lo: usize, hi: usize) -> (r: Vec<DownloadTask>)
        requires
            lo <= hi <= self.files.len(),
        ensures
            r@.map_values(|t: DownloadTask| (t.model_id@, t.file_name@)) == tasks_of(
                self@.model_id,
                self@.files.subrange(lo as int, hi as int),
            ),
    {
        let mut out: Vec<DownloadTask> = Vec::new();
        let mut i: usize = lo;
        while i < hi
            invariant
                lo <= i <= hi <= self.files.len(),
                out@.map_values(|t: DownloadTask| (t.model_id@, t.file_name@)) == tasks_of(
                    self@.model_id,
                    self@.files.subrange(lo as int, i as int),
                ),
            decreases hi - i,
        {
            let task = DownloadTask {
                model_id: self.model_id.clone(),
                file_name: self.files[i].clone(),
            };
            let ghost before = out@;
            out.push(task);
            proof {
                let f = |t: DownloadTask| (t.model_id@, t.file_name@);
                assert(out@ == before.push(task));
                assert(task.model_id@ == self@.model_id);
                assert(task.file_name@ == self@.files[i as int]);
                assert(out@.map_values(f) =~= before.map_values(f).push((task.model_id@, task.file_name@)));
                assert(self@.files.subrange(lo as int, i + 1) == self@.files.subrange(
                    lo as int,
                    i as int,
                ).push(self.files@[i as int]@));
                assert(out@.map_values(|t: DownloadTask| (t.model_id@, t.file_name@)) =~= tasks_of(
                    self@.model_id,
                    self@.files.subrange(lo as int, i + 1),
                ));
            }
            i = i + 1;
        }
        out
    }

    /// Begins the download of `manifest`'s files for `model_id`.
    pub fn start(model_id: &str, manifest: ModelManifest) -> (r: (Orchestrator, Action))
        ensures
            r.0@.wf(),
            (r.0@, r.1@) == start_spec(
                model_id@,
                manifest.file_names@.map_values(|s: String| s@),
                manifest.revision@,
            ),
    {
        let n = manifest.file_names.len();
        let k = if n <= MAX_CONCURRENT_DOWNLOAD {
            n
        } else {
            MAX_CONCURRENT_DOWNLOAD
        };
        let o = Orchestrator {
            model_id: String::from_str(model_id),
            files: manifest.file_names,
            revision: manifest.revision,
            dispatched: k,
            drained: 0,
            failed: false,
        };
        if n == 0 {
            let rev = o.revision.clone();
            (o, Action::Materialize(rev))
        } else {
            let tasks = o.tasks_between(0, k);
            (o, Action::Await(tasks))
        }
    }

    /// Takes in one signal from the workers and decides what comes next.
    pub fn on_signal(&mut self, signal: Signal) -> (r: Action)
        requires
            old(self)@.wf(),
            old(self)@.awaiting(),
        ensures
            final(self)@.wf(),
            (final(self)@, r@) == step_spec(old(self)@, signal),
    {
        match signal {
            Signal::Success(_) => {
                let n = self.files.len();
                self.drained = self.drained + 1;
                if self.dispatched < n {
                    let d = self.dispatched;
                    let tasks = self.tasks_between(d, d + 1);
                    self.dispatched = d + 1;
                    Action::Await(tasks)
                } else if self.drained == n {
                    let rev = self.revision.clone();
                    Action::Materialize(rev)
                } else {
                    let tasks: Vec<DownloadTask> = Vec::new();
                    assert(tasks@.map_values(|t: DownloadTask| (t.model_id@, t.file_name@)) =~= Seq::empty());
                    Action::Await(tasks)
                }
            },
            Signal::Failure(msg) => {
                self.drained = self.drained + 1;
                self.failed = true;
                Action::Abort(LoaderError::Registry(msg))
            },
            Signal::TimedOut => {
                self.failed = true;
                Action::Abort(LoaderError::Timeout)
            },
        }
    }

    /// Whether a report from a worker is still expected.
    pub fn is_awaiting(&self) -> (r: bool)
        ensures
            r == self@.awaiting(),
    {
        !self.failed && self.drained < self.dispatched
    }

    /// How many fetches were handed out so far.
    pub fn dispatched_count(&self) -> (r: usize)
        ensures
            r == self@.dispatched,
    {
        self.dispatched
    }

    /// How many reports came back so far.
    pub fn drained_count(&self) -> (r: usize)
        ensures
            r == self@.drained,
    {
        self.drained
    }

    /// How many fetches are in flight.
    pub fn active_count(&self) -> (r: usize)
        requires
            self@.wf(),
        ensures
            r == self@.active(),
    {
        self.dispatched - self.drained
    }

    /// Whether the download failed.
    pub fn is_failed(&self) -> (r: bool)
        ensures
            r == self@.failed,
    {
        self.failed
    }
}

} // verus!
