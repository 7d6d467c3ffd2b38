//! Shared background-processing engine for the two-phase indexing pipeline.
//!
//! After indexing populates the `images` table with row-only entries, three
//! phases make images searchable and viewable:
//!
//! 1. **`Thumbnails300`**: generate 300 px thumbnails (used as embedding
//!    source; mandatory before embeddings).
//! 2. **`Embeddings`**: CLIP-embed each image from its 300 px thumbnail and
//!    store the vector.
//! 3. **`FullThumbnails`**: generate the 512 px and 2048 px renditions for
//!    the GUI grid, detail panel, and lightbox.

use vstd::prelude::*;
use crate::units::ThumbnailSize;

verus! {

/// The three phases of background processing, in execution order.
#[derive(Debug, Clone, Copy, PartialEq, Eq, Structural)]
pub enum ProcessPhase {
    /// Generate 300 px thumbnails (prerequisite for embedding).
    Thumbnails300,
    /// CLIP-embed images from their 300 px thumbnails.
    Embeddings,
    /// Generate 512 px and 2048 px renditions for the GUI.
    FullThumbnails,
}

/// Remaining work counts for each processing phase.
#[derive(Debug, Clone, Copy, PartialEq, Eq, Structural)]
pub struct ProcessCounts {
    /// Images missing a 300 px thumbnail.
    pub thumbs300: usize,
    /// Images missing a CLIP embedding in the active model's vector table.
    pub embeddings: usize,
    /// Sum of images missing 512 px and 2048 px thumbnails.
    pub full_thumbs: usize,
}

impl ProcessCounts {
    /// Total remaining work across all phases.
    pub open spec fn total(self) -> int {
        self.thumbs300 + self.embeddings + self.full_thumbs
    }

    /// Total remaining work across all phases.
    pub fn total_remaining(&self) -> (r: usize)
        requires
            self.total() <= usize::MAX,
        ensures
            r == self.total(),
    {
        self.thumbs300 + self.embeddings + self.full_thumbs
    }

    /// The first phase that still has remaining work, in the fixed execution
    /// order: `Thumbnails300`, `Embeddings`, `FullThumbnails`.
    /// Returns `None` when every phase is drained.
    pub fn next_phase(&self) -> (r: Option<ProcessPhase>)
        ensures
            r == phase_left(*self),
            r is None <==> self.total() == 0,
            r == Some(ProcessPhase::Thumbnails300) <==> self.thumbs300 > 0,
            r == Some(ProcessPhase::Embeddings) <==> self.thumbs300 == 0 && self.embeddings > 0,
            r == Some(ProcessPhase::FullThumbnails) <==> self.thumbs300 == 0 && self.embeddings == 0
                && self.full_thumbs > 0,
    {
        if self.thumbs300 > 0 {
            Some(ProcessPhase::Thumbnails300)
        } else if self.embeddings > 0 {
            Some(ProcessPhase::Embeddings)
        } else if self.full_thumbs > 0 {
            Some(ProcessPhase::FullThumbnails)
        } else {
            None
        }
    }
}

/// The first phase that still has work, in the order of the phases.
pub open spec fn phase_left(c: ProcessCounts) -> Option<ProcessPhase> {
    if c.thumbs300 > 0 {
        Some(ProcessPhase::Thumbnails300)
    } else if c.embeddings > 0 {
        Some(ProcessPhase::Embeddings)
    } else if c.full_thumbs > 0 {
        Some(ProcessPhase::FullThumbnails)
    } else {
        None
    }
}

/// How much work a phase has left.
pub open spec fn left_of(c: ProcessCounts, phase: ProcessPhase) -> usize {
    match phase {
        ProcessPhase::Thumbnails300 => c.thumbs300,
        ProcessPhase::Embeddings => c.embeddings,
        ProcessPhase::FullThumbnails => c.full_thumbs,
    }
}

/// The phase to go on with has work left, and no phase before it has:
/// thumbnails of 300 px come before embeddings, and those before the larger
/// thumbnails. There is none exactly where no phase has work left.
pub proof fn the_first_phase_with_work_is_next(c: ProcessCounts)
    ensures
        phase_left(c) matches Some(p) ==> left_of(c, p) > 0,
        phase_left(c) == Some(ProcessPhase::Embeddings) ==> left_of(c, ProcessPhase::Thumbnails300)
            == 0,
        phase_left(c) == Some(ProcessPhase::FullThumbnails) ==> left_of(
            c,
            ProcessPhase::Thumbnails300,
        ) == 0 && left_of(c, ProcessPhase::Embeddings) == 0,
        phase_left(c) is None <==> forall|p: ProcessPhase| #[trigger] left_of(c, p) == 0,
        c.total() == left_of(c, ProcessPhase::Thumbnails300) + left_of(c, ProcessPhase::Embeddings)
            + left_of(c, ProcessPhase::FullThumbnails),
        left_of(c, ProcessPhase::Thumbnails300) == c.thumbs300,
        left_of(c, ProcessPhase::Embeddings) == c.embeddings,
        left_of(c, ProcessPhase::FullThumbnails) == c.full_thumbs,
{
    if phase_left(c) is Some {
        assert(left_of(c, phase_left(c)->0) > 0);
    }
}

/// The remaining work of every phase, from the single counts.
///
/// `full_thumbs` is the sum of images missing 512 px and 2048 px thumbnails.
pub fn counts(thumbs300: usize, embeddings: usize, full512: usize, full2048: usize) -> (r:
    ProcessCounts)
    requires
        full512 + full2048 <= usize::MAX,
    ensures
        r.thumbs300 == thumbs300,
        r.embeddings == embeddings,
        r.full_thumbs == full512 + full2048,
{
    ProcessCounts { thumbs300, embeddings, full_thumbs: full512 + full2048 }
}

/// What one batch works on.
#[derive(Debug, Clone, Copy, PartialEq, Eq, Structural)]
pub enum Work {
    /// Missing thumbnails of this size.
    Thumbnails(ThumbnailSize),
    /// Missing embeddings.
    Embeddings,
}

/// A processing request that was refused.
#[derive(Debug, Clone, Copy, PartialEq, Eq, Structural)]
pub enum ProcessError {
    /// Embeddings were asked for without a loaded model.
    EmbedderRequired,
}

/// What one batch of a phase consists of.
pub open spec fn phase_work(phase: ProcessPhase) -> Seq<Work> {
    match phase {
        ProcessPhase::Thumbnails300 => seq![Work::Thumbnails(ThumbnailSize(300))],
        ProcessPhase::Embeddings => seq![Work::Embeddings],
        ProcessPhase::FullThumbnails => seq![
            Work::Thumbnails(ThumbnailSize(512)),
            Work::Thumbnails(ThumbnailSize(2048)),
        ],
    }
}

/// What to generate for one batch of the given phase: missing 300 px
/// thumbnails; embeddings, for which the embedder is needed; or missing
/// thumbnails of each of 512 px and 2048 px.
pub fn process_next_batch(phase: ProcessPhase, has_embedder: bool) -> (r: Result<
    Vec<Work>,
    ProcessError,
>)
    ensures
        phase == ProcessPhase::Embeddings && !has_embedder ==> r == Err::<Vec<Work>, ProcessError>(
            ProcessError::EmbedderRequired,
        ),
        !(phase == ProcessPhase::Embeddings && !has_embedder) ==> r is Ok,
        r matches Ok(w) ==> w@ == phase_work(phase),
{
    match phase {
        ProcessPhase::Thumbnails300 => Ok(vec![Work::Thumbnails(ThumbnailSize(300))]),
        ProcessPhase::Embeddings => {
            if has_embedder {
                Ok(vec![Work::Embeddings])
            } else {
                Err(ProcessError::EmbedderRequired)
            }
        },
        ProcessPhase::FullThumbnails => Ok(
            vec![Work::Thumbnails(ThumbnailSize(512)), Work::Thumbnails(ThumbnailSize(2048))],
        ),
    }
}

/// One item of the agenda of a full run.
#[derive(Debug, Clone, Copy, PartialEq, Eq, Structural)]
pub enum Task {
    /// Generate what is missing, batch by batch.
    Drain(ProcessPhase, Work),
    /// Extract the metadata of images that have none yet.
    Backfill,
    /// Make sure that the embedder is there.
    NeedEmbedder,
}

/// The agenda of a full run: 300 px thumbnails, then metadata, then
/// embeddings where they are wanted, then every other size in turn.
pub open spec fn agenda(sizes: Seq<ThumbnailSize>, with_embeddings: bool) -> Seq<Task> {
    seq![
        Task::Drain(ProcessPhase::Thumbnails300, Work::Thumbnails(ThumbnailSize(300))),
        Task::Backfill,
    ] + (if with_embeddings {
        seq![Task::NeedEmbedder, Task::Drain(ProcessPhase::Embeddings, Work::Embeddings)]
    } else {
        Seq::empty()
    }) + sizes.map_values(
        |s: ThumbnailSize| Task::Drain(ProcessPhase::FullThumbnails, Work::Thumbnails(s)),
    )
}

/// What the caller is to do next.
#[derive(Debug, Clone, Copy, PartialEq, Eq, Structural)]
pub enum RunAction {
    /// Count how much of this work is left, and report the number.
    Count(Work),
    /// Run one batch of this work, and report how many items were done.
    Generate(Work),
    /// Backfill metadata, and report when it is done.
    Backfill,
    /// All phases are through.
    Done,
    /// Give up.
    Fail(ProcessError),
}

/// What the caller reports.
#[derive(Debug, Clone, Copy, PartialEq, Eq, Structural)]
pub enum RunEvent {
    /// The run begins.
    Start,
    /// This many items are left.
    Remaining(usize),
    /// A batch finished this many items.
    BatchDone(usize),
    /// The backfill is done.
    BackfillDone,
}

/// A full run between two events: the agenda and how far it has come.
#[derive(Debug, Clone)]
pub struct ProcessRun {
    pub tasks: Vec<Task>,
    pub at: usize,
    pub has_embedder: bool,
}

/// A run as plain data.
#[verifier::ext_equal]
pub struct RunModel {
    pub tasks: Seq<Task>,
    pub at: int,
    pub has_embedder: bool,
}

impl View for ProcessRun {
    type V = RunModel;

    open spec fn view(&self) -> RunModel {
        RunModel { tasks: self.tasks@, at: self.at as int, has_embedder: self.has_embedder }
    }
}

/// The action that begins the task a run has come to. The check for the
/// embedder is passed on the spot.
pub open spec fn begin(m: RunModel) -> (RunModel, RunAction)
    decreases m.tasks.len() - m.at,
{
    if m.at < 0 || m.at >= m.tasks.len() {
        (m, RunAction::Done)
    } else {
        match m.tasks[m.at] {
            Task::Drain(_, work) => (m, RunAction::Count(work)),
            Task::Backfill => (m, RunAction::Backfill),
            Task::NeedEmbedder => if m.has_embedder {
                begin(RunModel { at: m.at + 1, ..m })
            } else {
                (m, RunAction::Fail(ProcessError::EmbedderRequired))
            },
        }
    }
}

/// The reaction of a run to an event. A task ends when nothing is left of it,
/// or when a batch made no forward progress, so that images that can never be
/// decoded cannot keep a run from ending. Events that do not belong to the
/// task at hand repeat its first action.
pub open spec fn run_step(m: RunModel, ev: RunEvent) -> (RunModel, RunAction) {
    if m.at < 0 || m.at >= m.tasks.len() {
        (m, RunAction::Done)
    } else {
        let next = RunModel { at: m.at + 1, ..m };
        match (m.tasks[m.at], ev) {
            (Task::Drain(_, work), RunEvent::Remaining(n)) => if n == 0 {
                begin(next)
            } else {
                (m, RunAction::Generate(work))
            },
            (Task::Drain(_, work), RunEvent::BatchDone(n)) => if n == 0 {
                begin(next)
            } else {
                (m, RunAction::Count(work))
            },
            (Task::Backfill, RunEvent::BackfillDone) => begin(next),
            _ => begin(m),
        }
    }
}

impl ProcessRun {
    /// A run about to begin. `sizes` are the thumbnail sizes of the last phase;
    /// `has_embedder` says whether a model is loaded, which is needed only
    /// where embeddings are wanted.
    pub fn new(sizes: &Vec<ThumbnailSize>, with_embeddings: bool, has_embedder: bool) -> (r: Self)
        ensures
            r@ == (RunModel { tasks: agenda(sizes@, with_embeddings), at: 0, has_embedder }),
            r.tasks@.len() == sizes@.len() + if with_embeddings {
                4int
            } else {
                2int
            },
            r.tasks@[0] == Task::Drain(
                ProcessPhase::Thumbnails300,
                Work::Thumbnails(ThumbnailSize(300)),
            ),
            r.tasks@[1] == Task::Backfill,
            with_embeddings ==> r.tasks@[2] == Task::NeedEmbedder,
            with_embeddings ==> r.tasks@[3] == Task::Drain(
                ProcessPhase::Embeddings,
                Work::Embeddings,
            ),
            forall|k: int|
                0 <= k < sizes@.len() ==> r.tasks@[r.tasks@.len() - sizes@.len() + k]
                    == Task::Drain(
                    ProcessPhase::FullThumbnails,
                    Work::Thumbnails(#[trigger] sizes@[k]),
                ),
    {
        let mut tasks: Vec<Task> = vec![
            Task::Drain(ProcessPhase::Thumbnails300, Work::Thumbnails(ThumbnailSize(300))),
            Task::Backfill,
        ];
        if with_embeddings {
            tasks.push(Task::NeedEmbedder);
            tasks.push(Task::Drain(ProcessPhase::Embeddings, Work::Embeddings));
        }
        let ghost head = tasks@;
        let ghost tail = sizes@.map_values(
            |s: ThumbnailSize| Task::Drain(ProcessPhase::FullThumbnails, Work::Thumbnails(s)),
        );
        let mut i: usize = 0;
        assert(head + tail.take(0) == head);
        while i < sizes.len()
            invariant
                i <= sizes@.len(),
                tail == sizes@.map_values(
                    |s: ThumbnailSize|
                        Task::Drain(ProcessPhase::FullThumbnails, Work::Thumbnails(s)),
                ),
                tasks@ == head + tail.take(i as int),
            decreases sizes@.len() - i,
        {
            tasks.push(Task::Drain(ProcessPhase::FullThumbnails, Work::Thumbnails(sizes[i])));
            assert(tail.take(i + 1) == tail.take(i as int).push(tail[i as int]));
            i = i + 1;
        }
        proof {
            assert(tail.take(i as int) == tail);
            assert(tasks@ == agenda(sizes@, with_embeddings));
        }
        ProcessRun { tasks, at: 0, has_embedder }
    }

    fn begin_task(&mut self) -> (action: RunAction)
        ensures
            (final(self)@, action) == begin(old(self)@),
        decreases old(self)@.tasks.len() - old(self)@.at,
    {
        if self.at >= self.tasks.len() {
            return RunAction::Done;
        }
        match self.tasks[self.at] {
            Task::Drain(_, work) => RunAction::Count(work),
            Task::Backfill => RunAction::Backfill,
            Task::NeedEmbedder => {
                if self.has_embedder {
                    self.at = self.at + 1;
                    self.begin_task()
                } else {
                    RunAction::Fail(ProcessError::EmbedderRequired)
                }
            },
        }
    }

    /// Takes in an event and says what to do next.
    pub fn on_event(&mut self, ev: RunEvent) -> (action: RunAction)
        ensures
            (final(self)@, action) == run_step(old(self)@, ev),
    {
        if self.at >= self.tasks.len() {
            return RunAction::Done;
        }
        match (self.tasks[self.at], ev) {
            (Task::Drain(_, work), RunEvent::Remaining(n)) => {
                if n == 0 {
                    self.at = self.at + 1;
                    self.begin_task()
                } else {
                    RunAction::Generate(work)
                }
            },
            (Task::Drain(_, work), RunEvent::BatchDone(n)) => {
                if n == 0 {
                    self.at = self.at + 1;
                    self.begin_task()
                } else {
                    RunAction::Count(work)
                }
            },
            (Task::Backfill, RunEvent::BackfillDone) => {
                self.at = self.at + 1;
                self.begin_task()
            },
            _ => self.begin_task(),
        }
    }

    /// The phase that the run is in, for progress reports.
    pub fn phase(&self) -> (r: Option<ProcessPhase>)
        ensures
            r == if self.at < self.tasks@.len() {
                match self.tasks@[self.at as int] {
                    Task::Drain(p, _) => Some(p),
                    _ => None,
                }
            } else {
                None
            },
    {
        if self.at < self.tasks.len() {
            match self.tasks[self.at] {
                Task::Drain(p, _) => Some(p),
                _ => None,
            }
        } else {
            None
        }
    }
}

/// The rank of a task in the fixed order of the phases.
pub open spec fn task_rank(t: Task) -> int {
    match t {
        Task::Drain(ProcessPhase::Thumbnails300, _) => 0,
        Task::Backfill => 1,
        Task::NeedEmbedder => 2,
        Task::Drain(ProcessPhase::Embeddings, _) => 3,
        Task::Drain(ProcessPhase::FullThumbnails, _) => 4,
    }
}

/// The phases are worked off in their fixed order, whatever is asked for.
pub proof fn phases_come_in_order(sizes: Seq<ThumbnailSize>, with_embeddings: bool)
    ensures
        forall|i: int, j: int|
            0 <= i < j < agenda(sizes, with_embeddings).len() ==> task_rank(
                #[trigger] agenda(sizes, with_embeddings)[i],
            ) <= task_rank(#[trigger] agenda(sizes, with_embeddings)[j]),
        !with_embeddings ==> forall|i: int|
            0 <= i < agenda(sizes, with_embeddings).len() ==> #[trigger] agenda(
                sizes,
                with_embeddings,
            )[i] != Task::Drain(ProcessPhase::Embeddings, Work::Embeddings),
{
}

/// A full run leaves no work out: it holds the 300 px thumbnails, then the
/// metadata, then the embeddings exactly where they are wanted (behind the
/// check for the embedder), then each of the sizes asked for, in the order in
/// which they were given; and it holds nothing else.
pub proof fn a_full_run_leaves_no_work_out(sizes: Seq<ThumbnailSize>, with_embeddings: bool)
    ensures
        agenda(sizes, with_embeddings).len() == 2 + (if with_embeddings {
            2int
        } else {
            0int
        }) + sizes.len(),
        agenda(sizes, with_embeddings)[0] == Task::Drain(
            ProcessPhase::Thumbnails300,
            Work::Thumbnails(ThumbnailSize(300)),
        ),
        agenda(sizes, with_embeddings)[1] == Task::Backfill,
        with_embeddings ==> agenda(sizes, with_embeddings)[2] == Task::NeedEmbedder,
        with_embeddings ==> agenda(sizes, with_embeddings)[3] == Task::Drain(
            ProcessPhase::Embeddings,
            Work::Embeddings,
        ),
        with_embeddings <==> agenda(sizes, with_embeddings).contains(
            Task::Drain(ProcessPhase::Embeddings, Work::Embeddings),
        ),
        forall|k: int|
            0 <= k < sizes.len() ==> agenda(sizes, with_embeddings)[k + 2 + (if with_embeddings {
                2int
            } else {
                0int
            })] == Task::Drain(ProcessPhase::FullThumbnails, Work::Thumbnails(#[trigger] sizes[k])),
{
    let all = agenda(sizes, with_embeddings);
    if with_embeddings {
        assert(all[3] == Task::Drain(ProcessPhase::Embeddings, Work::Embeddings));
    }
}

/// Where the model is loaded or not needed, a run in which nothing is left of
/// anything still looks at every task once, in order, and only then ends: the
/// answer to the task at place `at` leads to the next one, over the check for
/// the embedder, and behind the last task stands the end.
pub proof fn every_task_has_its_turn(m: RunModel)
    requires
        0 <= m.at < m.tasks.len(),
        m.tasks[m.at] !is NeedEmbedder,
    ensures
        ({
            let ev = match m.tasks[m.at] {
                Task::Drain(_, _) => RunEvent::Remaining(0),
                _ => RunEvent::BackfillDone,
            };
            let next = run_step(m, ev);
            &&& m.at + 1 == m.tasks.len() ==> next.1 == RunAction::Done
            &&& m.at + 1 < m.tasks.len() ==> match m.tasks[m.at + 1] {
                Task::Drain(_, work) => next.1 == RunAction::Count(work) && next.0.at == m.at + 1,
                Task::Backfill => next.1 == RunAction::Backfill && next.0.at == m.at + 1,
                Task::NeedEmbedder => {
                    &&& !m.has_embedder ==> next.1 == RunAction::Fail(
                        ProcessError::EmbedderRequired,
                    )
                    &&& m.has_embedder && m.at + 2 == m.tasks.len() ==> next.1 == RunAction::Done
                    &&& m.has_embedder && m.at + 2 < m.tasks.len() ==> match m.tasks[m.at + 2] {
                        Task::Drain(_, work) => next.1 == RunAction::Count(work) && next.0.at
                            == m.at + 2,
                        Task::Backfill => next.1 == RunAction::Backfill && next.0.at == m.at + 2,
                        Task::NeedEmbedder => true,
                    }
                },
            }
        }),
{
    reveal_with_fuel(begin, 3);
}

/// What is counted is what is worked on: a count that finds something left of
/// a piece of work leads to a batch of that very work, a batch that got
/// somewhere leads to counting it again, and until then the run stays with
/// it.
pub proof fn work_is_done_until_none_is_left(m: RunModel, work: Work, n: usize)
    requires
        0 <= m.at < m.tasks.len(),
        m.tasks[m.at] is Drain,
        m.tasks[m.at]->Drain_1 == work,
        n > 0,
    ensures
        run_step(m, RunEvent::Start) == (m, RunAction::Count(work)),
        run_step(m, RunEvent::Remaining(n)) == (m, RunAction::Generate(work)),
        run_step(m, RunEvent::BatchDone(n)) == (m, RunAction::Count(work)),
{
}

/// Every phase works on what it is named for, and together one batch of each
/// covers the 300 px thumbnails, the embeddings, and the 512 px and 2048 px
/// thumbnails.
pub proof fn phases_cover_all_work()
    ensures
        phase_work(ProcessPhase::Thumbnails300).len() == 1,
        phase_work(ProcessPhase::Thumbnails300)[0] == Work::Thumbnails(ThumbnailSize(300)),
        phase_work(ProcessPhase::Embeddings).len() == 1,
        phase_work(ProcessPhase::Embeddings)[0] == Work::Embeddings,
        phase_work(ProcessPhase::FullThumbnails).len() == 2,
        phase_work(ProcessPhase::FullThumbnails)[0] == Work::Thumbnails(ThumbnailSize(512)),
        phase_work(ProcessPhase::FullThumbnails)[1] == Work::Thumbnails(ThumbnailSize(2048)),
{
}

proof fn begin_never_goes_back(m: RunModel)
    ensures
        begin(m).0.at >= m.at,
        begin(m).0.tasks == m.tasks,
        begin(m).0.has_embedder == m.has_embedder,
        begin(m).1 is Count || begin(m).1 is Backfill || begin(m).1 is Done || begin(m).1 is Fail,
    decreases m.tasks.len() - m.at,
{
    if 0 <= m.at < m.tasks.len() && m.tasks[m.at] is NeedEmbedder && m.has_embedder {
        begin_never_goes_back(RunModel { at: m.at + 1, ..m });
    }
}

/// A run cannot go round in circles: a batch without forward progress, a
/// count of nothing left and a finished backfill each move it on for good,
/// and a batch is only ever run where a count has found something left.
pub proof fn no_progress_moves_on(m: RunModel, n: usize)
    requires
        0 <= m.at < m.tasks.len(),
    ensures
        m.tasks[m.at] is Drain ==> run_step(m, RunEvent::BatchDone(0)).0.at > m.at,
        m.tasks[m.at] is Drain ==> run_step(m, RunEvent::Remaining(0)).0.at > m.at,
        m.tasks[m.at] is Backfill ==> run_step(m, RunEvent::BackfillDone).0.at > m.at,
        run_step(m, RunEvent::BatchDone(n)).1 !is Generate,
        run_step(m, RunEvent::Remaining(n)).1 is Generate ==> n > 0,
{
    begin_never_goes_back(RunModel { at: m.at + 1, ..m });
    begin_never_goes_back(m);
}

/// A run never falls back behind a task it has left.
pub proof fn runs_never_go_back(m: RunModel, ev: RunEvent)
    ensures
        run_step(m, ev).0.at >= m.at,
        run_step(m, ev).0.tasks == m.tasks,
{
    begin_never_goes_back(RunModel { at: m.at + 1, ..m });
    begin_never_goes_back(m);
}

/// How many items of a batch of embeddings succeeded: failures are skipped.
pub fn count_successes(outcomes: &Vec<bool>) -> (r: usize)
    ensures
        r == outcomes@.filter(|ok: bool| ok).len(),
{
    let mut n: usize = 0;
    let mut i: usize = 0;
    assert(outcomes@.take(0).filter(|ok: bool| ok) == Seq::<bool>::empty()) by {
        reveal(Seq::filter);
    }
    while i < outcomes.len()
        invariant
            i <= outcomes@.len(),
            n <= i,
            n == outcomes@.take(i as int).filter(|ok: bool| ok).len(),
        decreases outcomes@.len() - i,
    {
        proof {
            assert(outcomes@.take(i + 1).drop_last() == outcomes@.take(i as int));
            assert(outcomes@.take(i + 1).last() == outcomes@[i as int]);
            reveal(Seq::filter);
        }
        if outcomes[i] {
            n = n + 1;
        }
        i = i + 1;
    }
    assert(outcomes@.take(i as int) == outcomes@);
    n
}

} // verus!
