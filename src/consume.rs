//! Repeated, best-effort drains of one derived stream by parallel workers: the
//! per-attempt bookkeeping of a worker and the join-and-sum of their tallies.
use vstd::prelude::*;

verus! {

/// How many attempts pass between two progress reports: one percent of the
/// attempts, and at least one.
pub open spec fn progress_step_spec(iterations: nat) -> nat {
    if iterations / 100 >= 1 { iterations / 100 } else { 1 }
}

pub fn progress_step(iterations: u32) -> (r: u32)
    ensures
        r == progress_step_spec(iterations as nat),
{
    let q: u32 = iterations / 100;
    if q >= 1 { q } else { 1 }
}

/// What a worker is and how far it got.
pub ghost struct WorkerView {
    pub batch_id: nat,
    pub stream_id: nat,
    pub iterations: nat,
    pub show_errors: bool,
    pub done: nat,
    pub successes: nat,
}

/// One worker draining one stream: it makes `iterations` attempts in turn and
/// counts those that succeeded.
pub struct Worker {
    batch_id: u32,
    stream_id: u32,
    iterations: u32,
    show_errors: bool,
    done: u32,
    successes: u32,
}

/// What to log after one attempt.
#[derive(Clone, Copy, Debug, PartialEq, Eq, Structural)]
pub struct AttemptReport {
    /// The attempt failed and failures are to be shown.
    pub log_failure: bool,
    /// The attempt completes another step of progress.
    pub log_progress: bool,
}

impl View for Worker {
    type V = WorkerView;

    closed spec fn view(&self) -> WorkerView {
        WorkerView {
            batch_id: self.batch_id as nat,
            stream_id: self.stream_id as nat,
            iterations: self.iterations as nat,
            show_errors: self.show_errors,
            done: self.done as nat,
            successes: self.successes as nat,
        }
    }
}

impl WorkerView {
    /// No more successes than attempts, no more attempts than planned.
    pub open spec fn wf(self) -> bool {
        self.successes <= self.done <= self.iterations
    }
}

impl Worker {
    pub closed spec fn wf(&self) -> bool {
        self.successes <= self.done <= self.iterations
    }

    pub proof fn lemma_wf(&self)
        ensures
            self.wf() <==> self@.wf(),
            self@.iterations <= u32::MAX,
    {
    }

    pub fn new(batch_id: u32, stream_id: u32, iterations: u32, show_errors: bool) -> (r: Worker)
        ensures
            r.wf(),
            r@ == (WorkerView {
                batch_id: batch_id as nat,
                stream_id: stream_id as nat,
                iterations: iterations as nat,
                show_errors,
                done: 0,
                successes: 0,
            }),
    {
        Worker { batch_id, stream_id, iterations, show_errors, done: 0, successes: 0 }
    }

    pub fn batch_id(&self) -> (r: u32)
        ensures
            r == self@.batch_id,
    {
        self.batch_id
    }

    pub fn stream_id(&self) -> (r: u32)
        ensures
            r == self@.stream_id,
    {
        self.stream_id
    }

    pub fn iterations(&self) -> (r: u32)
        ensures
            r == self@.iterations,
    {
        self.iterations
    }

    /// The number of attempts made so far, which is also the index of the next one.
    pub fn done(&self) -> (r: u32)
        ensures
            r == self@.done,
    {
        self.done
    }

    pub fn successes(&self) -> (r: u32)
        ensures
            r == self@.successes,
    {
        self.successes
    }

    /// Whether another attempt is due.
    pub fn has_next(&self) -> (r: bool)
        ensures
            r == (self@.done < self@.iterations),
    {
        self.done < self.iterations
    }

    /// Records the outcome of the next attempt; a failure is neither retried nor
    /// the end of the worker.
    pub fn record(&mut self, succeeded: bool) -> (r: AttemptReport)
        requires
            old(self).wf(),
            old(self)@.done < old(self)@.iterations,
        ensures
            final(self).wf(),
            final(self)@ == (WorkerView {
                done: old(self)@.done + 1,
                successes: if succeeded { old(self)@.successes + 1 } else { old(self)@.successes },
                ..old(self)@
            }),
            r.log_failure == (!succeeded && old(self)@.show_errors),
            r.log_progress == ((old(self)@.done + 1) % progress_step_spec(old(self)@.iterations)
                == 0),
    {
        let step = progress_step(self.iterations);
        self.done = self.done + 1;
        if succeeded {
            self.successes = self.successes + 1;
        }
        AttemptReport { log_failure: !succeeded && self.show_errors, log_progress: self.done % step == 0 }
    }
}

/// The successes of the workers that finished; a worker whose task failed
/// counts for nothing.
pub open spec fn stream_total(outcomes: Seq<Option<Worker>>) -> nat
    decreases outcomes.len(),
{
    if outcomes.len() == 0 {
        0
    } else {
        stream_total(outcomes.drop_last()) + match outcomes.last() {
            Some(w) => w@.successes,
            None => 0,
        }
    }
}

/// The workers that finished are well formed, and made `iterations` attempts each.
pub open spec fn all_planned(outcomes: Seq<Option<Worker>>, iterations: nat) -> bool {
    forall|i: int| 0 <= i < outcomes.len() ==> match #[trigger] outcomes[i] {
        Some(w) => w.wf() && w@.iterations == iterations,
        None => true,
    }
}

/// Success-count bound: when `concurrency` workers each had `iterations`
/// attempts, the stream's total lies between zero and
/// `concurrency * iterations`.
pub proof fn lemma_success_bound(outcomes: Seq<Option<Worker>>, concurrency: nat, iterations: nat)
    requires
        outcomes.len() == concurrency,
        all_planned(outcomes, iterations),
    ensures
        0 <= stream_total(outcomes) <= concurrency * iterations,
    decreases outcomes.len(),
{
    if outcomes.len() > 0 {
        let rest = outcomes.drop_last();
        assert(all_planned(rest, iterations)) by {
            assert forall|i: int| 0 <= i < rest.len() implies match #[trigger] rest[i] {
                Some(w) => w.wf() && w@.iterations == iterations,
                None => true,
            } by {
                assert(rest[i] == outcomes[i]);
            }
        }
        lemma_success_bound(rest, (concurrency - 1) as nat, iterations);
        match outcomes.last() {
            Some(w) => {
                assert(outcomes[outcomes.len() - 1] == outcomes.last());
                w.lemma_wf();
            },
            None => {},
        }
        assert((concurrency - 1) as nat * iterations + iterations == concurrency * iterations)
            by (nonlinear_arith)
            requires
                concurrency >= 1,
        ;
    }
}

/// Joins the workers of one stream: the sum of the successes of those that
/// finished.
pub fn stream_successes(outcomes: &Vec<Option<Worker>>) -> (r: u64)
    requires
        outcomes@.len() <= u32::MAX,
    ensures
        r == stream_total(outcomes@),
{
    let mut total: u64 = 0;
    let mut i: usize = 0;
    while i < outcomes.len()
        invariant
            i <= outcomes@.len() <= u32::MAX,
            total == stream_total(outcomes@.take(i as int)),
            total <= i * u32::MAX,
        decreases outcomes@.len() - i,
    {
        assert(outcomes@.take(i + 1).drop_last() =~= outcomes@.take(i as int));
        assert(outcomes@.take(i + 1).last() == outcomes@[i as int]);
        match &outcomes[i] {
            Some(w) => {
                let s = w.successes();
                assert(total + s <= (i + 1) * u32::MAX) by (nonlinear_arith)
                    requires
                        total <= i * u32::MAX,
                        s <= u32::MAX,
                ;
                assert((i + 1) * u32::MAX <= u32::MAX * u32::MAX) by (nonlinear_arith)
                    requires
                        i + 1 <= u32::MAX,
                ;
                total = total + s as u64;
            },
            None => {
                assert(total <= (i + 1) * u32::MAX) by (nonlinear_arith)
                    requires
                        total <= i * u32::MAX,
                ;
            },
        }
        i = i + 1;
    }
    assert(outcomes@.take(i as int) =~= outcomes@);
    total
}

/// The successes of the streams that finished; a stream whose task failed
/// counts for nothing.
pub open spec fn run_total(outcomes: Seq<Option<u64>>) -> nat
    decreases outcomes.len(),
{
    if outcomes.len() == 0 {
        0
    } else {
        run_total(outcomes.drop_last()) + match outcomes.last() {
            Some(v) => v as nat,
            None => 0,
        }
    }
}

/// Joins the streams of a run: the sum of the successes of those that finished.
pub fn run_successes(outcomes: &Vec<Option<u64>>) -> (r: u128)
    requires
        outcomes@.len() <= u32::MAX,
    ensures
        r == run_total(outcomes@),
{
    let mut total: u128 = 0;
    let mut i: usize = 0;
    while i < outcomes.len()
        invariant
            i <= outcomes@.len() <= u32::MAX,
            total == run_total(outcomes@.take(i as int)),
            total <= i * u64::MAX,
        decreases outcomes@.len() - i,
    {
        assert(outcomes@.take(i + 1).drop_last() =~= outcomes@.take(i as int));
        assert(outcomes@.take(i + 1).last() == outcomes@[i as int]);
        match outcomes[i] {
            Some(v) => {
                assert(total + v <= (i + 1) * u64::MAX) by (nonlinear_arith)
                    requires
                        total <= i * u64::MAX,
                        v <= u64::MAX,
                ;
                assert((i + 1) * u64::MAX <= u32::MAX * u64::MAX) by (nonlinear_arith)
                    requires
                        i + 1 <= u32::MAX,
                ;
                total = total + v as u128;
            },
            None => {
                assert(total <= (i + 1) * u64::MAX) by (nonlinear_arith)
                    requires
                        total <= i * u64::MAX,
                ;
            },
        }
        i = i + 1;
    }
    assert(outcomes@.take(i as int) =~= outcomes@);
    total
}

} // verus!
