//! The harness's configuration and the state that its orchestration keeps.
use vstd::prelude::*;
use crate::consume::{Worker, WorkerView};

verus! {

/// The options of a run.
#[derive(Clone, Copy, Debug, PartialEq, Eq, Structural)]
pub struct Args {
    /// Number of derived streams.
    pub num_derived_streams: u32,
    /// Number of workers that drain each derived stream at once.
    pub stream_consumption_concurrency: u32,
    /// Number of drain attempts of each worker.
    pub times_consumption_per_stream: u32,
    /// Whether failed drain attempts are logged.
    pub show_stream_consumption_errors: bool,
}

impl Default for Args {
    fn default() -> (r: Args)
        ensures
            r == (Args {
                num_derived_streams: 5,
                stream_consumption_concurrency: 3,
                times_consumption_per_stream: 10,
                show_stream_consumption_errors: false,
            }),
    {
        Args {
            num_derived_streams: 5,
            stream_consumption_concurrency: 3,
            times_consumption_per_stream: 10,
            show_stream_consumption_errors: false,
        }
    }
}

/// Where the background insertion loop stands.
#[derive(Clone, Copy, Debug, PartialEq, Eq, Structural)]
pub enum Insertion {
    NotStarted,
    Running,
    Stopped,
}

/// The state after a stop request: the loop is stopped, whatever it was.
pub open spec fn after_stop(s: Insertion) -> Insertion {
    Insertion::Stopped
}

/// A stop request must signal the loop and wait for it only while it runs.
pub open spec fn stop_joins(s: Insertion) -> bool {
    s == Insertion::Running
}

/// Stop-flag idempotence: a second stop finds the loop stopped, leaves it so, and
/// waits for nothing.
pub proof fn lemma_stop_idempotent(s: Insertion)
    ensures
        after_stop(after_stop(s)) == after_stop(s),
        !stop_joins(after_stop(s)),
{
}

/// The connection string used when none is configured.
pub open spec fn default_dsn_spec() -> Seq<char> {
    "databend://root:@localhost:8000/default?sslmode=disable"@
}

/// The orchestration state of one run.
pub struct Driver {
    pub args: Args,
    pub dsn: String,
    pub insertion: Insertion,
}

impl Driver {
    pub fn new(args: Args) -> (r: Driver)
        ensures
            r.args == args,
            r.dsn@ == default_dsn_spec(),
            r.insertion == Insertion::NotStarted,
    {
        Driver {
            args,
            dsn: String::from_str("databend://root:@localhost:8000/default?sslmode=disable"),
            insertion: Insertion::NotStarted,
        }
    }

    /// Starts the insertion loop. Returns whether it was started now: a loop is
    /// started once per run, and never after a stop.
    pub fn begin_insertion(&mut self) -> (r: bool)
        ensures
            r == (old(self).insertion == Insertion::NotStarted),
            final(self).insertion == if r {
                Insertion::Running
            } else {
                old(self).insertion
            },
            final(self).args == old(self).args,
            final(self).dsn == old(self).dsn,
    {
        if self.insertion == Insertion::NotStarted {
            self.insertion = Insertion::Running;
            true
        } else {
            false
        }
    }

    /// Requests a stop. Returns whether the loop must now be signalled and waited for.
    pub fn stop_insertion(&mut self) -> (r: bool)
        ensures
            r == stop_joins(old(self).insertion),
            final(self).insertion == after_stop(old(self).insertion),
            final(self).args == old(self).args,
            final(self).dsn == old(self).dsn,
    {
        let joins = self.insertion == Insertion::Running;
        self.insertion = Insertion::Stopped;
        joins
    }

    /// The number of drain attempts that the concurrent phase makes over all streams.
    pub fn total_attempts(&self) -> (r: u128)
        ensures
            r == self.args.stream_consumption_concurrency * self.args.times_consumption_per_stream
                * self.args.num_derived_streams,
    {
        let c = self.args.stream_consumption_concurrency as u128;
        let t = self.args.times_consumption_per_stream as u128;
        let n = self.args.num_derived_streams as u128;
        assert(c * t <= u32::MAX * u32::MAX) by (nonlinear_arith)
            requires
                c <= u32::MAX,
                t <= u32::MAX,
        ;
        assert(c * t * n <= u32::MAX * u32::MAX * u32::MAX) by (nonlinear_arith)
            requires
                c * t <= u32::MAX * u32::MAX,
                n <= u32::MAX,
        ;
        c * t * n
    }

    /// The fresh workers that drain stream `stream_id`, one per batch id.
    pub fn workers(&self, stream_id: u32) -> (r: Vec<Worker>)
        ensures
            r@.len() == self.args.stream_consumption_concurrency,
            forall|i: int| 0 <= i < r@.len() ==> (#[trigger] r@[i]).wf() && r@[i]@ == (WorkerView {
                batch_id: i as nat,
                stream_id: stream_id as nat,
                iterations: self.args.times_consumption_per_stream as nat,
                show_errors: self.args.show_stream_consumption_errors,
                done: 0,
                successes: 0,
            }),
    {
        let n = self.args.stream_consumption_concurrency;
        let mut out: Vec<Worker> = Vec::new();
        let mut b: u32 = 0;
        while b < n
            invariant
                b <= n,
                n == self.args.stream_consumption_concurrency,
                out@.len() == b,
                forall|i: int| 0 <= i < out@.len() ==> (#[trigger] out@[i]).wf() && out@[i]@ == (
                WorkerView {
                    batch_id: i as nat,
                    stream_id: stream_id as nat,
                    iterations: self.args.times_consumption_per_stream as nat,
                    show_errors: self.args.show_stream_consumption_errors,
                    done: 0,
                    successes: 0,
                }),
            decreases n - b,
        {
            out.push(
                Worker::new(
                    b,
                    stream_id,
                    self.args.times_consumption_per_stream,
                    self.args.show_stream_consumption_errors,
                ),
            );
            b = b + 1;
        }
        out
    }
}

} // verus!
