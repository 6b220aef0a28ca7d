//! A model of the database's change tracking, under the assumption the harness
//! makes of it: each statement takes effect atomically or not at all. A failed
//! drain attempt is left out of a history; one that finds nothing is a drain of
//! nothing. In this model the harness's protocol is proved to converge.
use vstd::prelude::*;
use crate::statements::{
    create_base_stream_spec, create_derived_stream_spec, create_sink_table_spec,
    drain_base_stream_spec, drain_derived_stream_spec, insert_one_row_spec, reconciliation_spec,
    topology_spec,
};

verus! {

/// The tracked state: the values of column `c` of the rows appended to the base
/// table, in commit order; the position of each stream in that history; what
/// each sink holds.
pub ghost struct Tracking {
    pub history: Seq<u64>,
    pub base: Option<nat>,
    pub derived: Map<nat, nat>,
    pub base_sink: Seq<u64>,
    pub sinks: Map<nat, Seq<u64>>,
}

/// One statement that took effect.
pub ghost enum Op {
    /// A row with value `c` appended to the base table.
    Insert(u64),
    CreateBase,
    CreateDerived(nat),
    CreateSink(nat),
    DrainDerived(nat),
    DrainBase,
}

/// The statement of the harness that performs an operation.
pub open spec fn statement_of(op: Op) -> Seq<char> {
    match op {
        Op::Insert(_) => insert_one_row_spec(),
        Op::CreateBase => create_base_stream_spec(),
        Op::CreateDerived(i) => create_derived_stream_spec(i),
        Op::CreateSink(i) => create_sink_table_spec(i),
        Op::DrainDerived(i) => drain_derived_stream_spec(i),
        Op::DrainBase => drain_base_stream_spec(),
    }
}

/// The changes after position `p` that a stream has not consumed.
pub open spec fn pending(history: Seq<u64>, p: nat) -> Seq<u64> {
    history.subrange(p as int, history.len() as int)
}

pub open spec fn apply(t: Tracking, op: Op) -> Tracking {
    match op {
        Op::Insert(v) => Tracking { history: t.history.push(v), ..t },
        Op::CreateBase => Tracking { base: Some(t.history.len()), ..t },
        Op::CreateDerived(i) => match t.base {
            Some(p) => Tracking { derived: t.derived.insert(i, p), ..t },
            None => t,
        },
        Op::CreateSink(i) => Tracking { sinks: t.sinks.insert(i, Seq::empty()), ..t },
        Op::DrainDerived(i) => if t.derived.dom().contains(i) && t.sinks.dom().contains(i) {
            Tracking {
                sinks: t.sinks.insert(i, t.sinks[i] + pending(t.history, t.derived[i])),
                derived: t.derived.insert(i, t.history.len()),
                ..t
            }
        } else {
            t
        },
        Op::DrainBase => match t.base {
            Some(p) => Tracking {
                base_sink: t.base_sink + pending(t.history, p),
                base: Some(t.history.len()),
                ..t
            },
            None => t,
        },
    }
}

/// The state after the operations, in order.
pub open spec fn run(t: Tracking, ops: Seq<Op>) -> Tracking
    decreases ops.len(),
{
    if ops.len() == 0 {
        t
    } else {
        apply(run(t, ops.drop_last()), ops.last())
    }
}

/// The operations of topology creation, in the order of the topology statements.
pub open spec fn topology_ops(n: nat) -> Seq<Op> {
    Seq::new(2 * n, |k: int| if k % 2 == 0 {
        Op::CreateDerived((k / 2) as nat)
    } else {
        Op::CreateSink((k / 2) as nat)
    })
}

/// One drain of each of the first `k` derived streams, in order.
pub open spec fn drain_ops(k: nat) -> Seq<Op> {
    Seq::new(k, |j: int| Op::DrainDerived(j as nat))
}

/// The operations of the reconciliation pass.
pub open spec fn reconciliation_ops(n: nat) -> Seq<Op> {
    drain_ops(n).push(Op::DrainBase)
}

/// Operations that only append rows.
pub open spec fn only_inserts(ops: Seq<Op>) -> bool {
    forall|k: int| 0 <= k < ops.len() ==> (#[trigger] ops[k]) is Insert
}

/// Operations of the concurrent phase: appended rows and drains of the first
/// `n` derived streams, interleaved in any way.
pub open spec fn concurrent_phase(ops: Seq<Op>, n: nat) -> bool {
    forall|k: int| 0 <= k < ops.len() ==> match #[trigger] ops[k] {
        Op::Insert(_) => true,
        Op::DrainDerived(i) => i < n,
        _ => false,
    }
}

/// The base stream and the first `n` derived streams exist, with their sinks, at
/// positions within the history.
pub open spec fn streams_valid(t: Tracking, n: nat) -> bool {
    &&& t.base is Some
    &&& t.base->0 <= t.history.len()
    &&& forall|i: nat| i < n ==> #[trigger] t.derived.dom().contains(i) && t.sinks.dom().contains(i)
        && t.derived[i] <= t.history.len()
}

/// What the convergence proof keeps through the concurrent phase: the base stream
/// is still at `p` and its sink empty, and each derived sink together with its
/// stream's pending changes is exactly the history after `p`.
pub open spec fn accounted(t: Tracking, p: nat, n: nat) -> bool {
    &&& streams_valid(t, n)
    &&& t.base == Some(p)
    &&& t.base_sink.len() == 0
    &&& forall|i: nat| i < n ==> p <= #[trigger] t.derived[i] && t.sinks[i] + pending(
        t.history,
        t.derived[i],
    ) == pending(t.history, p)
}

pub proof fn lemma_run_push(t: Tracking, ops: Seq<Op>, op: Op)
    ensures
        run(t, ops.push(op)) == apply(run(t, ops), op),
{
    assert(ops.push(op).drop_last() =~= ops);
}

/// The topology statements are those of the topology operations, and the
/// reconciliation statements those of the reconciliation operations.
pub proof fn lemma_statements(n: nat)
    ensures
        topology_ops(n).map_values(|op: Op| statement_of(op)) == topology_spec(n),
        reconciliation_ops(n).map_values(|op: Op| statement_of(op)) == reconciliation_spec(n),
{
    assert(topology_ops(n).map_values(|op: Op| statement_of(op)) =~= topology_spec(n));
    assert(reconciliation_ops(n).map_values(|op: Op| statement_of(op)) =~= reconciliation_spec(
        n,
    ));
}

proof fn lemma_topology(t: Tracking, n: nat)
    requires
        t.base is Some,
    ensures
        ({
            let u = run(t, topology_ops(n));
            &&& u.history == t.history
            &&& u.base == t.base
            &&& u.base_sink == t.base_sink
            &&& forall|i: nat| i < n ==> #[trigger] u.derived.dom().contains(i)
                && u.derived[i] == t.base->0 && u.sinks.dom().contains(i) && u.sinks[i]
                == Seq::<u64>::empty()
        }),
    decreases n,
{
    if n > 0 {
        let m = (n - 1) as nat;
        lemma_topology(t, m);
        let a = Op::CreateDerived(m);
        let b = Op::CreateSink(m);
        assert(topology_ops(n) =~= topology_ops(m).push(a).push(b)) by {
            assert forall|k: int| 0 <= k < 2 * n implies topology_ops(n)[k] == topology_ops(
                m,
            ).push(a).push(b)[k] by {
                if k == 2 * m {
                    assert(k % 2 == 0 && k / 2 == m);
                } else if k == 2 * m + 1 {
                    assert(k % 2 == 1 && k / 2 == m);
                }
            }
        }
        lemma_run_push(t, topology_ops(m).push(a), b);
        lemma_run_push(t, topology_ops(m), a);
    }
}

/// Topology anchoring: the `n` derived streams created after the base stream all
/// stand at the base stream's position with empty sinks, so their first drains,
/// with no write in between, take the same changes.
pub proof fn lemma_topology_anchoring(t: Tracking, n: nat)
    requires
        t.base is Some,
    ensures
        ({
            let u = run(t, topology_ops(n));
            forall|i: nat, j: nat|
                i < n && j < n ==> #[trigger] apply(u, Op::DrainDerived(i)).sinks[i]
                    == #[trigger] apply(u, Op::DrainDerived(j)).sinks[j]
                    && apply(u, Op::DrainDerived(i)).sinks[i] == pending(u.history, u.base->0)
        }),
{
    lemma_topology(t, n);
    let u = run(t, topology_ops(n));
    assert forall|i: nat, j: nat| i < n && j < n implies #[trigger] apply(
        u,
        Op::DrainDerived(i),
    ).sinks[i] == #[trigger] apply(u, Op::DrainDerived(j)).sinks[j] && apply(
        u,
        Op::DrainDerived(i),
    ).sinks[i] == pending(u.history, u.base->0) by {
        assert(apply(u, Op::DrainDerived(i)).sinks[i] =~= pending(u.history, u.base->0));
        assert(apply(u, Op::DrainDerived(j)).sinks[j] =~= pending(u.history, u.base->0));
    }
}

proof fn lemma_drains(t: Tracking, n: nat, k: nat)
    requires
        streams_valid(t, n),
        k <= n,
    ensures
        ({
            let u = run(t, drain_ops(k));
            &&& streams_valid(u, n)
            &&& u.history == t.history
            &&& u.base == t.base
            &&& u.base_sink == t.base_sink
            &&& forall|i: nat| i < k ==> #[trigger] u.derived[i] == t.history.len() && u.sinks[i]
                == t.sinks[i] + pending(t.history, t.derived[i])
            &&& forall|i: nat| k <= i < n ==> #[trigger] u.derived[i] == t.derived[i] && u.sinks[i]
                == t.sinks[i]
        }),
    decreases k,
{
    if k > 0 {
        let m = (k - 1) as nat;
        lemma_drains(t, n, m);
        assert(drain_ops(k) =~= drain_ops(m).push(Op::DrainDerived(m)));
        lemma_run_push(t, drain_ops(m), Op::DrainDerived(m));
        let d = run(t, drain_ops(m));
        let u = apply(d, Op::DrainDerived(m));
        assert(d.derived.dom().contains(m));
        assert(d.derived[m] == t.derived[m]);
        assert forall|i: nat| i < n implies #[trigger] u.derived.dom().contains(i)
            && u.sinks.dom().contains(i) && u.derived[i] <= u.history.len() by {
            assert(d.derived.dom().contains(i));
        }
        assert forall|i: nat| i < k implies #[trigger] u.derived[i] == t.history.len()
            && u.sinks[i] == t.sinks[i] + pending(t.history, t.derived[i]) by {
            if i < m {
                assert(d.derived[i] == t.history.len());
            }
        }
        assert forall|i: nat| k <= i < n implies #[trigger] u.derived[i] == t.derived[i]
            && u.sinks[i] == t.sinks[i] by {
            assert(d.derived[i] == t.derived[i]);
        }
    }
}

/// Reconciliation completeness: after the reconciliation pass every stream stands
/// at the end of the history, so draining any of them again adds no row.
pub proof fn lemma_reconciliation_complete(t: Tracking, n: nat)
    requires
        streams_valid(t, n),
    ensures
        ({
            let u = run(t, reconciliation_ops(n));
            &&& pending(u.history, u.base->0).len() == 0
            &&& apply(u, Op::DrainBase) == u
            &&& forall|i: nat| i < n ==> pending(u.history, #[trigger] u.derived[i]).len() == 0
                && apply(u, Op::DrainDerived(i)) == u
        }),
{
    lemma_drains(t, n, n);
    let d = run(t, drain_ops(n));
    lemma_run_push(t, drain_ops(n), Op::DrainBase);
    let u = run(t, reconciliation_ops(n));
    assert(u.base_sink + pending(u.history, u.base->0) =~= u.base_sink);
    assert(apply(u, Op::DrainBase) == u);
    assert forall|i: nat| i < n implies pending(u.history, #[trigger] u.derived[i]).len() == 0
        && apply(u, Op::DrainDerived(i)) == u by {
        assert(d.derived.dom().contains(i));
        assert(u.sinks[i] + pending(u.history, u.derived[i]) =~= u.sinks[i]);
        assert(u.sinks.insert(i, u.sinks[i]) =~= u.sinks);
        assert(u.derived.insert(i, u.history.len()) =~= u.derived);
    }
}

proof fn lemma_accounted_step(t: Tracking, p: nat, n: nat, op: Op)
    requires
        accounted(t, p, n),
        match op {
            Op::Insert(_) => true,
            Op::DrainDerived(i) => i < n,
            _ => false,
        },
    ensures
        accounted(apply(t, op), p, n),
{
    let u = apply(t, op);
    match op {
        Op::Insert(v) => {
            assert forall|i: nat| i < n implies #[trigger] u.derived.dom().contains(i)
                && u.sinks.dom().contains(i) && u.derived[i] <= u.history.len() by {
                assert(t.derived.dom().contains(i));
            }
            assert forall|i: nat| i < n implies p <= #[trigger] u.derived[i] && u.sinks[i]
                + pending(u.history, u.derived[i]) == pending(u.history, p) by {
                assert(t.derived.dom().contains(i));
                assert(pending(u.history, u.derived[i]) =~= pending(t.history, t.derived[i]).push(v));
                assert(pending(u.history, p) =~= pending(t.history, p).push(v));
                assert(u.sinks[i] + pending(u.history, u.derived[i]) =~= (t.sinks[i] + pending(
                    t.history,
                    t.derived[i],
                )).push(v));
            }
        },
        Op::DrainDerived(j) => {
            assert forall|i: nat| i < n implies #[trigger] u.derived.dom().contains(i)
                && u.sinks.dom().contains(i) && u.derived[i] <= u.history.len() by {
                assert(t.derived.dom().contains(i));
            }
            assert forall|i: nat| i < n implies p <= #[trigger] u.derived[i] && u.sinks[i]
                + pending(u.history, u.derived[i]) == pending(u.history, p) by {
                assert(t.derived.dom().contains(i));
                if i == j {
                    assert(u.sinks[i] + pending(u.history, u.derived[i]) =~= t.sinks[i] + pending(
                        t.history,
                        t.derived[i],
                    ));
                }
            }
        },
        _ => {},
    }
}

proof fn lemma_accounted_run(t: Tracking, p: nat, n: nat, ops: Seq<Op>)
    requires
        accounted(t, p, n),
        concurrent_phase(ops, n),
    ensures
        accounted(run(t, ops), p, n),
        run(t, ops).history.len() >= t.history.len(),
    decreases ops.len(),
{
    if ops.len() > 0 {
        let rest = ops.drop_last();
        assert(concurrent_phase(rest, n)) by {
            assert forall|k: int| 0 <= k < rest.len() implies match #[trigger] rest[k] {
                Op::Insert(_) => true,
                Op::DrainDerived(i) => i < n,
                _ => false,
            } by {
                assert(rest[k] == ops[k]);
            }
        }
        lemma_accounted_run(t, p, n, rest);
        assert(ops.last() == ops[ops.len() - 1]);
        lemma_accounted_step(run(t, rest), p, n, ops.last());
    }
}

proof fn lemma_inserts(t: Tracking, ops: Seq<Op>)
    requires
        only_inserts(ops),
    ensures
        run(t, ops).base == t.base,
        run(t, ops).base_sink == t.base_sink,
        run(t, ops).history.len() >= t.history.len(),
    decreases ops.len(),
{
    if ops.len() > 0 {
        let rest = ops.drop_last();
        assert forall|k: int| 0 <= k < rest.len() implies (#[trigger] rest[k]) is Insert by {
            assert(rest[k] == ops[k]);
        }
        lemma_inserts(t, rest);
        assert(ops.last() == ops[ops.len() - 1]);
    }
}

/// The state at the end of a full run: the base stream is created, rows are
/// appended, the topology is created, the concurrent phase runs, and after the
/// writes stop the reconciliation pass runs.
pub open spec fn full_run(t: Tracking, seeded: Seq<Op>, n: nat, concurrent: Seq<Op>) -> Tracking {
    run(
        run(run(run(apply(t, Op::CreateBase), seeded), topology_ops(n)), concurrent),
        reconciliation_ops(n),
    )
}

/// Convergence: after a full run with an empty base sink to begin with, every
/// derived sink holds the same rows, in the same order, as the base sink (so the
/// same count and the same sum), whichever drain attempts of the concurrent phase
/// took effect.
pub proof fn lemma_convergence(t: Tracking, seeded: Seq<Op>, n: nat, concurrent: Seq<Op>)
    requires
        t.base_sink.len() == 0,
        only_inserts(seeded),
        concurrent_phase(concurrent, n),
    ensures
        forall|i: nat| i < n ==> #[trigger] full_run(t, seeded, n, concurrent).sinks[i]
            == full_run(t, seeded, n, concurrent).base_sink,
{
    let t1 = apply(t, Op::CreateBase);
    let p = t.history.len();
    let t2 = run(t1, seeded);
    lemma_inserts(t1, seeded);
    let t3 = run(t2, topology_ops(n));
    lemma_topology(t2, n);
    assert forall|i: nat| i < n implies p <= #[trigger] t3.derived[i] && t3.sinks[i] + pending(
        t3.history,
        t3.derived[i],
    ) == pending(t3.history, p) by {
        assert(t3.derived.dom().contains(i));
        assert(t3.sinks[i] + pending(t3.history, t3.derived[i]) =~= pending(t3.history, p));
    }
    assert(accounted(t3, p, n));
    let t4 = run(t3, concurrent);
    lemma_accounted_run(t3, p, n, concurrent);
    lemma_drains(t4, n, n);
    lemma_run_push(t4, drain_ops(n), Op::DrainBase);
    let u = run(t4, reconciliation_ops(n));
    let d = run(t4, drain_ops(n));
    assert forall|i: nat| i < n implies #[trigger] u.sinks[i] == u.base_sink by {
        assert(p <= t4.derived[i]);
        assert(d.derived[i] == t4.history.len());
        assert(u.base_sink =~= pending(t4.history, p));
    }
}

} // verus!
