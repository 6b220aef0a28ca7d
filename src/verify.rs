//! Cross-stream comparison of the sinks' aggregates.
use vstd::prelude::*;

verus! {

/// The aggregate of one sink table: its row count and the sum of its column `c`.
#[derive(Clone, Copy, Debug, PartialEq, Eq, Structural)]
pub struct SinkStats {
    pub count: u32,
    pub sum: u64,
}

/// A derived stream whose sink disagrees with the base sink, with what its sink holds.
#[derive(Clone, Copy, Debug, PartialEq, Eq, Structural)]
pub struct Divergence {
    pub stream_id: u32,
    pub count: u32,
    pub sum: u64,
}

/// The derived streams, in order of id, whose sink's `(count, sum)` differs from
/// the base sink's in either component; `derived[i]` is the sink of stream `i`.
pub open spec fn divergences(base: SinkStats, derived: Seq<SinkStats>) -> Seq<Divergence>
    decreases derived.len(),
{
    if derived.len() == 0 {
        Seq::empty()
    } else {
        let r = divergences(base, derived.drop_last());
        let s = derived.last();
        if s.count == base.count && s.sum == base.sum {
            r
        } else {
            r.push(Divergence { stream_id: (derived.len() - 1) as u32, count: s.count, sum: s.sum })
        }
    }
}

/// Every derived sink agrees with the base sink.
pub open spec fn converged(base: SinkStats, derived: Seq<SinkStats>) -> bool {
    forall|i: int| 0 <= i < derived.len() ==> #[trigger] derived[i] == base
}

/// The run passes exactly when every derived sink agrees with the base sink.
pub proof fn lemma_pass_iff_converged(base: SinkStats, derived: Seq<SinkStats>)
    ensures
        divergences(base, derived).len() == 0 <==> converged(base, derived),
    decreases derived.len(),
{
    if derived.len() > 0 {
        let rest = derived.drop_last();
        lemma_pass_iff_converged(base, rest);
        if converged(base, derived) {
            assert forall|i: int| 0 <= i < rest.len() implies #[trigger] rest[i] == base by {
                assert(rest[i] == derived[i]);
            }
            assert(derived[derived.len() - 1] == base);
        }
        if divergences(base, derived).len() == 0 {
            assert forall|i: int| 0 <= i < derived.len() implies #[trigger] derived[i] == base by {
                if i < rest.len() {
                    assert(rest[i] == derived[i]);
                }
            }
        }
    }
}

/// Divergence detection: when the sink of stream `k` alone disagrees with the base
/// sink, exactly that stream is reported, with what its sink holds.
pub proof fn lemma_single_divergence(base: SinkStats, derived: Seq<SinkStats>, k: int)
    requires
        0 <= k < derived.len() <= u32::MAX + 1,
        derived[k] != base,
        forall|i: int| 0 <= i < derived.len() && i != k ==> #[trigger] derived[i] == base,
    ensures
        divergences(base, derived) == seq![
            Divergence { stream_id: k as u32, count: derived[k].count, sum: derived[k].sum },
        ],
    decreases derived.len(),
{
    let rest = derived.drop_last();
    if k == derived.len() - 1 {
        assert forall|i: int| 0 <= i < rest.len() implies #[trigger] rest[i] == base by {
            assert(rest[i] == derived[i]);
        }
        lemma_pass_iff_converged(base, rest);
        assert(divergences(base, derived) =~= seq![
            Divergence { stream_id: k as u32, count: derived[k].count, sum: derived[k].sum },
        ]);
    } else {
        assert(rest[k] == derived[k]);
        assert forall|i: int| 0 <= i < rest.len() && i != k implies #[trigger] rest[i] == base by {
            assert(rest[i] == derived[i]);
        }
        lemma_single_divergence(base, rest, k);
        assert(derived.last() == derived[derived.len() - 1]);
    }
}

/// Compares each derived sink with the base sink and lists the divergent ones.
pub fn find_divergences(base: SinkStats, derived: &Vec<SinkStats>) -> (r: Vec<Divergence>)
    requires
        derived@.len() <= u32::MAX + 1,
    ensures
        r@ == divergences(base, derived@),
        r@.len() == 0 <==> converged(base, derived@),
{
    let mut out: Vec<Divergence> = Vec::new();
    let mut i: usize = 0;
    while i < derived.len()
        invariant
            i <= derived@.len() <= u32::MAX + 1,
            out@ == divergences(base, derived@.take(i as int)),
        decreases derived@.len() - i,
    {
        let ghost pre = derived@.take(i as int);
        assert(derived@.take(i + 1).drop_last() =~= pre);
        assert(derived@.take(i + 1).last() == derived@[i as int]);
        let s = derived[i];
        if !(s.count == base.count && s.sum == base.sum) {
            out.push(Divergence { stream_id: i as u32, count: s.count, sum: s.sum });
        }
        i = i + 1;
    }
    assert(derived@.take(i as int) =~= derived@);
    proof {
        lemma_pass_iff_converged(base, derived@);
    }
    out
}

} // verus!
