//! The SQL statements that the harness sends, as templates over stream ids.
use vstd::prelude::*;
use crate::text::{dec, decimal, lemma_views_push, views};

verus! {

/// The database that holds the harness's tables and streams.
pub open spec fn use_database_spec() -> Seq<char> {
    "use test_stream"@
}

/// One background write: a single random row into the base table.
pub open spec fn insert_one_row_spec() -> Seq<char> {
    "insert into base select * from rand limit 1"@
}

/// The optional seed: ten random rows into the base table.
pub open spec fn seed_rows_spec() -> Seq<char> {
    "insert into base select * from rand limit 10"@
}

/// The base stream, anchored on the base table now.
pub open spec fn create_base_stream_spec() -> Seq<char> {
    "create stream base_stream on table base"@
}

/// Derived stream `idx`, anchored at the base stream's current position.
pub open spec fn create_derived_stream_spec(idx: nat) -> Seq<char> {
    "create stream base_stream_"@ + dec(idx) + " on table base at (STREAM => base_stream)"@
}

/// The sink table of derived stream `idx`, shaped like the base table.
pub open spec fn create_sink_table_spec(idx: nat) -> Seq<char> {
    "create table sink_"@ + dec(idx) + " like base"@
}

/// Drains derived stream `idx` into its sink table.
pub open spec fn drain_derived_stream_spec(idx: nat) -> Seq<char> {
    "insert into sink_"@ + dec(idx) + "  select * from base_stream_"@ + dec(idx)
}

/// Drains the base stream into the base sink table.
pub open spec fn drain_base_stream_spec() -> Seq<char> {
    "insert into sink select * from base_stream"@
}

/// A sink table: the base stream's, or that of a derived stream.
#[derive(Clone, Copy, Debug, PartialEq, Eq, Structural)]
pub enum Sink {
    Base,
    Derived(u32),
}

pub open spec fn sink_name_spec(sink: Sink) -> Seq<char> {
    match sink {
        Sink::Base => "sink"@,
        Sink::Derived(idx) => "sink_"@ + dec(idx as nat),
    }
}

/// Counts the rows of a sink table.
pub open spec fn count_rows_spec(sink: Sink) -> Seq<char> {
    "select count() from "@ + sink_name_spec(sink)
}

/// Sums the designated column `c` of a sink table.
pub open spec fn sum_column_spec(sink: Sink) -> Seq<char> {
    "select sum(c) from "@ + sink_name_spec(sink)
}

/// Topology creation: for each derived stream in order, the stream and then its sink.
pub open spec fn topology_spec(n: nat) -> Seq<Seq<char>> {
    Seq::new(2 * n, |k: int| if k % 2 == 0 {
        create_derived_stream_spec((k / 2) as nat)
    } else {
        create_sink_table_spec((k / 2) as nat)
    })
}

/// The reconciliation pass: one drain of each derived stream in order, then one
/// of the base stream.
pub open spec fn reconciliation_spec(n: nat) -> Seq<Seq<char>> {
    Seq::new(n, |k: int| drain_derived_stream_spec(k as nat)).push(drain_base_stream_spec())
}

pub fn use_database() -> (r: String)
    ensures
        r@ == use_database_spec(),
{
    String::from_str("use test_stream")
}

pub fn insert_one_row() -> (r: String)
    ensures
        r@ == insert_one_row_spec(),
{
    String::from_str("insert into base select * from rand limit 1")
}

pub fn seed_rows() -> (r: String)
    ensures
        r@ == seed_rows_spec(),
{
    String::from_str("insert into base select * from rand limit 10")
}

pub fn create_base_stream() -> (r: String)
    ensures
        r@ == create_base_stream_spec(),
{
    String::from_str("create stream base_stream on table base")
}

pub fn drain_base_stream() -> (r: String)
    ensures
        r@ == drain_base_stream_spec(),
{
    String::from_str("insert into sink select * from base_stream")
}

pub fn create_derived_stream(idx: u32) -> (r: String)
    ensures
        r@ == create_derived_stream_spec(idx as nat),
{
    let mut r = String::from_str("create stream base_stream_");
    let d = decimal(idx as u64);
    r.append(d.as_str());
    r.append(" on table base at (STREAM => base_stream)");
    r
}

pub fn create_sink_table(idx: u32) -> (r: String)
    ensures
        r@ == create_sink_table_spec(idx as nat),
{
    let mut r = String::from_str("create table sink_");
    let d = decimal(idx as u64);
    r.append(d.as_str());
    r.append(" like base");
    r
}

pub fn drain_derived_stream(idx: u32) -> (r: String)
    ensures
        r@ == drain_derived_stream_spec(idx as nat),
{
    let mut r = String::from_str("insert into sink_");
    let d = decimal(idx as u64);
    r.append(d.as_str());
    r.append("  select * from base_stream_");
    r.append(d.as_str());
    r
}

pub fn sink_name(sink: Sink) -> (r: String)
    ensures
        r@ == sink_name_spec(sink),
{
    match sink {
        Sink::Base => String::from_str("sink"),
        Sink::Derived(idx) => {
            let mut r = String::from_str("sink_");
            let d = decimal(idx as u64);
            r.append(d.as_str());
            r
        },
    }
}

pub fn count_rows(sink: Sink) -> (r: String)
    ensures
        r@ == count_rows_spec(sink),
{
    let mut r = String::from_str("select count() from ");
    let name = sink_name(sink);
    r.append(name.as_str());
    r
}

pub fn sum_column(sink: Sink) -> (r: String)
    ensures
        r@ == sum_column_spec(sink),
{
    let mut r = String::from_str("select sum(c) from ");
    let name = sink_name(sink);
    r.append(name.as_str());
    r
}

/// The statements that create `n` derived streams and their sink tables.
pub fn topology(n: u32) -> (r: Vec<String>)
    ensures
        views(r@) == topology_spec(n as nat),
{
    let mut out: Vec<String> = Vec::new();
    let mut i: u32 = 0;
    while i < n
        invariant
            i <= n,
            views(out@) == topology_spec(i as nat),
        decreases n - i,
    {
        let ghost before = out@;
        let a = create_derived_stream(i);
        let b = create_sink_table(i);
        out.push(a);
        out.push(b);
        proof {
            lemma_views_push(before, a);
            lemma_views_push(before.push(a), b);
            let next = topology_spec((i + 1) as nat);
            assert forall|k: int| 0 <= k < 2 * i + 2 implies #[trigger] views(out@)[k] == next[k] by {
                if k < 2 * i {
                    assert(views(out@)[k] == topology_spec(i as nat)[k]);
                } else if k == 2 * i {
                    assert(k % 2 == 0 && k / 2 == i);
                } else {
                    assert(k % 2 == 1 && k / 2 == i);
                }
            }
            assert(views(out@) =~= next);
        }
        i = i + 1;
    }
    out
}

/// The statements of the reconciliation pass over `n` derived streams.
pub fn reconciliation(n: u32) -> (r: Vec<String>)
    ensures
        views(r@) == reconciliation_spec(n as nat),
{
    let mut out: Vec<String> = Vec::new();
    let mut i: u32 = 0;
    while i < n
        invariant
            i <= n,
            views(out@) == Seq::new(i as nat, |k: int| drain_derived_stream_spec(k as nat)),
        decreases n - i,
    {
        let ghost before = out@;
        let a = drain_derived_stream(i);
        out.push(a);
        proof {
            lemma_views_push(before, a);
        }
        i = i + 1;
        assert(views(out@) =~= Seq::new(i as nat, |k: int| drain_derived_stream_spec(k as nat)));
    }
    let ghost before = out@;
    let last = drain_base_stream();
    out.push(last);
    proof {
        lemma_views_push(before, last);
    }
    assert(views(out@) =~= reconciliation_spec(n as nat));
    out
}

} // verus!
