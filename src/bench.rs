//! The statements of the insert benchmark: numbered tables of one wide schema,
//! filled in batches from a source table.
use vstd::prelude::*;
use crate::text::{dec, decimal, lemma_views_push, views};

verus! {

/// The column list shared by the benchmark tables and their source.
pub const SCHEMA: &'static str = "(\nid bigint,\nid1 bigint,\nid2 bigint,\nid3 bigint,\nid4 bigint,\nid5 bigint,\nid6 bigint,\nid7 bigint,\n\ns1 varchar,\ns2 varchar,\ns3 varchar,\ns4 varchar,\ns5 varchar,\ns6 varchar,\ns7 varchar,\ns8 varchar,\ns9 varchar,\ns10 varchar,\ns11 varchar,\ns12 varchar,\ns13 varchar,\n\nd1 DECIMAL(20, 8),\nd2 DECIMAL(20, 8),\nd3 DECIMAL(20, 8),\nd4 DECIMAL(20, 8),\nd5 DECIMAL(20, 8),\nd6 DECIMAL(30, 8),\nd7 DECIMAL(30, 8),\nd8 DECIMAL(30, 8),\nd9 DECIMAL(30, 8),\nd10 DECIMAL(30, 8),\n\ninsert_time datetime,\ninsert_time1 datetime,\ninsert_time2 datetime,\ninsert_time3 datetime,\n\ni int\n)";

/// Creates (or replaces) benchmark table `i`.
pub open spec fn create_bench_table_spec(i: nat) -> Seq<char> {
    "CREATE OR REPLACE TABLE bench_io_"@ + dec(i) + " "@ + SCHEMA@
}

/// Creates (or replaces) the source table.
pub open spec fn create_bench_source_spec() -> Seq<char> {
    "CREATE OR REPLACE TABLE source "@ + SCHEMA@
}

/// Copies one batch of `batch_size` rows from the source into table `i`.
pub open spec fn bench_insert_spec(i: nat, batch_size: nat) -> Seq<char> {
    "insert into bench_io_"@ + dec(i) + " select * from source limit "@ + dec(batch_size)
}

/// The set-up of `n` benchmark tables: each table in order, then the source.
pub open spec fn bench_setup_spec(n: nat) -> Seq<Seq<char>> {
    Seq::new(n, |k: int| create_bench_table_spec(k as nat)).push(create_bench_source_spec())
}

pub fn create_bench_table(i: u32) -> (r: String)
    ensures
        r@ == create_bench_table_spec(i as nat),
{
    let mut r = String::from_str("CREATE OR REPLACE TABLE bench_io_");
    let d = decimal(i as u64);
    r.append(d.as_str());
    r.append(" ");
    r.append(SCHEMA);
    r
}

pub fn create_bench_source() -> (r: String)
    ensures
        r@ == create_bench_source_spec(),
{
    let mut r = String::from_str("CREATE OR REPLACE TABLE source ");
    r.append(SCHEMA);
    r
}

pub fn bench_insert(i: u32, batch_size: u32) -> (r: String)
    ensures
        r@ == bench_insert_spec(i as nat, batch_size as nat),
{
    let mut r = String::from_str("insert into bench_io_");
    let d = decimal(i as u64);
    r.append(d.as_str());
    r.append(" select * from source limit ");
    let b = decimal(batch_size as u64);
    r.append(b.as_str());
    r
}

/// The statements that set up `n` benchmark tables and their source.
pub fn bench_setup(n: u32) -> (r: Vec<String>)
    ensures
        views(r@) == bench_setup_spec(n as nat),
{
    let mut out: Vec<String> = Vec::new();
    let mut i: u32 = 0;
    while i < n
        invariant
            i <= n,
            views(out@) == Seq::new(i as nat, |k: int| create_bench_table_spec(k as nat)),
        decreases n - i,
    {
        let ghost before = out@;
        let a = create_bench_table(i);
        out.push(a);
        proof {
            lemma_views_push(before, a);
        }
        i = i + 1;
        assert(views(out@) =~= Seq::new(i as nat, |k: int| create_bench_table_spec(k as nat)));
    }
    let ghost before = out@;
    let last = create_bench_source();
    out.push(last);
    proof {
        lemma_views_push(before, last);
    }
    assert(views(out@) =~= bench_setup_spec(n as nat));
    out
}

} // verus!
