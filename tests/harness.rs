use change_tracking::bench::{bench_insert, bench_setup, create_bench_source, create_bench_table, SCHEMA};
use change_tracking::consume::{progress_step, run_successes, stream_successes, Worker};
use change_tracking::driver::{Args, Driver, Insertion};
use change_tracking::statements::{
    count_rows, create_base_stream, create_derived_stream, create_sink_table, drain_base_stream,
    drain_derived_stream, insert_one_row, reconciliation, seed_rows, sum_column, topology,
    use_database, Sink,
};
use change_tracking::text::{decimal, split_script};
use change_tracking::verify::{find_divergences, Divergence, SinkStats};

#[test]
fn decimal_renders_digits() {
    assert_eq!(decimal(0), "0");
    assert_eq!(decimal(7), "7");
    assert_eq!(decimal(10), "10");
    assert_eq!(decimal(1234), "1234");
    assert_eq!(decimal(u64::MAX), "18446744073709551615");
}

#[test]
fn fixed_statements() {
    assert_eq!(use_database(), "use test_stream");
    assert_eq!(insert_one_row(), "insert into base select * from rand limit 1");
    assert_eq!(seed_rows(), "insert into base select * from rand limit 10");
    assert_eq!(create_base_stream(), "create stream base_stream on table base");
    assert_eq!(drain_base_stream(), "insert into sink select * from base_stream");
}

#[test]
fn per_stream_statements() {
    assert_eq!(
        create_derived_stream(3),
        "create stream base_stream_3 on table base at (STREAM => base_stream)"
    );
    assert_eq!(create_sink_table(12), "create table sink_12 like base");
    assert_eq!(drain_derived_stream(4), "insert into sink_4  select * from base_stream_4");
    assert_eq!(count_rows(Sink::Base), "select count() from sink");
    assert_eq!(count_rows(Sink::Derived(2)), "select count() from sink_2");
    assert_eq!(sum_column(Sink::Base), "select sum(c) from sink");
    assert_eq!(sum_column(Sink::Derived(0)), "select sum(c) from sink_0");
}

#[test]
fn topology_anchors_every_derived_stream_on_the_base_stream() {
    assert!(topology(0).is_empty());
    assert_eq!(
        topology(2),
        vec![
            "create stream base_stream_0 on table base at (STREAM => base_stream)".to_string(),
            "create table sink_0 like base".to_string(),
            "create stream base_stream_1 on table base at (STREAM => base_stream)".to_string(),
            "create table sink_1 like base".to_string(),
        ]
    );
}

#[test]
fn reconciliation_drains_each_stream_once_base_last() {
    assert_eq!(reconciliation(0), vec!["insert into sink select * from base_stream".to_string()]);
    assert_eq!(
        reconciliation(2),
        vec![
            "insert into sink_0  select * from base_stream_0".to_string(),
            "insert into sink_1  select * from base_stream_1".to_string(),
            "insert into sink select * from base_stream".to_string(),
        ]
    );
}

#[test]
fn split_script_trims_and_drops_empty_statements() {
    let script = "create table a(x int);\n  ;\tinsert into a values (1) ;  \n";
    assert_eq!(
        split_script(script),
        vec!["create table a(x int)".to_string(), "insert into a values (1)".to_string()]
    );
    assert!(split_script("").is_empty());
    assert!(split_script(" ; \n;").is_empty());
    assert_eq!(split_script("\u{3000}select 1\u{a0}"), vec!["select 1".to_string()]);
    assert_eq!(split_script("a;b"), vec!["a".to_string(), "b".to_string()]);
}

#[test]
fn progress_step_is_one_percent_at_least_one() {
    assert_eq!(progress_step(0), 1);
    assert_eq!(progress_step(10), 1);
    assert_eq!(progress_step(199), 1);
    assert_eq!(progress_step(250), 2);
    assert_eq!(progress_step(10000), 100);
}

#[test]
fn worker_counts_successes_and_reports() {
    let mut w = Worker::new(1, 4, 3, true);
    assert!(w.has_next());
    let r = w.record(false);
    assert!(r.log_failure);
    assert!(r.log_progress);
    let r = w.record(true);
    assert!(!r.log_failure);
    let _ = w.record(true);
    assert!(!w.has_next());
    assert_eq!(w.done(), 3);
    assert_eq!(w.successes(), 2);
    assert_eq!(w.batch_id(), 1);
    assert_eq!(w.stream_id(), 4);
    assert_eq!(w.iterations(), 3);

    let mut quiet = Worker::new(0, 0, 250, false);
    let r = quiet.record(false);
    assert!(!r.log_failure);
    assert!(!r.log_progress);
    let r = quiet.record(true);
    assert!(r.log_progress);
}

#[test]
fn stream_successes_treat_failed_tasks_as_zero() {
    let mut a = Worker::new(0, 0, 5, false);
    let mut b = Worker::new(1, 0, 5, false);
    for i in 0..5 {
        a.record(i % 2 == 0);
        b.record(true);
    }
    let outcomes = vec![Some(a), None, Some(b)];
    assert_eq!(stream_successes(&outcomes), 8);
    assert_eq!(stream_successes(&Vec::new()), 0);
}

#[test]
fn success_count_within_concurrency_times_iterations() {
    let driver = Driver::new(Args {
        num_derived_streams: 1,
        stream_consumption_concurrency: 2,
        times_consumption_per_stream: 5,
        show_stream_consumption_errors: false,
    });
    let mut ws = driver.workers(0);
    assert_eq!(ws.len(), 2);
    for w in ws.iter_mut() {
        while w.has_next() {
            w.record(true);
        }
    }
    let outcomes: Vec<Option<Worker>> = ws.into_iter().map(Some).collect();
    let total = stream_successes(&outcomes);
    assert_eq!(total, 10);
    assert!(total <= 2 * 5);
}

#[test]
fn run_successes_sum_finished_streams() {
    assert_eq!(run_successes(&vec![Some(3), None, Some(4)]), 7);
    assert_eq!(run_successes(&vec![Some(u64::MAX), Some(u64::MAX)]), 2 * u64::MAX as u128);
}

#[test]
fn converged_sinks_pass() {
    let base = SinkStats { count: 10, sum: 4321 };
    assert!(find_divergences(base, &vec![base, base]).is_empty());
    assert!(find_divergences(base, &Vec::new()).is_empty());
}

#[test]
fn undrained_sink_is_the_one_reported() {
    let base = SinkStats { count: 10, sum: 4321 };
    let left = SinkStats { count: 7, sum: 4000 };
    assert_eq!(
        find_divergences(base, &vec![base, left, base]),
        vec![Divergence { stream_id: 1, count: 7, sum: 4000 }]
    );
    let same_count = SinkStats { count: 10, sum: 1 };
    assert_eq!(
        find_divergences(base, &vec![same_count]),
        vec![Divergence { stream_id: 0, count: 10, sum: 1 }]
    );
}

#[test]
fn end_to_end_two_streams_two_workers_five_attempts() {
    let args = Args {
        num_derived_streams: 2,
        stream_consumption_concurrency: 2,
        times_consumption_per_stream: 5,
        show_stream_consumption_errors: false,
    };
    let driver = Driver::new(args);
    assert_eq!(driver.total_attempts(), 20);
    let mut per_stream = Vec::new();
    for id in 0..2 {
        let mut outcomes = Vec::new();
        for mut w in driver.workers(id) {
            let mut attempt = 0;
            while w.has_next() {
                w.record(attempt == 0);
                attempt += 1;
            }
            outcomes.push(Some(w));
        }
        let s = stream_successes(&outcomes);
        assert!(s <= 10);
        per_stream.push(Some(s));
    }
    assert_eq!(run_successes(&per_stream), 4);
    assert_eq!(reconciliation(2).len(), 3);
    let base = SinkStats { count: 10, sum: 55 };
    assert!(find_divergences(base, &vec![base, base]).is_empty());
}

#[test]
fn default_args_and_driver() {
    let args = Args::default();
    assert_eq!(args.num_derived_streams, 5);
    assert_eq!(args.stream_consumption_concurrency, 3);
    assert_eq!(args.times_consumption_per_stream, 10);
    assert!(!args.show_stream_consumption_errors);
    let d = Driver::new(args);
    assert_eq!(d.dsn, "databend://root:@localhost:8000/default?sslmode=disable");
    assert_eq!(d.insertion, Insertion::NotStarted);
    assert_eq!(d.total_attempts(), 150);
}

#[test]
fn stopping_twice_joins_once() {
    let mut d = Driver::new(Args::default());
    assert!(d.begin_insertion());
    assert!(!d.begin_insertion());
    assert_eq!(d.insertion, Insertion::Running);
    assert!(d.stop_insertion());
    assert!(!d.stop_insertion());
    assert_eq!(d.insertion, Insertion::Stopped);
    assert!(!d.begin_insertion());
}

#[test]
fn bench_statements() {
    assert_eq!(create_bench_table(3), format!("CREATE OR REPLACE TABLE bench_io_3 {}", SCHEMA));
    assert_eq!(create_bench_source(), format!("CREATE OR REPLACE TABLE source {}", SCHEMA));
    assert_eq!(bench_insert(2, 500), "insert into bench_io_2 select * from source limit 500");
    let all = bench_setup(2);
    assert_eq!(all.len(), 3);
    assert_eq!(all[1], create_bench_table(1));
    assert_eq!(all[2], create_bench_source());
    assert!(SCHEMA.starts_with("(\nid bigint,"));
}
