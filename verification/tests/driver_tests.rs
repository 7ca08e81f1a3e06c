use starlark_bench::driver::{external_phases, EmbeddedRun, RunContext};
use starlark_bench::errors::BenchError;
use starlark_bench::python_engine::{batch_records, interpret_run_output, IterResult, RunResult};

fn ctx() -> RunContext {
    RunContext {
        engine: String::from("starlark"),
        workload: String::from("arithmetic"),
        size: String::from("S"),
        n: 1000,
        seed: 42,
        cpu_model: String::from("cpu"),
        os: String::from("os"),
        rustc: String::from("rustc"),
    }
}

#[test]
fn embedded_run_emits_one_record_per_iteration() {
    // warmup=1, iters=2: three records, indices restarting at the
    // measurement phase, parse duration only on the very first record.
    let mut run = EmbeddedRun::new(ctx(), 1, 2, 555);
    let mut records = Vec::new();
    while !run.done() {
        records.push(run.next_record(10, 1042, 2048));
    }
    assert_eq!(records.len(), 3);

    assert_eq!(records[0].iter, 0);
    assert!(records[0].warmup);
    assert_eq!(records[0].parse_ns, Some(555));

    assert_eq!(records[1].iter, 0);
    assert!(!records[1].warmup);
    assert_eq!(records[1].parse_ns, None);

    assert_eq!(records[2].iter, 1);
    assert!(!records[2].warmup);
    assert_eq!(records[2].parse_ns, None);

    for r in &records {
        assert_eq!(r.engine, "starlark");
        assert_eq!(r.n, 1000);
        assert_eq!(r.seed, 42);
        assert_eq!(r.eval_ns, 10);
        assert_eq!(r.total_ns, 10);
        assert_eq!(r.result, 1042);
        assert_eq!(r.rss_kb, 2048);
    }
}

#[test]
fn batch_records_share_the_averaged_total() {
    // Three measured iterations from one batch: indices 0,1,2, all
    // warmup=false, parse absent, total_ns identical (aggregate / 3).
    let pr = RunResult {
        iters: vec![
            IterResult { eval_ns: 11, result: 9 },
            IterResult { eval_ns: 22, result: 9 },
            IterResult { eval_ns: 33, result: 9 },
        ],
        total_ns: 300,
        rss_kb: 777,
    };
    let records = batch_records(&ctx(), false, &pr);
    assert_eq!(records.len(), 3);
    for (j, r) in records.iter().enumerate() {
        assert_eq!(r.iter as usize, j);
        assert!(!r.warmup);
        assert_eq!(r.parse_ns, None);
        assert_eq!(r.total_ns, 100);
        assert_eq!(r.result, 9);
        assert_eq!(r.rss_kb, 777);
    }
    assert_eq!(records[0].eval_ns, 11);
    assert_eq!(records[1].eval_ns, 22);
    assert_eq!(records[2].eval_ns, 33);
}

#[test]
fn batch_records_tag_warmup_phase() {
    let pr = RunResult {
        iters: vec![IterResult { eval_ns: 5, result: 1 }],
        total_ns: 50,
        rss_kb: 1,
    };
    let records = batch_records(&ctx(), true, &pr);
    assert_eq!(records.len(), 1);
    assert!(records[0].warmup);
    assert_eq!(records[0].iter, 0);
    assert_eq!(records[0].total_ns, 50);
}

#[test]
fn empty_batch_yields_no_records() {
    let pr = RunResult { iters: Vec::new(), total_ns: 50, rss_kb: 1 };
    let records = batch_records(&ctx(), false, &pr);
    assert!(records.is_empty());
}

#[test]
fn external_phase_plan_issues_one_batch_per_nonempty_phase() {
    assert_eq!(external_phases(3, 10), vec![(3, true), (10, false)]);
    assert_eq!(external_phases(0, 3), vec![(3, false)]);
    assert_eq!(external_phases(2, 0), vec![(2, true)]);
    assert_eq!(external_phases(0, 0), Vec::<(u32, bool)>::new());
}

#[test]
fn nonzero_exit_is_a_process_error_with_stderr() {
    // A spawned process exiting non-zero aborts the batch with the
    // captured error-channel text and no records.
    let r = interpret_run_output(false, Some(2), b"partial".to_vec(), b"boom".to_vec(), 10, 1);
    match r {
        Err(BenchError::Process { exit_code, stderr }) => {
            assert_eq!(exit_code, Some(2));
            assert_eq!(stderr, b"boom".to_vec());
        }
        _ => panic!("expected a process error"),
    }
}

#[test]
fn non_text_output_is_an_encoding_error() {
    let r = interpret_run_output(true, Some(0), vec![0xff, 0xfe], Vec::new(), 10, 1);
    match r {
        Err(BenchError::Encoding(raw)) => assert_eq!(raw, vec![0xff, 0xfe]),
        _ => panic!("expected an encoding error"),
    }
}

#[test]
fn schema_mismatch_is_a_protocol_error_with_raw_output() {
    let r = interpret_run_output(true, Some(0), b"{\"nope\":1}".to_vec(), Vec::new(), 10, 1);
    match r {
        Err(BenchError::Protocol(raw)) => assert_eq!(raw, b"{\"nope\":1}".to_vec()),
        _ => panic!("expected a protocol error"),
    }
}

#[test]
fn wrong_timing_count_is_a_protocol_error() {
    // The spawned process must report one timing per requested iteration.
    let line = b"{\"timings_ns\": [100, 200], \"result\": 7, \"rss_kb\": 42}\n".to_vec();
    let r = interpret_run_output(true, Some(0), line.clone(), Vec::new(), 999, 3);
    match r {
        Err(BenchError::Protocol(raw)) => assert_eq!(raw, line),
        _ => panic!("expected a protocol error"),
    }
}

#[test]
fn well_formed_output_yields_the_batch() {
    let line = b"{\"timings_ns\": [100, 200], \"result\": 7, \"rss_kb\": 42}\n".to_vec();
    let rr = interpret_run_output(true, Some(0), line, Vec::new(), 999, 2).unwrap();
    assert_eq!(rr.total_ns, 999);
    assert_eq!(rr.rss_kb, 42);
    assert_eq!(rr.iters.len(), 2);
    assert_eq!(rr.iters[0].eval_ns, 100);
    assert_eq!(rr.iters[1].eval_ns, 200);
    assert_eq!(rr.iters[0].result, 7);
    assert_eq!(rr.iters[1].result, 7);
}
