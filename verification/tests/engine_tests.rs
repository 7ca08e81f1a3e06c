use starlark_bench::driver::{EmbeddedRun, RunContext};
use starlark_bench::errors::BenchError;
use starlark_bench::starlark_engine::{call_run, prepare};

const ADD_SCRIPT: &str = "def run(n, seed):\n    return n + seed\n";

#[test]
fn prepare_and_run_computes_the_checksum() {
    let p = prepare(ADD_SCRIPT).unwrap();
    let r = call_run(&p, 1000, 42).unwrap();
    assert_eq!(r.result, 1042);
}

#[test]
fn checksum_is_deterministic_across_calls() {
    let p = prepare(ADD_SCRIPT).unwrap();
    let a = call_run(&p, 1000, 42).unwrap();
    let b = call_run(&p, 1000, 42).unwrap();
    assert_eq!(a.result, b.result);
    let p2 = prepare(ADD_SCRIPT).unwrap();
    let c = call_run(&p2, 1000, 42).unwrap();
    assert_eq!(a.result, c.result);
}

#[test]
fn none_result_coerces_to_zero() {
    let p = prepare("def run(n, seed):\n    return None\n").unwrap();
    let r = call_run(&p, 10, 1).unwrap();
    assert_eq!(r.result, 0);
}

#[test]
fn big_integer_result_uses_the_textual_fallback() {
    let p = prepare("def run(n, seed):\n    return 1099511627776\n").unwrap();
    let r = call_run(&p, 10, 1).unwrap();
    assert_eq!(r.result, 1_099_511_627_776);
}

#[test]
fn string_result_coerces_to_zero() {
    let p = prepare("def run(n, seed):\n    return \"hello\"\n").unwrap();
    let r = call_run(&p, 10, 1).unwrap();
    assert_eq!(r.result, 0);
}

#[test]
fn missing_entry_point_is_a_configuration_error() {
    match prepare("x = 1\n") {
        Err(BenchError::Configuration(_)) => {}
        _ => panic!("expected a configuration error"),
    }
}

#[test]
fn malformed_source_is_a_parse_error() {
    match prepare("def (\n") {
        Err(BenchError::Parse(_)) => {}
        _ => panic!("expected a parse error"),
    }
}

#[test]
fn runtime_failure_is_an_eval_error() {
    let p = prepare("def run(n, seed):\n    return n // 0\n").unwrap();
    match call_run(&p, 10, 1) {
        Err(BenchError::Eval(_)) => {}
        _ => panic!("expected an eval error"),
    }
}

#[test]
fn embedded_pipeline_emits_three_records_for_warmup_one_iters_two() {
    // An arithmetic-style workload at n=1000, seed=42, warmup=1, iters=2:
    // three records; only the very first carries the parse duration, and
    // the index restarts at zero for the measurement phase.
    let prepared = prepare(ADD_SCRIPT).unwrap();
    let ctx = RunContext {
        engine: String::from("starlark"),
        workload: String::from("arithmetic"),
        size: String::from("S"),
        n: 1000,
        seed: 42,
        cpu_model: String::from("cpu"),
        os: String::from("os"),
        rustc: String::from("rustc"),
    };
    let mut run = EmbeddedRun::new(ctx, 1, 2, prepared.parse_ns);
    let mut records = Vec::new();
    while !run.done() {
        let r = call_run(&prepared, 1000, 42).unwrap();
        records.push(run.next_record(r.eval_ns, r.result, 0));
    }
    assert_eq!(records.len(), 3);
    assert!(records[0].warmup && records[0].iter == 0);
    assert_eq!(records[0].parse_ns, Some(prepared.parse_ns));
    assert!(!records[1].warmup && records[1].iter == 0);
    assert_eq!(records[1].parse_ns, None);
    assert!(!records[2].warmup && records[2].iter == 1);
    assert_eq!(records[2].parse_ns, None);
    for r in &records {
        assert_eq!(r.result, 1042);
    }
}

#[test]
fn parse_duration_is_recorded_once_per_run() {
    // The snapshot carries one parse duration, fixed before any iteration.
    let p = prepare(ADD_SCRIPT).unwrap();
    let first = p.parse_ns;
    let _ = call_run(&p, 10, 1).unwrap();
    assert_eq!(p.parse_ns, first);
}
