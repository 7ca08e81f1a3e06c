use starlark_bench::record::BenchRecord;

fn sample(parse_ns: Option<u64>, result: i64, cpu: &str) -> BenchRecord {
    BenchRecord {
        engine: String::from("starlark"),
        workload: String::from("arithmetic"),
        size: String::from("S"),
        n: 1000,
        seed: 42,
        iter: 0,
        warmup: true,
        parse_ns,
        eval_ns: 10,
        total_ns: 10,
        result,
        rss_kb: 2048,
        cpu_model: String::from(cpu),
        os: String::from("linux-x86_64"),
        rustc: String::from("rustc 1.0"),
    }
}

#[test]
fn json_line_exact_bytes_with_parse_ns() {
    let line = sample(Some(5), 1042, "Test CPU").json_line();
    let expected = "{\"engine\":\"starlark\",\"workload\":\"arithmetic\",\"size\":\"S\",\"n\":1000,\"seed\":42,\"iter\":0,\"warmup\":true,\"parse_ns\":5,\"eval_ns\":10,\"total_ns\":10,\"result\":1042,\"rss_kb\":2048,\"cpu_model\":\"Test CPU\",\"os\":\"linux-x86_64\",\"rustc\":\"rustc 1.0\"}";
    assert_eq!(String::from_utf8(line).unwrap(), expected);
}

#[test]
fn json_line_omits_absent_parse_ns() {
    let line = sample(None, -5, "cpu").json_line();
    let s = String::from_utf8(line).unwrap();
    assert!(!s.contains("parse_ns"));
    assert!(s.contains("\"result\":-5,"));
}

#[test]
fn json_line_escapes_strings() {
    let line = sample(None, 0, "a\"b\\c\nd").json_line();
    let s = String::from_utf8(line).unwrap();
    assert!(s.contains("\"cpu_model\":\"a\\\"b\\\\c\\u000ad\""));
}

#[test]
fn json_line_round_trips_through_a_json_parser() {
    let line = sample(Some(7), i64::MIN, "Test CPU").json_line();
    let v: serde_json::Value = serde_json::from_slice(&line).unwrap();
    assert_eq!(v.get("engine").unwrap().as_str().unwrap(), "starlark");
    assert_eq!(v.get("n").unwrap().as_u64().unwrap(), 1000);
    assert_eq!(v.get("seed").unwrap().as_u64().unwrap(), 42);
    assert_eq!(v.get("warmup").unwrap().as_bool().unwrap(), true);
    assert_eq!(v.get("parse_ns").unwrap().as_u64().unwrap(), 7);
    assert_eq!(v.get("result").unwrap().as_i64().unwrap(), i64::MIN);
    assert_eq!(v.get("rss_kb").unwrap().as_u64().unwrap(), 2048);
    assert_eq!(v.get("cpu_model").unwrap().as_str().unwrap(), "Test CPU");
}
