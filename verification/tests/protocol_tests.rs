use starlark_bench::protocol::parse_batch_line;

#[test]
fn parses_a_canonical_line() {
    let line = b"{\"timings_ns\": [100, 200, 300], \"result\": 1042, \"rss_kb\": 9000}";
    let (timings, result, rss) = parse_batch_line(line).unwrap();
    assert_eq!(timings, vec![100, 200, 300]);
    assert_eq!(result, 1042);
    assert_eq!(rss, 9000);
}

#[test]
fn parses_without_spaces_and_with_newline() {
    let line = b"{\"timings_ns\":[7],\"result\":-3,\"rss_kb\":0}\n";
    let (timings, result, rss) = parse_batch_line(line).unwrap();
    assert_eq!(timings, vec![7]);
    assert_eq!(result, -3);
    assert_eq!(rss, 0);
}

#[test]
fn parses_an_empty_timings_list() {
    let line = b"{ \"timings_ns\" : [ ] , \"result\" : 0 , \"rss_kb\" : 1 }";
    let (timings, result, rss) = parse_batch_line(line).unwrap();
    assert_eq!(timings, Vec::<u64>::new());
    assert_eq!(result, 0);
    assert_eq!(rss, 1);
}

#[test]
fn rejects_schema_violations() {
    assert!(parse_batch_line(b"").is_none());
    assert!(parse_batch_line(b"not json").is_none());
    assert!(parse_batch_line(b"{}").is_none());
    assert!(parse_batch_line(b"{\"timings_ns\":[1],\"result\":2}").is_none());
    assert!(parse_batch_line(b"{\"result\":2,\"timings_ns\":[1],\"rss_kb\":3}").is_none());
    assert!(parse_batch_line(b"{\"timings_ns\":[1],\"result\":2,\"rss_kb\":3} extra").is_none());
    assert!(parse_batch_line(b"{\"timings_ns\":[1,],\"result\":2,\"rss_kb\":3}").is_none());
    assert!(parse_batch_line(b"{\"timings_ns\":[-1],\"result\":2,\"rss_kb\":3}").is_none());
    assert!(parse_batch_line(b"{\"timings_ns\":[1],\"result\":2.5,\"rss_kb\":3}").is_none());
}

#[test]
fn rejects_out_of_range_numbers() {
    assert!(parse_batch_line(b"{\"timings_ns\":[18446744073709551616],\"result\":0,\"rss_kb\":0}")
        .is_none());
    let ok = parse_batch_line(b"{\"timings_ns\":[18446744073709551615],\"result\":0,\"rss_kb\":0}");
    assert_eq!(ok.unwrap().0, vec![u64::MAX]);
    assert!(parse_batch_line(b"{\"timings_ns\":[],\"result\":9223372036854775808,\"rss_kb\":0}")
        .is_none());
    let ok = parse_batch_line(b"{\"timings_ns\":[],\"result\":-9223372036854775808,\"rss_kb\":0}");
    assert_eq!(ok.unwrap().1, i64::MIN);
}
