use starlark_bench::memory::parse_vm_rss;

#[test]
fn reads_the_vm_rss_line() {
    let status = b"VmPeak:\t 5000 kB\nVmRSS:\t 1234 kB\nVmSwap:\t 0 kB\n";
    assert_eq!(parse_vm_rss(status), 1234);
}

#[test]
fn missing_line_yields_zero() {
    assert_eq!(parse_vm_rss(b""), 0);
    assert_eq!(parse_vm_rss(b"VmPeak: 5000 kB\n"), 0);
}

#[test]
fn first_matching_line_decides() {
    let status = b"VmRSS: 7 kB\nVmRSS: 8 kB\n";
    assert_eq!(parse_vm_rss(status), 7);
}

#[test]
fn token_at_end_of_text_is_read() {
    assert_eq!(parse_vm_rss(b"VmRSS: 99"), 99);
    assert_eq!(parse_vm_rss(b"x: 1\nVmRSS:\t42\n"), 42);
}

#[test]
fn unreadable_token_yields_zero() {
    assert_eq!(parse_vm_rss(b"VmRSS: abc kB\n"), 0);
    assert_eq!(parse_vm_rss(b"VmRSS:12kB\n"), 0);
    assert_eq!(parse_vm_rss(b"VmRSS:\n"), 0);
    assert_eq!(parse_vm_rss(b"VmRSS: 99999999999999999999999 kB\n"), 0);
}
