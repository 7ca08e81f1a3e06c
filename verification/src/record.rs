//! The self-describing benchmark record: one per completed iteration, and
//! its line-delimited JSON form. The emitted line is fully pinned down by
//! `json_of`, so a downstream consumer sees exactly one line per record.

use vstd::prelude::*;
use vstd::utf8::encode_utf8;

verus! {

/// An iteration's measurement joined with request context and host metadata.
/// This is the unit crossing the system boundary.
#[derive(Clone, Debug)]
pub struct BenchRecord {
    pub engine: String,
    pub workload: String,
    pub size: String,
    pub n: usize,
    pub seed: u64,
    pub iter: u32,
    pub warmup: bool,
    /// Embedded engine only: time spent parsing the program (nanoseconds),
    /// present only on the run's very first iteration.
    pub parse_ns: Option<u64>,
    /// Time spent evaluating the workload (nanoseconds).
    pub eval_ns: u64,
    /// Wall-clock time including overhead (nanoseconds).
    pub total_ns: u64,
    /// Checksum returned by the workload (a correctness signal).
    pub result: i64,
    /// Resident set size in KiB (best-effort, 0 if unavailable).
    pub rss_kb: u64,
    pub cpu_model: String,
    pub os: String,
    pub rustc: String,
}

/// The decimal digits of a non-negative integer.
pub open spec fn dec_digits(n: nat) -> Seq<u8>
    decreases n,
{
    if n < 10 {
        seq![(48 + n) as u8]
    } else {
        dec_digits(n / 10).push((48 + n % 10) as u8)
    }
}

/// The decimal form of a signed integer.
pub open spec fn dec_signed(v: int) -> Seq<u8> {
    if v < 0 {
        seq![45u8] + dec_digits((-v) as nat)
    } else {
        dec_digits(v as nat)
    }
}

pub open spec fn hex_digit(v: u8) -> u8 {
    if v < 10 {
        (48 + v) as u8
    } else {
        (87 + v) as u8
    }
}

/// How one byte of a string appears inside a JSON string literal: quote and
/// backslash are escaped, control bytes take the \u00XX form, and every
/// other byte (including UTF-8 continuation bytes) passes through.
pub open spec fn esc_byte(b: u8) -> Seq<u8> {
    if b == 34 {
        seq![92u8, 34u8]
    } else if b == 92 {
        seq![92u8, 92u8]
    } else if b < 32 {
        seq![92u8, 117u8, 48u8, 48u8, hex_digit(b / 16), hex_digit(b % 16)]
    } else {
        seq![b]
    }
}

pub open spec fn esc_bytes(s: Seq<u8>) -> Seq<u8>
    decreases s.len(),
{
    if s.len() == 0 {
        Seq::empty()
    } else {
        esc_bytes(s.drop_last()) + esc_byte(s.last())
    }
}

pub proof fn lemma_esc_bytes_take_step(s: Seq<u8>, i: int)
    requires
        0 <= i < s.len(),
    ensures
        esc_bytes(s.take(i + 1)) == esc_bytes(s.take(i)) + esc_byte(s[i]),
{
    assert(s.take(i + 1).drop_last() =~= s.take(i));
    assert(s.take(i + 1).last() == s[i]);
}

pub open spec fn bool_bytes(b: bool) -> Seq<u8> {
    if b {
        encode_utf8("true"@)
    } else {
        encode_utf8("false"@)
    }
}

pub open spec fn parse_ns_field(p: Option<u64>) -> Seq<u8> {
    match p {
        Option::Some(v) => encode_utf8(",\"parse_ns\":"@) + dec_digits(v as nat),
        Option::None => Seq::<u8>::empty(),
    }
}

/// The record's identity fields: engine, workload, size label, and N.
pub open spec fn json_part_identity(r: BenchRecord) -> Seq<u8> {
    encode_utf8("{\"engine\":\""@) + esc_bytes(encode_utf8(r.engine@)) + encode_utf8(
        "\",\"workload\":\""@,
    ) + esc_bytes(encode_utf8(r.workload@)) + encode_utf8("\",\"size\":\""@) + esc_bytes(
        encode_utf8(r.size@),
    ) + encode_utf8("\",\"n\":"@) + dec_digits(r.n as nat)
}

/// The iteration's place in the run: seed, index, warmup flag, and the
/// optional parse time.
pub open spec fn json_part_place(r: BenchRecord) -> Seq<u8> {
    encode_utf8(",\"seed\":"@) + dec_digits(r.seed as nat) + encode_utf8(",\"iter\":"@)
        + dec_digits(r.iter as nat) + encode_utf8(",\"warmup\":"@) + bool_bytes(r.warmup)
        + parse_ns_field(r.parse_ns)
}

/// The measurements: evaluation time, total time, checksum, and memory.
pub open spec fn json_part_measure(r: BenchRecord) -> Seq<u8> {
    encode_utf8(",\"eval_ns\":"@) + dec_digits(r.eval_ns as nat) + encode_utf8(",\"total_ns\":"@)
        + dec_digits(r.total_ns as nat) + encode_utf8(",\"result\":"@) + dec_signed(
        r.result as int,
    ) + encode_utf8(",\"rss_kb\":"@) + dec_digits(r.rss_kb as nat)
}

/// The host metadata strings.
pub open spec fn json_part_host(r: BenchRecord) -> Seq<u8> {
    encode_utf8(",\"cpu_model\":\""@) + esc_bytes(encode_utf8(r.cpu_model@)) + encode_utf8(
        "\",\"os\":\""@,
    ) + esc_bytes(encode_utf8(r.os@)) + encode_utf8("\",\"rustc\":\""@) + esc_bytes(
        encode_utf8(r.rustc@),
    ) + encode_utf8("\"}"@)
}

/// The one-line JSON form of a record, byte for byte. The optional
/// parse-time field is omitted, not null, when absent.
pub open spec fn json_of(r: BenchRecord) -> Seq<u8> {
    json_part_identity(r) + json_part_place(r) + json_part_measure(r) + json_part_host(r)
}

/// Append the decimal digits of `n`.
pub fn push_dec_u64(out: &mut Vec<u8>, n: u64)
    ensures
        final(out)@ == old(out)@ + dec_digits(n as nat),
    decreases n,
{
    if n < 10 {
        out.push(48 + (n as u8));
        assert(final(out)@ =~= old(out)@ + dec_digits(n as nat));
    } else {
        push_dec_u64(out, n / 10);
        out.push(48 + ((n % 10) as u8));
        assert(final(out)@ =~= old(out)@ + dec_digits(n as nat));
    }
}

/// Append the decimal form of a signed value.
pub fn push_dec_i64(out: &mut Vec<u8>, v: i64)
    ensures
        final(out)@ == old(out)@ + dec_signed(v as int),
{
    if v < 0 {
        out.push(45);
        let mag: u64 = (-(v as i128)) as u64;
        push_dec_u64(out, mag);
        assert(final(out)@ =~= old(out)@ + dec_signed(v as int));
    } else {
        push_dec_u64(out, v as u64);
    }
}

/// Append a string's bytes in their JSON-escaped form.
pub fn push_escaped(out: &mut Vec<u8>, s: &[u8])
    ensures
        final(out)@ == old(out)@ + esc_bytes(s@),
{
    let len: usize = s.len();
    let mut i: usize = 0;
    assert(s@.take(0) =~= Seq::<u8>::empty());
    while i < len
        invariant
            0 <= i <= len,
            len == s@.len(),
            out@ == old(out)@ + esc_bytes(s@.take(i as int)),
        decreases len - i,
    {
        let b: u8 = s[i];
        proof {
            lemma_esc_bytes_take_step(s@, i as int);
        }
        if b == 34 {
            out.push(92);
            out.push(34);
        } else if b == 92 {
            out.push(92);
            out.push(92);
        } else if b < 32 {
            out.push(92);
            out.push(117);
            out.push(48);
            out.push(48);
            let hi: u8 = b / 16;
            let lo: u8 = b % 16;
            out.push(if hi < 10 {
                48 + hi
            } else {
                87 + hi
            });
            out.push(if lo < 10 {
                48 + lo
            } else {
                87 + lo
            });
        } else {
            out.push(b);
        }
        assert(out@ =~= old(out)@ + esc_bytes(s@.take(i + 1)));
        i = i + 1;
    }
    assert(s@.take(len as int) =~= s@);
}

fn push_part_identity(out: &mut Vec<u8>, r: &BenchRecord)
    ensures
        final(out)@ == old(out)@ + json_part_identity(*r),
{
    out.extend_from_slice("{\"engine\":\"".as_bytes());
    push_escaped(out, r.engine.as_str().as_bytes());
    out.extend_from_slice("\",\"workload\":\"".as_bytes());
    push_escaped(out, r.workload.as_str().as_bytes());
    out.extend_from_slice("\",\"size\":\"".as_bytes());
    push_escaped(out, r.size.as_str().as_bytes());
    out.extend_from_slice("\",\"n\":".as_bytes());
    push_dec_u64(out, r.n as u64);
    assert(final(out)@ =~= old(out)@ + json_part_identity(*r));
}

fn push_part_place(out: &mut Vec<u8>, r: &BenchRecord)
    ensures
        final(out)@ == old(out)@ + json_part_place(*r),
{
    out.extend_from_slice(",\"seed\":".as_bytes());
    push_dec_u64(out, r.seed);
    out.extend_from_slice(",\"iter\":".as_bytes());
    push_dec_u64(out, r.iter as u64);
    out.extend_from_slice(",\"warmup\":".as_bytes());
    if r.warmup {
        out.extend_from_slice("true".as_bytes());
    } else {
        out.extend_from_slice("false".as_bytes());
    }
    match r.parse_ns {
        Option::Some(v) => {
            out.extend_from_slice(",\"parse_ns\":".as_bytes());
            push_dec_u64(out, v);
        },
        Option::None => {},
    }
    assert(final(out)@ =~= old(out)@ + json_part_place(*r));
}

fn push_part_measure(out: &mut Vec<u8>, r: &BenchRecord)
    ensures
        final(out)@ == old(out)@ + json_part_measure(*r),
{
    out.extend_from_slice(",\"eval_ns\":".as_bytes());
    push_dec_u64(out, r.eval_ns);
    out.extend_from_slice(",\"total_ns\":".as_bytes());
    push_dec_u64(out, r.total_ns);
    out.extend_from_slice(",\"result\":".as_bytes());
    push_dec_i64(out, r.result);
    out.extend_from_slice(",\"rss_kb\":".as_bytes());
    push_dec_u64(out, r.rss_kb);
    assert(final(out)@ =~= old(out)@ + json_part_measure(*r));
}

fn push_part_host(out: &mut Vec<u8>, r: &BenchRecord)
    ensures
        final(out)@ == old(out)@ + json_part_host(*r),
{
    out.extend_from_slice(",\"cpu_model\":\"".as_bytes());
    push_escaped(out, r.cpu_model.as_str().as_bytes());
    out.extend_from_slice("\",\"os\":\"".as_bytes());
    push_escaped(out, r.os.as_str().as_bytes());
    out.extend_from_slice("\",\"rustc\":\"".as_bytes());
    push_escaped(out, r.rustc.as_str().as_bytes());
    out.extend_from_slice("\"}".as_bytes());
    assert(final(out)@ =~= old(out)@ + json_part_host(*r));
}

impl BenchRecord {
    /// Serialize the record to its one-line JSON form.
    pub fn json_line(&self) -> (r: Vec<u8>)
        ensures
            r@ == json_of(*self),
    {
        let mut out: Vec<u8> = Vec::new();
        push_part_identity(&mut out, self);
        push_part_place(&mut out, self);
        push_part_measure(&mut out, self);
        push_part_host(&mut out, self);
        assert(out@ =~= json_of(*self));
        out
    }
}

} // verus!
