//! The external-process engine's batch results and their record form.
//!
//! The spawned process runs a whole phase's iterations internally and
//! reports per-iteration evaluation times, one checksum, and a peak memory
//! figure. Only the aggregate wall time of the invocation is observable
//! from outside, so each record's total duration is that aggregate divided
//! evenly by the iteration count — a documented approximation, not a true
//! per-iteration wall measurement.

use vstd::prelude::*;
use vstd::utf8::valid_utf8;
use crate::driver::RunContext;
use crate::errors::BenchError;
use crate::protocol::spec_parse_batch;
use crate::protocol::parse_batch_line;
use crate::record::BenchRecord;

verus! {

/// One iteration's result, as measured inside the spawned process.
pub struct IterResult {
    pub eval_ns: u64,
    pub result: i64,
}

/// One batch invocation's results.
pub struct RunResult {
    /// Per-iteration timings (measured inside the spawned process).
    pub iters: Vec<IterResult>,
    /// Total subprocess wall time, nanoseconds.
    pub total_ns: u64,
    /// Max resident set size reported by the process (KiB).
    pub rss_kb: u64,
}

/// Relies on str::from_utf8: Ok exactly when the bytes are valid UTF-8.
#[verifier::external_body]
fn is_valid_utf8_bytes(v: &[u8]) -> (r: bool)
    ensures
        r == valid_utf8(v@),
{
    core::str::from_utf8(v).is_ok()
}

/// Whether the bytes are a well-formed protocol line whose timings list
/// has exactly the requested length: the spawned process must report one
/// evaluation time per requested iteration.
pub open spec fn batch_conforms(s: Seq<u8>, iter_count: u32) -> bool {
    match spec_parse_batch(s) {
        Option::Some(p) => p.0.len() == iter_count,
        Option::None => false,
    }
}

/// Interpret a finished batch invocation: a non-zero exit aborts with the
/// captured error-channel bytes, non-text output is an encoding error,
/// text that fails the schema — including a timings list whose length is
/// not the requested iteration count — is a protocol error, and a
/// conforming line yields the batch's results, one item per requested
/// iteration. Exactly one of these holds; no retry is performed.
pub fn interpret_run_output(
    success: bool,
    exit_code: Option<i32>,
    stdout: Vec<u8>,
    stderr: Vec<u8>,
    total_ns: u64,
    iter_count: u32,
) -> (r: Result<RunResult, BenchError>)
    ensures
        !success ==> r == Result::<RunResult, BenchError>::Err(
            BenchError::Process { exit_code, stderr },
        ),
        success && !valid_utf8(stdout@) ==> r == Result::<RunResult, BenchError>::Err(
            BenchError::Encoding(stdout),
        ),
        success && valid_utf8(stdout@) && !batch_conforms(stdout@, iter_count) ==> r == Result::<
            RunResult,
            BenchError,
        >::Err(BenchError::Protocol(stdout)),
        success && valid_utf8(stdout@) ==> (spec_parse_batch(stdout@) matches Option::Some(p) ==> p.0.len()
            == iter_count ==> (r matches Result::Ok(rr) && {
            &&& rr.total_ns == total_ns
            &&& rr.rss_kb == p.2
            &&& rr.iters@.len() == iter_count
            &&& forall|j: int|
                0 <= j < p.0.len() ==> (#[trigger] rr.iters@[j]).eval_ns == p.0[j]
                    && rr.iters@[j].result == p.1
        })),
{
    if !success {
        return Err(BenchError::Process { exit_code, stderr });
    }
    if !is_valid_utf8_bytes(stdout.as_slice()) {
        return Err(BenchError::Encoding(stdout));
    }
    match parse_batch_line(stdout.as_slice()) {
        Option::None => Err(BenchError::Protocol(stdout)),
        Option::Some((timings, result, rss_kb)) => {
            if timings.len() != iter_count as usize {
                return Err(BenchError::Protocol(stdout));
            }
            let mut iters: Vec<IterResult> = Vec::new();
            let mut j: usize = 0;
            let count: usize = timings.len();
            while j < count
                invariant
                    0 <= j <= count,
                    count == timings@.len(),
                    iters@.len() == j,
                    forall|k: int|
                        0 <= k < j ==> (#[trigger] iters@[k]).eval_ns == timings@[k]
                            && iters@[k].result == result,
                decreases count - j,
            {
                iters.push(IterResult { eval_ns: timings[j], result });
                j = j + 1;
            }
            Ok(RunResult { iters, total_ns, rss_kb })
        },
    }
}

/// The synthesized per-iteration total: the batch's aggregate wall time
/// divided evenly by the iteration count (guarding the empty batch).
pub open spec fn spec_avg_total_ns(total_ns: u64, len: int) -> int {
    total_ns as int / (if len == 0 {
        1
    } else {
        len
    })
}

/// Convert one batch's results into records: indices zero-based and
/// contiguous within the phase, every record tagged with the phase's warmup
/// flag, no parse duration anywhere, and one shared total duration.
pub fn batch_records(ctx: &RunContext, warmup: bool, pr: &RunResult) -> (r: Vec<BenchRecord>)
    requires
        pr.iters@.len() <= u32::MAX,
    ensures
        r@.len() == pr.iters@.len(),
        forall|j: int|
            0 <= j < r@.len() ==> {
                &&& (#[trigger] r@[j]).engine == ctx.engine
                &&& r@[j].workload == ctx.workload
                &&& r@[j].size == ctx.size
                &&& r@[j].n == ctx.n
                &&& r@[j].seed == ctx.seed
                &&& r@[j].iter == j
                &&& r@[j].warmup == warmup
                &&& r@[j].parse_ns is None
                &&& r@[j].eval_ns == pr.iters@[j].eval_ns
                &&& r@[j].total_ns == spec_avg_total_ns(pr.total_ns, pr.iters@.len() as int)
                &&& r@[j].result == pr.iters@[j].result
                &&& r@[j].rss_kb == pr.rss_kb
            },
{
    let len: usize = pr.iters.len();
    let denom: u64 = if len == 0 {
        1
    } else {
        len as u64
    };
    let avg: u64 = pr.total_ns / denom;
    let mut out: Vec<BenchRecord> = Vec::new();
    let mut j: usize = 0;
    while j < len
        invariant
            0 <= j <= len,
            len == pr.iters@.len(),
            len <= u32::MAX,
            avg == spec_avg_total_ns(pr.total_ns, len as int),
            out@.len() == j,
            forall|k: int|
                0 <= k < j ==> {
                    &&& (#[trigger] out@[k]).engine == ctx.engine
                    &&& out@[k].workload == ctx.workload
                    &&& out@[k].size == ctx.size
                    &&& out@[k].n == ctx.n
                    &&& out@[k].seed == ctx.seed
                    &&& out@[k].iter == k
                    &&& out@[k].warmup == warmup
                    &&& out@[k].parse_ns is None
                    &&& out@[k].eval_ns == pr.iters@[k].eval_ns
                    &&& out@[k].total_ns == avg
                    &&& out@[k].result == pr.iters@[k].result
                    &&& out@[k].rss_kb == pr.rss_kb
                },
        decreases len - j,
    {
        let ir: &IterResult = &pr.iters[j];
        let rec = BenchRecord {
            engine: ctx.engine.clone(),
            workload: ctx.workload.clone(),
            size: ctx.size.clone(),
            n: ctx.n,
            seed: ctx.seed,
            iter: j as u32,
            warmup,
            parse_ns: Option::None,
            eval_ns: ir.eval_ns,
            total_ns: avg,
            result: ir.result,
            rss_kb: pr.rss_kb,
            cpu_model: ctx.cpu_model.clone(),
            os: ctx.os.clone(),
            rustc: ctx.rustc.clone(),
        };
        out.push(rec);
        j = j + 1;
    }
    out
}

} // verus!
