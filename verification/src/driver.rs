//! The benchmark loop driver: warmup and measurement phases reconciled into
//! one measurement model for both engines.
//!
//! The embedded engine is driven call by call: preparation happens exactly
//! once, before any iteration, and the run then executes
//! `warmup + iters` iterations sequentially. The external engine is driven
//! batch by batch: one invocation per non-empty phase. Either way every
//! completed iteration yields exactly one record, indexed zero-based within
//! its phase.

use vstd::prelude::*;
use crate::record::BenchRecord;

verus! {

/// The request context and host metadata that every record of a run carries.
#[derive(Clone, Debug)]
pub struct RunContext {
    pub engine: String,
    pub workload: String,
    pub size: String,
    pub n: usize,
    pub seed: u64,
    pub cpu_model: String,
    pub os: String,
    pub rustc: String,
}

/// The iteration index within its phase: the counter restarts at zero when
/// the measurement phase begins.
pub open spec fn spec_iter_index(i: int, warmup: int) -> int {
    if i < warmup {
        i
    } else {
        i - warmup
    }
}

/// Whether run-position `i` falls in the warmup phase.
pub open spec fn spec_is_warmup(i: int, warmup: int) -> bool {
    i < warmup
}

/// Whether the record at run-position `i` carries the parse duration:
/// parsing occurred once before the loop, so only the run's very first
/// iteration reports it.
pub open spec fn spec_parse_present(i: int) -> bool {
    i == 0
}

/// Index contiguity: within each phase, iteration indices form an unbroken
/// zero-based sequence — positions `0..warmup` carry warmup indices
/// `0..warmup`, and positions `warmup..total` carry measurement indices
/// `0..total - warmup`, each in order.
pub proof fn lemma_index_contiguity(warmup: int, total: int)
    requires
        0 <= warmup <= total,
    ensures
        forall|i: int|
            0 <= i < warmup ==> spec_is_warmup(i, warmup) && spec_iter_index(i, warmup) == i,
        forall|i: int|
            warmup <= i < total ==> !spec_is_warmup(i, warmup) && spec_iter_index(i, warmup) == i
                - warmup,
{
}

/// Parse-time placement: among an embedded run's positions, the parse
/// duration is present on exactly one record, the run's very first
/// iteration.
pub proof fn lemma_parse_time_placement(total: int)
    requires
        total >= 1,
    ensures
        forall|i: int| 0 <= i < total ==> (spec_parse_present(i) <==> i == 0),
        spec_parse_present(0),
{
}

/// The external engine's phase plan: one batch invocation per non-empty
/// phase — warmup first (flagged as such), then measurement — and no
/// other invocation. No persistent state is carried between phases.
pub fn external_phases(warmup: u32, iters: u32) -> (r: Vec<(u32, bool)>)
    ensures
        r@.len() == (if warmup > 0 {
            1int
        } else {
            0int
        }) + (if iters > 0 {
            1int
        } else {
            0int
        }),
        warmup > 0 ==> r@[0] == (warmup, true),
        warmup > 0 && iters > 0 ==> r@[1] == (iters, false),
        warmup == 0 && iters > 0 ==> r@[0] == (iters, false),
{
    let mut v: Vec<(u32, bool)> = Vec::new();
    if warmup > 0 {
        v.push((warmup, true));
    }
    if iters > 0 {
        v.push((iters, false));
    }
    v
}

/// Build the record for one embedded-engine iteration at run-position `i`.
/// The total duration equals the evaluation duration: the embedded protocol
/// times only the entry-point invocation.
pub fn make_embedded_record(
    ctx: &RunContext,
    i: u32,
    warmup: u32,
    parse_ns: u64,
    eval_ns: u64,
    result: i64,
    rss_kb: u64,
) -> (r: BenchRecord)
    ensures
        r.engine == ctx.engine,
        r.workload == ctx.workload,
        r.size == ctx.size,
        r.n == ctx.n,
        r.seed == ctx.seed,
        r.iter == spec_iter_index(i as int, warmup as int),
        r.warmup == spec_is_warmup(i as int, warmup as int),
        r.parse_ns == (if spec_parse_present(i as int) {
            Option::Some(parse_ns)
        } else {
            Option::<u64>::None
        }),
        r.eval_ns == eval_ns,
        r.total_ns == eval_ns,
        r.result == result,
        r.rss_kb == rss_kb,
{
    BenchRecord {
        engine: ctx.engine.clone(),
        workload: ctx.workload.clone(),
        size: ctx.size.clone(),
        n: ctx.n,
        seed: ctx.seed,
        iter: if i < warmup {
            i
        } else {
            i - warmup
        },
        warmup: i < warmup,
        parse_ns: if i == 0 {
            Option::Some(parse_ns)
        } else {
            Option::None
        },
        eval_ns,
        total_ns: eval_ns,
        result,
        rss_kb,
        cpu_model: ctx.cpu_model.clone(),
        os: ctx.os.clone(),
        rustc: ctx.rustc.clone(),
    }
}

/// The embedded engine's run driver, fed one iteration outcome at a time so
/// each record can be emitted before the next iteration begins. Preparation
/// state (the parse duration) is fixed at construction: it never recurs
/// per iteration.
pub struct EmbeddedRun {
    pub ctx: RunContext,
    pub warmup: u32,
    pub total: u32,
    pub parse_ns: u64,
    pub emitted: u32,
}

impl EmbeddedRun {
    pub open spec fn wf(self) -> bool {
        &&& self.warmup <= self.total
        &&& self.emitted <= self.total
    }

    /// Start a run of `warmup` warmup iterations followed by `iters`
    /// measured iterations.
    pub fn new(ctx: RunContext, warmup: u32, iters: u32, parse_ns: u64) -> (r: EmbeddedRun)
        requires
            warmup + iters <= u32::MAX,
        ensures
            r.wf(),
            r.ctx == ctx,
            r.warmup == warmup,
            r.total == warmup + iters,
            r.parse_ns == parse_ns,
            r.emitted == 0,
    {
        EmbeddedRun { ctx, warmup, total: warmup + iters, parse_ns, emitted: 0 }
    }

    /// Whether every iteration's record has been produced. A finished run
    /// has emitted exactly `warmup + iters` records: one per iteration.
    pub fn done(&self) -> (r: bool)
        ensures
            r == (self.emitted == self.total),
    {
        self.emitted == self.total
    }

    /// Consume one iteration's measurement and produce its record.
    pub fn next_record(&mut self, eval_ns: u64, result: i64, rss_kb: u64) -> (r: BenchRecord)
        requires
            old(self).wf(),
            old(self).emitted < old(self).total,
        ensures
            final(self).wf(),
            final(self).emitted == old(self).emitted + 1,
            final(self).ctx == old(self).ctx,
            final(self).warmup == old(self).warmup,
            final(self).total == old(self).total,
            final(self).parse_ns == old(self).parse_ns,
            r.engine == old(self).ctx.engine,
            r.workload == old(self).ctx.workload,
            r.size == old(self).ctx.size,
            r.n == old(self).ctx.n,
            r.seed == old(self).ctx.seed,
            r.iter == spec_iter_index(old(self).emitted as int, old(self).warmup as int),
            r.warmup == spec_is_warmup(old(self).emitted as int, old(self).warmup as int),
            r.parse_ns == (if spec_parse_present(old(self).emitted as int) {
                Option::Some(old(self).parse_ns)
            } else {
                Option::<u64>::None
            }),
            r.eval_ns == eval_ns,
            r.total_ns == eval_ns,
            r.result == result,
            r.rss_kb == rss_kb,
    {
        let r = make_embedded_record(
            &self.ctx,
            self.emitted,
            self.warmup,
            self.parse_ns,
            eval_ns,
            result,
            rss_kb,
        );
        self.emitted = self.emitted + 1;
        r
    }
}

} // verus!
