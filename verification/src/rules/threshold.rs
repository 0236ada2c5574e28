//! The heuristic that both duration rules share: report every call of one
//! kind whose measured duration lies strictly above a limit.

use crate::analyzer::{Context, Diagnostic};
use crate::profile::{Call, CallKind, Profile};
use vstd::prelude::*;

verus! {

/// What a duration rule looks for, and how it signs its diagnostics.
#[derive(Clone, Copy, Debug)]
pub struct Limit {
    /// The kind of call that the rule looks at.
    pub kind: CallKind,
    /// Longest duration in microseconds that is still acceptable.
    pub threshold: u64,
    /// Code of the rule.
    pub code: &'static str,
    /// Advice that goes with each finding.
    pub message: &'static str,
}

/// Whether `call` offends against `limit`: it is of the limit's kind, its
/// duration was measured, and the duration is strictly above the threshold.
/// A call that lasted exactly as long as the threshold is acceptable; so is
/// one without a measured duration.
pub open spec fn exceeds(limit: Limit, call: Call) -> bool {
    &&& call.kind == limit.kind
    &&& call.duration matches Some(duration)
    &&& duration > limit.threshold
}

/// The diagnostic for the offending call at position `index`.
pub open spec fn finding(limit: Limit, index: int, call: Call) -> Diagnostic {
    Diagnostic {
        code: limit.code,
        message: limit.message,
        call: index as usize,
        duration: call.duration.unwrap(),
        threshold: limit.threshold,
    }
}

/// The diagnostics for the first `n` calls: one for each offending call, in
/// the order of the trace.
pub open spec fn findings_in(limit: Limit, calls: Seq<Call>, n: int) -> Seq<Diagnostic>
    decreases n,
{
    if n <= 0 {
        Seq::empty()
    } else {
        let earlier = findings_in(limit, calls, n - 1);
        if exceeds(limit, calls[n - 1]) {
            earlier.push(finding(limit, n - 1, calls[n - 1]))
        } else {
            earlier
        }
    }
}

/// The diagnostics for a whole trace.
pub open spec fn findings(limit: Limit, calls: Seq<Call>) -> Seq<Diagnostic> {
    findings_in(limit, calls, calls.len() as int)
}

/// Appends to `ctx` one diagnostic for each call of `profile` that offends
/// against `limit`, in the order of the trace. Calls of another kind and
/// calls without a measured duration are passed over.
pub fn scan(limit: &Limit, ctx: &mut Context, profile: &Profile)
    ensures
        final(ctx)@ == old(ctx)@ + findings(*limit, profile@),
{
    let calls = profile.calls();
    let n: usize = calls.len();
    let mut i: usize = 0;
    while i < n
        invariant
            i <= n,
            n == profile@.len(),
            calls@ == profile@,
            ctx@ == old(ctx)@ + findings_in(*limit, profile@, i as int),
        decreases n - i,
    {
        let call = calls[i];
        if call.kind == limit.kind {
            if let Some(duration) = call.duration {
                if duration > limit.threshold {
                    ctx.report(
                        Diagnostic {
                            code: limit.code,
                            message: limit.message,
                            call: i,
                            duration,
                            threshold: limit.threshold,
                        },
                    );
                }
            }
        }
        i = i + 1;
    }
}

/// Every finding among the first `n` calls carries the limit's code, and
/// there are at most `n` findings.
pub proof fn lemma_findings_signed(limit: Limit, calls: Seq<Call>, n: int)
    ensures
        findings_in(limit, calls, n).len() <= if n <= 0 { 0 } else { n },
        forall|k: int|
            0 <= k < findings_in(limit, calls, n).len() ==> (#[trigger] findings_in(
                limit,
                calls,
                n,
            )[k]).code == limit.code,
    decreases n,
{
    if n > 0 {
        lemma_findings_signed(limit, calls, n - 1);
    }
}

/// The findings among the first `n` calls are exactly the offending calls
/// among them, each reported once and in the order of the trace:
/// every finding is the diagnostic of an offending call before `n`, the
/// findings' positions grow strictly, and every offending call before `n`
/// has its diagnostic among them.
pub proof fn lemma_findings_exact(limit: Limit, calls: Seq<Call>, n: int)
    requires
        0 <= n <= calls.len() <= usize::MAX,
    ensures
        forall|k: int|
            0 <= k < findings_in(limit, calls, n).len() ==> {
                let found = #[trigger] findings_in(limit, calls, n)[k];
                &&& found.call < n
                &&& exceeds(limit, calls[found.call as int])
                &&& found == finding(limit, found.call as int, calls[found.call as int])
            },
        forall|k: int, l: int|
            0 <= k < l < findings_in(limit, calls, n).len() ==> (#[trigger] findings_in(
                limit,
                calls,
                n,
            )[k]).call < (#[trigger] findings_in(limit, calls, n)[l]).call,
        forall|i: int|
            0 <= i < n && exceeds(limit, #[trigger] calls[i]) ==> findings_in(
                limit,
                calls,
                n,
            ).contains(finding(limit, i, calls[i])),
    decreases n,
{
    if n > 0 {
        lemma_findings_exact(limit, calls, n - 1);
        let earlier = findings_in(limit, calls, n - 1);
        let all = findings_in(limit, calls, n);
        assert forall|i: int| 0 <= i < n && exceeds(limit, #[trigger] calls[i]) implies all.contains(
            finding(limit, i, calls[i]),
        ) by {
            if i < n - 1 {
                let k = choose|k: int|
                    0 <= k < earlier.len() && earlier[k] == finding(limit, i, calls[i]);
                assert(all[k] == finding(limit, i, calls[i]));
            } else {
                assert(all[all.len() - 1] == finding(limit, i, calls[i]));
            }
        }
    }
}

/// A trace in which no call offends gives no finding; in particular a trace
/// without calls gives none.
pub proof fn lemma_findings_none(limit: Limit, calls: Seq<Call>, n: int)
    requires
        forall|i: int| 0 <= i < n && i < calls.len() ==> !exceeds(limit, #[trigger] calls[i]),
        n <= calls.len(),
    ensures
        findings_in(limit, calls, n) == Seq::<Diagnostic>::empty(),
    decreases n,
{
    if n > 0 {
        lemma_findings_none(limit, calls, n - 1);
    }
}

} // verus!
