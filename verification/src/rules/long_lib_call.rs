//! The rule against long calls into external libraries.

use crate::analyzer::{Context, Diagnostic};
use crate::profile::{Call, CallKind, Profile};
use crate::rules::threshold::{findings, lemma_findings_signed, scan, Limit};
use crate::rules::Rule;
use vstd::prelude::*;

verus! {

/// The rule's code.
pub const CODE: &'static str = "long_lib_call";

/// The advice that goes with each of the rule's findings.
pub const MESSAGE: &'static str =
    "library call exceeds the duration threshold; consider batching the calls";

/// Longest acceptable duration of a library call, in microseconds, unless
/// the rule is built with another.
pub const DEFAULT_THRESHOLD: u64 = 50_000;

/// Reports every call into an external library that took strictly longer
/// than the rule's threshold. Calls of the program's own functions are left
/// to [`crate::rules::long_func_call::LongFuncCall`].
#[derive(Clone, Copy, Debug)]
pub struct LongLibCall {
    /// Longest acceptable duration in microseconds.
    pub threshold: u64,
}

impl LongLibCall {
    /// The rule with a threshold of the caller's choice.
    pub fn with_threshold(threshold: u64) -> (rule: LongLibCall)
        ensures
            rule.threshold == threshold,
    {
        LongLibCall { threshold }
    }

    /// What the rule looks for.
    pub open spec fn limit(&self) -> Limit {
        Limit { kind: CallKind::Library, threshold: self.threshold, code: CODE, message: MESSAGE }
    }
}

impl Rule for LongLibCall {
    open spec fn fresh() -> LongLibCall {
        LongLibCall { threshold: DEFAULT_THRESHOLD }
    }

    open spec fn code_chars(&self) -> Seq<char> {
        CODE@
    }

    open spec fn findings(&self, calls: Seq<Call>) -> Seq<Diagnostic> {
        findings(self.limit(), calls)
    }

    fn new() -> (rule: Box<LongLibCall>) {
        Box::new(LongLibCall { threshold: DEFAULT_THRESHOLD })
    }

    fn analyse_profile(&self, ctx: &mut Context, profile: &Profile) {
        let limit = Limit {
            kind: CallKind::Library,
            threshold: self.threshold,
            code: CODE,
            message: MESSAGE,
        };
        scan(&limit, ctx, profile);
        proof {
            self.lemma_findings(profile@);
            assert(old(ctx)@ + Seq::<Diagnostic>::empty() =~= old(ctx)@);
        }
    }

    fn code(&self) -> (code: &'static str) {
        proof {
            reveal_strlit("long_lib_call");
        }
        CODE
    }

    proof fn lemma_findings(&self, calls: Seq<Call>) {
        lemma_findings_signed(self.limit(), calls, calls.len() as int);
    }
}

} // verus!
