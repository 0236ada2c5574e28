//! The rule against long calls of the program's own functions.

use crate::analyzer::{Context, Diagnostic};
use crate::profile::{Call, CallKind, Profile};
use crate::rules::threshold::{findings, lemma_findings_signed, scan, Limit};
use crate::rules::Rule;
use vstd::prelude::*;

verus! {

/// The rule's code.
pub const CODE: &'static str = "long_func_call";

/// The advice that goes with each of the rule's findings.
pub const MESSAGE: &'static str =
    "function call exceeds the duration threshold; consider optimising the function";

/// Longest acceptable duration of a function call, in microseconds, unless
/// the rule is built with another.
pub const DEFAULT_THRESHOLD: u64 = 100_000;

/// Reports every call of a function of the program itself that took
/// strictly longer than the rule's threshold. Library calls are left to
/// [`crate::rules::long_lib_call::LongLibCall`].
#[derive(Clone, Copy, Debug)]
pub struct LongFuncCall {
    /// Longest acceptable duration in microseconds.
    pub threshold: u64,
}

impl LongFuncCall {
    /// The rule with a threshold of the caller's choice.
    pub fn with_threshold(threshold: u64) -> (rule: LongFuncCall)
        ensures
            rule.threshold == threshold,
    {
        LongFuncCall { threshold }
    }

    /// What the rule looks for.
    pub open spec fn limit(&self) -> Limit {
        Limit { kind: CallKind::Function, threshold: self.threshold, code: CODE, message: MESSAGE }
    }
}

impl Rule for LongFuncCall {
    open spec fn fresh() -> LongFuncCall {
        LongFuncCall { threshold: DEFAULT_THRESHOLD }
    }

    open spec fn code_chars(&self) -> Seq<char> {
        CODE@
    }

    open spec fn findings(&self, calls: Seq<Call>) -> Seq<Diagnostic> {
        findings(self.limit(), calls)
    }

    fn new() -> (rule: Box<LongFuncCall>) {
        Box::new(LongFuncCall { threshold: DEFAULT_THRESHOLD })
    }

    fn analyse_profile(&self, ctx: &mut Context, profile: &Profile) {
        let limit = Limit {
            kind: CallKind::Function,
            threshold: self.threshold,
            code: CODE,
            message: MESSAGE,
        };
        scan(&limit, ctx, profile);
        proof {
            self.lemma_findings(profile@);
            assert(old(ctx)@ + Seq::<Diagnostic>::empty() =~= old(ctx)@);
        }
    }

    fn code(&self) -> (code: &'static str) {
        proof {
            reveal_strlit("long_func_call");
        }
        CODE
    }

    proof fn lemma_findings(&self, calls: Seq<Call>) {
        lemma_findings_signed(self.limit(), calls, calls.len() as int);
    }
}

} // verus!
