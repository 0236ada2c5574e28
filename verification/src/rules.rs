//! The rules: what every rule owes, and the registry of the active ones.

use crate::analyzer::{Context, Diagnostic};
use crate::profile::{Call, Profile};
use crate::rules::long_func_call::LongFuncCall;
use crate::rules::long_lib_call::LongLibCall;
use vstd::prelude::*;

pub mod long_func_call;
pub mod long_lib_call;
pub mod threshold;

verus! {

/// One independent heuristic over a profile.
///
/// A rule holds no state of a run: what it reports is a function of the rule
/// and the profile alone, fixed by [`Rule::findings`].
pub trait Rule {
    /// The rule as [`Rule::new`] builds it.
    spec fn fresh() -> Self where Self: Sized;

    /// The characters of the rule's code.
    spec fn code_chars(&self) -> Seq<char>;

    /// The characters of the rule's description; empty unless the rule
    /// says otherwise.
    open spec fn desc_chars(&self) -> Seq<char> {
        Seq::empty()
    }

    /// The diagnostics that the rule reports for a trace, in order.
    spec fn findings(&self, calls: Seq<Call>) -> Seq<Diagnostic>;

    /// A fully initialised rule, built without any input.
    fn new() -> (rule: Box<Self>) where Self: Sized
        ensures
            *rule == Self::fresh(),
    ;

    /// Appends the rule's findings for `profile` to `ctx`. What `ctx` held
    /// before stays in place, and the profile is only read.
    fn analyse_profile(&self, ctx: &mut Context, profile: &Profile)
        ensures
            final(ctx)@ == old(ctx)@ + self.findings(profile@),
            profile@.len() == 0 ==> final(ctx)@ == old(ctx)@,
    ;

    /// The stable, non-empty key of the rule.
    fn code(&self) -> (code: &'static str)
        ensures
            code@ == self.code_chars(),
            code@.len() > 0,
    ;

    /// Text that explains the rule. A rule that has nothing to add to its
    /// code keeps this body and [`Rule::desc_chars`] as they are, and its
    /// description is empty.
    fn desc(&self) -> (desc: &'static str)
        ensures
            desc@ == self.desc_chars() || desc@ == Seq::<char>::empty(),
    {
        proof {
            reveal_strlit("");
        }
        ""
    }

    /// Every implementation shows that its findings are signed with its own
    /// code, and that a trace without calls gives no finding.
    proof fn lemma_findings(&self, calls: Seq<Call>)
        ensures
            calls.len() == 0 ==> self.findings(calls) == Seq::<Diagnostic>::empty(),
            forall|k: int|
                0 <= k < self.findings(calls).len() ==> (#[trigger] self.findings(calls)[k]).code@
                    == self.code_chars(),
    ;
}

/// Any one of the known rules: what the registry holds.
///
/// A new heuristic joins the engine as a new variant here, with an arm in
/// each method and a line in [`get_all_rules`].
#[derive(Clone, Copy, Debug)]
pub enum AnyRule {
    /// See [`LongFuncCall`].
    LongFuncCall(LongFuncCall),
    /// See [`LongLibCall`].
    LongLibCall(LongLibCall),
}

impl AnyRule {
    /// The characters of the rule's code.
    pub open spec fn code_chars(&self) -> Seq<char> {
        match *self {
            AnyRule::LongFuncCall(rule) => rule.code_chars(),
            AnyRule::LongLibCall(rule) => rule.code_chars(),
        }
    }

    /// The characters of the rule's description.
    pub open spec fn desc_chars(&self) -> Seq<char> {
        match *self {
            AnyRule::LongFuncCall(rule) => rule.desc_chars(),
            AnyRule::LongLibCall(rule) => rule.desc_chars(),
        }
    }

    /// The diagnostics that the rule reports for a trace, in order.
    pub open spec fn findings(&self, calls: Seq<Call>) -> Seq<Diagnostic> {
        match *self {
            AnyRule::LongFuncCall(rule) => rule.findings(calls),
            AnyRule::LongLibCall(rule) => rule.findings(calls),
        }
    }

    /// Appends the rule's findings for `profile` to `ctx`.
    pub fn analyse_profile(&self, ctx: &mut Context, profile: &Profile)
        ensures
            final(ctx)@ == old(ctx)@ + self.findings(profile@),
            profile@.len() == 0 ==> final(ctx)@ == old(ctx)@,
    {
        match self {
            AnyRule::LongFuncCall(rule) => rule.analyse_profile(ctx, profile),
            AnyRule::LongLibCall(rule) => rule.analyse_profile(ctx, profile),
        }
    }

    /// The stable, non-empty key of the rule.
    pub fn code(&self) -> (code: &'static str)
        ensures
            code@ == self.code_chars(),
            code@.len() > 0,
    {
        match self {
            AnyRule::LongFuncCall(rule) => rule.code(),
            AnyRule::LongLibCall(rule) => rule.code(),
        }
    }

    /// Text that explains the rule.
    pub fn desc(&self) -> (desc: &'static str)
        ensures
            desc@ == self.desc_chars(),
    {
        match self {
            AnyRule::LongFuncCall(rule) => rule.desc(),
            AnyRule::LongLibCall(rule) => rule.desc(),
        }
    }

    /// Whichever rule this is, its findings are signed with its own code,
    /// and a trace without calls gives no finding.
    pub proof fn lemma_findings(&self, calls: Seq<Call>)
        ensures
            calls.len() == 0 ==> self.findings(calls) == Seq::<Diagnostic>::empty(),
            forall|k: int|
                0 <= k < self.findings(calls).len() ==> (#[trigger] self.findings(calls)[k]).code@
                    == self.code_chars(),
    {
        match *self {
            AnyRule::LongFuncCall(rule) => rule.lemma_findings(calls),
            AnyRule::LongLibCall(rule) => rule.lemma_findings(calls),
        }
    }
}

/// Whether no two rules of a registry share a code.
pub open spec fn codes_are_unique(rules: Seq<AnyRule>) -> bool {
    forall|i: int, j: int|
        0 <= i < j < rules.len() ==> (#[trigger] rules[i]).code_chars() != (
        #[trigger] rules[j]).code_chars()
}

/// Two rules of a registry that share a code.
#[derive(Clone, Copy, Debug, PartialEq, Eq)]
pub struct DuplicateCode {
    /// Position of the rule that had the code first.
    pub first: usize,
    /// Position of the later rule that has it too.
    pub second: usize,
    /// The shared code.
    pub code: &'static str,
}

/// Whether the rules at `first` and `second` are the earliest clash of a
/// registry: they share a code, and no two rules before `second` do.
pub open spec fn is_first_clash(rules: Seq<AnyRule>, first: int, second: int) -> bool {
    &&& 0 <= first < second < rules.len()
    &&& rules[first].code_chars() == rules[second].code_chars()
    &&& codes_are_unique(rules.take(second))
}

/// Whether two texts hold the same characters.
fn same_text(a: &str, b: &str) -> (same: bool)
    ensures
        same == (a@ == b@),
{
    let a = a.to_owned();
    let b = b.to_owned();
    a == b
}

/// Checks a registry that was put together by hand, once and before any
/// profile is analysed: fails with the earliest pair of rules that share a
/// code, and succeeds if there is none.
pub fn check_codes(rules: &Vec<AnyRule>) -> (result: Result<(), DuplicateCode>)
    ensures
        result.is_ok() <==> codes_are_unique(rules@),
        result matches Err(clash) ==> {
            &&& is_first_clash(rules@, clash.first as int, clash.second as int)
            &&& clash.code@ == rules@[clash.second as int].code_chars()
        },
{
    let n: usize = rules.len();
    let mut second: usize = 0;
    while second < n
        invariant
            second <= n,
            n == rules@.len(),
            codes_are_unique(rules@.take(second as int)),
        decreases n - second,
    {
        let code = rules[second].code();
        let mut first: usize = 0;
        while first < second
            invariant
                first <= second < n,
                n == rules@.len(),
                code@ == rules@[second as int].code_chars(),
                codes_are_unique(rules@.take(second as int)),
                forall|k: int|
                    0 <= k < first ==> (#[trigger] rules@[k]).code_chars() != code@,
            decreases second - first,
        {
            if same_text(rules[first].code(), code) {
                return Err(DuplicateCode { first, second, code });
            }
            first = first + 1;
        }
        proof {
            let longer = rules@.take(second as int + 1);
            assert forall|i: int, j: int| 0 <= i < j < longer.len() implies (
            #[trigger] longer[i]).code_chars() != (#[trigger] longer[j]).code_chars() by {
                if j < second {
                    assert(rules@.take(second as int)[i] == longer[i]);
                    assert(rules@.take(second as int)[j] == longer[j]);
                }
            }
        }
        second = second + 1;
    }
    proof {
        assert(rules@.take(n as int) =~= rules@);
    }
    Ok(())
}

/// The registry as [`get_all_rules`] builds it.
pub open spec fn all_rules() -> Seq<AnyRule> {
    seq![
        AnyRule::LongFuncCall(LongFuncCall::fresh()),
        AnyRule::LongLibCall(LongLibCall::fresh()),
    ]
}

/// The active rules, each freshly built, in the order in which they run:
/// first [`LongFuncCall`], then [`LongLibCall`]. No two of them share a code.
pub fn get_all_rules() -> (rules: Vec<AnyRule>)
    ensures
        rules@ == all_rules(),
        rules@.len() == 2,
        codes_are_unique(rules@),
{
    let func = LongFuncCall::new();
    let lib = LongLibCall::new();
    let rules = vec![AnyRule::LongFuncCall(*func), AnyRule::LongLibCall(*lib)];
    proof {
        reveal_strlit("long_func_call");
        reveal_strlit("long_lib_call");
        assert("long_func_call"@.len() == 14);
        assert("long_lib_call"@.len() == 13);
        assert(rules@ =~= all_rules());
    }
    rules
}

} // verus!
