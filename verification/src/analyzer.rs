//! The output of an analysis: diagnostics, and the append-only context that
//! collects them.

use crate::profile::{Call, Profile};
use crate::rules::{all_rules, codes_are_unique, get_all_rules, AnyRule};
use vstd::prelude::*;

verus! {

/// One reported finding.
#[derive(Clone, Copy, Debug, PartialEq, Eq)]
pub struct Diagnostic {
    /// Code of the rule that reported the finding.
    pub code: &'static str,
    /// What the rule has to say about the call.
    pub message: &'static str,
    /// Position of the offending call in the profile.
    pub call: usize,
    /// Measured duration of that call in microseconds.
    pub duration: u64,
    /// The limit that the duration exceeds, in microseconds.
    pub threshold: u64,
}

/// The sink that rules write their diagnostics into.
///
/// Its view is the sequence of diagnostics reported so far, oldest first.
/// The only way to change a context is [`Context::report`], which appends:
/// what was reported stays, in place and unchanged.
pub struct Context {
    diagnostics: Vec<Diagnostic>,
}

impl View for Context {
    type V = Seq<Diagnostic>;

    closed spec fn view(&self) -> Seq<Diagnostic> {
        self.diagnostics@
    }
}

impl Context {
    /// A fresh context without diagnostics.
    pub fn new() -> (ctx: Context)
        ensures
            ctx@ == Seq::<Diagnostic>::empty(),
    {
        Context { diagnostics: Vec::new() }
    }

    /// Appends one diagnostic behind those already reported.
    pub fn report(&mut self, diagnostic: Diagnostic)
        ensures
            final(self)@ == old(self)@.push(diagnostic),
    {
        self.diagnostics.push(diagnostic);
    }

    /// The number of diagnostics reported so far.
    pub fn len(&self) -> (n: usize)
        ensures
            n == self@.len(),
    {
        self.diagnostics.len()
    }

    /// Whether nothing has been reported yet.
    pub fn is_empty(&self) -> (empty: bool)
        ensures
            empty == (self@.len() == 0),
    {
        self.diagnostics.len() == 0
    }

    /// The diagnostics reported so far, oldest first.
    pub fn diagnostics(&self) -> (diagnostics: &Vec<Diagnostic>)
        ensures
            diagnostics@ == self@,
    {
        &self.diagnostics
    }
}

/// What the first `n` rules of a registry report for a trace: the findings
/// of each rule, one rule after the other in registry order.
pub open spec fn findings_of_first(rules: Seq<AnyRule>, calls: Seq<Call>, n: int) -> Seq<
    Diagnostic,
>
    decreases n,
{
    if n <= 0 {
        Seq::empty()
    } else {
        findings_of_first(rules, calls, n - 1) + rules[n - 1].findings(calls)
    }
}

/// What a whole registry reports for a trace.
pub open spec fn all_findings(rules: Seq<AnyRule>, calls: Seq<Call>) -> Seq<Diagnostic> {
    findings_of_first(rules, calls, rules.len() as int)
}

/// Runs every rule of `rules` against `profile`, in registry order and
/// without stopping early, and collects all findings in `ctx` behind what it
/// already held.
pub fn analyse(rules: &Vec<AnyRule>, ctx: &mut Context, profile: &Profile)
    ensures
        final(ctx)@ == old(ctx)@ + all_findings(rules@, profile@),
        profile@.len() == 0 ==> final(ctx)@ == old(ctx)@,
{
    let n: usize = rules.len();
    let mut i: usize = 0;
    while i < n
        invariant
            i <= n,
            n == rules@.len(),
            ctx@ == old(ctx)@ + findings_of_first(rules@, profile@, i as int),
            profile@.len() == 0 ==> ctx@ == old(ctx)@,
        decreases n - i,
    {
        rules[i].analyse_profile(ctx, profile);
        i = i + 1;
    }
}

/// Runs the registry of [`get_all_rules`] against `profile` with a fresh
/// context, and returns that context.
pub fn analyse_profile(profile: &Profile) -> (ctx: Context)
    ensures
        ctx@ == all_findings(all_rules(), profile@),
        profile@.len() == 0 ==> ctx@.len() == 0,
{
    let rules = get_all_rules();
    let mut ctx = Context::new();
    analyse(&rules, &mut ctx, profile);
    ctx
}

/// The diagnostics among `diagnostics` that carry `code`, in their order.
pub open spec fn reported_under(diagnostics: Seq<Diagnostic>, code: Seq<char>) -> Seq<Diagnostic> {
    diagnostics.filter(|d: Diagnostic| d.code@ == code)
}

/// Diagnostics that all carry `code` are all kept by [`reported_under`];
/// diagnostics of which none carries it are all dropped.
proof fn lemma_reported_under_uniform(diagnostics: Seq<Diagnostic>, code: Seq<char>)
    ensures
        (forall|k: int| 0 <= k < diagnostics.len() ==> (#[trigger] diagnostics[k]).code@ == code)
            ==> reported_under(diagnostics, code) == diagnostics,
        (forall|k: int| 0 <= k < diagnostics.len() ==> (#[trigger] diagnostics[k]).code@ != code)
            ==> reported_under(diagnostics, code) == Seq::<Diagnostic>::empty(),
    decreases diagnostics.len(),
{
    reveal(Seq::filter);
    if diagnostics.len() > 0 {
        lemma_reported_under_uniform(diagnostics.drop_last(), code);
        let last = diagnostics.last();
        if forall|k: int| 0 <= k < diagnostics.len() ==> (#[trigger] diagnostics[k]).code@ == code {
            assert forall|k: int| 0 <= k < diagnostics.drop_last().len() implies (
            #[trigger] diagnostics.drop_last()[k]).code@ == code by {
                assert(diagnostics.drop_last()[k] == diagnostics[k]);
            }
            assert(last == diagnostics[diagnostics.len() - 1]);
            assert(reported_under(diagnostics, code) =~= diagnostics);
        }
        if forall|k: int| 0 <= k < diagnostics.len() ==> (#[trigger] diagnostics[k]).code@ != code {
            assert forall|k: int| 0 <= k < diagnostics.drop_last().len() implies (
            #[trigger] diagnostics.drop_last()[k]).code@ != code by {
                assert(diagnostics.drop_last()[k] == diagnostics[k]);
            }
            assert(last == diagnostics[diagnostics.len() - 1]);
        }
    }
}

/// A trace without calls yields no diagnostic, whatever the registry holds.
pub proof fn lemma_no_calls_no_findings(rules: Seq<AnyRule>, calls: Seq<Call>, n: int)
    requires
        calls.len() == 0,
        n <= rules.len(),
    ensures
        findings_of_first(rules, calls, n) == Seq::<Diagnostic>::empty(),
    decreases n,
{
    if n > 0 {
        lemma_no_calls_no_findings(rules, calls, n - 1);
        rules[n - 1].lemma_findings(calls);
    }
}

/// Two passes of one registry over one trace, each into a fresh context,
/// leave the same diagnostics in both contexts: a pass depends on nothing
/// but the registry and the trace.
pub proof fn lemma_passes_agree(
    rules: Seq<AnyRule>,
    calls: Seq<Call>,
    first: Seq<Diagnostic>,
    second: Seq<Diagnostic>,
)
    requires
        first.len() == 0,
        second.len() == 0,
    ensures
        first + all_findings(rules, calls) == second + all_findings(rules, calls),
        first + all_findings(rules, calls) == all_findings(rules, calls),
{
    assert(first =~= second);
    assert(first + all_findings(rules, calls) =~= all_findings(rules, calls));
}

/// After a pass of the first `n` rules of a registry without shared codes,
/// the diagnostics under the code of the rule at position `i` are those
/// that were there before, followed by that rule's own findings if it is
/// among the first `n`. Neither the other rules nor the rule's place in the
/// registry make a difference.
pub proof fn lemma_findings_by_code(
    rules: Seq<AnyRule>,
    calls: Seq<Call>,
    before: Seq<Diagnostic>,
    i: int,
    n: int,
)
    requires
        codes_are_unique(rules),
        0 <= i < rules.len(),
        0 <= n <= rules.len(),
    ensures
        reported_under(before + findings_of_first(rules, calls, n), rules[i].code_chars())
            == reported_under(before, rules[i].code_chars()) + (if i < n {
            rules[i].findings(calls)
        } else {
            Seq::empty()
        }),
    decreases n,
{
    let code = rules[i].code_chars();
    let pred = |d: Diagnostic| d.code@ == code;
    if n == 0 {
        assert(before + findings_of_first(rules, calls, n) =~= before);
        assert(reported_under(before, code) + Seq::<Diagnostic>::empty() =~= reported_under(
            before,
            code,
        ));
    } else {
        lemma_findings_by_code(rules, calls, before, i, n - 1);
        let earlier = before + findings_of_first(rules, calls, n - 1);
        let own = rules[n - 1].findings(calls);
        assert(before + findings_of_first(rules, calls, n) =~= earlier + own);
        Seq::filter_distributes_over_add(earlier, own, pred);
        rules[n - 1].lemma_findings(calls);
        lemma_reported_under_uniform(own, code);
        if i == n - 1 {
            assert(reported_under(own, code) == own);
            assert(reported_under(before, code) + Seq::<Diagnostic>::empty() + own
                =~= reported_under(before, code) + own);
        } else {
            assert(rules[n - 1].code_chars() != code);
            assert(reported_under(own, code) == Seq::<Diagnostic>::empty());
            assert(reported_under(earlier, code) + Seq::<Diagnostic>::empty()
                =~= reported_under(earlier, code));
        }
    }
}

/// What a rule contributes to a pass does not depend on whether another
/// rule ran before or after it: with the two rules in either order, the
/// context ends up with the same diagnostics under each rule's code.
pub proof fn lemma_order_independence(
    a: AnyRule,
    b: AnyRule,
    calls: Seq<Call>,
    before: Seq<Diagnostic>,
)
    requires
        a.code_chars() != b.code_chars(),
    ensures
        reported_under(before + all_findings(seq![a, b], calls), a.code_chars())
            == reported_under(before + all_findings(seq![b, a], calls), a.code_chars()),
        reported_under(before + all_findings(seq![a, b], calls), b.code_chars())
            == reported_under(before + all_findings(seq![b, a], calls), b.code_chars()),
        reported_under(before + all_findings(seq![a, b], calls), a.code_chars())
            == reported_under(before, a.code_chars()) + a.findings(calls),
{
    let ab = seq![a, b];
    let ba = seq![b, a];
    assert(codes_are_unique(ab));
    assert(codes_are_unique(ba));
    lemma_findings_by_code(ab, calls, before, 0, 2);
    lemma_findings_by_code(ba, calls, before, 1, 2);
    lemma_findings_by_code(ab, calls, before, 1, 2);
    lemma_findings_by_code(ba, calls, before, 0, 2);
}

} // verus!
