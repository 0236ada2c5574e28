use ori::analyzer::{analyse, analyse_profile, Context, Diagnostic};
use ori::profile::{Call, CallKind, Profile};
use ori::rules::long_func_call::LongFuncCall;
use ori::rules::long_lib_call::LongLibCall;
use ori::rules::{get_all_rules, AnyRule, Rule};

fn sample() -> Profile {
    Profile::new(vec![
        Call { callee: 1, kind: CallKind::Library, duration: Some(60_000) },
        Call { callee: 2, kind: CallKind::Function, duration: Some(150_000) },
        Call { callee: 3, kind: CallKind::Function, duration: Some(60_000) },
        Call { callee: 4, kind: CallKind::Library, duration: None },
        Call { callee: 5, kind: CallKind::Library, duration: Some(150_000) },
    ])
}

fn under(ctx: &Context, code: &str) -> Vec<Diagnostic> {
    ctx.diagnostics().iter().filter(|d| d.code == code).cloned().collect()
}

#[test]
fn fresh_context_is_empty() {
    let ctx = Context::new();
    assert!(ctx.is_empty());
    assert_eq!(ctx.len(), 0);
    assert!(ctx.diagnostics().is_empty());
}

#[test]
fn report_appends_in_order() {
    let a = Diagnostic { code: "a", message: "first", call: 0, duration: 2, threshold: 1 };
    let b = Diagnostic { code: "b", message: "second", call: 1, duration: 3, threshold: 1 };
    let mut ctx = Context::new();
    ctx.report(a);
    assert_eq!(ctx.len(), 1);
    ctx.report(b);
    assert!(!ctx.is_empty());
    assert_eq!(ctx.diagnostics(), &vec![a, b]);
}

#[test]
fn profile_gives_its_calls_back() {
    let profile = sample();
    assert_eq!(profile.len(), 5);
    assert!(!profile.is_empty());
    assert_eq!(
        profile.call(1),
        Some(Call { callee: 2, kind: CallKind::Function, duration: Some(150_000) })
    );
    assert_eq!(profile.call(5), None);
    assert_eq!(profile.calls().len(), 5);
    assert_eq!(profile.calls()[3].duration, None);
    let empty = Profile::new(Vec::new());
    assert!(empty.is_empty());
    assert_eq!(empty.len(), 0);
    assert_eq!(empty.call(0), None);
}

#[test]
fn pass_runs_rules_in_registry_order() {
    let ctx = analyse_profile(&sample());
    let seen: Vec<(&str, usize, u64, u64)> =
        ctx.diagnostics().iter().map(|d| (d.code, d.call, d.duration, d.threshold)).collect();
    assert_eq!(
        seen,
        vec![
            ("long_func_call", 1, 150_000, 100_000),
            ("long_lib_call", 0, 60_000, 50_000),
            ("long_lib_call", 4, 150_000, 50_000),
        ]
    );
}

#[test]
fn pass_over_an_empty_profile_reports_nothing() {
    let empty = Profile::new(Vec::new());
    assert!(analyse_profile(&empty).is_empty());
    let mut ctx = Context::new();
    analyse(&get_all_rules(), &mut ctx, &empty);
    assert!(ctx.is_empty());
}

#[test]
fn pass_with_no_rules_reports_nothing() {
    let mut ctx = Context::new();
    analyse(&Vec::new(), &mut ctx, &sample());
    assert!(ctx.is_empty());
}

#[test]
fn pass_keeps_what_the_context_held() {
    let earlier = Diagnostic { code: "other", message: "kept", call: 9, duration: 1, threshold: 0 };
    let mut ctx = Context::new();
    ctx.report(earlier);
    analyse(&get_all_rules(), &mut ctx, &sample());
    assert_eq!(ctx.len(), 4);
    assert_eq!(ctx.diagnostics()[0], earlier);
}

#[test]
fn two_passes_give_the_same_diagnostics() {
    let profile = sample();
    let rules = get_all_rules();
    let mut first = Context::new();
    analyse(&rules, &mut first, &profile);
    let mut second = Context::new();
    analyse(&rules, &mut second, &profile);
    assert_eq!(first.diagnostics(), second.diagnostics());
    assert_eq!(first.diagnostics(), analyse_profile(&profile).diagnostics());
    assert_eq!(first.len(), 3);
}

#[test]
fn a_rule_reports_the_same_wherever_it_runs() {
    let profile = sample();
    let func = AnyRule::LongFuncCall(*LongFuncCall::new());
    let lib = AnyRule::LongLibCall(*LongLibCall::new());
    let mut forward = Context::new();
    analyse(&vec![func, lib], &mut forward, &profile);
    let mut backward = Context::new();
    analyse(&vec![lib, func], &mut backward, &profile);
    assert_eq!(under(&forward, "long_func_call"), under(&backward, "long_func_call"));
    assert_eq!(under(&forward, "long_lib_call"), under(&backward, "long_lib_call"));
    assert_eq!(under(&forward, "long_func_call").len(), 1);
    assert_eq!(under(&forward, "long_lib_call").len(), 2);
    assert_eq!(backward.diagnostics()[0].code, "long_lib_call");
    assert_eq!(backward.diagnostics()[2].code, "long_func_call");

    let mut alone = Context::new();
    func.analyse_profile(&mut alone, &profile);
    assert_eq!(alone.diagnostics(), &under(&forward, "long_func_call"));
}

#[test]
fn a_pass_runs_every_rule_even_after_a_silent_one() {
    let profile = Profile::new(vec![Call {
        callee: 1,
        kind: CallKind::Library,
        duration: Some(60_000),
    }]);
    let ctx = analyse_profile(&profile);
    assert_eq!(ctx.len(), 1);
    assert_eq!(ctx.diagnostics()[0].code, "long_lib_call");
}
