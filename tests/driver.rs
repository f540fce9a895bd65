use chamber::config::{default_lib_output, parse_crate_types_from_list, CrateType};
use chamber::monitor::{
    internal_failure_notice, monitor, monitor_for_real, stack_size, AttemptEnd, AttemptFailure,
    IsolationOutcome,
};
use chamber::policy::{CrateLimitPass, PolicyPass};
use chamber::registrar::{get_params, plugin_registrar, set_params, ConfigError};
use chamber::session::{advance, Stage, StageEnd};

fn strings(v: &[&str]) -> Vec<String> {
    v.iter().map(|s| s.to_string()).collect()
}

#[test]
fn crate_types_from_comma_lists() {
    let r = parse_crate_types_from_list(strings(&["lib,bin", "dylib"]));
    assert_eq!(r, Ok(vec![CrateType::Rlib, CrateType::Executable, CrateType::Dylib]));
    let r = parse_crate_types_from_list(strings(&["staticlib", "rlib"]));
    assert_eq!(r, Ok(vec![CrateType::Staticlib, CrateType::Rlib]));
    assert_eq!(parse_crate_types_from_list(vec![]), Ok(vec![]));
    assert_eq!(default_lib_output(), CrateType::Rlib);
}

#[test]
fn unknown_crate_type_reported_first() {
    let r = parse_crate_types_from_list(strings(&["rlib,foo", "bar"]));
    assert_eq!(r, Err("unknown crate type: `foo`".to_string()));
    let r = parse_crate_types_from_list(strings(&["bin,"]));
    assert_eq!(r, Err("unknown crate type: ``".to_string()));
    let r = parse_crate_types_from_list(strings(&[""]));
    assert_eq!(r, Err("unknown crate type: ``".to_string()));
    let r = parse_crate_types_from_list(strings(&["lib", "Bin"]));
    assert_eq!(r, Err("unknown crate type: `Bin`".to_string()));
}

#[test]
fn params_are_taken_once() {
    let mut slot = None;
    set_params(&mut slot, "safe_rt".to_string());
    assert_eq!(slot.as_deref(), Some("safe_rt"));
    assert_eq!(get_params(&mut slot), Some("safe_rt".to_string()));
    assert_eq!(get_params(&mut slot), None);
}

#[test]
fn registrar_builds_from_params() {
    let mut slot = None;
    set_params(&mut slot, "safe_rt".to_string());
    let passes = plugin_registrar(&mut slot, false).unwrap();
    assert!(slot.is_none());
    assert_eq!(passes.len(), 5);
    assert!(matches!(passes[0], PolicyPass::UnsafeBlock));
    assert!(matches!(passes[1], PolicyPass::ForeignItem));
    assert!(matches!(passes[2], PolicyPass::FeatureGate));
    match &passes[3] {
        PolicyPass::CrateLimit(c) => assert_eq!(c.stdname, "safe_rt"),
        other => panic!("unexpected pass {:?}", other),
    }
    assert!(matches!(passes[4], PolicyPass::NoMangle));

    set_params(&mut slot, "safe_rt".to_string());
    let passes = plugin_registrar(&mut slot, true).unwrap();
    assert_eq!(passes.len(), 4);
    assert!(!passes.iter().any(|p| matches!(p, PolicyPass::FeatureGate)));
}

#[test]
fn registrar_errors() {
    let mut slot: Option<String> = None;
    assert_eq!(plugin_registrar(&mut slot, false).err(), Some(ConfigError::MissingBindingName));
    set_params(&mut slot, String::new());
    assert_eq!(plugin_registrar(&mut slot, false).err(), Some(ConfigError::EmptyBindingName));
    assert!(slot.is_none());
}

#[test]
fn crate_limit_pass_keeps_name() {
    assert_eq!(CrateLimitPass::new("safe_rt".to_string()).stdname, "safe_rt");
}

#[test]
fn unexpected_crash_contained() {
    let r = monitor(AttemptEnd::UnexpectedPanic, "thread panicked at 'boom'".to_string());
    assert!(r.notice);
    assert!(r.flush);
    match r.outcome {
        IsolationOutcome::InternalFailure(text) => assert_eq!(text, "thread panicked at 'boom'"),
        other => panic!("unexpected outcome {:?}", other),
    }
    assert_eq!(monitor_for_real(AttemptEnd::UnexpectedPanic), Err(AttemptFailure::InternalCrash));
    // A later attempt is handled on its own.
    let next = monitor(AttemptEnd::Returned, String::new());
    assert!(matches!(next.outcome, IsolationOutcome::Success));
    assert_eq!(monitor_for_real(AttemptEnd::Returned), Ok(()));
}

#[test]
fn explicit_bug_and_fatal_diagnostic() {
    let bug = monitor(AttemptEnd::ExplicitBug, "error: internal compiler error".to_string());
    assert!(!bug.notice);
    assert!(bug.flush);
    assert!(matches!(bug.outcome, IsolationOutcome::InternalFailure(ref t) if t == "error: internal compiler error"));
    let fatal = monitor(AttemptEnd::FatalDiagnostic, "error: aborting".to_string());
    assert!(!fatal.notice);
    assert!(!fatal.flush);
    assert!(matches!(fatal.outcome, IsolationOutcome::Rejected));
    assert_eq!(monitor_for_real(AttemptEnd::FatalDiagnostic), Err(AttemptFailure::Rejected));
    assert_eq!(monitor_for_real(AttemptEnd::ExplicitBug), Err(AttemptFailure::InternalBug));
    assert!(internal_failure_notice().contains("unexpected failure"));
}

#[test]
fn stack_sizes() {
    assert_eq!(stack_size(true, false), None);
    assert_eq!(stack_size(true, true), None);
    assert_eq!(stack_size(false, true), Some(6_000_000));
    assert_eq!(stack_size(false, false), Some(20_000_000));
}

#[test]
fn stages_only_move_forward() {
    let done = StageEnd::Done { errors: 0 };
    assert_eq!(advance(Stage::Configured, done), Stage::Injecting);
    assert_eq!(advance(Stage::Injecting, done), Stage::PolicyChecking);
    assert_eq!(advance(Stage::PolicyChecking, done), Stage::Lowering);
    assert_eq!(advance(Stage::PolicyChecking, StageEnd::Done { errors: 3 }), Stage::Rejected);
    assert_eq!(advance(Stage::Lowering, done), Stage::Linked);
    assert_eq!(advance(Stage::Linked, done), Stage::Succeeded);
    assert_eq!(advance(Stage::Injecting, StageEnd::Refused), Stage::Rejected);
    assert_eq!(advance(Stage::Lowering, StageEnd::Crashed), Stage::Failed);
    for s in [Stage::Rejected, Stage::Failed, Stage::Succeeded] {
        for e in [done, StageEnd::Refused, StageEnd::Crashed] {
            assert_eq!(advance(s, e), s);
        }
    }
}

#[test]
fn three_failures_told_apart() {
    let ends = [AttemptEnd::FatalDiagnostic, AttemptEnd::ExplicitBug, AttemptEnd::UnexpectedPanic];
    let results: Vec<_> = ends.iter().map(|e| monitor_for_real(*e)).collect();
    assert_ne!(results[0], results[1]);
    assert_ne!(results[1], results[2]);
    assert_ne!(results[0], results[2]);
    assert!(results.iter().all(|r| r.is_err()));
}
