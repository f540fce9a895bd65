//! One compilation attempt: the order in which its stages run, and the phase
//! that substitutes the library and then applies the policy passes.
use vstd::prelude::*;
use crate::ast::{in_source_order, CompilationUnit};
use crate::inject::{inject_std, injected, lemma_injected_in_source_order};
use crate::policy::{check_unit, unit_violations, violations_in_source_order, Violation};
use crate::registrar::{policy_set, registered, ConfigError};

verus! {

/// Where an attempt stands.
#[derive(Clone, Copy, Debug, PartialEq, Eq, Structural)]
pub enum Stage {
    Configured,
    Injecting,
    PolicyChecking,
    Lowering,
    Linked,
    /// Refused: a policy violation, a bad configuration, or the pipeline's
    /// own checks.
    Rejected,
    /// The pipeline or its tooling failed.
    Failed,
    Succeeded,
}

/// How the current stage ended.
#[derive(Clone, Copy, Debug, PartialEq, Eq, Structural)]
pub enum StageEnd {
    /// It did its work; for policy checking, with this many errors reported.
    Done { errors: u64 },
    /// It refused the unit.
    Refused,
    /// It failed internally.
    Crashed,
}

pub open spec fn is_terminal(s: Stage) -> bool {
    s == Stage::Rejected || s == Stage::Failed || s == Stage::Succeeded
}

/// The position of a stage along the attempt; terminal stages come last.
pub open spec fn rank(s: Stage) -> int {
    match s {
        Stage::Configured => 0,
        Stage::Injecting => 1,
        Stage::PolicyChecking => 2,
        Stage::Lowering => 3,
        Stage::Linked => 4,
        _ => 5,
    }
}

pub open spec fn next_stage(s: Stage, e: StageEnd) -> Stage {
    if is_terminal(s) {
        s
    } else {
        match e {
            StageEnd::Crashed => Stage::Failed,
            StageEnd::Refused => Stage::Rejected,
            StageEnd::Done { errors } => match s {
                Stage::Configured => Stage::Injecting,
                Stage::Injecting => Stage::PolicyChecking,
                Stage::PolicyChecking => if errors == 0 {
                    Stage::Lowering
                } else {
                    Stage::Rejected
                },
                Stage::Lowering => Stage::Linked,
                _ => Stage::Succeeded,
            },
        }
    }
}

/// The stage that follows `s` once it ended as `e`. Policy checking goes on
/// to lowering only with no error reported. Nothing goes back to an earlier
/// stage: an attempt is never retried.
pub fn advance(s: Stage, e: StageEnd) -> (r: Stage)
    ensures
        r == next_stage(s, e),
        is_terminal(s) ==> r == s,
        !is_terminal(s) ==> rank(r) > rank(s),
{
    if s == Stage::Rejected || s == Stage::Failed || s == Stage::Succeeded {
        return s;
    }
    match e {
        StageEnd::Crashed => Stage::Failed,
        StageEnd::Refused => Stage::Rejected,
        StageEnd::Done { errors } => match s {
            Stage::Configured => Stage::Injecting,
            Stage::Injecting => Stage::PolicyChecking,
            Stage::PolicyChecking => if errors == 0 {
                Stage::Lowering
            } else {
                Stage::Rejected
            },
            Stage::Lowering => Stage::Linked,
            _ => Stage::Succeeded,
        },
    }
}

/// Substitutes `binding` for the standard library in the parsed `unit`, then
/// runs the passes registered for that same name over the result and
/// returns every violation found. An empty binding name is a configuration
/// error, found before anything is changed. The violations stand in source
/// order, as the unit's nodes do.
pub fn configure_and_check(unit: &mut CompilationUnit, binding: &String, import_macros: bool) -> (r:
    Result<Vec<Violation>, ConfigError>)
    requires
        in_source_order(old(unit)@),
    ensures
        r is Ok ==> violations_in_source_order(r->Ok_0@),
        binding@.len() == 0 ==> r == Err::<Vec<Violation>, ConfigError>(
            ConfigError::EmptyBindingName,
        ) && final(unit)@ == old(unit)@,
        binding@.len() > 0 ==> r is Ok && final(unit)@ == injected(
            old(unit)@,
            binding@,
            import_macros,
        ) && r->Ok_0@ == unit_violations(registered(binding@, import_macros), final(unit)@),
{
    if binding.as_str().unicode_len() == 0 {
        return Err(ConfigError::EmptyBindingName);
    }
    inject_std(unit, binding, import_macros);
    proof {
        lemma_injected_in_source_order(old(unit)@, binding@, import_macros);
    }
    let passes = policy_set(binding, import_macros);
    let found = check_unit(&passes, unit);
    Ok(found)
}

} // verus!
