//! Builds the ordered set of policy passes for one compilation from its
//! configuration. Each pass is built fresh, with the library binding name
//! handed to it directly.
use vstd::prelude::*;
use crate::policy::{passes_view, CrateLimitPass, PassView, PolicyPass};

verus! {

/// Why no pass set could be built.
#[derive(Clone, Copy, Debug, PartialEq, Eq, Structural)]
pub enum ConfigError {
    /// No library binding name was handed over.
    MissingBindingName,
    /// The library binding name is empty.
    EmptyBindingName,
}

/// The passes registered for `binding`, in registration order. The feature
/// gate pass is left out when the substitution itself enables a feature,
/// since it would refuse the substituted code.
pub open spec fn registered(binding: Seq<char>, injection_uses_feature: bool) -> Seq<PassView> {
    seq![PassView::UnsafeBlock, PassView::ForeignItem] + (if injection_uses_feature {
        Seq::empty()
    } else {
        seq![PassView::FeatureGate]
    }) + seq![PassView::CrateLimit { stdname: binding }, PassView::NoMangle]
}

/// Builds the passes for one compilation.
pub fn policy_set(binding: &String, injection_uses_feature: bool) -> (r: Vec<PolicyPass>)
    ensures
        passes_view(r@) == registered(binding@, injection_uses_feature),
{
    let mut r: Vec<PolicyPass> = Vec::new();
    r.push(PolicyPass::UnsafeBlock);
    r.push(PolicyPass::ForeignItem);
    if !injection_uses_feature {
        r.push(PolicyPass::FeatureGate);
    }
    r.push(PolicyPass::CrateLimit(CrateLimitPass::new(binding.clone())));
    r.push(PolicyPass::NoMangle);
    assert(passes_view(r@) =~= registered(binding@, injection_uses_feature));
    r
}

/// Takes the binding name out of the slot it was handed over in, leaving
/// the slot empty.
pub fn get_params(slot: &mut Option<String>) -> (r: Option<String>)
    ensures
        r == *old(slot),
        *final(slot) == None::<String>,
{
    let r = slot.take();
    r
}

/// Hands a binding name over in `slot`.
pub fn set_params(slot: &mut Option<String>, stdname: String)
    ensures
        *final(slot) == Some(stdname),
{
    *slot = Some(stdname);
}

/// Builds the passes from the binding name handed over in `params`, which
/// is taken. Without a name, or with an empty one, there is nothing to
/// build and the configuration is at fault.
pub fn plugin_registrar(params: &mut Option<String>, injection_uses_feature: bool) -> (r: Result<
    Vec<PolicyPass>,
    ConfigError,
>)
    ensures
        *final(params) == None::<String>,
        match *old(params) {
            None => r == Err::<Vec<PolicyPass>, ConfigError>(ConfigError::MissingBindingName),
            Some(name) => if name@.len() == 0 {
                r == Err::<Vec<PolicyPass>, ConfigError>(ConfigError::EmptyBindingName)
            } else {
                r is Ok && passes_view(r->Ok_0@) == registered(name@, injection_uses_feature)
            },
        },
{
    match get_params(params) {
        None => Err(ConfigError::MissingBindingName),
        Some(name) => {
            if name.as_str().unicode_len() == 0 {
                Err(ConfigError::EmptyBindingName)
            } else {
                Ok(policy_set(&name, injection_uses_feature))
            }
        },
    }
}

} // verus!
