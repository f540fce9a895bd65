//! Language-based sandboxing: untrusted source is compiled against a
//! substituted, restricted standard library, and refused when it uses a
//! construct that would let it leave the sandbox (`unsafe` blocks, foreign
//! declarations, feature gates, symbol overrides, or a library linked in
//! place of the configured one).
//!
//! The library holds the sandbox's decisions: the model of a unit as the
//! pipeline's visitor presents it, the substitution of the standard library,
//! the policy passes and the set they are registered in, the isolation
//! monitor's handling of an attempt's end, and the order of an attempt's
//! stages.
pub mod ast;
pub mod config;
pub mod guarantees;
pub mod inject;
pub mod monitor;
pub mod policy;
pub mod registrar;
pub mod session;
