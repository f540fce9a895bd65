use chamber::ast::{BlockRules, CompilationUnit, Node, NodeKind, Span};
use chamber::inject::inject_std;
use chamber::policy::{check_unit, PolicyId, PolicyPass, Violation, ViolationKind};
use chamber::registrar::policy_set;
use chamber::session::{advance, configure_and_check, Stage, StageEnd};

fn sp(lo: u32, hi: u32) -> Span {
    Span { lo, hi }
}

fn node(kind: NodeKind, lo: u32, hi: u32) -> Node {
    Node { kind, span: sp(lo, hi) }
}

fn block(rules: BlockRules, lo: u32, hi: u32) -> Node {
    node(NodeKind::Block { rules }, lo, hi)
}

fn attr(word: &str, lo: u32, hi: u32) -> Node {
    node(NodeKind::Attribute { word: word.to_string() }, lo, hi)
}

fn extern_crate(ident: &str, name: Option<&str>, lo: u32, hi: u32) -> Node {
    node(
        NodeKind::ExternCrate { ident: ident.to_string(), name: name.map(|n| n.to_string()) },
        lo,
        hi,
    )
}

fn unit(nodes: Vec<Node>) -> CompilationUnit {
    CompilationUnit::new(nodes)
}

fn run(stages: &[StageEnd]) -> Stage {
    let mut s = Stage::Configured;
    for e in stages {
        s = advance(s, *e);
    }
    s
}

fn kinds(vs: &[Violation]) -> Vec<ViolationKind> {
    vs.iter().map(|v| v.kind).collect()
}

#[test]
fn scenario_arithmetic_main_succeeds() {
    // fn main() { let x = 1 + 1; }
    let mut u = unit(vec![
        node(NodeKind::Other, 0, 29),
        block(BlockRules::Default, 10, 29),
        node(NodeKind::Other, 12, 27),
        node(NodeKind::Other, 20, 25),
    ]);
    let found = configure_and_check(&mut u, &"safe_rt".to_string(), false).unwrap();
    assert!(found.is_empty());
    let end = run(&[
        StageEnd::Done { errors: 0 },
        StageEnd::Done { errors: 0 },
        StageEnd::Done { errors: found.len() as u64 },
        StageEnd::Done { errors: 0 },
        StageEnd::Done { errors: 0 },
    ]);
    assert_eq!(end, Stage::Succeeded);
}

#[test]
fn scenario_unsafe_block_rejected() {
    // fn main() { unsafe { /* ... */ } }
    for name in ["safe_rt", "other_rt"] {
        let mut u = unit(vec![
            node(NodeKind::Other, 0, 34),
            block(BlockRules::Default, 10, 34),
            block(BlockRules::UserUnsafe, 12, 32),
        ]);
        let found = configure_and_check(&mut u, &name.to_string(), true).unwrap();
        assert_eq!(found, vec![Violation { span: sp(12, 32), kind: ViolationKind::UnsafeBlock }]);
        assert_eq!(found[0].kind.policy(), PolicyId::UnsafeBlock);
        let end = run(&[
            StageEnd::Done { errors: 0 },
            StageEnd::Done { errors: 0 },
            StageEnd::Done { errors: found.len() as u64 },
        ]);
        assert_eq!(end, Stage::Rejected);
    }
}

#[test]
fn scenario_extern_fn_rejected() {
    // extern "C" fn f();
    for name in ["safe_rt", "other_rt"] {
        let mut u = unit(vec![node(NodeKind::ForeignItem, 0, 18)]);
        let found = configure_and_check(&mut u, &name.to_string(), false).unwrap();
        assert_eq!(found, vec![Violation { span: sp(0, 18), kind: ViolationKind::ForeignItem }]);
        assert_eq!(found[0].kind.policy(), PolicyId::ForeignItem);
    }
}

#[test]
fn each_user_unsafe_block_reported_once() {
    let u = unit(vec![
        block(BlockRules::UserUnsafe, 5, 9),
        block(BlockRules::CompilerUnsafe, 10, 20),
        block(BlockRules::Default, 21, 30),
        block(BlockRules::UserUnsafe, 31, 40),
    ]);
    let found = check_unit(&policy_set(&"safe_rt".to_string(), false), &u);
    assert_eq!(
        found,
        vec![
            Violation { span: sp(5, 9), kind: ViolationKind::UnsafeBlock },
            Violation { span: sp(31, 40), kind: ViolationKind::UnsafeBlock },
        ]
    );
}

#[test]
fn unreachable_foreign_item_rejected() {
    // mod never_used { extern { static X: u8; } }
    let u = unit(vec![node(NodeKind::Other, 0, 44), node(NodeKind::ForeignItem, 26, 38)]);
    let found = check_unit(&policy_set(&"safe_rt".to_string(), true), &u);
    assert_eq!(kinds(&found), vec![ViolationKind::ForeignItem]);
}

#[test]
fn configured_linkage_passes() {
    let u = unit(vec![extern_crate("std", Some("safe_rt"), 0, 30)]);
    let found = check_unit(&policy_set(&"safe_rt".to_string(), false), &u);
    assert!(found.iter().all(|v| v.kind.policy() != PolicyId::LibraryLinkage));
    assert!(found.is_empty());
}

#[test]
fn other_linkage_rejected() {
    let passes = policy_set(&"safe_rt".to_string(), false);
    let wrong_crate = unit(vec![extern_crate("std", Some("evil"), 0, 25)]);
    assert_eq!(
        check_unit(&passes, &wrong_crate),
        vec![Violation { span: sp(0, 25), kind: ViolationKind::StdName }]
    );
    let plain = unit(vec![extern_crate("libc", None, 0, 16)]);
    assert_eq!(kinds(&check_unit(&passes, &plain)), vec![ViolationKind::LinkageForm]);
    let real_std = unit(vec![extern_crate("std", None, 0, 15)]);
    assert_eq!(kinds(&check_unit(&passes, &real_std)), vec![ViolationKind::LinkageForm]);
    let both = unit(vec![extern_crate("core", Some("evil"), 3, 9)]);
    let found = check_unit(&passes, &both);
    assert_eq!(kinds(&found), vec![ViolationKind::StdAlias, ViolationKind::StdName]);
    assert!(found.iter().all(|v| v.kind.policy() == PolicyId::LibraryLinkage && v.span == sp(3, 9)));
}

#[test]
fn configured_crate_under_other_alias_rejected() {
    let passes = policy_set(&"safe_rt".to_string(), false);
    let u = unit(vec![extern_crate("rt", Some("safe_rt"), 0, 26)]);
    assert_eq!(kinds(&check_unit(&passes, &u)), vec![ViolationKind::StdAlias]);
    let bare = unit(vec![extern_crate("safe_rt", None, 0, 21)]);
    assert_eq!(kinds(&check_unit(&passes, &bare)), vec![ViolationKind::LinkageForm]);
}

#[test]
fn runtime_bridge_linkage_let_through() {
    let passes = policy_set(&"safe_rt".to_string(), false);
    let u = unit(vec![extern_crate("native", None, 0, 20)]);
    assert!(check_unit(&passes, &u).is_empty());
}

#[test]
fn substitution_twice_adds_nothing() {
    let binding = "safe_rt".to_string();
    let mut u = unit(vec![block(BlockRules::UserUnsafe, 40, 50)]);
    inject_std(&mut u, &binding, true);
    let once = format!("{:?}", u);
    let n = u.nodes.len();
    assert_eq!(n, 6);
    let first = check_unit(&policy_set(&binding, true), &u);
    inject_std(&mut u, &binding, true);
    assert_eq!(u.nodes.len(), n);
    assert_eq!(format!("{:?}", u), once);
    assert_eq!(check_unit(&policy_set(&binding, true), &u), first);
    let linkages = u
        .nodes
        .iter()
        .filter(|n| matches!(&n.kind, NodeKind::ExternCrate { ident, .. } if ident == "std"))
        .count();
    assert_eq!(linkages, 1);
}

#[test]
fn substitution_keeps_user_linkage_to_same_name() {
    let binding = "safe_rt".to_string();
    let mut u = unit(vec![extern_crate("std", Some("safe_rt"), 0, 30)]);
    inject_std(&mut u, &binding, false);
    // Only the bridge and the prelude import are added.
    assert_eq!(u.nodes.len(), 3);
    match &u.nodes[0].kind {
        NodeKind::ExternCrate { ident, name } => {
            assert_eq!(ident, "native");
            assert!(name.is_none());
        }
        other => panic!("unexpected node {:?}", other),
    }
    match &u.nodes[1].kind {
        NodeKind::Use { path } => assert_eq!(path, "std::prelude::*"),
        other => panic!("unexpected node {:?}", other),
    }
    assert_eq!(u.nodes[2].span, sp(0, 30));
    assert!(check_unit(&policy_set(&binding, false), &u).is_empty());
}

#[test]
fn substitution_places_linkage_first() {
    let mut u = unit(vec![node(NodeKind::Other, 0, 10)]);
    inject_std(&mut u, &"safe_rt".to_string(), false);
    assert_eq!(u.nodes.len(), 4);
    match &u.nodes[0].kind {
        NodeKind::ExternCrate { ident, name } => {
            assert_eq!(ident, "std");
            assert_eq!(name.as_deref(), Some("safe_rt"));
        }
        other => panic!("unexpected node {:?}", other),
    }
    assert_eq!(u.nodes[0].span, Span::dummy());
    assert_eq!(u.nodes[3].span, sp(0, 10));
}

#[test]
fn feature_gate_only_without_macro_import() {
    let u = || unit(vec![attr("feature", 0, 16)]);
    let strict = check_unit(&policy_set(&"safe_rt".to_string(), false), &u());
    assert_eq!(strict, vec![Violation { span: sp(0, 16), kind: ViolationKind::FeatureGate }]);
    assert_eq!(strict[0].kind.policy(), PolicyId::FeatureAttribute);
    let lenient = check_unit(&policy_set(&"safe_rt".to_string(), true), &u());
    assert!(lenient.is_empty());
    // The substitution's own nodes pass the passes registered with it.
    let mut m = unit(vec![]);
    let found = configure_and_check(&mut m, &"safe_rt".to_string(), true).unwrap();
    assert!(found.is_empty());
    assert_eq!(m.nodes.len(), 5);
}

#[test]
fn no_mangle_rejected() {
    let u = unit(vec![attr("no_mangle", 2, 14), attr("inline", 20, 30)]);
    let found = check_unit(&policy_set(&"safe_rt".to_string(), true), &u);
    assert_eq!(found, vec![Violation { span: sp(2, 14), kind: ViolationKind::NoMangle }]);
    assert_eq!(found[0].kind.policy(), PolicyId::SymbolOverride);
}

#[test]
fn violations_by_position_then_pass_order() {
    let u = unit(vec![
        extern_crate("core", Some("evil"), 0, 5),
        block(BlockRules::UserUnsafe, 10, 20),
        node(NodeKind::ForeignItem, 30, 40),
        attr("no_mangle", 50, 60),
    ]);
    assert!(u.in_source_order());
    let found = check_unit(&policy_set(&"safe_rt".to_string(), false), &u);
    assert_eq!(
        kinds(&found),
        vec![
            ViolationKind::StdAlias,
            ViolationKind::StdName,
            ViolationKind::UnsafeBlock,
            ViolationKind::ForeignItem,
            ViolationKind::NoMangle,
        ]
    );
    let los: Vec<u32> = found.iter().map(|v| v.span.lo).collect();
    assert_eq!(los, vec![0, 0, 10, 30, 50]);
}

#[test]
fn empty_binding_name_is_configuration_error() {
    let mut u = unit(vec![node(NodeKind::Other, 0, 1)]);
    let r = configure_and_check(&mut u, &String::new(), false);
    assert_eq!(r.err(), Some(chamber::registrar::ConfigError::EmptyBindingName));
    assert_eq!(u.nodes.len(), 1);
}

#[test]
fn messages_of_violations() {
    assert_eq!(ViolationKind::UnsafeBlock.message(), "chamber: `unsafe` block");
    assert_eq!(ViolationKind::NoMangle.message(), "chamber: no_mangle");
    assert_eq!(ViolationKind::StdAlias.message(), "chamber: incorrect ident for std");
    assert_eq!(ViolationKind::StdName.message(), "chamber: incorrect name for std");
    assert_eq!(ViolationKind::LinkageForm.message(), "chamber: incorrect std `extern crate` form");
    assert_eq!(ViolationKind::FeatureGate.message(), "chamber: feature gate");
    assert_eq!(ViolationKind::ForeignItem.message(), "chamber: foreign item");
}

#[test]
fn pass_checks_single_node() {
    let n = block(BlockRules::UserUnsafe, 1, 2);
    assert_eq!(PolicyPass::UnsafeBlock.check_node(&n).len(), 1);
    assert!(PolicyPass::NoMangle.check_node(&n).is_empty());
    let generated = block(BlockRules::CompilerUnsafe, 1, 2);
    assert!(PolicyPass::UnsafeBlock.check_node(&generated).is_empty());
}

#[test]
fn source_order_of_units() {
    assert!(unit(vec![]).in_source_order());
    assert!(unit(vec![block(BlockRules::Default, 3, 9), attr("inline", 3, 4)]).in_source_order());
    assert!(!unit(vec![attr("inline", 10, 20), block(BlockRules::Default, 5, 9)]).in_source_order());
    let mut u = unit(vec![node(NodeKind::Other, 4, 8), block(BlockRules::UserUnsafe, 6, 8)]);
    let found = configure_and_check(&mut u, &"safe_rt".to_string(), true).unwrap();
    assert!(u.in_source_order());
    assert_eq!(found, vec![Violation { span: sp(6, 8), kind: ViolationKind::UnsafeBlock }]);
}
