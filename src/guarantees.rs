//! What the registered pass set guarantees of every unit.
use vstd::prelude::*;
use crate::ast::{BlockRules, KindView, NodeView, Span};
use crate::policy::{
    crate_limit_violations, node_violations, one, pass_violations, policy_of, unit_violations,
    PassView, PolicyId, Violation, ViolationKind,
};
use crate::inject::{
    injected, injection_candidates, lemma_missing_from_candidates, linkage_kind, missing,
};
use crate::registrar::registered;

verus! {

/// The spans of the violations of kind `k`, in order.
pub open spec fn spans_of(vs: Seq<Violation>, k: ViolationKind) -> Seq<Span>
    decreases vs.len(),
{
    if vs.len() == 0 {
        Seq::empty()
    } else if vs.last().kind == k {
        spans_of(vs.drop_last(), k).push(vs.last().span)
    } else {
        spans_of(vs.drop_last(), k)
    }
}

pub open spec fn is_user_unsafe(n: NodeView) -> bool {
    n.kind == KindView::Block { rules: BlockRules::UserUnsafe }
}

pub open spec fn is_foreign(n: NodeView) -> bool {
    n.kind == KindView::ForeignItem
}

/// The spans of the `unsafe` blocks the user wrote, in order.
pub open spec fn user_unsafe_spans(ns: Seq<NodeView>) -> Seq<Span>
    decreases ns.len(),
{
    if ns.len() == 0 {
        Seq::empty()
    } else if is_user_unsafe(ns.last()) {
        user_unsafe_spans(ns.drop_last()).push(ns.last().span)
    } else {
        user_unsafe_spans(ns.drop_last())
    }
}

/// The spans of the foreign declarations, in order.
pub open spec fn foreign_spans(ns: Seq<NodeView>) -> Seq<Span>
    decreases ns.len(),
{
    if ns.len() == 0 {
        Seq::empty()
    } else if is_foreign(ns.last()) {
        foreign_spans(ns.drop_last()).push(ns.last().span)
    } else {
        foreign_spans(ns.drop_last())
    }
}

/// Whether some violation was reported under `p`.
pub open spec fn reported_under(vs: Seq<Violation>, p: PolicyId) -> bool {
    exists|i: int| 0 <= i < vs.len() && policy_of(vs[i].kind) == p
}

proof fn lemma_spans_append(a: Seq<Violation>, b: Seq<Violation>, k: ViolationKind)
    ensures
        spans_of(a + b, k) == spans_of(a, k) + spans_of(b, k),
    decreases b.len(),
{
    if b.len() == 0 {
        assert(a + b =~= a);
        assert(spans_of(a, k) + spans_of(b, k) =~= spans_of(a, k));
    } else {
        assert((a + b).drop_last() =~= a + b.drop_last());
        assert((a + b).last() == b.last());
        lemma_spans_append(a, b.drop_last(), k);
        if b.last().kind == k {
            assert(spans_of(a, k) + spans_of(b.drop_last(), k).push(b.last().span) =~= (spans_of(
                a,
                k,
            ) + spans_of(b.drop_last(), k)).push(b.last().span));
        }
    }
}

proof fn lemma_spans_none(vs: Seq<Violation>, k: ViolationKind)
    requires
        forall|i: int| 0 <= i < vs.len() ==> vs[i].kind != k,
    ensures
        spans_of(vs, k) == Seq::<Span>::empty(),
    decreases vs.len(),
{
    if vs.len() > 0 {
        lemma_spans_none(vs.drop_last(), k);
    }
}

proof fn lemma_spans_one(n: NodeView, k: ViolationKind)
    ensures
        spans_of(one(n, k), k) == seq![n.span],
{
    let s = one(n, k);
    assert(s.drop_last() =~= Seq::<Violation>::empty());
    assert(spans_of(s.drop_last(), k) == Seq::<Span>::empty());
    assert(seq![n.span] =~= Seq::<Span>::empty().push(n.span));
}

proof fn lemma_node_violations_append(ps1: Seq<PassView>, ps2: Seq<PassView>, n: NodeView)
    ensures
        node_violations(ps1 + ps2, n) == node_violations(ps1, n) + node_violations(ps2, n),
    decreases ps2.len(),
{
    if ps2.len() == 0 {
        assert(ps1 + ps2 =~= ps1);
        assert(node_violations(ps1, n) + node_violations(ps2, n) =~= node_violations(ps1, n));
    } else {
        assert((ps1 + ps2).drop_last() =~= ps1 + ps2.drop_last());
        assert((ps1 + ps2).last() == ps2.last());
        lemma_node_violations_append(ps1, ps2.drop_last(), n);
        assert(node_violations(ps1, n) + (node_violations(ps2.drop_last(), n) + pass_violations(
            ps2.last(),
            n,
        )) =~= node_violations(ps1, n) + node_violations(ps2.drop_last(), n) + pass_violations(
            ps2.last(),
            n,
        ));
    }
}

proof fn lemma_node_violations_one(p: PassView, n: NodeView)
    ensures
        node_violations(seq![p], n) == pass_violations(p, n),
{
    assert(seq![p].drop_last() =~= Seq::<PassView>::empty());
    assert(node_violations(seq![p].drop_last(), n) == Seq::<Violation>::empty());
    assert(Seq::<Violation>::empty() + pass_violations(p, n) =~= pass_violations(p, n));
}

proof fn lemma_node_violations_two(p: PassView, q: PassView, n: NodeView)
    ensures
        node_violations(seq![p, q], n) == pass_violations(p, n) + pass_violations(q, n),
{
    assert(seq![p, q] =~= seq![p] + seq![q]);
    lemma_node_violations_append(seq![p], seq![q], n);
    lemma_node_violations_one(p, n);
    lemma_node_violations_one(q, n);
}

/// What the registered passes report of one node, pass by pass.
proof fn lemma_registered_split(binding: Seq<char>, uses_feature: bool, n: NodeView)
    ensures
        node_violations(registered(binding, uses_feature), n) == pass_violations(
            PassView::UnsafeBlock,
            n,
        ) + pass_violations(PassView::ForeignItem, n) + (if uses_feature {
            Seq::empty()
        } else {
            pass_violations(PassView::FeatureGate, n)
        }) + pass_violations(PassView::CrateLimit { stdname: binding }, n) + pass_violations(
            PassView::NoMangle,
            n,
        ),
{
    let s1 = seq![PassView::UnsafeBlock, PassView::ForeignItem];
    let g = if uses_feature {
        Seq::<PassView>::empty()
    } else {
        seq![PassView::FeatureGate]
    };
    let s2 = seq![PassView::CrateLimit { stdname: binding }, PassView::NoMangle];
    lemma_node_violations_append(s1 + g, s2, n);
    lemma_node_violations_append(s1, g, n);
    lemma_node_violations_two(PassView::UnsafeBlock, PassView::ForeignItem, n);
    lemma_node_violations_two(PassView::CrateLimit { stdname: binding }, PassView::NoMangle, n);
    if uses_feature {
        assert(node_violations(g, n) == Seq::<Violation>::empty());
    } else {
        lemma_node_violations_one(PassView::FeatureGate, n);
    }
    let u = pass_violations(PassView::UnsafeBlock, n);
    let f = pass_violations(PassView::ForeignItem, n);
    let c = pass_violations(PassView::CrateLimit { stdname: binding }, n);
    let m = pass_violations(PassView::NoMangle, n);
    assert(u + f + node_violations(g, n) + (c + m) =~= u + f + node_violations(g, n) + c + m);
}

proof fn lemma_crate_limit_kinds(stdname: Seq<char>, n: NodeView)
    ensures
        forall|i: int|
            0 <= i < crate_limit_violations(stdname, n).len() ==> policy_of(
                #[trigger] crate_limit_violations(stdname, n)[i].kind,
            ) == PolicyId::LibraryLinkage,
{
}

/// The spans that the registered passes report of one node under kind `k`,
/// for the kinds that one pass alone reports.
proof fn lemma_node_spans(binding: Seq<char>, uses_feature: bool, n: NodeView)
    ensures
        spans_of(node_violations(registered(binding, uses_feature), n), ViolationKind::UnsafeBlock)
            == (if is_user_unsafe(n) {
            seq![n.span]
        } else {
            Seq::empty()
        }),
        spans_of(node_violations(registered(binding, uses_feature), n), ViolationKind::ForeignItem)
            == (if is_foreign(n) {
            seq![n.span]
        } else {
            Seq::empty()
        }),
{
    lemma_registered_split(binding, uses_feature, n);
    let u = pass_violations(PassView::UnsafeBlock, n);
    let f = pass_violations(PassView::ForeignItem, n);
    let g = if uses_feature {
        Seq::empty()
    } else {
        pass_violations(PassView::FeatureGate, n)
    };
    let c = pass_violations(PassView::CrateLimit { stdname: binding }, n);
    let m = pass_violations(PassView::NoMangle, n);
    lemma_crate_limit_kinds(binding, n);
    let ks = seq![ViolationKind::UnsafeBlock, ViolationKind::ForeignItem];
    assert forall|j: int| 0 <= j < 2 implies spans_of(u + f + g + c + m, #[trigger] ks[j])
        == spans_of(u, ks[j]) + spans_of(f, ks[j]) by {
        let k = ks[j];
        lemma_spans_append(u + f + g + c, m, k);
        lemma_spans_append(u + f + g, c, k);
        lemma_spans_append(u + f, g, k);
        lemma_spans_append(u, f, k);
        lemma_spans_none(g, k);
        lemma_spans_none(c, k);
        lemma_spans_none(m, k);
        assert(spans_of(u, k) + spans_of(f, k) + Seq::empty() + Seq::empty() + Seq::empty()
            =~= spans_of(u, k) + spans_of(f, k));
    }
    assert(ks[0] == ViolationKind::UnsafeBlock);
    assert(ks[1] == ViolationKind::ForeignItem);
    if is_user_unsafe(n) {
        lemma_spans_one(n, ViolationKind::UnsafeBlock);
    } else {
        lemma_spans_none(u, ViolationKind::UnsafeBlock);
    }
    lemma_spans_none(f, ViolationKind::UnsafeBlock);
    if is_foreign(n) {
        lemma_spans_one(n, ViolationKind::ForeignItem);
    } else {
        lemma_spans_none(f, ViolationKind::ForeignItem);
    }
    lemma_spans_none(u, ViolationKind::ForeignItem);
    assert(Seq::<Span>::empty() + seq![n.span] =~= seq![n.span]);
    assert(seq![n.span] + Seq::<Span>::empty() =~= seq![n.span]);
    assert(Seq::<Span>::empty() + Seq::<Span>::empty() =~= Seq::<Span>::empty());
}

/// Every `unsafe` block the user wrote is reported exactly once, at its own
/// span, and nothing else is reported as one: the `unsafe` violations of a
/// unit are its user-written `unsafe` blocks, in order. Blocks the pipeline
/// generated are not reported. A unit with one is rejected.
pub proof fn unsafe_blocks_reported_once(ns: Seq<NodeView>, binding: Seq<char>, uses_feature: bool)
    ensures
        spans_of(unit_violations(registered(binding, uses_feature), ns), ViolationKind::UnsafeBlock)
            == user_unsafe_spans(ns),
        (exists|i: int| 0 <= i < ns.len() && is_user_unsafe(ns[i])) ==> reported_under(
            unit_violations(registered(binding, uses_feature), ns),
            PolicyId::UnsafeBlock,
        ),
    decreases ns.len(),
{
    let ps = registered(binding, uses_feature);
    if ns.len() == 0 {
    } else {
        unsafe_blocks_reported_once(ns.drop_last(), binding, uses_feature);
        lemma_spans_append(
            unit_violations(ps, ns.drop_last()),
            node_violations(ps, ns.last()),
            ViolationKind::UnsafeBlock,
        );
        lemma_node_spans(binding, uses_feature, ns.last());
        if is_user_unsafe(ns.last()) {
            assert(user_unsafe_spans(ns.drop_last()) + seq![ns.last().span] =~= user_unsafe_spans(
                ns.drop_last(),
            ).push(ns.last().span));
        } else {
            assert(user_unsafe_spans(ns.drop_last()) + Seq::<Span>::empty() =~= user_unsafe_spans(
                ns.drop_last(),
            ));
        }
    }
    if exists|i: int| 0 <= i < ns.len() && is_user_unsafe(ns[i]) {
        let i = choose|i: int| 0 <= i < ns.len() && is_user_unsafe(ns[i]);
        lemma_unsafe_spans_nonempty(ns, i);
        lemma_spans_witness(unit_violations(ps, ns), ViolationKind::UnsafeBlock);
    }
}

proof fn lemma_unsafe_spans_nonempty(ns: Seq<NodeView>, i: int)
    requires
        0 <= i < ns.len(),
        is_user_unsafe(ns[i]),
    ensures
        user_unsafe_spans(ns).len() > 0,
    decreases ns.len(),
{
    if i < ns.len() - 1 {
        assert(ns.drop_last()[i] == ns[i]);
        lemma_unsafe_spans_nonempty(ns.drop_last(), i);
    }
}

/// Every foreign declaration is reported, at its own span, reachable or
/// not: a unit that holds one is rejected.
pub proof fn foreign_items_rejected(ns: Seq<NodeView>, binding: Seq<char>, uses_feature: bool)
    ensures
        spans_of(unit_violations(registered(binding, uses_feature), ns), ViolationKind::ForeignItem)
            == foreign_spans(ns),
        (exists|i: int| 0 <= i < ns.len() && is_foreign(ns[i])) ==> reported_under(
            unit_violations(registered(binding, uses_feature), ns),
            PolicyId::ForeignItem,
        ),
    decreases ns.len(),
{
    let ps = registered(binding, uses_feature);
    if ns.len() > 0 {
        foreign_items_rejected(ns.drop_last(), binding, uses_feature);
        lemma_spans_append(
            unit_violations(ps, ns.drop_last()),
            node_violations(ps, ns.last()),
            ViolationKind::ForeignItem,
        );
        lemma_node_spans(binding, uses_feature, ns.last());
        if is_foreign(ns.last()) {
            assert(foreign_spans(ns.drop_last()) + seq![ns.last().span] =~= foreign_spans(
                ns.drop_last(),
            ).push(ns.last().span));
        } else {
            assert(foreign_spans(ns.drop_last()) + Seq::<Span>::empty() =~= foreign_spans(
                ns.drop_last(),
            ));
        }
    }
    if exists|i: int| 0 <= i < ns.len() && is_foreign(ns[i]) {
        let i = choose|i: int| 0 <= i < ns.len() && is_foreign(ns[i]);
        lemma_foreign_spans_nonempty(ns, i);
        lemma_spans_witness(unit_violations(ps, ns), ViolationKind::ForeignItem);
    }
}

proof fn lemma_foreign_spans_nonempty(ns: Seq<NodeView>, i: int)
    requires
        0 <= i < ns.len(),
        is_foreign(ns[i]),
    ensures
        foreign_spans(ns).len() > 0,
    decreases ns.len(),
{
    if i < ns.len() - 1 {
        assert(ns.drop_last()[i] == ns[i]);
        lemma_foreign_spans_nonempty(ns.drop_last(), i);
    }
}

proof fn lemma_spans_witness(vs: Seq<Violation>, k: ViolationKind)
    requires
        spans_of(vs, k).len() > 0,
    ensures
        exists|i: int| 0 <= i < vs.len() && vs[i].kind == k,
    decreases vs.len(),
{
    if vs.last().kind != k {
        lemma_spans_witness(vs.drop_last(), k);
        let i = choose|i: int| 0 <= i < vs.drop_last().len() && vs.drop_last()[i].kind == k;
        assert(vs[i] == vs.drop_last()[i]);
    } else {
        assert(vs[vs.len() - 1].kind == k);
    }
}

/// The crate that an `extern crate` node links: the crate name when one is
/// given, else the name used in the code.
pub open spec fn linked_crate(k: KindView) -> Option<Seq<char>> {
    match k {
        KindView::ExternCrate { ident, name: Some(name) } => Some(name),
        KindView::ExternCrate { ident, name: None } => Some(ident),
        _ => None,
    }
}

/// The runtime bridge linkage that the substitution itself places.
pub open spec fn is_bridge(k: KindView) -> bool {
    k == KindView::ExternCrate { ident: "native"@, name: None }
}

proof fn lemma_unit_includes(ps: Seq<PassView>, ns: Seq<NodeView>, i: int, j: int)
    requires
        0 <= i < ns.len(),
        0 <= j < node_violations(ps, ns[i]).len(),
    ensures
        exists|t: int|
            0 <= t < unit_violations(ps, ns).len() && unit_violations(ps, ns)[t]
                == node_violations(ps, ns[i])[j],
    decreases ns.len(),
{
    let head = unit_violations(ps, ns.drop_last());
    if i == ns.len() - 1 {
        let t = head.len() + j;
        assert(unit_violations(ps, ns)[t] == node_violations(ps, ns[i])[j]);
    } else {
        assert(ns.drop_last()[i] == ns[i]);
        lemma_unit_includes(ps, ns.drop_last(), i, j);
        let t = choose|t: int|
            0 <= t < head.len() && head[t] == node_violations(ps, ns.drop_last()[i])[j];
        assert(unit_violations(ps, ns)[t] == head[t]);
    }
}

/// A node that is the configured linkage, or no linkage at all, draws no
/// linkage violation from the registered passes.
proof fn lemma_node_linkage_free(binding: Seq<char>, uses_feature: bool, n: NodeView)
    requires
        linked_crate(n.kind) is Some ==> n.kind == linkage_kind(binding),
    ensures
        !reported_under(node_violations(registered(binding, uses_feature), n), PolicyId::LibraryLinkage),
{
    lemma_registered_split(binding, uses_feature, n);
    assert(crate_limit_violations(binding, n) =~= Seq::<Violation>::empty());
}

/// A node that links a crate other than the configured one, other than the
/// runtime bridge, draws a linkage violation from the registered passes.
proof fn lemma_node_linkage_reported(binding: Seq<char>, uses_feature: bool, n: NodeView)
    requires
        linked_crate(n.kind) is Some,
        linked_crate(n.kind) != Some(binding),
        !is_bridge(n.kind),
    ensures
        exists|j: int|
            0 <= j < node_violations(registered(binding, uses_feature), n).len() && policy_of(
                node_violations(registered(binding, uses_feature), n)[j].kind,
            ) == PolicyId::LibraryLinkage,
{
    lemma_registered_split(binding, uses_feature, n);
    let u = pass_violations(PassView::UnsafeBlock, n);
    let f = pass_violations(PassView::ForeignItem, n);
    let g = if uses_feature {
        Seq::empty()
    } else {
        pass_violations(PassView::FeatureGate, n)
    };
    let c = pass_violations(PassView::CrateLimit { stdname: binding }, n);
    let m = pass_violations(PassView::NoMangle, n);
    lemma_crate_limit_kinds(binding, n);
    assert(c.len() > 0);
    let j = (u.len() + f.len() + g.len()) as int;
    assert((u + f + g + c + m)[j] == c[0]);
}

/// A unit whose only library linkage is the configured library under the
/// name `std` draws no violation from the linkage policy.
pub proof fn configured_linkage_accepted(ns: Seq<NodeView>, binding: Seq<char>, uses_feature: bool)
    requires
        forall|i: int|
            0 <= i < ns.len() && (#[trigger] linked_crate(ns[i].kind)) is Some ==> ns[i].kind
                == linkage_kind(binding),
    ensures
        !reported_under(unit_violations(registered(binding, uses_feature), ns), PolicyId::LibraryLinkage),
    decreases ns.len(),
{
    let ps = registered(binding, uses_feature);
    if ns.len() > 0 {
        let d = ns.drop_last();
        assert forall|i: int|
            0 <= i < d.len() && (#[trigger] linked_crate(d[i].kind)) is Some implies d[i].kind
                == linkage_kind(binding) by {
            assert(d[i] == ns[i]);
        }
        configured_linkage_accepted(d, binding, uses_feature);
        assert(linked_crate(ns[ns.len() - 1].kind) is Some ==> ns[ns.len() - 1].kind
            == linkage_kind(binding));
        lemma_node_linkage_free(binding, uses_feature, ns.last());
        let a = unit_violations(ps, d);
        let b = node_violations(ps, ns.last());
        assert forall|t: int| 0 <= t < (a + b).len() implies policy_of((a + b)[t].kind)
            != PolicyId::LibraryLinkage by {
            if t < a.len() {
                assert((a + b)[t] == a[t]);
            } else {
                assert((a + b)[t] == b[t - a.len()]);
            }
        }
    }
}

/// A unit that links any crate other than the configured library is
/// rejected under the linkage policy. The one exception is the runtime
/// bridge linkage, which the substitution places itself and which the
/// policy lets through.
pub proof fn other_linkage_rejected(ns: Seq<NodeView>, binding: Seq<char>, uses_feature: bool, i: int)
    requires
        0 <= i < ns.len(),
        linked_crate(ns[i].kind) is Some,
        linked_crate(ns[i].kind) != Some(binding),
        !is_bridge(ns[i].kind),
    ensures
        reported_under(unit_violations(registered(binding, uses_feature), ns), PolicyId::LibraryLinkage),
{
    let ps = registered(binding, uses_feature);
    lemma_node_linkage_reported(binding, uses_feature, ns[i]);
    let j = choose|j: int|
        0 <= j < node_violations(ps, ns[i]).len() && policy_of(node_violations(ps, ns[i])[j].kind)
            == PolicyId::LibraryLinkage;
    lemma_unit_includes(ps, ns, i, j);
}

proof fn lemma_user_unsafe_append(a: Seq<NodeView>, b: Seq<NodeView>)
    ensures
        user_unsafe_spans(a + b) == user_unsafe_spans(a) + user_unsafe_spans(b),
        foreign_spans(a + b) == foreign_spans(a) + foreign_spans(b),
    decreases b.len(),
{
    if b.len() == 0 {
        assert(a + b =~= a);
        assert(user_unsafe_spans(a) + user_unsafe_spans(b) =~= user_unsafe_spans(a));
        assert(foreign_spans(a) + foreign_spans(b) =~= foreign_spans(a));
    } else {
        assert((a + b).drop_last() =~= a + b.drop_last());
        assert((a + b).last() == b.last());
        lemma_user_unsafe_append(a, b.drop_last());
        assert(user_unsafe_spans(a) + user_unsafe_spans(b.drop_last()).push(b.last().span) =~= (
        user_unsafe_spans(a) + user_unsafe_spans(b.drop_last())).push(b.last().span));
        assert(foreign_spans(a) + foreign_spans(b.drop_last()).push(b.last().span) =~= (
        foreign_spans(a) + foreign_spans(b.drop_last())).push(b.last().span));
    }
}

proof fn lemma_no_unsafe_no_foreign(ns: Seq<NodeView>)
    requires
        forall|i: int| 0 <= i < ns.len() ==> !is_user_unsafe(ns[i]) && !is_foreign(ns[i]),
    ensures
        user_unsafe_spans(ns) == Seq::<Span>::empty(),
        foreign_spans(ns) == Seq::<Span>::empty(),
    decreases ns.len(),
{
    if ns.len() > 0 {
        lemma_no_unsafe_no_foreign(ns.drop_last());
    }
}

/// The substitution adds neither an `unsafe` block nor a foreign declaration.
proof fn lemma_injected_adds_neither(ns: Seq<NodeView>, binding: Seq<char>, import_macros: bool)
    ensures
        user_unsafe_spans(injected(ns, binding, import_macros)) == user_unsafe_spans(ns),
        foreign_spans(injected(ns, binding, import_macros)) == foreign_spans(ns),
{
    let cs = injection_candidates(binding, import_macros);
    let m = missing(cs, ns);
    lemma_missing_from_candidates(cs, ns);
    let pre = if import_macros {
        seq![KindView::Attribute { word: "feature"@ }, KindView::Attribute { word: "phase"@ }]
    } else {
        Seq::<KindView>::empty()
    };
    let post = seq![
        linkage_kind(binding),
        KindView::ExternCrate { ident: "native"@, name: None },
        KindView::Use { path: "std::prelude::*"@ },
    ];
    assert(cs == pre + post);
    assert forall|i: int| 0 <= i < m.len() implies !is_user_unsafe(m[i]) && !is_foreign(m[i]) by {
        let j = choose|j: int| 0 <= j < cs.len() && m[i].kind == cs[j];
        if j < pre.len() {
            assert(cs[j] == pre[j]);
        } else {
            assert(cs[j] == post[j - pre.len()]);
        }
    }
    lemma_no_unsafe_no_foreign(m);
    lemma_user_unsafe_append(m, ns);
    assert(Seq::<Span>::empty() + user_unsafe_spans(ns) =~= user_unsafe_spans(ns));
    assert(Seq::<Span>::empty() + foreign_spans(ns) =~= foreign_spans(ns));
}

/// In a compilation attempt, where the unit is substituted and then checked
/// by the passes registered for the same name, every `unsafe` block the user
/// wrote is reported exactly once, at its own span, and nothing else is; a
/// unit with one is rejected.
pub proof fn attempt_reports_unsafe_blocks(ns: Seq<NodeView>, binding: Seq<char>, import_macros: bool)
    ensures
        spans_of(
            unit_violations(registered(binding, import_macros), injected(ns, binding, import_macros)),
            ViolationKind::UnsafeBlock,
        ) == user_unsafe_spans(ns),
        (exists|i: int| 0 <= i < ns.len() && is_user_unsafe(ns[i])) ==> reported_under(
            unit_violations(registered(binding, import_macros), injected(ns, binding, import_macros)),
            PolicyId::UnsafeBlock,
        ),
{
    let all = injected(ns, binding, import_macros);
    unsafe_blocks_reported_once(all, binding, import_macros);
    lemma_injected_adds_neither(ns, binding, import_macros);
    if exists|i: int| 0 <= i < ns.len() && is_user_unsafe(ns[i]) {
        let i = choose|i: int| 0 <= i < ns.len() && is_user_unsafe(ns[i]);
        let m = missing(injection_candidates(binding, import_macros), ns);
        assert(all[m.len() + i] == ns[i]);
    }
}

/// In a compilation attempt, every foreign declaration is reported at its
/// own span, reachable or not, and a unit with one is rejected.
pub proof fn attempt_rejects_foreign_items(ns: Seq<NodeView>, binding: Seq<char>, import_macros: bool)
    ensures
        spans_of(
            unit_violations(registered(binding, import_macros), injected(ns, binding, import_macros)),
            ViolationKind::ForeignItem,
        ) == foreign_spans(ns),
        (exists|i: int| 0 <= i < ns.len() && is_foreign(ns[i])) ==> reported_under(
            unit_violations(registered(binding, import_macros), injected(ns, binding, import_macros)),
            PolicyId::ForeignItem,
        ),
{
    let all = injected(ns, binding, import_macros);
    foreign_items_rejected(all, binding, import_macros);
    lemma_injected_adds_neither(ns, binding, import_macros);
    if exists|i: int| 0 <= i < ns.len() && is_foreign(ns[i]) {
        let i = choose|i: int| 0 <= i < ns.len() && is_foreign(ns[i]);
        let m = missing(injection_candidates(binding, import_macros), ns);
        assert(all[m.len() + i] == ns[i]);
    }
}

} // verus!
