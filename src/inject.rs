//! The standard-library substitution: the unit's implicit references to the
//! standard library (its linkage, the runtime bridge, the prelude import and
//! the macro import) are made to name the configured library instead.
use vstd::prelude::*;
use crate::ast::{dummy_span, in_source_order, nodes_view, CompilationUnit, KindView, Node, NodeKind, NodeView, Span};
use crate::policy::{unit_violations, PassView};

verus! {

/// The library linkage: the configured library, under the name `std`.
pub open spec fn linkage_kind(binding: Seq<char>) -> KindView {
    KindView::ExternCrate { ident: "std"@, name: Some(binding) }
}

/// The nodes the substitution provides, in the order they are placed. With
/// `import_macros`, the library's macros are imported too, which takes the
/// macro-import marker and the feature attribute that enables it.
pub open spec fn injection_candidates(binding: Seq<char>, import_macros: bool) -> Seq<KindView> {
    (if import_macros {
        seq![KindView::Attribute { word: "feature"@ }, KindView::Attribute { word: "phase"@ }]
    } else {
        Seq::empty()
    }) + seq![
        linkage_kind(binding),
        KindView::ExternCrate { ident: "native"@, name: None },
        KindView::Use { path: "std::prelude::*"@ },
    ]
}

pub open spec fn has_kind(ns: Seq<NodeView>, k: KindView) -> bool {
    exists|i: int| 0 <= i < ns.len() && ns[i].kind == k
}

/// The candidates that the unit does not hold yet, as nodes no user wrote.
pub open spec fn missing(cs: Seq<KindView>, ns: Seq<NodeView>) -> Seq<NodeView>
    decreases cs.len(),
{
    if cs.len() == 0 {
        Seq::empty()
    } else if has_kind(ns, cs.last()) {
        missing(cs.drop_last(), ns)
    } else {
        missing(cs.drop_last(), ns).push(NodeView { kind: cs.last(), span: dummy_span() })
    }
}

/// The unit after substitution: what it lacks of the substitution's nodes,
/// placed in front of it.
pub open spec fn injected(ns: Seq<NodeView>, binding: Seq<char>, import_macros: bool) -> Seq<
    NodeView,
> {
    missing(injection_candidates(binding, import_macros), ns) + ns
}

pub open spec fn kinds_view(ks: Seq<NodeKind>) -> Seq<KindView> {
    ks.map_values(|k: NodeKind| k@)
}

fn candidates(binding: &String, import_macros: bool) -> (r: Vec<NodeKind>)
    ensures
        kinds_view(r@) == injection_candidates(binding@, import_macros),
{
    let mut r: Vec<NodeKind> = Vec::new();
    if import_macros {
        r.push(NodeKind::Attribute { word: String::from_str("feature") });
        r.push(NodeKind::Attribute { word: String::from_str("phase") });
    }
    r.push(NodeKind::ExternCrate { ident: String::from_str("std"), name: Some(binding.clone()) });
    r.push(NodeKind::ExternCrate { ident: String::from_str("native"), name: None });
    r.push(NodeKind::Use { path: String::from_str("std::prelude::*") });
    assert(kinds_view(r@) =~= injection_candidates(binding@, import_macros));
    r
}

/// Whether some node of the unit is of kind `k`.
pub fn contains_kind(unit: &CompilationUnit, k: &NodeKind) -> (r: bool)
    ensures
        r == has_kind(unit@, k@),
{
    let mut i: usize = 0;
    while i < unit.nodes.len()
        invariant
            i <= unit.nodes@.len(),
            unit@.len() == unit.nodes@.len(),
            forall|j: int| 0 <= j < i ==> unit@[j].kind != k@,
        decreases unit.nodes@.len() - i,
    {
        if unit.nodes[i].kind.same_as(k) {
            assert(unit@[i as int].kind == k@);
            return true;
        }
        i = i + 1;
    }
    false
}

/// Substitutes `binding` for the standard library in `unit`. Nodes the unit
/// already holds, written by the user or by an earlier run, are not added
/// again.
pub fn inject_std(unit: &mut CompilationUnit, binding: &String, import_macros: bool)
    ensures
        final(unit)@ == injected(old(unit)@, binding@, import_macros),
{
    let cs = candidates(binding, import_macros);
    let ghost cv = kinds_view(cs@);
    let mut added: Vec<Node> = Vec::new();
    let mut i: usize = 0;
    while i < cs.len()
        invariant
            cv == kinds_view(cs@),
            cv.len() == cs@.len(),
            i <= cs@.len(),
            nodes_view(added@) == missing(cv.take(i as int), unit@),
            unit@ == old(unit)@,
        decreases cs@.len() - i,
    {
        let present = contains_kind(unit, &cs[i]);
        proof {
            assert(cv.take(i + 1).drop_last() =~= cv.take(i as int));
            assert(cv.take(i + 1).last() == cs@[i as int]@);
        }
        if !present {
            let n = Node { kind: cs[i].duplicate(), span: Span::dummy() };
            added.push(n);
            assert(nodes_view(added@) =~= missing(cv.take(i + 1), unit@));
        }
        i = i + 1;
    }
    assert(cv.take(i as int) =~= cv);
    let ghost before = added@;
    added.append(&mut unit.nodes);
    assert(nodes_view(added@) =~= nodes_view(before) + old(unit)@);
    unit.nodes = added;
}

/// Every candidate is held by the unit once the missing ones are added.
proof fn lemma_missing_covers(cs: Seq<KindView>, ns: Seq<NodeView>, j: int)
    requires
        0 <= j < cs.len(),
    ensures
        has_kind(missing(cs, ns) + ns, cs[j]),
    decreases cs.len(),
{
    let m = missing(cs, ns);
    let all = m + ns;
    if j == cs.len() - 1 {
        if has_kind(ns, cs[j]) {
            let i = choose|i: int| 0 <= i < ns.len() && ns[i].kind == cs[j];
            assert(all[m.len() + i] == ns[i]);
        } else {
            assert(m.last().kind == cs[j]);
            assert(all[m.len() - 1] == m.last());
        }
    } else {
        let d = cs.drop_last();
        lemma_missing_covers(d, ns, j);
        assert(d[j] == cs[j]);
        let md = missing(d, ns);
        let i = choose|i: int| 0 <= i < md.len() + ns.len() && (md + ns)[i].kind == cs[j];
        if i < md.len() {
            assert(m[i] == md[i]);
            assert(all[i] == md[i]);
        } else {
            assert(all[m.len() + (i - md.len())] == ns[i - md.len()]);
        }
    }
}

/// Nothing is missing from a unit that holds every candidate.
proof fn lemma_nothing_missing(cs: Seq<KindView>, ns: Seq<NodeView>)
    requires
        forall|j: int| 0 <= j < cs.len() ==> has_kind(ns, cs[j]),
    ensures
        missing(cs, ns) == Seq::<NodeView>::empty(),
    decreases cs.len(),
{
    if cs.len() > 0 {
        let d = cs.drop_last();
        assert forall|j: int| 0 <= j < d.len() implies has_kind(ns, d[j]) by {
            assert(d[j] == cs[j]);
        }
        lemma_nothing_missing(d, ns);
        assert(has_kind(ns, cs[cs.len() - 1]));
    }
}

/// Substituting twice is substituting once: the second run finds every node
/// it would add already there, so the unit, and therefore what any passes
/// report of it, stays as the first run left it.
pub proof fn injection_idempotent(
    ns: Seq<NodeView>,
    binding: Seq<char>,
    import_macros: bool,
    passes: Seq<PassView>,
)
    ensures
        injected(injected(ns, binding, import_macros), binding, import_macros) == injected(
            ns,
            binding,
            import_macros,
        ),
        unit_violations(passes, injected(injected(ns, binding, import_macros), binding, import_macros))
            == unit_violations(passes, injected(ns, binding, import_macros)),
{
    let cs = injection_candidates(binding, import_macros);
    let once = injected(ns, binding, import_macros);
    assert forall|j: int| 0 <= j < cs.len() implies has_kind(once, cs[j]) by {
        lemma_missing_covers(cs, ns, j);
    }
    lemma_nothing_missing(cs, once);
    assert(missing(cs, once) + once =~= once);
}

/// Each node the substitution adds is one of its candidates, with the span
/// of nodes no user wrote.
pub proof fn lemma_missing_from_candidates(cs: Seq<KindView>, ns: Seq<NodeView>)
    ensures
        forall|i: int|
            0 <= i < missing(cs, ns).len() ==> (#[trigger] missing(cs, ns)[i]).span == dummy_span()
                && exists|j: int| 0 <= j < cs.len() && missing(cs, ns)[i].kind == cs[j],
    decreases cs.len(),
{
    if cs.len() > 0 {
        let d = cs.drop_last();
        lemma_missing_from_candidates(d, ns);
        let m = missing(cs, ns);
        let md = missing(d, ns);
        assert forall|i: int| 0 <= i < m.len() implies (#[trigger] m[i]).span == dummy_span()
            && exists|j: int| 0 <= j < cs.len() && m[i].kind == cs[j] by {
            if i < md.len() {
                assert(m[i] == md[i]);
                let j = choose|j: int| 0 <= j < d.len() && md[i].kind == d[j];
                assert(d[j] == cs[j]);
            } else {
                assert(m[i].kind == cs[cs.len() - 1]);
            }
        }
    }
}

/// The substitution keeps a unit in source order: what it adds stands in
/// front, at the start of the file.
pub proof fn lemma_injected_in_source_order(ns: Seq<NodeView>, binding: Seq<char>, import_macros: bool)
    requires
        in_source_order(ns),
    ensures
        in_source_order(injected(ns, binding, import_macros)),
{
    let m = missing(injection_candidates(binding, import_macros), ns);
    lemma_missing_from_candidates(injection_candidates(binding, import_macros), ns);
    let all = m + ns;
    assert forall|i: int, j: int| 0 <= i < j < all.len() implies all[i].span.lo
        <= all[j].span.lo by {
        if i < m.len() {
            assert(all[i] == m[i]);
            assert(m[i].span == dummy_span());
        } else {
            assert(all[i] == ns[i - m.len()] && all[j] == ns[j - m.len()]);
        }
    }
}

} // verus!
