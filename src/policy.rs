//! The policy passes: independent readers of the expanded unit, each
//! enforcing one rule and reporting what breaks it.
use vstd::prelude::*;
use crate::ast::{
    in_source_order, is_word, BlockRules, CompilationUnit, KindView, Node, NodeKind, NodeView, Span,
};

verus! {

/// The rule a violation is reported under.
#[derive(Clone, Copy, Debug, PartialEq, Eq, Structural)]
pub enum PolicyId {
    UnsafeBlock,
    ForeignItem,
    FeatureAttribute,
    SymbolOverride,
    LibraryLinkage,
}

/// What exactly was found.
#[derive(Clone, Copy, Debug, PartialEq, Eq, Structural)]
pub enum ViolationKind {
    /// An `unsafe` block written by the user.
    UnsafeBlock,
    /// A declaration inside an `extern` block.
    ForeignItem,
    /// A `feature` attribute.
    FeatureGate,
    /// A `no_mangle` attribute.
    NoMangle,
    /// `extern crate` with a crate name, under an alias other than `std`.
    StdAlias,
    /// `extern crate` linking a crate other than the configured one.
    StdName,
    /// `extern crate` without a crate name, other than the runtime bridge.
    LinkageForm,
}

#[derive(Clone, Copy, Debug, PartialEq, Eq, Structural)]
pub struct Violation {
    pub span: Span,
    pub kind: ViolationKind,
}

pub open spec fn policy_of(k: ViolationKind) -> PolicyId {
    match k {
        ViolationKind::UnsafeBlock => PolicyId::UnsafeBlock,
        ViolationKind::ForeignItem => PolicyId::ForeignItem,
        ViolationKind::FeatureGate => PolicyId::FeatureAttribute,
        ViolationKind::NoMangle => PolicyId::SymbolOverride,
        ViolationKind::StdAlias => PolicyId::LibraryLinkage,
        ViolationKind::StdName => PolicyId::LibraryLinkage,
        ViolationKind::LinkageForm => PolicyId::LibraryLinkage,
    }
}

pub open spec fn message_of(k: ViolationKind) -> Seq<char> {
    match k {
        ViolationKind::UnsafeBlock => "chamber: `unsafe` block"@,
        ViolationKind::ForeignItem => "chamber: foreign item"@,
        ViolationKind::FeatureGate => "chamber: feature gate"@,
        ViolationKind::NoMangle => "chamber: no_mangle"@,
        ViolationKind::StdAlias => "chamber: incorrect ident for std"@,
        ViolationKind::StdName => "chamber: incorrect name for std"@,
        ViolationKind::LinkageForm => "chamber: incorrect std `extern crate` form"@,
    }
}

impl ViolationKind {
    pub fn policy(&self) -> (r: PolicyId)
        ensures
            r == policy_of(*self),
    {
        match self {
            ViolationKind::UnsafeBlock => PolicyId::UnsafeBlock,
            ViolationKind::ForeignItem => PolicyId::ForeignItem,
            ViolationKind::FeatureGate => PolicyId::FeatureAttribute,
            ViolationKind::NoMangle => PolicyId::SymbolOverride,
            ViolationKind::StdAlias => PolicyId::LibraryLinkage,
            ViolationKind::StdName => PolicyId::LibraryLinkage,
            ViolationKind::LinkageForm => PolicyId::LibraryLinkage,
        }
    }

    /// The text shown to the user for this violation.
    pub fn message(&self) -> (r: String)
        ensures
            r@ == message_of(*self),
    {
        match self {
            ViolationKind::UnsafeBlock => String::from_str("chamber: `unsafe` block"),
            ViolationKind::ForeignItem => String::from_str("chamber: foreign item"),
            ViolationKind::FeatureGate => String::from_str("chamber: feature gate"),
            ViolationKind::NoMangle => String::from_str("chamber: no_mangle"),
            ViolationKind::StdAlias => String::from_str("chamber: incorrect ident for std"),
            ViolationKind::StdName => String::from_str("chamber: incorrect name for std"),
            ViolationKind::LinkageForm => String::from_str(
                "chamber: incorrect std `extern crate` form",
            ),
        }
    }
}

/// Enforces the limits on `extern crate`: only the configured library may be
/// linked, and only under the name `std`.
#[derive(Debug)]
pub struct CrateLimitPass {
    /// The crate that plays the role of `std`.
    pub stdname: String,
}

impl CrateLimitPass {
    pub fn new(stdname: String) -> (r: CrateLimitPass)
        ensures
            r.stdname == stdname,
    {
        CrateLimitPass { stdname }
    }
}

/// One policy pass.
#[derive(Debug)]
pub enum PolicyPass {
    /// Forbids `unsafe` blocks written by the user.
    UnsafeBlock,
    /// Forbids declarations of foreign functions and statics.
    ForeignItem,
    /// Forbids `#[feature(..)]`.
    FeatureGate,
    /// Enforces the limits on `extern crate`.
    CrateLimit(CrateLimitPass),
    /// Forbids `#[no_mangle]`, which can override weak symbols.
    NoMangle,
}

pub enum PassView {
    UnsafeBlock,
    ForeignItem,
    FeatureGate,
    CrateLimit { stdname: Seq<char> },
    NoMangle,
}

impl View for PolicyPass {
    type V = PassView;

    open spec fn view(&self) -> PassView {
        match self {
            PolicyPass::UnsafeBlock => PassView::UnsafeBlock,
            PolicyPass::ForeignItem => PassView::ForeignItem,
            PolicyPass::FeatureGate => PassView::FeatureGate,
            PolicyPass::CrateLimit(c) => PassView::CrateLimit { stdname: c.stdname@ },
            PolicyPass::NoMangle => PassView::NoMangle,
        }
    }
}

pub open spec fn passes_view(ps: Seq<PolicyPass>) -> Seq<PassView> {
    ps.map_values(|p: PolicyPass| p@)
}

pub open spec fn one(n: NodeView, k: ViolationKind) -> Seq<Violation> {
    seq![Violation { span: n.span, kind: k }]
}

/// What the `extern crate` limits report of one node.
pub open spec fn crate_limit_violations(stdname: Seq<char>, n: NodeView) -> Seq<Violation> {
    match n.kind {
        KindView::ExternCrate { ident, name: Some(name) } => {
            (if ident != "std"@ {
                one(n, ViolationKind::StdAlias)
            } else {
                Seq::empty()
            }) + (if name != stdname {
                one(n, ViolationKind::StdName)
            } else {
                Seq::empty()
            })
        },
        // The substitution itself links the runtime bridge this way, so the
        // form is let through. Sandboxed code can then reach that bridge: a
        // known gap, kept on purpose and open to security review.
        KindView::ExternCrate { ident, name: None } => if ident == "native"@ {
            Seq::empty()
        } else {
            one(n, ViolationKind::LinkageForm)
        },
        _ => Seq::empty(),
    }
}

/// What one pass reports of one node.
pub open spec fn pass_violations(p: PassView, n: NodeView) -> Seq<Violation> {
    match p {
        PassView::UnsafeBlock => match n.kind {
            KindView::Block { rules: BlockRules::UserUnsafe } => one(n, ViolationKind::UnsafeBlock),
            _ => Seq::empty(),
        },
        PassView::ForeignItem => match n.kind {
            KindView::ForeignItem => one(n, ViolationKind::ForeignItem),
            _ => Seq::empty(),
        },
        PassView::FeatureGate => match n.kind {
            KindView::Attribute { word } => if word == "feature"@ {
                one(n, ViolationKind::FeatureGate)
            } else {
                Seq::empty()
            },
            _ => Seq::empty(),
        },
        PassView::CrateLimit { stdname } => crate_limit_violations(stdname, n),
        PassView::NoMangle => match n.kind {
            KindView::Attribute { word } => if word == "no_mangle"@ {
                one(n, ViolationKind::NoMangle)
            } else {
                Seq::empty()
            },
            _ => Seq::empty(),
        },
    }
}

/// What the passes report of one node, in the order the passes stand.
pub open spec fn node_violations(ps: Seq<PassView>, n: NodeView) -> Seq<Violation>
    decreases ps.len(),
{
    if ps.len() == 0 {
        Seq::empty()
    } else {
        node_violations(ps.drop_last(), n) + pass_violations(ps.last(), n)
    }
}

/// What the passes report of a unit: by source position, ties broken by
/// the order of the passes.
pub open spec fn unit_violations(ps: Seq<PassView>, ns: Seq<NodeView>) -> Seq<Violation>
    decreases ns.len(),
{
    if ns.len() == 0 {
        Seq::empty()
    } else {
        unit_violations(ps, ns.drop_last()) + node_violations(ps, ns.last())
    }
}

fn single(n: &Node, k: ViolationKind) -> (r: Vec<Violation>)
    ensures
        r@ == one(n@, k),
{
    let v = vec![Violation { span: n.span, kind: k }];
    assert(v@ =~= one(n@, k));
    v
}

impl PolicyPass {
    /// Reports the violations of this pass's rule at one node.
    pub fn check_node(&self, n: &Node) -> (r: Vec<Violation>)
        ensures
            r@ == pass_violations(self@, n@),
    {
        match self {
            PolicyPass::UnsafeBlock => match &n.kind {
                NodeKind::Block { rules: BlockRules::UserUnsafe } => single(n, ViolationKind::UnsafeBlock),
                _ => Vec::new(),
            },
            PolicyPass::ForeignItem => match &n.kind {
                NodeKind::ForeignItem => single(n, ViolationKind::ForeignItem),
                _ => Vec::new(),
            },
            PolicyPass::FeatureGate => match &n.kind {
                NodeKind::Attribute { word } => if is_word(word, "feature") {
                    single(n, ViolationKind::FeatureGate)
                } else {
                    Vec::new()
                },
                _ => Vec::new(),
            },
            PolicyPass::CrateLimit(c) => c.check_view_item(n),
            PolicyPass::NoMangle => match &n.kind {
                NodeKind::Attribute { word } => if is_word(word, "no_mangle") {
                    single(n, ViolationKind::NoMangle)
                } else {
                    Vec::new()
                },
                _ => Vec::new(),
            },
        }
    }
}

impl CrateLimitPass {
    /// Reports the `extern crate` forms that this pass refuses at one node.
    pub fn check_view_item(&self, n: &Node) -> (r: Vec<Violation>)
        ensures
            r@ == crate_limit_violations(self.stdname@, n@),
    {
        match &n.kind {
            NodeKind::ExternCrate { ident, name: Some(name) } => {
                let mut out: Vec<Violation> = Vec::new();
                // The name used in the code.
                if !is_word(ident, "std") {
                    out.push(Violation { span: n.span, kind: ViolationKind::StdAlias });
                }
                // The crate linked under it.
                if *name != self.stdname {
                    out.push(Violation { span: n.span, kind: ViolationKind::StdName });
                }
                assert(out@ =~= crate_limit_violations(self.stdname@, n@));
                out
            },
            NodeKind::ExternCrate { ident, name: None } => {
                if is_word(ident, "native") {
                    Vec::new()
                } else {
                    single(n, ViolationKind::LinkageForm)
                }
            },
            _ => {
                let out: Vec<Violation> = Vec::new();
                assert(out@ =~= crate_limit_violations(self.stdname@, n@));
                out
            },
        }
    }
}

/// Whether the violations stand in source order.
pub open spec fn violations_in_source_order(vs: Seq<Violation>) -> bool {
    forall|i: int, j: int| 0 <= i < j < vs.len() ==> vs[i].span.lo <= vs[j].span.lo
}

proof fn lemma_node_violation_spans(ps: Seq<PassView>, n: NodeView)
    ensures
        forall|t: int|
            0 <= t < node_violations(ps, n).len() ==> (#[trigger] node_violations(ps, n)[t]).span
                == n.span,
    decreases ps.len(),
{
    if ps.len() > 0 {
        lemma_node_violation_spans(ps.drop_last(), n);
        let a = node_violations(ps.drop_last(), n);
        let b = pass_violations(ps.last(), n);
        assert forall|t: int| 0 <= t < (a + b).len() implies (a + b)[t].span == n.span by {
            if t < a.len() {
                assert((a + b)[t] == a[t]);
            } else {
                assert((a + b)[t] == b[t - a.len()]);
            }
        }
    }
}

/// The violations of a unit in source order stand in source order, and none
/// starts after the unit's last node.
pub proof fn lemma_violations_in_source_order(ps: Seq<PassView>, ns: Seq<NodeView>)
    requires
        in_source_order(ns),
    ensures
        violations_in_source_order(unit_violations(ps, ns)),
        ns.len() > 0 ==> forall|t: int|
            0 <= t < unit_violations(ps, ns).len() ==> (#[trigger] unit_violations(ps, ns)[t]).span.lo
                <= ns.last().span.lo,
    decreases ns.len(),
{
    if ns.len() > 0 {
        let d = ns.drop_last();
        assert(in_source_order(d)) by {
            assert forall|i: int, j: int| 0 <= i < j < d.len() implies d[i].span.lo
                <= d[j].span.lo by {
                assert(d[i] == ns[i] && d[j] == ns[j]);
            }
        }
        lemma_violations_in_source_order(ps, d);
        lemma_node_violation_spans(ps, ns.last());
        let a = unit_violations(ps, d);
        let b = node_violations(ps, ns.last());
        if d.len() > 0 {
            assert(d.last() == ns[ns.len() - 2]);
            assert(d.last().span.lo <= ns.last().span.lo);
        }
        assert forall|i: int, j: int| 0 <= i < j < (a + b).len() implies (a + b)[i].span.lo <= (a
            + b)[j].span.lo by {
            if j < a.len() {
                assert((a + b)[i] == a[i] && (a + b)[j] == a[j]);
            } else if i < a.len() {
                assert((a + b)[i] == a[i]);
                assert(a[i].span.lo <= d.last().span.lo);
                assert((a + b)[j] == b[j - a.len()]);
            } else {
                assert((a + b)[i] == b[i - a.len()] && (a + b)[j] == b[j - a.len()]);
            }
        }
        assert forall|t: int| 0 <= t < (a + b).len() implies (#[trigger] (a + b)[t]).span.lo
            <= ns.last().span.lo by {
            if t < a.len() {
                assert((a + b)[t] == a[t]);
                assert(a[t].span.lo <= d.last().span.lo);
            } else {
                assert((a + b)[t] == b[t - a.len()]);
            }
        }
    }
}

/// Runs every pass over every node, collecting all the violations: by source
/// position, ties broken by the order of the passes. No pass stops another.
pub fn check_unit(passes: &Vec<PolicyPass>, unit: &CompilationUnit) -> (r: Vec<Violation>)
    requires
        in_source_order(unit@),
    ensures
        r@ == unit_violations(passes_view(passes@), unit@),
        violations_in_source_order(r@),
{
    proof {
        lemma_violations_in_source_order(passes_view(passes@), unit@);
    }
    let ghost ps = passes_view(passes@);
    let ghost ns = unit@;
    let mut out: Vec<Violation> = Vec::new();
    let mut i: usize = 0;
    while i < unit.nodes.len()
        invariant
            ps == passes_view(passes@),
            ns == unit@,
            ns.len() == unit.nodes@.len(),
            i <= unit.nodes@.len(),
            out@ == unit_violations(ps, ns.take(i as int)),
        decreases unit.nodes@.len() - i,
    {
        let n = &unit.nodes[i];
        let mut j: usize = 0;
        while j < passes.len()
            invariant
                ps == passes_view(passes@),
                ns == unit@,
                ps.len() == passes@.len(),
                i < ns.len(),
                ns[i as int] == n@,
                j <= passes@.len(),
                out@ == unit_violations(ps, ns.take(i as int)) + node_violations(
                    ps.take(j as int),
                    n@,
                ),
            decreases passes@.len() - j,
        {
            let mut found = passes[j].check_node(n);
            proof {
                assert(ps.take(j + 1).drop_last() =~= ps.take(j as int));
                assert(ps.take(j + 1).last() == ps[j as int]);
            }
            out.append(&mut found);
            assert(out@ =~= unit_violations(ps, ns.take(i as int)) + node_violations(
                ps.take(j + 1),
                n@,
            ));
            j = j + 1;
        }
        proof {
            assert(ps.take(j as int) =~= ps);
            assert(ns.take(i + 1).drop_last() =~= ns.take(i as int));
            assert(ns.take(i + 1).last() == ns[i as int]);
        }
        i = i + 1;
    }
    assert(ns.take(i as int) =~= ns);
    out
}

} // verus!
