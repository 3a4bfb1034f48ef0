//! Resolution: from a partial identity and a graph to the one package meant.
//!
//! The empty identity stands for the root package. Any other identity is held
//! against every package of the graph. Exactly one match is the result; none,
//! or more than one, is an error that says what was found.

use vstd::prelude::*;
use crate::graph::{package_views, root_package, DependencyGraph, GraphView};
use crate::origin::{inferred_name, origin_matches};
use crate::package::{PackageIdentity, PackageView};
use crate::specifier::{empty_partial, PartialIdentity, PartialView};

verus! {

/// Why no package was resolved.
#[derive(Debug, PartialEq, Eq)]
pub enum MatchError {
    /// The identity is empty and the graph has no root package.
    NoRootPackage,
    /// No package satisfies the identity. Holds the identity, and the packages
    /// of the graph that bear the name it asks for.
    NotFound { partial: PartialIdentity, similar: Vec<PackageIdentity> },
    /// More than one package satisfies the identity. Holds all that do, in the
    /// order of the graph.
    Ambiguous { candidates: Vec<PackageIdentity> },
}

/// The mathematical value of a [`MatchError`].
pub enum MatchErrorView {
    NoRootPackage,
    NotFound { partial: PartialView, similar: Seq<PackageView> },
    Ambiguous { candidates: Seq<PackageView> },
}

impl View for MatchError {
    type V = MatchErrorView;

    open spec fn view(&self) -> MatchErrorView {
        match self {
            MatchError::NoRootPackage => MatchErrorView::NoRootPackage,
            MatchError::NotFound { partial, similar } => MatchErrorView::NotFound {
                partial: partial@,
                similar: package_views(similar@),
            },
            MatchError::Ambiguous { candidates } => MatchErrorView::Ambiguous {
                candidates: package_views(candidates@),
            },
        }
    }
}

/// The name that an identity asks for: the name it gives or, where it gives
/// none, the name that its origin implies.
pub open spec fn wanted_name(partial: PartialView) -> Option<Seq<char>> {
    match partial.name {
        Some(n) => Some(n),
        None => match partial.origin {
            Some(o) => inferred_name(o),
            None => None,
        },
    }
}

/// Tells whether a package bears the name that an identity asks for.
pub open spec fn name_matches(partial: PartialView, p: PackageView) -> bool {
    wanted_name(partial) matches Some(n) ==> p.name == n
}

/// Tells whether a package satisfies an identity: each part that the identity
/// gives agrees with the package. Names and versions agree when they are equal.
pub open spec fn compatible(partial: PartialView, p: PackageView) -> bool {
    &&& name_matches(partial, p)
    &&& partial.version matches Some(v) ==> p.version == v
    &&& partial.origin matches Some(o) ==> origin_matches(o, p.origin)
}

/// The packages that satisfy an identity, in the order of the graph.
pub open spec fn matching(packages: Seq<PackageView>, partial: PartialView) -> Seq<PackageView> {
    packages.filter(|p: PackageView| compatible(partial, p))
}

/// The packages that bear the name an identity asks for, in the order of the
/// graph; none where the identity asks for no name.
pub open spec fn similar(packages: Seq<PackageView>, partial: PartialView) -> Seq<PackageView> {
    packages.filter(|p: PackageView| wanted_name(partial) is Some && name_matches(partial, p))
}

/// What resolution gives for an identity and a graph.
pub open spec fn resolve_spec(partial: PartialView, g: GraphView) -> Result<
    PackageView,
    MatchErrorView,
> {
    let found = matching(g.packages, partial);
    if partial == empty_partial() {
        match root_package(g) {
            Some(p) => Ok(p),
            None => Err(MatchErrorView::NoRootPackage),
        }
    } else if found.len() == 1 {
        Ok(found[0])
    } else if found.len() == 0 {
        Err(MatchErrorView::NotFound { partial, similar: similar(g.packages, partial) })
    } else {
        Err(MatchErrorView::Ambiguous { candidates: found })
    }
}

/// Filtering a sequence that grew by one element.
proof fn lemma_filter_step<A>(s: Seq<A>, i: int, pred: spec_fn(A) -> bool)
    requires
        0 <= i < s.len(),
    ensures
        s.take(i + 1).filter(pred) == if pred(s[i]) {
            s.take(i).filter(pred).push(s[i])
        } else {
            s.take(i).filter(pred)
        },
{
    reveal(Seq::filter);
    assert(s.take(i + 1).drop_last() == s.take(i));
}

impl PartialIdentity {
    /// The name that the identity asks for.
    pub fn wanted_name(&self) -> (r: Option<String>)
        ensures
            match r {
                Some(n) => wanted_name(self@) == Some(n@),
                None => wanted_name(self@) is None,
            },
    {
        match &self.name {
            Some(n) => Some(n.clone()),
            None => match &self.origin {
                Some(o) => o.inferred_name(),
                None => None,
            },
        }
    }

    /// Tells whether a package satisfies the identity, given the name that the
    /// identity asks for.
    fn admits(&self, wanted: &Option<String>, p: &PackageIdentity) -> (r: bool)
        requires
            match wanted {
                Some(n) => wanted_name(self@) == Some(n@),
                None => wanted_name(self@) is None,
            },
        ensures
            r == compatible(self@, p@),
    {
        let name_ok = match wanted {
            Some(n) => p.name == *n,
            None => true,
        };
        let version_ok = match &self.version {
            Some(v) => p.version.same(v),
            None => true,
        };
        let origin_ok = match &self.origin {
            Some(o) => o.matches(&p.origin),
            None => true,
        };
        name_ok && version_ok && origin_ok
    }

    /// Tells whether a package satisfies the identity.
    pub fn matches(&self, p: &PackageIdentity) -> (r: bool)
        ensures
            r == compatible(self@, p@),
    {
        let wanted = self.wanted_name();
        self.admits(&wanted, p)
    }
}

/// Collects the packages that satisfy an identity, in order.
fn collect_matching(partial: &PartialIdentity, packages: &Vec<PackageIdentity>) -> (r: Vec<
    PackageIdentity,
>)
    ensures
        package_views(r@) == matching(package_views(packages@), partial@),
{
    let wanted = partial.wanted_name();
    let ghost all = package_views(packages@);
    let ghost pred = |p: PackageView| compatible(partial@, p);
    let mut out: Vec<PackageIdentity> = Vec::new();
    let mut i: usize = 0;
    assert(all.take(0).filter(pred) == Seq::<PackageView>::empty()) by {
        reveal(Seq::filter);
    }
    while i < packages.len()
        invariant
            i <= packages.len(),
            all == package_views(packages@),
            pred == |p: PackageView| compatible(partial@, p),
            package_views(out@) == all.take(i as int).filter(pred),
            match wanted {
                Some(n) => wanted_name(partial@) == Some(n@),
                None => wanted_name(partial@) is None,
            },
        decreases packages.len() - i,
    {
        proof {
            lemma_filter_step(all, i as int, pred);
        }
        if partial.admits(&wanted, &packages[i]) {
            let ghost before = out@;
            out.push(packages[i].clone());
            assert(package_views(out@) == package_views(before).push(all[i as int]));
        }
        i += 1;
    }
    assert(all.take(packages.len() as int) == all);
    out
}

/// Collects the packages that bear the name an identity asks for, in order.
fn collect_similar(partial: &PartialIdentity, packages: &Vec<PackageIdentity>) -> (r: Vec<
    PackageIdentity,
>)
    ensures
        package_views(r@) == similar(package_views(packages@), partial@),
{
    let wanted = partial.wanted_name();
    let ghost all = package_views(packages@);
    let ghost pred = |p: PackageView| wanted_name(partial@) is Some && name_matches(partial@, p);
    let mut out: Vec<PackageIdentity> = Vec::new();
    let mut i: usize = 0;
    assert(all.take(0).filter(pred) == Seq::<PackageView>::empty()) by {
        reveal(Seq::filter);
    }
    while i < packages.len()
        invariant
            i <= packages.len(),
            all == package_views(packages@),
            pred == |p: PackageView| wanted_name(partial@) is Some && name_matches(partial@, p),
            package_views(out@) == all.take(i as int).filter(pred),
            match wanted {
                Some(n) => wanted_name(partial@) == Some(n@),
                None => wanted_name(partial@) is None,
            },
        decreases packages.len() - i,
    {
        proof {
            lemma_filter_step(all, i as int, pred);
        }
        let bears = match &wanted {
            Some(n) => packages[i].name == *n,
            None => false,
        };
        if bears {
            let ghost before = out@;
            out.push(packages[i].clone());
            assert(package_views(out@) == package_views(before).push(all[i as int]));
        }
        i += 1;
    }
    assert(all.take(packages.len() as int) == all);
    out
}

/// Resolves an identity against a graph.
///
/// The empty identity gives the root package, and `NoRootPackage` where the
/// graph has none. Any other identity gives the one package that satisfies it;
/// `NotFound` where none does, `Ambiguous` with all of them where several do.
pub fn resolve(partial: PartialIdentity, graph: &DependencyGraph) -> (r: Result<
    PackageIdentity,
    MatchError,
>)
    ensures
        match r {
            Ok(p) => resolve_spec(partial@, graph@) == Ok::<PackageView, MatchErrorView>(p@),
            Err(e) => resolve_spec(partial@, graph@) == Err::<PackageView, MatchErrorView>(e@),
        },
        partial@ != empty_partial() && matching(graph@.packages, partial@).len() == 1 ==> r is Ok
            && r->Ok_0@ == matching(graph@.packages, partial@)[0],
        partial@ != empty_partial() && matching(graph@.packages, partial@).len() == 0 ==> r is Err
            && r->Err_0 is NotFound,
        partial@ != empty_partial() && matching(graph@.packages, partial@).len() > 1 ==> r is Err
            && r->Err_0 is Ambiguous && package_views(r->Err_0->candidates@) == matching(
            graph@.packages,
            partial@,
        ),
{
    if partial.is_empty() {
        return match graph.root() {
            Some(p) => Ok(p.clone()),
            None => Err(MatchError::NoRootPackage),
        };
    }
    let packages = graph.packages();
    let mut found = collect_matching(&partial, packages);
    if found.len() == 1 {
        let ghost views = package_views(found@);
        let p = found.remove(0);
        assert(p@ == views[0]);
        Ok(p)
    } else if found.len() == 0 {
        let similar = collect_similar(&partial, packages);
        Err(MatchError::NotFound { partial, similar })
    } else {
        Err(MatchError::Ambiguous { candidates: found })
    }
}

} // verus!
