//! The dependency graph as the resolver sees it: the packages it holds, in a
//! fixed order, and the root package where one is designated.

use vstd::prelude::*;
use crate::package::{package_wf, same_package, PackageIdentity, PackageView};
use crate::text::eq_ignore_case;

verus! {

/// The values of a sequence of packages.
pub open spec fn package_views(s: Seq<PackageIdentity>) -> Seq<PackageView> {
    s.map_values(|p: PackageIdentity| p@)
}

/// The mathematical value of a [`DependencyGraph`]: its packages in order, and
/// the position of the root package.
pub struct GraphView {
    pub packages: Seq<PackageView>,
    pub root: Option<int>,
}

/// Validity of a graph: every package is valid, no package occurs twice, and
/// the root, where there is one, is one of the packages.
pub open spec fn graph_wf(g: GraphView) -> bool {
    &&& forall|i: int| 0 <= i < g.packages.len() ==> package_wf(#[trigger] g.packages[i])
    &&& forall|i: int, j: int|
        0 <= i < g.packages.len() && 0 <= j < g.packages.len() && i != j ==> !same_package(
            #[trigger] g.packages[i],
            #[trigger] g.packages[j],
        )
    &&& g.root matches Some(r) ==> 0 <= r < g.packages.len()
}

/// The root package of a graph, where one is designated.
pub open spec fn root_package(g: GraphView) -> Option<PackageView> {
    match g.root {
        Some(r) => Some(g.packages[r]),
        None => None,
    }
}

/// Being one package is a symmetric relation.
pub proof fn lemma_same_package_symmetric(a: PackageView, b: PackageView)
    ensures
        same_package(a, b) == same_package(b, a),
{
    if same_package(a, b) {
        assert(eq_ignore_case(b.origin.host, a.origin.host));
    }
    if same_package(b, a) {
        assert(eq_ignore_case(a.origin.host, b.origin.host));
    }
}

/// A dependency graph. It is read, never changed.
#[derive(Debug)]
pub struct DependencyGraph {
    packages: Vec<PackageIdentity>,
    root: Option<usize>,
}

impl View for DependencyGraph {
    type V = GraphView;

    closed spec fn view(&self) -> GraphView {
        GraphView {
            packages: package_views(self.packages@),
            root: match self.root {
                Some(r) => Some(r as int),
                None => None,
            },
        }
    }
}

/// Tells whether the package at position `i` occurs again behind it.
fn occurs_again(packages: &Vec<PackageIdentity>, i: usize) -> (r: bool)
    requires
        i < packages.len(),
    ensures
        r == exists|j: int|
            i < j < packages.len() && same_package(packages@[i as int]@, #[trigger] packages@[j]@),
{
    let mut j: usize = i + 1;
    while j < packages.len()
        invariant
            i < j <= packages.len(),
            forall|k: int| i < k < j ==> !same_package(packages@[i as int]@, #[trigger] packages@[k]@),
        decreases packages.len() - j,
    {
        if packages[i].same(&packages[j]) {
            return true;
        }
        j += 1;
    }
    false
}

impl DependencyGraph {
    #[verifier::type_invariant]
    spec fn inv(&self) -> bool {
        graph_wf(self@)
    }

    /// Makes a graph of the given packages, with the package at position `root`
    /// as its root. The result is `None` exactly when that would be no valid
    /// graph: a package is invalid or occurs twice, or `root` is no position.
    pub fn new(packages: Vec<PackageIdentity>, root: Option<usize>) -> (r: Option<DependencyGraph>)
        ensures
            match r {
                Some(g) => g@ == (GraphView {
                    packages: package_views(packages@),
                    root: match root {
                        Some(k) => Some(k as int),
                        None => None,
                    },
                }) && graph_wf(g@),
                None => !graph_wf(
                    GraphView {
                        packages: package_views(packages@),
                        root: match root {
                            Some(k) => Some(k as int),
                            None => None,
                        },
                    },
                ),
            },
    {
        let ghost g = GraphView {
            packages: package_views(packages@),
            root: match root {
                Some(k) => Some(k as int),
                None => None,
            },
        };
        match root {
            Some(k) => {
                if k >= packages.len() {
                    return None;
                }
            },
            None => {},
        }
        let mut i: usize = 0;
        while i < packages.len()
            invariant
                i <= packages.len(),
                g == (GraphView {
                    packages: package_views(packages@),
                    root: match root {
                        Some(k) => Some(k as int),
                        None => None,
                    },
                }),
                forall|k: int| 0 <= k < i ==> package_wf(#[trigger] g.packages[k]),
                forall|k: int, j: int|
                    0 <= k < i && k < j < packages.len() ==> !same_package(
                        #[trigger] g.packages[k],
                        #[trigger] g.packages[j],
                    ),
            decreases packages.len() - i,
        {
            if !packages[i].is_valid() {
                assert(!package_wf(g.packages[i as int]));
                return None;
            }
            if occurs_again(&packages, i) {
                proof {
                    let j = choose|j: int|
                        i < j < packages.len() && same_package(
                            packages@[i as int]@,
                            #[trigger] packages@[j]@,
                        );
                    assert(same_package(g.packages[i as int], g.packages[j]));
                }
                return None;
            }
            assert forall|j: int| i < j < packages.len() implies !same_package(
                g.packages[i as int],
                #[trigger] g.packages[j],
            ) by {
                assert(g.packages[j] == packages@[j]@);
            }
            i += 1;
        }
        proof {
            assert forall|a: int, b: int|
                0 <= a < g.packages.len() && 0 <= b < g.packages.len() && a != b implies !same_package(
                #[trigger] g.packages[a],
                #[trigger] g.packages[b],
            ) by {
                lemma_same_package_symmetric(g.packages[a], g.packages[b]);
            }
        }
        Some(DependencyGraph { packages, root })
    }

    /// The packages of the graph, in order.
    pub fn packages(&self) -> (r: &Vec<PackageIdentity>)
        ensures
            package_views(r@) == self@.packages,
            graph_wf(self@),
    {
        proof {
            use_type_invariant(self);
        }
        &self.packages
    }

    /// The root package, where one is designated.
    pub fn root(&self) -> (r: Option<&PackageIdentity>)
        ensures
            match r {
                Some(p) => root_package(self@) == Some(p@),
                None => root_package(self@) is None,
            },
            graph_wf(self@),
    {
        proof {
            use_type_invariant(self);
        }
        match self.root {
            Some(k) => Some(&self.packages[k]),
            None => None,
        }
    }
}

} // verus!
