//! Laws of lookup: what holds of reading and resolving, for every specifier
//! and every graph.

use vstd::prelude::*;
use crate::graph::{graph_wf, root_package, GraphView};
use crate::matcher::{compatible, matching, resolve_spec, MatchErrorView};
use crate::origin::{
    full_locator,
    lemma_full_locator,
    origin_matches,
    OriginView,
    PartialOriginView,
};
use crate::package::{package_wf, render_package, same_package, PackageIdentity, PackageView};
use crate::specifier::{
    empty_partial,
    parse_specifier,
    render_partial,
    ParseErrorView,
    PartialView,
};
use crate::specifier_laws::lemma_partial_round_trip;
use crate::text::{index_of, lemma_index_of};
use crate::version::render_version;
use crate::{lookup_outcome, lookup_spec, PkgidError, PkgidErrorView};

verus! {

/// The number of times that `c` occurs in `s`.
pub open spec fn occurrences(s: Seq<char>, c: char) -> nat
    decreases s.len(),
{
    if s.len() == 0 {
        0
    } else {
        occurrences(s.drop_first(), c) + if s[0] == c {
            1nat
        } else {
            0nat
        }
    }
}

/// A character that occurs at least once is contained.
proof fn lemma_occurs_contains(s: Seq<char>, c: char)
    requires
        occurrences(s, c) > 0,
    ensures
        s.contains(c),
    decreases s.len(),
{
    if s[0] == c {
    } else {
        lemma_occurs_contains(s.drop_first(), c);
        let j = choose|j: int| 0 <= j < s.drop_first().len() && s.drop_first()[j] == c;
        assert(s[j + 1] == c);
    }
}

/// A character that occurs twice occurs again behind its first occurrence.
proof fn lemma_occurs_twice(s: Seq<char>, c: char)
    requires
        occurrences(s, c) > 1,
    ensures
        index_of(s, c) < s.len(),
        s.skip(index_of(s, c) + 1).contains(c),
    decreases s.len(),
{
    let t = s.drop_first();
    if s[0] == c {
        lemma_occurs_contains(t, c);
        assert(s.skip(1) == t);
    } else {
        lemma_occurs_twice(t, c);
        lemma_index_of(t, c);
        assert(s.skip(index_of(s, c) + 1) =~= t.skip(index_of(t, c) + 1));
    }
}

/// Where exactly one element of a sequence satisfies a predicate, filtering
/// leaves that element alone.
proof fn lemma_filter_single<A>(s: Seq<A>, i: int, pred: spec_fn(A) -> bool, k: int)
    requires
        0 <= i < s.len(),
        0 <= k <= s.len(),
        pred(s[i]),
        forall|j: int| 0 <= j < s.len() && j != i ==> !pred(#[trigger] s[j]),
    ensures
        s.take(k).filter(pred) == if k <= i {
            Seq::<A>::empty()
        } else {
            seq![s[i]]
        },
    decreases k,
{
    reveal(Seq::filter);
    if k > 0 {
        lemma_filter_single(s, i, pred, k - 1);
        assert(s.take(k).drop_last() == s.take(k - 1));
        assert(s.take(k).last() == s[k - 1]);
    }
}

/// Filtering keeps exactly the elements that satisfy the predicate.
proof fn lemma_filter_membership<A>(s: Seq<A>, pred: spec_fn(A) -> bool, x: A)
    ensures
        s.filter(pred).contains(x) <==> s.contains(x) && pred(x),
    decreases s.len(),
{
    reveal(Seq::filter);
    if s.len() > 0 {
        let t = s.drop_last();
        lemma_filter_membership(t, pred, x);
        let f = s.filter(pred);
        if f.contains(x) {
            let k = choose|k: int| 0 <= k < f.len() && f[k] == x;
            if pred(s.last()) && k == f.len() - 1 {
                assert(s[s.len() - 1] == x);
            } else {
                assert(t.filter(pred)[k] == x);
                let j = choose|j: int| 0 <= j < t.len() && t[j] == x;
                assert(s[j] == x);
            }
        }
        if s.contains(x) && pred(x) {
            let j = choose|j: int| 0 <= j < s.len() && s[j] == x;
            if j == s.len() - 1 {
                assert(f[f.len() - 1] == x);
            } else {
                assert(t[j] == x);
                let k = choose|k: int| 0 <= k < t.filter(pred).len() && t.filter(pred)[k] == x;
                assert(f[k] == x);
            }
        }
    }
}

/// The partial identity that the canonical text of a package denotes: all of
/// the package's name, version and origin.
pub open spec fn full_partial(p: PackageView) -> PartialView {
    PartialView {
        name: Some(p.name),
        version: Some(p.version),
        origin: Some(full_locator(p.origin)),
    }
}

/// The canonical text of a package is the text of the identity that gives all
/// of its parts.
pub proof fn lemma_full_text(p: PackageView)
    ensures
        render_partial(full_partial(p)) == render_package(p),
{
    let naming = p.name + seq![':'] + render_version(p.version);
    assert(naming.len() > 0);
    assert(render_partial(full_partial(p)) =~= render_package(p));
}

/// Reading the canonical text of a valid package gives its name, its version
/// and its origin, all of them.
pub proof fn lemma_parse_rendered(p: PackageView)
    requires
        package_wf(p),
    ensures
        parse_specifier(render_package(p)) == Ok::<PartialView, ParseErrorView>(full_partial(p)),
{
    lemma_full_locator(p.origin);
    lemma_full_text(p);
    lemma_partial_round_trip(full_partial(p));
}

/// Round trip: the canonical text of any package of a valid graph, read as a
/// specifier and resolved against that graph, gives that package.
pub proof fn lemma_round_trip(g: GraphView, i: int)
    requires
        graph_wf(g),
        0 <= i < g.packages.len(),
    ensures
        lookup_spec(render_package(g.packages[i]), g) == Ok::<PackageView, PkgidErrorView>(
            g.packages[i],
        ),
{
    let p = g.packages[i];
    let partial = full_partial(p);
    lemma_parse_rendered(p);
    let pred = |q: PackageView| compatible(partial, q);
    assert(pred(p)) by {
        assert(same_package(p, p));
    }
    assert forall|j: int| 0 <= j < g.packages.len() && j != i implies !pred(
        #[trigger] g.packages[j],
    ) by {
        let q = g.packages[j];
        if compatible(partial, q) {
            assert(origin_matches(partial.origin->0, q.origin));
            assert(same_package(p, q));
        }
    }
    lemma_filter_single(g.packages, i, pred, g.packages.len() as int);
    assert(g.packages.take(g.packages.len() as int) == g.packages);
    assert(matching(g.packages, partial) == seq![p]);
}

/// Idempotence: two lookups of one specifier in one graph give the same
/// package, or the same error.
pub proof fn lemma_lookup_repeats(
    raw: Seq<char>,
    g: GraphView,
    first: Result<PackageIdentity, PkgidError>,
    second: Result<PackageIdentity, PkgidError>,
)
    requires
        lookup_outcome(raw, g, first),
        lookup_outcome(raw, g, second),
    ensures
        first is Ok <==> second is Ok,
        first is Ok ==> first->Ok_0@ == second->Ok_0@,
        first is Err ==> first->Err_0@ == second->Err_0@,
{
}

/// Uniqueness: a specifier other than the empty one resolves to a package
/// exactly when one package satisfies it, and then to that package. With none
/// the error is `NotFound`; with several it is `Ambiguous` and lists them all.
pub proof fn lemma_unique_match(partial: PartialView, g: GraphView)
    requires
        partial != empty_partial(),
    ensures
        matching(g.packages, partial).len() == 1 <==> resolve_spec(partial, g) is Ok,
        resolve_spec(partial, g) matches Ok(p) ==> matching(g.packages, partial) == seq![p],
        matching(g.packages, partial).len() == 0 <==> resolve_spec(partial, g) matches Err(
            MatchErrorView::NotFound { .. },
        ),
        matching(g.packages, partial).len() > 1 <==> resolve_spec(partial, g) matches Err(
            MatchErrorView::Ambiguous { .. },
        ),
        resolve_spec(partial, g) matches Err(MatchErrorView::Ambiguous { candidates })
            ==> candidates == matching(g.packages, partial),
        forall|p: PackageView| #[trigger]
            matching(g.packages, partial).contains(p) <==> g.packages.contains(p) && compatible(
                partial,
                p,
            ),
{
    let found = matching(g.packages, partial);
    if found.len() == 1 {
        assert(found =~= seq![found[0]]);
    }
    let pred = |p: PackageView| compatible(partial, p);
    assert forall|p: PackageView| #[trigger]
        found.contains(p) <==> g.packages.contains(p) && compatible(partial, p) by {
        lemma_filter_membership(g.packages, pred, p);
    }
}

/// The empty specifier: it denotes the empty identity, which resolves to the
/// root package of the graph, and to `NoRootPackage` where there is none.
pub proof fn lemma_empty_specifier(g: GraphView)
    ensures
        parse_specifier(Seq::<char>::empty()) == Ok::<PartialView, ParseErrorView>(empty_partial()),
        lookup_spec(Seq::<char>::empty(), g) == match root_package(g) {
            Some(p) => Ok::<PackageView, PkgidErrorView>(p),
            None => Err::<PackageView, PkgidErrorView>(
                PkgidErrorView::Match(MatchErrorView::NoRootPackage),
            ),
        },
{
}

/// A locator without a scheme stands for every scheme: of two origins that
/// differ in the scheme alone it matches both or neither. A locator with a
/// scheme matches at most the one that has its scheme.
pub proof fn lemma_wildcard_scheme(locator: PartialOriginView, a: OriginView, b: OriginView)
    requires
        a.host == b.host,
        a.path == b.path,
        a.scheme != b.scheme,
    ensures
        locator.scheme is None ==> origin_matches(locator, a) == origin_matches(locator, b),
        locator.scheme is Some ==> !(origin_matches(locator, a) && origin_matches(locator, b)),
{
}

/// Broadening: where a graph holds two packages that differ in the scheme of
/// the origin alone, an identity whose origin has no scheme and which one of
/// them satisfies is satisfied by both, and resolves to neither: the result is
/// `Ambiguous`, and both are listed.
pub proof fn lemma_wildcard_broadening(partial: PartialView, g: GraphView, i: int, j: int)
    requires
        0 <= i < g.packages.len(),
        0 <= j < g.packages.len(),
        g.packages[i].name == g.packages[j].name,
        g.packages[i].version == g.packages[j].version,
        g.packages[i].origin.host == g.packages[j].origin.host,
        g.packages[i].origin.path == g.packages[j].origin.path,
        g.packages[i].origin.scheme != g.packages[j].origin.scheme,
        partial.origin matches Some(o) && o.scheme is None,
        compatible(partial, g.packages[i]),
    ensures
        compatible(partial, g.packages[j]),
        resolve_spec(partial, g) matches Err(MatchErrorView::Ambiguous { candidates })
            && candidates.contains(g.packages[i]) && candidates.contains(g.packages[j]),
{
    let a = g.packages[i];
    let b = g.packages[j];
    let found = matching(g.packages, partial);
    let pred = |p: PackageView| compatible(partial, p);
    assert(g.packages.contains(a));
    assert(g.packages.contains(b));
    lemma_filter_membership(g.packages, pred, a);
    lemma_filter_membership(g.packages, pred, b);
    let x = choose|x: int| 0 <= x < found.len() && found[x] == a;
    let y = choose|y: int| 0 <= y < found.len() && found[y] == b;
    assert(x != y);
}

/// A specifier with more than one `#` is malformed, whatever else it holds.
pub proof fn lemma_two_hashes_malformed(raw: Seq<char>)
    requires
        occurrences(raw, '#') > 1,
    ensures
        parse_specifier(raw) == Err::<PartialView, ParseErrorView>(ParseErrorView::Malformed(raw)),
        forall|g: GraphView| #[trigger]
            lookup_spec(raw, g) == Err::<PackageView, PkgidErrorView>(
                PkgidErrorView::Parse(ParseErrorView::Malformed(raw)),
            ),
{
    lemma_occurs_twice(raw, '#');
}

/// Versions are matched exactly: a package whose version differs from the one
/// that the specifier gives, in the numbers, the pre-release tag or the build
/// metadata, does not satisfy it and is never the result.
pub proof fn lemma_exact_version(partial: PartialView, g: GraphView, p: PackageView)
    requires
        partial.version is Some,
        p.version.major != partial.version->0.major || p.version.minor != partial.version->0.minor
            || p.version.patch != partial.version->0.patch || p.version.pre
            != partial.version->0.pre || p.version.build != partial.version->0.build,
    ensures
        !compatible(partial, p),
        !matching(g.packages, partial).contains(p),
        resolve_spec(partial, g) != Ok::<PackageView, MatchErrorView>(p),
{
    let pred = |q: PackageView| compatible(partial, q);
    lemma_filter_membership(g.packages, pred, p);
    let found = matching(g.packages, partial);
    if found.len() == 1 && found[0] == p {
        assert(found.contains(p));
    }
}

} // verus!
