//! Package ID lookup: from a specifier that a user typed to the one package
//! of a dependency graph that it means.
//!
//! A specifier such as `foo`, `foo:1.2.3` or `crates.io/foo#1.2.3` is read into
//! a partial identity ([`specifier`]), which is then held against the packages
//! of the graph ([`matcher`]). The result is printed in the canonical form
//! `origin#name:version` ([`package`]).

use vstd::prelude::*;

pub mod text;
pub mod version;
pub mod version_laws;
pub mod origin;
pub mod package;
pub mod specifier;
pub mod specifier_laws;
pub mod graph;
pub mod matcher;
pub mod laws;

use crate::graph::{DependencyGraph, GraphView};
use crate::matcher::{resolve, resolve_spec, MatchError, MatchErrorView};
use crate::package::{render_package, PackageIdentity, PackageView};
use crate::specifier::{parse_specifier, ParseError, ParseErrorView, PartialIdentity};

verus! {

/// What the command was asked to do.
#[derive(Debug, PartialEq, Eq)]
pub struct Options {
    pub flag_verbose: bool,
    pub flag_quiet: bool,
    pub flag_manifest_path: Option<String>,
    /// The specifier; without one the root package is meant.
    pub arg_spec: Option<String>,
}

/// Why a lookup gave no package.
#[derive(Debug, PartialEq, Eq)]
pub enum PkgidError {
    /// The specifier could not be read. Nothing was held against the graph.
    Parse(ParseError),
    /// The specifier was read, and it does not single out one package.
    Match(MatchError),
}

/// The mathematical value of a [`PkgidError`].
pub enum PkgidErrorView {
    Parse(ParseErrorView),
    Match(MatchErrorView),
}

impl View for PkgidError {
    type V = PkgidErrorView;

    open spec fn view(&self) -> PkgidErrorView {
        match self {
            PkgidError::Parse(e) => PkgidErrorView::Parse(e@),
            PkgidError::Match(e) => PkgidErrorView::Match(e@),
        }
    }
}

/// The text of a specifier that may be absent: no specifier is the empty one.
pub open spec fn spec_text(spec: Option<Seq<char>>) -> Seq<char> {
    match spec {
        Some(s) => s,
        None => Seq::<char>::empty(),
    }
}

/// What a lookup gives: the specifier is read, and what it denotes is resolved.
pub open spec fn lookup_spec(raw: Seq<char>, g: GraphView) -> Result<PackageView, PkgidErrorView> {
    match parse_specifier(raw) {
        Err(e) => Err(PkgidErrorView::Parse(e)),
        Ok(partial) => match resolve_spec(partial, g) {
            Ok(p) => Ok(p),
            Err(e) => Err(PkgidErrorView::Match(e)),
        },
    }
}

/// Tells whether `r` is what a lookup of `raw` in `g` gives.
pub open spec fn lookup_outcome(
    raw: Seq<char>,
    g: GraphView,
    r: Result<PackageIdentity, PkgidError>,
) -> bool {
    match r {
        Ok(p) => lookup_spec(raw, g) == Ok::<PackageView, PkgidErrorView>(p@),
        Err(e) => lookup_spec(raw, g) == Err::<PackageView, PkgidErrorView>(e@),
    }
}

/// The value of an optional string.
pub open spec fn option_text(s: Option<String>) -> Option<Seq<char>> {
    match s {
        Some(t) => Some(t@),
        None => None,
    }
}

/// Finds the package that a specifier means. Without a specifier, or with the
/// empty one, that is the root package of the graph.
pub fn lookup(graph: &DependencyGraph, spec: Option<&str>) -> (r: Result<
    PackageIdentity,
    PkgidError,
>)
    ensures
        lookup_outcome(
            spec_text(
                match spec {
                    Some(s) => Some(s@),
                    None => None,
                },
            ),
            graph@,
            r,
        ),
{
    let raw = match spec {
        Some(s) => s,
        None => "",
    };
    proof {
        reveal_strlit("");
        assert(""@ =~= Seq::<char>::empty());
    }
    match PartialIdentity::parse(raw) {
        Err(e) => Err(PkgidError::Parse(e)),
        Ok(partial) => match resolve(partial, graph) {
            Ok(p) => Ok(p),
            Err(e) => Err(PkgidError::Match(e)),
        },
    }
}

/// Runs the command on a graph that was loaded: looks up the package that the
/// options ask for and gives the line to print, its canonical text.
pub fn execute(options: &Options, graph: &DependencyGraph) -> (r: Result<String, PkgidError>)
    ensures
        match r {
            Ok(line) => lookup_spec(spec_text(option_text(options.arg_spec)), graph@) matches Ok(p)
                && line@ == render_package(p),
            Err(e) => lookup_spec(spec_text(option_text(options.arg_spec)), graph@) == Err::<
                PackageView,
                PkgidErrorView,
            >(e@),
        },
{
    let spec = match &options.arg_spec {
        Some(s) => Some(s.as_str()),
        None => None,
    };
    match lookup(graph, spec) {
        Ok(p) => Ok(p.to_spec_string()),
        Err(e) => Err(e),
    }
}

} // verus!
