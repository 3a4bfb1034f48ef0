use pkgid::graph::DependencyGraph;
use pkgid::matcher::{resolve, MatchError};
use pkgid::origin::Origin;
use pkgid::package::PackageIdentity;
use pkgid::specifier::{ParseError, PartialIdentity};
use pkgid::version::Version;
use pkgid::{execute, lookup, Options, PkgidError};

fn pkg(name: &str, version: &str, scheme: &str, host: &str, path: &str) -> PackageIdentity {
    PackageIdentity {
        name: name.to_string(),
        version: Version::parse(version).unwrap(),
        origin: Origin { scheme: scheme.to_string(), host: host.to_string(), path: path.to_string() },
    }
}

fn registry(name: &str, version: &str) -> PackageIdentity {
    pkg(name, version, "https", "crates.io", "/index")
}

fn sample() -> Vec<PackageIdentity> {
    vec![
        pkg("app", "0.1.0", "file", "", "/home/me/app"),
        registry("foo", "1.2.3"),
        registry("foo", "2.0.0"),
        registry("bar", "0.3.1"),
        pkg("baz", "1.0.0", "https", "github.com", "/me/baz"),
        pkg("baz", "1.0.0", "https", "example.org", "/git/baz"),
    ]
}

fn graph(packages: Vec<PackageIdentity>, root: Option<usize>) -> DependencyGraph {
    DependencyGraph::new(packages, root).unwrap()
}

fn find(g: &DependencyGraph, spec: &str) -> Result<PackageIdentity, MatchError> {
    resolve(PartialIdentity::parse(spec).unwrap(), g)
}

#[test]
fn graph_rejects_what_is_no_graph() {
    assert!(DependencyGraph::new(sample(), Some(0)).is_some());
    assert!(DependencyGraph::new(sample(), None).is_some());
    assert!(DependencyGraph::new(vec![], None).is_some());
    assert!(DependencyGraph::new(sample(), Some(6)).is_none());
    assert!(DependencyGraph::new(vec![], Some(0)).is_none());
    let mut twice = sample();
    twice.push(registry("bar", "0.3.1"));
    assert!(DependencyGraph::new(twice, None).is_none());
    let mut same_source = sample();
    same_source.push(pkg("bar", "0.3.1", "https", "CRATES.io", "/index"));
    assert!(DependencyGraph::new(same_source, None).is_none());
    let mut other_scheme = sample();
    other_scheme.push(pkg("bar", "0.3.1", "http", "crates.io", "/index"));
    assert!(DependencyGraph::new(other_scheme, None).is_some());
    let mut bad_name = sample();
    bad_name.push(registry("ba#r", "0.3.1"));
    assert!(DependencyGraph::new(bad_name, None).is_none());
    let mut empty_name = sample();
    empty_name.push(registry("", "0.3.1"));
    assert!(DependencyGraph::new(empty_name, None).is_none());
    let mut colon_name = sample();
    colon_name.push(registry("a:b", "0.3.1"));
    assert!(DependencyGraph::new(colon_name, None).is_none());
}

#[test]
fn graph_hands_out_what_it_was_given() {
    let g = graph(sample(), Some(3));
    assert_eq!(g.packages(), &sample());
    assert_eq!(g.root(), Some(&registry("bar", "0.3.1")));
    assert_eq!(graph(sample(), None).root(), None);
}

#[test]
fn empty_specifier_gives_the_root() {
    let g = graph(sample(), Some(0));
    assert_eq!(find(&g, ""), Ok(pkg("app", "0.1.0", "file", "", "/home/me/app")));
    assert_eq!(lookup(&g, Some("")), Ok(pkg("app", "0.1.0", "file", "", "/home/me/app")));
    assert_eq!(lookup(&g, None), Ok(pkg("app", "0.1.0", "file", "", "/home/me/app")));
}

#[test]
fn empty_specifier_without_root() {
    let g = graph(sample(), None);
    assert_eq!(find(&g, ""), Err(MatchError::NoRootPackage));
    assert_eq!(lookup(&g, None), Err(PkgidError::Match(MatchError::NoRootPackage)));
    assert_eq!(lookup(&g, Some("")), Err(PkgidError::Match(MatchError::NoRootPackage)));
}

#[test]
fn one_match_is_the_result() {
    let g = graph(sample(), Some(0));
    assert_eq!(find(&g, "bar"), Ok(registry("bar", "0.3.1")));
    assert_eq!(find(&g, "foo:2.0.0"), Ok(registry("foo", "2.0.0")));
    assert_eq!(find(&g, "app"), Ok(pkg("app", "0.1.0", "file", "", "/home/me/app")));
    assert_eq!(find(&g, "github.com/me/baz"), Ok(pkg("baz", "1.0.0", "https", "github.com", "/me/baz")));
    assert_eq!(
        find(&g, "example.org/git/baz#1.0.0"),
        Ok(pkg("baz", "1.0.0", "https", "example.org", "/git/baz"))
    );
    assert_eq!(find(&g, "crates.io/index#bar"), Ok(registry("bar", "0.3.1")));
    assert_eq!(find(&g, "crates.io/index#foo:1.2.3"), Ok(registry("foo", "1.2.3")));
    assert_eq!(find(&g, "#0.3.1"), Ok(registry("bar", "0.3.1")));
}

#[test]
fn no_match_is_not_found() {
    let g = graph(sample(), Some(0));
    assert_eq!(
        find(&g, "qux"),
        Err(MatchError::NotFound {
            partial: PartialIdentity::parse("qux").unwrap(),
            similar: vec![],
        })
    );
    assert_eq!(
        find(&g, "foo:3.0.0"),
        Err(MatchError::NotFound {
            partial: PartialIdentity::parse("foo:3.0.0").unwrap(),
            similar: vec![registry("foo", "1.2.3"), registry("foo", "2.0.0")],
        })
    );
    assert_eq!(
        find(&g, "gitlab.com/me/baz"),
        Err(MatchError::NotFound {
            partial: PartialIdentity::parse("gitlab.com/me/baz").unwrap(),
            similar: vec![
                pkg("baz", "1.0.0", "https", "github.com", "/me/baz"),
                pkg("baz", "1.0.0", "https", "example.org", "/git/baz"),
            ],
        })
    );
    // The name is matched exactly: no prefix, no other case.
    assert!(matches!(find(&g, "fo"), Err(MatchError::NotFound { .. })));
    assert!(matches!(find(&g, "Foo"), Err(MatchError::NotFound { .. })));
    assert!(matches!(find(&g, "foo "), Err(MatchError::NotFound { .. })));
    // An origin whose last segment is no package name finds nothing.
    assert_eq!(
        find(&g, "crates.io/index"),
        Err(MatchError::NotFound {
            partial: PartialIdentity::parse("crates.io/index").unwrap(),
            similar: vec![],
        })
    );
    assert_eq!(
        find(&graph(vec![], None), "foo"),
        Err(MatchError::NotFound { partial: PartialIdentity::parse("foo").unwrap(), similar: vec![] })
    );
}

#[test]
fn several_matches_are_ambiguous() {
    let g = graph(sample(), Some(0));
    assert_eq!(
        find(&g, "foo"),
        Err(MatchError::Ambiguous {
            candidates: vec![registry("foo", "1.2.3"), registry("foo", "2.0.0")],
        })
    );
    assert_eq!(
        find(&g, "baz"),
        Err(MatchError::Ambiguous {
            candidates: vec![
                pkg("baz", "1.0.0", "https", "github.com", "/me/baz"),
                pkg("baz", "1.0.0", "https", "example.org", "/git/baz"),
            ],
        })
    );
    assert_eq!(
        find(&g, "baz:1.0.0"),
        Err(MatchError::Ambiguous {
            candidates: vec![
                pkg("baz", "1.0.0", "https", "github.com", "/me/baz"),
                pkg("baz", "1.0.0", "https", "example.org", "/git/baz"),
            ],
        })
    );
}

#[test]
fn origin_alone_lists_every_version() {
    // The path ends in `/`, so the origin implies no name.
    let packages = vec![
        pkg("foo", "1.0.0", "https", "example.org", "/foo/"),
        pkg("foo", "1.1.0", "https", "example.org", "/foo/"),
        pkg("foo", "1.1.0", "https", "example.org", "/bar/"),
    ];
    let g = graph(packages, None);
    assert_eq!(
        find(&g, "example.org/foo/"),
        Err(MatchError::Ambiguous {
            candidates: vec![
                pkg("foo", "1.0.0", "https", "example.org", "/foo/"),
                pkg("foo", "1.1.0", "https", "example.org", "/foo/"),
            ],
        })
    );
    assert_eq!(
        find(&g, "example.org/foo/#1.1.0"),
        Ok(pkg("foo", "1.1.0", "https", "example.org", "/foo/"))
    );
}

#[test]
fn wildcard_origin_broadening() {
    let first = pkg("foo", "1.2.3", "http", "crates.io", "/foo");
    let second = pkg("foo", "1.2.3", "https", "crates.io", "/foo");
    let g = graph(vec![first.clone(), second.clone()], None);
    assert_eq!(
        find(&g, "crates.io/foo"),
        Err(MatchError::Ambiguous { candidates: vec![first.clone(), second.clone()] })
    );
    assert_eq!(find(&g, "http://crates.io/foo"), Ok(first.clone()));
    assert_eq!(find(&g, "https://crates.io/foo"), Ok(second.clone()));
    assert_eq!(find(&g, "https://CRATES.IO/foo"), Ok(second));
    assert!(matches!(find(&g, "ftp://crates.io/foo"), Err(MatchError::NotFound { .. })));
    assert!(matches!(find(&g, "HTTP://crates.io/foo"), Err(MatchError::NotFound { .. })));
}

#[test]
fn malformed_input() {
    let g = graph(sample(), Some(0));
    assert_eq!(
        PartialIdentity::parse("a#b#c"),
        Err(ParseError::Malformed("a#b#c".to_string()))
    );
    assert_eq!(
        lookup(&g, Some("a#b#c")),
        Err(PkgidError::Parse(ParseError::Malformed("a#b#c".to_string())))
    );
    assert_eq!(
        lookup(&graph(vec![], None), Some("a#b#c")),
        Err(PkgidError::Parse(ParseError::Malformed("a#b#c".to_string())))
    );
}

#[test]
fn exact_version() {
    let beta = registry("foo", "1.2.3-beta");
    let g = graph(vec![beta.clone()], None);
    let partial = PartialIdentity::parse("foo:1.2.3").unwrap();
    assert!(!partial.matches(&beta));
    assert_eq!(
        find(&g, "foo:1.2.3"),
        Err(MatchError::NotFound { partial, similar: vec![beta.clone()] })
    );
    assert_eq!(find(&g, "foo:1.2.3-beta"), Ok(beta.clone()));
    let both = graph(vec![beta.clone(), registry("foo", "1.2.3"), registry("foo", "1.2.3+b7")], None);
    assert_eq!(find(&both, "foo:1.2.3"), Ok(registry("foo", "1.2.3")));
    assert_eq!(find(&both, "foo:1.2.3-beta"), Ok(beta));
    assert_eq!(find(&both, "foo:1.2.3+b7"), Ok(registry("foo", "1.2.3+b7")));
}

#[test]
fn round_trip() {
    let g = graph(sample(), Some(0));
    for p in sample() {
        let text = p.to_spec_string();
        assert_eq!(lookup(&g, Some(&text)), Ok(p.clone()), "{}", text);
        assert_eq!(find(&g, &text), Ok(p));
    }
    let odd = vec![
        pkg("a/b", "1.0.0-rc.1+x", "git+ssh", "Example.ORG:22", "/r/x:y"),
        pkg("a/b", "1.0.0-rc.1", "git+ssh", "Example.ORG:22", "/r/x:y"),
        pkg("a/b", "1.0.0-rc.1", "git+ssh", "Example.ORG:22", ""),
    ];
    let g = graph(odd.clone(), None);
    for p in odd {
        assert_eq!(lookup(&g, Some(&p.to_spec_string())), Ok(p));
    }
}

#[test]
fn canonical_text() {
    assert_eq!(registry("foo", "1.2.3").to_spec_string(), "https://crates.io/index#foo:1.2.3");
    assert_eq!(
        pkg("app", "0.1.0-dev+x", "file", "", "/home/me/app").to_spec_string(),
        "file:///home/me/app#app:0.1.0-dev+x"
    );
}

#[test]
fn idempotence() {
    let g = graph(sample(), Some(0));
    for spec in ["", "foo", "bar", "qux", "a#b#c", "foo:x", "crates.io/index#foo:2.0.0"] {
        assert_eq!(lookup(&g, Some(spec)), lookup(&g, Some(spec)));
    }
}

#[test]
fn execute_gives_the_line_to_print() {
    let g = graph(sample(), Some(0));
    let options = |spec: Option<&str>| Options {
        flag_verbose: false,
        flag_quiet: false,
        flag_manifest_path: None,
        arg_spec: spec.map(|s| s.to_string()),
    };
    assert_eq!(execute(&options(None), &g), Ok("file:///home/me/app#app:0.1.0".to_string()));
    assert_eq!(execute(&options(Some("bar")), &g), Ok("https://crates.io/index#bar:0.3.1".to_string()));
    assert_eq!(
        execute(&options(Some("foo")), &g),
        Err(PkgidError::Match(MatchError::Ambiguous {
            candidates: vec![registry("foo", "1.2.3"), registry("foo", "2.0.0")],
        }))
    );
    assert_eq!(
        execute(&options(Some("foo:1")), &g),
        Err(PkgidError::Parse(ParseError::InvalidVersion("1".to_string())))
    );
    assert_eq!(
        execute(&options(None), &graph(sample(), None)),
        Err(PkgidError::Match(MatchError::NoRootPackage))
    );
}

#[test]
fn package_validity_and_identity() {
    assert!(registry("foo", "1.2.3").is_valid());
    assert!(!registry("", "1.2.3").is_valid());
    assert!(!registry("f#o", "1.2.3").is_valid());
    assert!(!pkg("foo", "1.2.3", "", "crates.io", "/x").is_valid());
    let mut bad_version = registry("foo", "1.2.3");
    bad_version.version.pre = "..".to_string();
    assert!(!bad_version.is_valid());
    assert!(registry("foo", "1.2.3").same(&pkg("foo", "1.2.3", "https", "Crates.io", "/index")));
    assert!(!registry("foo", "1.2.3").same(&registry("foo", "1.2.4")));
    assert!(!registry("foo", "1.2.3").same(&registry("fob", "1.2.3")));
}
