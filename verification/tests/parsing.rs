use pkgid::origin::{Origin, PartialOrigin};
use pkgid::specifier::{ParseError, PartialIdentity};
use pkgid::version::Version;

fn v(text: &str) -> Option<Version> {
    Some(Version::parse(text).unwrap())
}

fn name(text: &str) -> Option<String> {
    Some(text.to_string())
}

fn locator(scheme: Option<&str>, host: &str, path: &str) -> Option<PartialOrigin> {
    Some(PartialOrigin {
        scheme: scheme.map(|s| s.to_string()),
        host: host.to_string(),
        path: path.to_string(),
    })
}

#[test]
fn empty_text_is_the_empty_identity() {
    let p = PartialIdentity::parse("").unwrap();
    assert_eq!(p, PartialIdentity { name: None, version: None, origin: None });
    assert!(p.is_empty());
}

#[test]
fn bare_name() {
    let p = PartialIdentity::parse("foo").unwrap();
    assert_eq!(p, PartialIdentity { name: name("foo"), version: None, origin: None });
    assert!(!p.is_empty());
    assert_eq!(p.wanted_name(), name("foo"));
}

#[test]
fn name_and_version() {
    assert_eq!(
        PartialIdentity::parse("foo:1.2.3").unwrap(),
        PartialIdentity { name: name("foo"), version: v("1.2.3"), origin: None }
    );
    assert_eq!(
        PartialIdentity::parse("foo:1.2.3-beta+b1").unwrap(),
        PartialIdentity { name: name("foo"), version: v("1.2.3-beta+b1"), origin: None }
    );
}

#[test]
fn bare_host_and_path() {
    let p = PartialIdentity::parse("crates.io/foo").unwrap();
    assert_eq!(
        p,
        PartialIdentity { name: None, version: None, origin: locator(None, "crates.io", "/foo") }
    );
    assert_eq!(p.wanted_name(), name("foo"));
}

#[test]
fn bare_host_and_path_with_version() {
    let p = PartialIdentity::parse("crates.io/foo#1.2.3").unwrap();
    assert_eq!(
        p,
        PartialIdentity {
            name: None,
            version: v("1.2.3"),
            origin: locator(None, "crates.io", "/foo"),
        }
    );
    assert_eq!(p.wanted_name(), name("foo"));
}

#[test]
fn origin_with_name_and_version() {
    let p = PartialIdentity::parse("crates.io/bar#foo:1.2.3").unwrap();
    assert_eq!(
        p,
        PartialIdentity {
            name: name("foo"),
            version: v("1.2.3"),
            origin: locator(None, "crates.io", "/bar"),
        }
    );
    assert_eq!(p.wanted_name(), name("foo"));
}

#[test]
fn full_url_with_version() {
    let p = PartialIdentity::parse("http://crates.io/foo#1.2.3").unwrap();
    assert_eq!(
        p,
        PartialIdentity {
            name: None,
            version: v("1.2.3"),
            origin: locator(Some("http"), "crates.io", "/foo"),
        }
    );
    assert_eq!(p.wanted_name(), name("foo"));
}

#[test]
fn full_url_alone_is_an_origin() {
    let p = PartialIdentity::parse("https://crates.io/foo").unwrap();
    assert_eq!(
        p,
        PartialIdentity {
            name: None,
            version: None,
            origin: locator(Some("https"), "crates.io", "/foo"),
        }
    );
    let q = PartialIdentity::parse("https://crates.io").unwrap();
    assert_eq!(
        q,
        PartialIdentity { name: None, version: None, origin: locator(Some("https"), "crates.io", "") }
    );
    assert_eq!(q.wanted_name(), None);
}

#[test]
fn origin_with_name_only() {
    assert_eq!(
        PartialIdentity::parse("crates.io/bar#foo").unwrap(),
        PartialIdentity { name: name("foo"), version: None, origin: locator(None, "crates.io", "/bar") }
    );
}

#[test]
fn hash_without_origin() {
    assert_eq!(
        PartialIdentity::parse("#foo").unwrap(),
        PartialIdentity { name: name("foo"), version: None, origin: None }
    );
    assert_eq!(
        PartialIdentity::parse("#1.2.3").unwrap(),
        PartialIdentity { name: None, version: v("1.2.3"), origin: None }
    );
}

#[test]
fn a_leading_digit_without_hash_is_a_name() {
    assert_eq!(
        PartialIdentity::parse("1.2.3").unwrap(),
        PartialIdentity { name: name("1.2.3"), version: None, origin: None }
    );
}

#[test]
fn local_path_origin() {
    let p = PartialIdentity::parse("file:///home/me/proj#proj:0.1.0").unwrap();
    assert_eq!(
        p,
        PartialIdentity {
            name: name("proj"),
            version: v("0.1.0"),
            origin: locator(Some("file"), "", "/home/me/proj"),
        }
    );
}

#[test]
fn malformed_with_two_hashes() {
    assert_eq!(
        PartialIdentity::parse("a#b#c"),
        Err(ParseError::Malformed("a#b#c".to_string()))
    );
    assert_eq!(
        PartialIdentity::parse("http://crates.io/foo#bar#1.2.3"),
        Err(ParseError::Malformed("http://crates.io/foo#bar#1.2.3".to_string()))
    );
    assert_eq!(PartialIdentity::parse("##"), Err(ParseError::Malformed("##".to_string())));
}

#[test]
fn malformed_without_a_name() {
    assert_eq!(
        PartialIdentity::parse(":1.2.3"),
        Err(ParseError::Malformed(":1.2.3".to_string()))
    );
    assert_eq!(
        PartialIdentity::parse("crates.io/foo#"),
        Err(ParseError::Malformed("crates.io/foo#".to_string()))
    );
    assert_eq!(
        PartialIdentity::parse("crates.io/foo#:1.2.3"),
        Err(ParseError::Malformed("crates.io/foo#:1.2.3".to_string()))
    );
    assert_eq!(PartialIdentity::parse("#"), Err(ParseError::Malformed("#".to_string())));
}

#[test]
fn invalid_version_holds_the_bad_part() {
    assert_eq!(
        PartialIdentity::parse("foo:bar"),
        Err(ParseError::InvalidVersion("bar".to_string()))
    );
    assert_eq!(
        PartialIdentity::parse("foo:1.2"),
        Err(ParseError::InvalidVersion("1.2".to_string()))
    );
    assert_eq!(PartialIdentity::parse("foo:"), Err(ParseError::InvalidVersion("".to_string())));
    assert_eq!(
        PartialIdentity::parse("foo:1.2.3:4"),
        Err(ParseError::InvalidVersion("1.2.3:4".to_string()))
    );
    assert_eq!(
        PartialIdentity::parse("crates.io/foo#1.2"),
        Err(ParseError::InvalidVersion("1.2".to_string()))
    );
    assert_eq!(
        PartialIdentity::parse("crates.io/foo#bar:01.0.0"),
        Err(ParseError::InvalidVersion("01.0.0".to_string()))
    );
}

#[test]
fn locator_text() {
    assert_eq!(
        PartialOrigin::parse("http://crates.io/foo/bar"),
        PartialOrigin {
            scheme: Some("http".to_string()),
            host: "crates.io".to_string(),
            path: "/foo/bar".to_string(),
        }
    );
    assert_eq!(
        PartialOrigin::parse("git+ssh://example.org:22/x"),
        PartialOrigin {
            scheme: Some("git+ssh".to_string()),
            host: "example.org:22".to_string(),
            path: "/x".to_string(),
        }
    );
    // What stands before `://` is no scheme: the text has none.
    assert_eq!(
        PartialOrigin::parse("1http://crates.io/foo"),
        PartialOrigin { scheme: None, host: "1http:".to_string(), path: "//crates.io/foo".to_string() }
    );
    assert_eq!(
        PartialOrigin::parse("crates.io"),
        PartialOrigin { scheme: None, host: "crates.io".to_string(), path: "".to_string() }
    );
    assert_eq!(
        PartialOrigin::parse(""),
        PartialOrigin { scheme: None, host: "".to_string(), path: "".to_string() }
    );
    assert_eq!(
        PartialOrigin::parse("http:/x"),
        PartialOrigin { scheme: None, host: "http:".to_string(), path: "/x".to_string() }
    );
}

#[test]
fn inferred_name_is_the_last_segment() {
    let with = |path: &str| PartialOrigin {
        scheme: None,
        host: "h".to_string(),
        path: path.to_string(),
    };
    assert_eq!(with("/foo").inferred_name(), Some("foo".to_string()));
    assert_eq!(with("/a/b/foo").inferred_name(), Some("foo".to_string()));
    assert_eq!(with("/foo/").inferred_name(), None);
    assert_eq!(with("/").inferred_name(), None);
    assert_eq!(with("").inferred_name(), None);
    assert_eq!(with("foo").inferred_name(), Some("foo".to_string()));
}

#[test]
fn locator_matching() {
    let origin = |scheme: &str, host: &str, path: &str| Origin {
        scheme: scheme.to_string(),
        host: host.to_string(),
        path: path.to_string(),
    };
    let wild = PartialOrigin::parse("crates.io/foo");
    let http = PartialOrigin::parse("http://crates.io/foo");
    assert!(wild.matches(&origin("http", "crates.io", "/foo")));
    assert!(wild.matches(&origin("https", "crates.io", "/foo")));
    assert!(wild.matches(&origin("https", "Crates.IO", "/foo")));
    assert!(!wild.matches(&origin("https", "crates.io", "/Foo")));
    assert!(!wild.matches(&origin("https", "crates.io", "/foo/")));
    assert!(!wild.matches(&origin("https", "crates.org", "/foo")));
    assert!(http.matches(&origin("http", "crates.io", "/foo")));
    assert!(http.matches(&origin("http", "CRATES.io", "/foo")));
    assert!(!http.matches(&origin("https", "crates.io", "/foo")));
    assert!(!http.matches(&origin("HTTP", "crates.io", "/foo")));
}

#[test]
fn origin_validity_and_text() {
    let origin = |scheme: &str, host: &str, path: &str| Origin {
        scheme: scheme.to_string(),
        host: host.to_string(),
        path: path.to_string(),
    };
    assert!(origin("https", "crates.io", "/foo").is_valid());
    assert!(origin("file", "", "/home/me").is_valid());
    assert!(origin("https", "crates.io", "").is_valid());
    assert!(!origin("", "crates.io", "/foo").is_valid());
    assert!(!origin("1x", "crates.io", "/foo").is_valid());
    assert!(!origin("ht tp", "crates.io", "/foo").is_valid());
    assert!(!origin("https", "crates.io/x", "/foo").is_valid());
    assert!(!origin("https", "crates#io", "/foo").is_valid());
    assert!(!origin("https", "crates.io", "foo").is_valid());
    assert!(!origin("https", "crates.io", "/fo#o").is_valid());
    assert_eq!(origin("https", "crates.io", "/foo").to_text(), "https://crates.io/foo");
    assert_eq!(origin("file", "", "/home/me").to_text(), "file:///home/me");
    assert!(origin("https", "crates.io", "/foo").same_source(&origin("https", "CRATES.IO", "/foo")));
    assert!(!origin("https", "crates.io", "/foo").same_source(&origin("http", "crates.io", "/foo")));
}
