//! Package specifiers: the partial identity that a user types, and its parser.
//!
//! A specifier is `origin#name:version` with parts left out:
//!
//! | text                         | name  | version | origin                 |
//! |------------------------------|-------|---------|------------------------|
//! | `foo`                        | `foo` |         |                        |
//! | `foo:1.2.3`                  | `foo` | `1.2.3` |                        |
//! | `crates.io/foo`              |       |         | `*://crates.io/foo`    |
//! | `crates.io/foo#1.2.3`        |       | `1.2.3` | `*://crates.io/foo`    |
//! | `crates.io/bar#foo:1.2.3`    | `foo` | `1.2.3` | `*://crates.io/bar`    |
//! | `http://crates.io/foo#1.2.3` |       | `1.2.3` | `http://crates.io/foo` |
//!
//! Where the name is left out and an origin is given, matching takes the name
//! from the last segment of the origin's path.

use vstd::prelude::*;
use crate::origin::{has_scheme, parse_locator, render_locator, PartialOrigin, PartialOriginView};
use crate::text::{chars_of, contains_char, find_from, index_of, lemma_index_of};
use crate::version::{is_digit, parse_version, render_version, Version, VersionView};

verus! {

/// The parsed form of a specifier. Every part may be absent; with all parts
/// absent it stands for the root package of the graph.
#[derive(Debug, PartialEq, Eq)]
pub struct PartialIdentity {
    pub name: Option<String>,
    pub version: Option<Version>,
    pub origin: Option<PartialOrigin>,
}

/// The mathematical value of a [`PartialIdentity`].
pub struct PartialView {
    pub name: Option<Seq<char>>,
    pub version: Option<VersionView>,
    pub origin: Option<PartialOriginView>,
}

impl View for PartialIdentity {
    type V = PartialView;

    open spec fn view(&self) -> PartialView {
        PartialView {
            name: match self.name {
                Some(n) => Some(n@),
                None => None,
            },
            version: match self.version {
                Some(v) => Some(v@),
                None => None,
            },
            origin: match self.origin {
                Some(o) => Some(o@),
                None => None,
            },
        }
    }
}

/// Why a specifier could not be read.
#[derive(Debug, PartialEq, Eq)]
pub enum ParseError {
    /// The specifier has no valid structure. Holds the whole specifier.
    Malformed(String),
    /// The version part is no semantic version. Holds that part.
    InvalidVersion(String),
}

/// The mathematical value of a [`ParseError`].
pub enum ParseErrorView {
    Malformed(Seq<char>),
    InvalidVersion(Seq<char>),
}

impl View for ParseError {
    type V = ParseErrorView;

    open spec fn view(&self) -> ParseErrorView {
        match self {
            ParseError::Malformed(s) => ParseErrorView::Malformed(s@),
            ParseError::InvalidVersion(s) => ParseErrorView::InvalidVersion(s@),
        }
    }
}

/// The partial identity with every part absent.
pub open spec fn empty_partial() -> PartialView {
    PartialView { name: None, version: None, origin: None }
}

/// Reads the part of a specifier that names the package: `name`, `name:version`
/// or, behind a `#`, a version alone, which begins with a digit. `raw` is the
/// whole specifier and `origin` what its origin part gave.
pub open spec fn parse_name_version(
    part: Seq<char>,
    behind_hash: bool,
    raw: Seq<char>,
    origin: Option<PartialOriginView>,
) -> Result<PartialView, ParseErrorView> {
    let colon = index_of(part, ':');
    if colon < part.len() {
        let text = part.skip(colon + 1);
        if colon == 0 {
            Err(ParseErrorView::Malformed(raw))
        } else {
            match parse_version(text) {
                Some(v) => Ok(PartialView { name: Some(part.take(colon)), version: Some(v), origin }),
                None => Err(ParseErrorView::InvalidVersion(text)),
            }
        }
    } else if part.len() == 0 {
        Err(ParseErrorView::Malformed(raw))
    } else if behind_hash && is_digit(part[0]) {
        match parse_version(part) {
            Some(v) => Ok(PartialView { name: None, version: Some(v), origin }),
            None => Err(ParseErrorView::InvalidVersion(part)),
        }
    } else {
        Ok(PartialView { name: Some(part), version: None, origin })
    }
}

/// The partial identity that a specifier denotes, or the reason why it denotes none.
///
/// - The empty text denotes the empty identity.
/// - Without `#`: a text that begins with `scheme://`, or that holds a `/`, is an
///   origin and nothing else; any other text is `name` or `name:version`.
/// - With one `#`: what stands before it is the origin, unless it is empty; what
///   stands behind it is `name`, `name:version` or a version.
/// - With more than one `#` the text is malformed.
pub open spec fn parse_specifier(raw: Seq<char>) -> Result<PartialView, ParseErrorView> {
    let hash = index_of(raw, '#');
    if raw.len() == 0 {
        Ok(empty_partial())
    } else if hash == raw.len() {
        if has_scheme(raw) || raw.contains('/') {
            Ok(PartialView { name: None, version: None, origin: Some(parse_locator(raw)) })
        } else {
            parse_name_version(raw, false, raw, None)
        }
    } else {
        let left = raw.take(hash);
        let right = raw.skip(hash + 1);
        if right.contains('#') {
            Err(ParseErrorView::Malformed(raw))
        } else {
            parse_name_version(
                right,
                true,
                raw,
                if left.len() == 0 {
                    None
                } else {
                    Some(parse_locator(left))
                },
            )
        }
    }
}

/// The text of the part of an identity that names the package: `name`,
/// `name:version`, the version alone, or nothing.
pub open spec fn render_name_version(p: PartialView) -> Seq<char> {
    match (p.name, p.version) {
        (Some(n), Some(v)) => n + seq![':'] + render_version(v),
        (Some(n), None) => n,
        (None, Some(v)) => render_version(v),
        (None, None) => Seq::<char>::empty(),
    }
}

/// The text of an identity: `origin#name:version`, without the parts that the
/// identity leaves out, and without the `#` where either side of it is empty.
pub open spec fn render_partial(p: PartialView) -> Seq<char> {
    let naming = render_name_version(p);
    match p.origin {
        Some(o) => if naming.len() == 0 {
            render_locator(o)
        } else {
            render_locator(o) + seq!['#'] + naming
        },
        None => naming,
    }
}

/// Reads the part of a specifier that names the package.
fn read_name_version(part: &str, behind_hash: bool, raw: &str, origin: Option<PartialOrigin>) -> (r:
    Result<PartialIdentity, ParseError>)
    ensures
        match r {
            Ok(p) => parse_name_version(
                part@,
                behind_hash,
                raw@,
                match origin {
                    Some(o) => Some(o@),
                    None => None,
                },
            ) == Ok::<PartialView, ParseErrorView>(p@),
            Err(e) => parse_name_version(
                part@,
                behind_hash,
                raw@,
                match origin {
                    Some(o) => Some(o@),
                    None => None,
                },
            ) == Err::<PartialView, ParseErrorView>(e@),
        },
{
    let v = chars_of(part);
    let n = v.len();
    let colon = find_from(&v, 0, ':');
    assert(v@.skip(0) == v@);
    if colon < n {
        let text = part.substring_char(colon + 1, n);
        assert(text@ == part@.skip(colon + 1));
        if colon == 0 {
            return Err(ParseError::Malformed(raw.to_owned()));
        }
        match Version::parse(text) {
            Some(version) => {
                let name = part.substring_char(0, colon).to_owned();
                assert(name@ == part@.take(colon as int));
                Ok(PartialIdentity { name: Some(name), version: Some(version), origin })
            },
            None => Err(ParseError::InvalidVersion(text.to_owned())),
        }
    } else if n == 0 {
        Err(ParseError::Malformed(raw.to_owned()))
    } else if behind_hash && '0' <= v[0] && v[0] <= '9' {
        match Version::parse(part) {
            Some(version) => Ok(PartialIdentity { name: None, version: Some(version), origin }),
            None => Err(ParseError::InvalidVersion(part.to_owned())),
        }
    } else {
        Ok(PartialIdentity { name: Some(part.to_owned()), version: None, origin })
    }
}

impl PartialIdentity {
    /// Tells whether every part is absent.
    pub fn is_empty(&self) -> (r: bool)
        ensures
            r == (self@ == empty_partial()),
    {
        self.name.is_none() && self.version.is_none() && self.origin.is_none()
    }

    /// The text of the identity, which leaves out what the identity leaves out.
    pub fn to_spec_string(&self) -> (r: String)
        ensures
            r@ == render_partial(self@),
    {
        let mut naming = String::new();
        match &self.name {
            Some(n) => {
                naming.append(n.as_str());
            },
            None => {},
        }
        match &self.version {
            Some(v) => {
                if self.name.is_some() {
                    naming.append(":");
                }
                let text = v.to_text();
                naming.append(text.as_str());
            },
            None => {},
        }
        proof {
            reveal_strlit(":");
            reveal_strlit("#");
            assert(":"@ =~= seq![':']);
            assert("#"@ =~= seq!['#']);
            assert(naming@ =~= render_name_version(self@));
        }
        match &self.origin {
            Some(o) => {
                let mut out = o.to_text();
                if !naming.as_str().is_empty() {
                    out.append("#");
                    out.append(naming.as_str());
                }
                out
            },
            None => naming,
        }
    }

    /// Reads a specifier. The result is the identity that `parse_specifier`
    /// gives for the text, or the error that it gives.
    pub fn parse(raw: &str) -> (r: Result<PartialIdentity, ParseError>)
        ensures
            match r {
                Ok(p) => parse_specifier(raw@) == Ok::<PartialView, ParseErrorView>(p@),
                Err(e) => parse_specifier(raw@) == Err::<PartialView, ParseErrorView>(e@),
            },
    {
        let v = chars_of(raw);
        let n = v.len();
        if n == 0 {
            return Ok(PartialIdentity { name: None, version: None, origin: None });
        }
        let hash = find_from(&v, 0, '#');
        assert(v@.skip(0) == v@);
        if hash == n {
            let locator = PartialOrigin::parse(raw);
            if locator.scheme.is_some() || contains_char(&v, '/') {
                return Ok(PartialIdentity { name: None, version: None, origin: Some(locator) });
            }
            return read_name_version(raw, false, raw, None);
        }
        let second = find_from(&v, hash + 1, '#');
        proof {
            lemma_index_of(v@.skip(hash + 1), '#');
        }
        if second < n {
            return Err(ParseError::Malformed(raw.to_owned()));
        }
        let left = raw.substring_char(0, hash);
        let right = raw.substring_char(hash + 1, n);
        assert(left@ == raw@.take(hash as int));
        assert(right@ == raw@.skip(hash + 1));
        let origin = if hash == 0 {
            None
        } else {
            Some(PartialOrigin::parse(left))
        };
        read_name_version(right, true, raw, origin)
    }
}

impl Clone for PartialIdentity {
    fn clone(&self) -> (r: Self)
        ensures
            r == *self,
    {
        let name = match &self.name {
            Some(n) => Some(n.clone()),
            None => None,
        };
        let version = match &self.version {
            Some(v) => Some(v.clone()),
            None => None,
        };
        let origin = match &self.origin {
            Some(o) => Some(o.clone()),
            None => None,
        };
        PartialIdentity { name, version, origin }
    }
}

} // verus!
