//! Source locators: where a package came from, and the partial form that a
//! specifier may give.
//!
//! A locator is written `scheme://host/path`. A specifier may leave the scheme
//! out (`host/path`), which stands for any scheme. Hosts are compared without
//! regard to the case of ASCII letters; schemes and paths are compared exactly.

use vstd::prelude::*;
use crate::text::{
    chars_of,
    contains_char,
    eq_ignore_case,
    find_from,
    find_last,
    index_of,
    last_index_of,
    lemma_last_index_of,
    lemma_index_of,
    lemma_contains_concat,
    lemma_index_of_is,
    lemma_split_at_first,
    same_ignoring_case,
};

verus! {

/// The source of a package in a dependency graph: a complete locator.
#[derive(Debug, PartialEq, Eq)]
pub struct Origin {
    pub scheme: String,
    pub host: String,
    pub path: String,
}

/// The mathematical value of an [`Origin`].
pub struct OriginView {
    pub scheme: Seq<char>,
    pub host: Seq<char>,
    pub path: Seq<char>,
}

impl View for Origin {
    type V = OriginView;

    open spec fn view(&self) -> OriginView {
        OriginView { scheme: self.scheme@, host: self.host@, path: self.path@ }
    }
}

/// The locator of a specifier. Without a scheme it stands for every scheme.
#[derive(Debug, PartialEq, Eq)]
pub struct PartialOrigin {
    pub scheme: Option<String>,
    pub host: String,
    pub path: String,
}

/// The mathematical value of a [`PartialOrigin`].
pub struct PartialOriginView {
    pub scheme: Option<Seq<char>>,
    pub host: Seq<char>,
    pub path: Seq<char>,
}

impl View for PartialOrigin {
    type V = PartialOriginView;

    open spec fn view(&self) -> PartialOriginView {
        PartialOriginView {
            scheme: match self.scheme {
                Some(s) => Some(s@),
                None => None,
            },
            host: self.host@,
            path: self.path@,
        }
    }
}

/// An ASCII letter.
pub open spec fn is_ascii_letter(c: char) -> bool {
    ('a' <= c && c <= 'z') || ('A' <= c && c <= 'Z')
}

/// A character of a scheme: an ASCII letter, a digit, `+`, `-` or `.`.
pub open spec fn is_scheme_char(c: char) -> bool {
    is_ascii_letter(c) || ('0' <= c && c <= '9') || c == '+' || c == '-' || c == '.'
}

/// A scheme: an ASCII letter followed by letters, digits, `+`, `-` or `.`.
pub open spec fn is_scheme(s: Seq<char>) -> bool {
    &&& s.len() > 0
    &&& is_ascii_letter(s[0])
    &&& forall|i: int| 0 <= i < s.len() ==> is_scheme_char(#[trigger] s[i])
}

/// Tells whether a text begins with a scheme followed by `://`.
pub open spec fn has_scheme(s: Seq<char>) -> bool {
    let c = index_of(s, ':');
    &&& c + 3 <= s.len()
    &&& s[c + 1] == '/'
    &&& s[c + 2] == '/'
    &&& is_scheme(s.take(c))
}

/// The locator that a text denotes. With a scheme the text is
/// `scheme://host/path`, without one it is `host/path`; the host ends before
/// the first `/`, and the path begins with it.
pub open spec fn parse_locator(s: Seq<char>) -> PartialOriginView {
    let c = index_of(s, ':');
    let rest = if has_scheme(s) {
        s.skip(c + 3)
    } else {
        s
    };
    let slash = index_of(rest, '/');
    PartialOriginView {
        scheme: if has_scheme(s) {
            Some(s.take(c))
        } else {
            None
        },
        host: rest.take(slash),
        path: rest.skip(slash),
    }
}

/// The text of a complete locator.
pub open spec fn render_origin(o: OriginView) -> Seq<char> {
    o.scheme + seq![':', '/', '/'] + o.host + o.path
}

/// The text of a specifier's locator: `scheme://host/path`, or `host/path`
/// where it has no scheme.
pub open spec fn render_locator(p: PartialOriginView) -> Seq<char> {
    match p.scheme {
        Some(s) => s + seq![':', '/', '/'] + p.host + p.path,
        None => p.host + p.path,
    }
}

/// Validity of a complete locator: the text of a valid locator denotes it.
pub open spec fn origin_wf(o: OriginView) -> bool {
    &&& is_scheme(o.scheme)
    &&& !o.host.contains('/')
    &&& !o.host.contains('#')
    &&& !o.path.contains('#')
    &&& o.path.len() > 0 ==> o.path[0] == '/'
}

/// Tells whether two complete locators name one source.
pub open spec fn same_source(a: OriginView, b: OriginView) -> bool {
    &&& a.scheme == b.scheme
    &&& eq_ignore_case(a.host, b.host)
    &&& a.path == b.path
}

/// Tells whether a package's origin satisfies the locator of a specifier: the
/// scheme, where the specifier gives one, the host and the path all agree.
pub open spec fn origin_matches(p: PartialOriginView, o: OriginView) -> bool {
    &&& p.scheme matches Some(s) ==> s == o.scheme
    &&& eq_ignore_case(p.host, o.host)
    &&& p.path == o.path
}

/// The last segment of a path: what follows its last `/`.
pub open spec fn last_segment(path: Seq<char>) -> Seq<char> {
    path.skip(last_index_of(path, '/') + 1)
}

/// The package name that a locator implies: the last segment of its path,
/// unless that segment is empty.
pub open spec fn inferred_name(p: PartialOriginView) -> Option<Seq<char>> {
    if last_segment(p.path).len() > 0 {
        Some(last_segment(p.path))
    } else {
        None
    }
}

/// Tells whether positions `0..end` of `v` hold a scheme.
fn check_scheme(v: &Vec<char>, end: usize) -> (r: bool)
    requires
        end <= v.len(),
    ensures
        r == is_scheme(v@.take(end as int)),
{
    let ghost s = v@.take(end as int);
    if end == 0 {
        return false;
    }
    let first = v[0];
    assert(s[0] == first);
    if !(('a' <= first && first <= 'z') || ('A' <= first && first <= 'Z')) {
        return false;
    }
    let mut i: usize = 0;
    while i < end
        invariant
            i <= end <= v.len(),
            s == v@.take(end as int),
            forall|j: int| 0 <= j < i ==> is_scheme_char(#[trigger] s[j]),
        decreases end - i,
    {
        let c = v[i];
        let ok = ('a' <= c && c <= 'z') || ('A' <= c && c <= 'Z') || ('0' <= c && c <= '9') || c
            == '+' || c == '-' || c == '.';
        if !ok {
            assert(!is_scheme_char(s[i as int]));
            return false;
        }
        i += 1;
    }
    true
}

impl PartialOrigin {
    /// Reads a locator from its text.
    pub fn parse(text: &str) -> (r: PartialOrigin)
        ensures
            r@ == parse_locator(text@),
    {
        let v = chars_of(text);
        let n = v.len();
        let c = find_from(&v, 0, ':');
        assert(v@.skip(0) == v@);
        let full = c < n && n - c >= 3 && v[c + 1] == '/' && v[c + 2] == '/' && check_scheme(&v, c);
        let start: usize = if full {
            c + 3
        } else {
            0
        };
        let slash = find_from(&v, start, '/');
        proof {
            lemma_index_of(v@, ':');
            let rest = v@.skip(start as int);
            assert(rest.take(slash - start) == v@.subrange(start as int, slash as int));
            assert(rest.skip(slash - start) == v@.subrange(slash as int, n as int));
        }
        let scheme = if full {
            Some(text.substring_char(0, c).to_owned())
        } else {
            None
        };
        let host = text.substring_char(start, slash).to_owned();
        let path = text.substring_char(slash, n).to_owned();
        PartialOrigin { scheme, host, path }
    }

    /// Tells whether the origin of a package satisfies this locator.
    pub fn matches(&self, origin: &Origin) -> (r: bool)
        ensures
            r == origin_matches(self@, origin@),
    {
        let scheme_ok = match &self.scheme {
            Some(s) => *s == origin.scheme,
            None => true,
        };
        scheme_ok && self.path == origin.path && same_ignoring_case(
            self.host.as_str(),
            origin.host.as_str(),
        )
    }

    /// The text of the locator: `scheme://host/path`, or `host/path` where it
    /// has no scheme.
    pub fn to_text(&self) -> (r: String)
        ensures
            r@ == render_locator(self@),
    {
        let mut out = String::new();
        match &self.scheme {
            Some(s) => {
                out.append(s.as_str());
                out.append("://");
            },
            None => {},
        }
        out.append(self.host.as_str());
        out.append(self.path.as_str());
        proof {
            reveal_strlit("://");
            assert("://"@ =~= seq![':', '/', '/']);
            assert(out@ =~= render_locator(self@));
        }
        out
    }

    /// The package name that this locator implies, if it implies one.
    pub fn inferred_name(&self) -> (r: Option<String>)
        ensures
            match r {
                Some(name) => inferred_name(self@) == Some(name@),
                None => inferred_name(self@) is None,
            },
    {
        let v = chars_of(self.path.as_str());
        let n = v.len();
        proof {
            lemma_last_index_of(v@, '/');
        }
        let start: usize = match find_last(&v, '/') {
            Some(k) => k + 1,
            None => 0,
        };
        if start == n {
            None
        } else {
            Some(self.path.as_str().substring_char(start, n).to_owned())
        }
    }
}

impl Clone for PartialOrigin {
    fn clone(&self) -> (r: Self)
        ensures
            r == *self,
    {
        let scheme = match &self.scheme {
            Some(s) => Some(s.clone()),
            None => None,
        };
        PartialOrigin { scheme, host: self.host.clone(), path: self.path.clone() }
    }
}

impl Clone for Origin {
    fn clone(&self) -> (r: Self)
        ensures
            r == *self,
    {
        Origin { scheme: self.scheme.clone(), host: self.host.clone(), path: self.path.clone() }
    }
}

impl Origin {
    /// Validity: the locator has a scheme, and its text denotes it.
    pub open spec fn wf(&self) -> bool {
        origin_wf(self@)
    }

    /// Tells whether the locator is valid.
    pub fn is_valid(&self) -> (r: bool)
        ensures
            r == self.wf(),
    {
        let scheme = chars_of(self.scheme.as_str());
        let host = chars_of(self.host.as_str());
        let path = chars_of(self.path.as_str());
        proof {
            assert(scheme@.take(scheme.len() as int) == scheme@);
        }
        check_scheme(&scheme, scheme.len()) && !contains_char(&host, '/') && !contains_char(&host, '#') && !contains_char(
            &path,
            '#',
        ) && (path.len() == 0 || path[0] == '/')
    }

    /// Tells whether this locator and another name one source.
    pub fn same_source(&self, other: &Origin) -> (r: bool)
        ensures
            r == same_source(self@, other@),
    {
        self.scheme == other.scheme && self.path == other.path && same_ignoring_case(
            self.host.as_str(),
            other.host.as_str(),
        )
    }

    /// The text of the locator: `scheme://host/path`.
    pub fn to_text(&self) -> (r: String)
        ensures
            r@ == render_origin(self@),
    {
        let mut out = self.scheme.clone();
        out.append("://");
        out.append(self.host.as_str());
        out.append(self.path.as_str());
        proof {
            reveal_strlit("://");
            assert("://"@ =~= seq![':', '/', '/']);
        }
        out
    }
}

/// A complete locator as the locator of a specifier: the one that gives its
/// scheme, its host and its path.
pub open spec fn full_locator(o: OriginView) -> PartialOriginView {
    PartialOriginView { scheme: Some(o.scheme), host: o.host, path: o.path }
}

/// Validity of a specifier's locator: its text denotes it. The scheme, where
/// there is one, is a scheme; the host holds no `/`; the path is empty or begins
/// with `/`; there is no `#`; and without a scheme the text is not empty and
/// does not begin with what reads as one.
pub open spec fn locator_wf(p: PartialOriginView) -> bool {
    &&& p.scheme matches Some(s) ==> is_scheme(s)
    &&& !p.host.contains('/')
    &&& !p.host.contains('#')
    &&& !p.path.contains('#')
    &&& p.path.len() > 0 ==> p.path[0] == '/'
    &&& p.scheme is None ==> p.host.len() + p.path.len() > 0 && !has_scheme(p.host + p.path)
}

/// In a host followed by a path, the host ends before the first `/`.
proof fn lemma_host_then_path(host: Seq<char>, path: Seq<char>)
    requires
        !host.contains('/'),
        path.len() > 0 ==> path[0] == '/',
    ensures
        index_of(host + path, '/') == host.len(),
        (host + path).take(host.len() as int) == host,
        (host + path).skip(host.len() as int) == path,
{
    let rest = host + path;
    let h = host.len() as int;
    assert forall|j: int| 0 <= j < h implies rest[j] != '/' by {
        assert(rest[j] == host[j]);
        assert(host.contains(host[j]));
    }
    if path.len() > 0 {
        assert(rest[h] == path[0]);
    }
    lemma_index_of_is(rest, '/', h);
    assert(rest.take(h) =~= host);
    assert(rest.skip(h) =~= path);
}

/// A scheme holds no `:` and no `#`.
proof fn lemma_scheme_chars(s: Seq<char>)
    requires
        is_scheme(s),
    ensures
        !s.contains(':'),
        !s.contains('#'),
{
    assert forall|j: int| 0 <= j < s.len() implies s[j] != ':' && s[j] != '#' by {
        assert(is_scheme_char(s[j]));
    }
}

/// Reading the text of a valid locator gives back that locator. The text is
/// not empty, holds no `#`, and begins with a scheme exactly when the locator
/// has one.
pub proof fn lemma_locator_round_trip(p: PartialOriginView)
    requires
        locator_wf(p),
    ensures
        parse_locator(render_locator(p)) == p,
        has_scheme(render_locator(p)) == p.scheme is Some,
        !render_locator(p).contains('#'),
        render_locator(p).len() > 0,
{
    let text = render_locator(p);
    let rest = p.host + p.path;
    lemma_host_then_path(p.host, p.path);
    lemma_contains_concat(p.host, p.path, '#');
    match p.scheme {
        Some(s) => {
            let c = s.len() as int;
            let tail = seq!['/', '/'] + rest;
            lemma_scheme_chars(s);
            assert(text =~= s + seq![':'] + tail);
            lemma_split_at_first(s, ':', tail);
            assert(text[c + 1] == tail[0] && text[c + 2] == tail[1]);
            assert(text.skip(c + 3) =~= rest);
            lemma_contains_concat(seq!['/', '/'], rest, '#');
            lemma_contains_concat(seq![':'], tail, '#');
            lemma_contains_concat(s, seq![':'] + tail, '#');
            assert(text =~= s + (seq![':'] + tail));
            assert(!seq!['/', '/'].contains('#'));
            assert(!seq![':'].contains('#'));
        },
        None => {},
    }
}

/// A valid origin, taken as the locator of a specifier, is a valid locator
/// with the same text.
pub proof fn lemma_full_locator(o: OriginView)
    requires
        origin_wf(o),
    ensures
        locator_wf(full_locator(o)),
        render_locator(full_locator(o)) == render_origin(o),
{
}

} // verus!
