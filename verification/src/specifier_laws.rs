//! Laws of specifier text: the text of a valid identity denotes that identity.

use vstd::prelude::*;
use crate::origin::{has_scheme, lemma_locator_round_trip, locator_wf, render_locator};
use crate::package::name_wf;
use crate::specifier::{
    empty_partial,
    parse_name_version,
    parse_specifier,
    render_name_version,
    render_partial,
    ParseErrorView,
    PartialView,
};
use crate::text::{lemma_contains_concat, lemma_index_of, lemma_split_at_first};
use crate::version::{decimal, is_digit, render_version, version_wf, VersionView};
use crate::version_laws::{lemma_decimal, lemma_version_round_trip, lemma_version_text_chars};

verus! {

/// Validity of a partial identity: its text denotes it.
///
/// Each part that is present is valid. Without an origin the text has no `#`,
/// so a version needs a name before it and the name holds no `/`. With an
/// origin and nothing else the text has no `#` either, so the origin has a
/// scheme or a path. Behind a `#` a name that stands alone does not begin
/// with a digit, which would make it a version.
pub open spec fn partial_wf(p: PartialView) -> bool {
    &&& p.name matches Some(n) ==> name_wf(n)
    &&& p.version matches Some(v) ==> version_wf(v)
    &&& match p.origin {
        None => {
            &&& p.version is Some ==> p.name is Some
            &&& p.name matches Some(n) ==> !n.contains('/')
        },
        Some(o) => {
            &&& locator_wf(o)
            &&& p.name is None && p.version is None ==> o.scheme is Some || o.path.len() > 0
            &&& p.name matches Some(n) ==> (p.version is None ==> !is_digit(n[0]))
        },
    }
}

/// The text of a valid version begins with a digit.
proof fn lemma_version_text_start(v: VersionView)
    requires
        version_wf(v),
    ensures
        render_version(v).len() > 0,
        is_digit(render_version(v)[0]),
{
    lemma_decimal(v.major);
    assert(render_version(v)[0] == decimal(v.major)[0]);
}

/// Reading the naming part of a valid identity gives back the name and the
/// version of that identity.
proof fn lemma_naming_round_trip(p: PartialView, behind_hash: bool, raw: Seq<char>)
    requires
        p.name matches Some(n) ==> name_wf(n),
        p.version matches Some(v) ==> version_wf(v),
        p.name is Some || p.version is Some,
        p.name is None ==> behind_hash,
        p.name matches Some(n) ==> (behind_hash && p.version is None ==> !is_digit(n[0])),
    ensures
        parse_name_version(render_name_version(p), behind_hash, raw, p.origin) == Ok::<
            PartialView,
            ParseErrorView,
        >(p),
        !render_name_version(p).contains('#'),
        !render_name_version(p).contains('/') <==> !(p.name matches Some(n) && n.contains('/')),
        render_name_version(p).len() > 0,
        p.version is Some ==> !has_scheme(render_name_version(p)),
{
    let text = render_name_version(p);
    match (p.name, p.version) {
        (Some(n), Some(v)) => {
            let vt = render_version(v);
            lemma_version_round_trip(v);
            lemma_version_text_chars(v, '#');
            lemma_version_text_chars(v, '/');
            lemma_version_text_start(v);
            lemma_split_at_first(n, ':', vt);
            assert(text =~= n + (seq![':'] + vt));
            lemma_contains_concat(n, seq![':'] + vt, '#');
            lemma_contains_concat(seq![':'], vt, '#');
            lemma_contains_concat(n, seq![':'] + vt, '/');
            lemma_contains_concat(seq![':'], vt, '/');
            assert(!seq![':'].contains('#'));
            assert(!seq![':'].contains('/'));
            assert(text[n.len() as int + 1] == vt[0]);
        },
        (Some(n), None) => {
            lemma_index_of(n, ':');
        },
        (None, Some(v)) => {
            lemma_version_round_trip(v);
            lemma_version_text_chars(v, '#');
            lemma_version_text_chars(v, '/');
            lemma_version_text_chars(v, ':');
            lemma_version_text_start(v);
            lemma_index_of(text, ':');
        },
        (None, None) => {},
    }
}

/// Reading the text of a valid identity gives back that identity. Every form
/// that a specifier can take is the text of one valid identity.
pub proof fn lemma_partial_round_trip(p: PartialView)
    requires
        partial_wf(p),
    ensures
        parse_specifier(render_partial(p)) == Ok::<PartialView, ParseErrorView>(p),
{
    let raw = render_partial(p);
    let naming = render_name_version(p);
    match p.origin {
        None => {
            if p.name is None {
                assert(raw =~= Seq::<char>::empty());
                assert(p == empty_partial());
            } else {
                lemma_naming_round_trip(p, false, raw);
                lemma_index_of(raw, '#');
                lemma_index_of(raw, ':');
            }
        },
        Some(o) => {
            let left = render_locator(o);
            lemma_locator_round_trip(o);
            if p.name is None && p.version is None {
                lemma_index_of(raw, '#');
                if o.scheme is None {
                    assert(raw[o.host.len() as int] == o.path[0]);
                }
            } else {
                lemma_naming_round_trip(p, true, raw);
                lemma_split_at_first(left, '#', naming);
                assert(raw =~= left + seq!['#'] + naming);
            }
        },
    }
}

} // verus!
