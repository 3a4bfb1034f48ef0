//! Laws of version text: a text denotes a version exactly when it is the text
//! of that version.

use vstd::prelude::*;
use crate::text::{index_of, lemma_index_of, lemma_index_of_is};
use crate::version::{
    all_digits,
    decimal,
    decimal_value,
    digit_char,
    digit_value,
    index_from,
    is_build,
    is_digit,
    is_dotted,
    is_ident_char,
    is_numeral,
    is_pre_release,
    lemma_decimal_value_prefix,
    lemma_dotted_nonempty,
    min_int,
    parse_suffix,
    parse_version,
    render_suffix,
    render_version,
    version_wf,
    VersionView,
};

verus! {

/// The decimal text of a number is a numeric field that denotes the number.
pub proof fn lemma_decimal(n: nat)
    ensures
        is_numeral(decimal(n)),
        decimal_value(decimal(n)) == n,
        decimal(n)[0] == '0' ==> n == 0,
    decreases n,
{
    if n < 10 {
        assert(decimal(n).drop_last() == Seq::<char>::empty());
        assert(decimal_value(decimal(n).drop_last()) == 0);
    } else {
        lemma_decimal(n / 10);
        let head = decimal(n / 10);
        let all = decimal(n);
        assert(all.drop_last() == head);
        assert(all[0] == head[0]);
        assert forall|i: int| 0 <= i < all.len() implies is_digit(#[trigger] all[i]) by {
            if i < head.len() {
                assert(all[i] == head[i]);
            }
        }
    }
}

/// Every character of a dotted list is a dot or an identifier character.
pub proof fn lemma_dotted_chars(s: Seq<char>, numeric_rule: bool)
    requires
        is_dotted(s, numeric_rule),
    ensures
        forall|i: int| 0 <= i < s.len() ==> s[i] == '.' || is_ident_char(#[trigger] s[i]),
    decreases s.len(),
{
    lemma_index_of(s, '.');
    let d = index_of(s, '.');
    let head = s.take(d);
    if d < s.len() {
        lemma_dotted_chars(s.skip(d + 1), numeric_rule);
    }
    assert forall|i: int| 0 <= i < s.len() implies s[i] == '.' || is_ident_char(
        #[trigger] s[i],
    ) by {
        if i < d {
            assert(s[i] == head[i]);
        } else if i > d {
            assert(s[i] == s.skip(d + 1)[i - d - 1]);
        }
    }
}

/// Reading the text of a suffix gives back the tag and the metadata it was made of.
pub proof fn lemma_suffix_round_trip(pre: Seq<char>, build: Seq<char>)
    requires
        pre.len() > 0 ==> is_pre_release(pre),
        build.len() > 0 ==> is_build(build),
    ensures
        parse_suffix(render_suffix(pre, build)) == Some((pre, build)),
{
    let t = render_suffix(pre, build);
    if pre.len() == 0 {
        assert(pre =~= Seq::<char>::empty());
        if build.len() == 0 {
            assert(build =~= Seq::<char>::empty());
            assert(t =~= Seq::<char>::empty());
        } else {
            assert(t =~= seq!['+'] + build);
            assert(t[0] == '+');
            assert(t.skip(1) =~= build);
        }
    } else {
        let n = pre.len() as int;
        lemma_dotted_chars(pre, true);
        assert(t[0] == '-');
        let rest = t.skip(1);
        assert forall|j: int| 0 <= j < pre.len() implies rest[j] != '+' by {
            assert(rest[j] == pre[j]);
        }
        if build.len() == 0 {
            assert(build =~= Seq::<char>::empty());
            assert(t =~= seq!['-'] + pre);
            lemma_index_of_is(rest, '+', n);
            assert(t.subrange(1, n + 1) =~= pre);
        } else {
            assert(t =~= seq!['-'] + pre + seq!['+'] + build);
            assert(rest[n] == '+');
            lemma_index_of_is(rest, '+', n);
            assert(t.subrange(1, n + 1) =~= pre);
            assert(t.skip(n + 2) =~= build);
        }
    }
}

/// The first character of a suffix, when there is one, is `-` or `+`.
proof fn lemma_suffix_start(pre: Seq<char>, build: Seq<char>)
    ensures
        render_suffix(pre, build).len() > 0 ==> render_suffix(pre, build)[0] == '-'
            || render_suffix(pre, build)[0] == '+',
{
}

/// A character that is no digit, no letter, no `.`, `-` or `+` does not occur in
/// the text of a valid version.
pub proof fn lemma_version_text_chars(v: VersionView, c: char)
    requires
        version_wf(v),
        !is_ident_char(c),
        c != '.',
        c != '+',
    ensures
        !render_version(v).contains(c),
{
    let a = decimal(v.major);
    let b = decimal(v.minor);
    let d = decimal(v.patch);
    lemma_decimal(v.major);
    lemma_decimal(v.minor);
    lemma_decimal(v.patch);
    if v.pre.len() > 0 {
        lemma_dotted_chars(v.pre, true);
    }
    if v.build.len() > 0 {
        lemma_dotted_chars(v.build, false);
    }
    let t = render_suffix(v.pre, v.build);
    let p = if v.pre.len() > 0 {
        seq!['-'] + v.pre
    } else {
        Seq::<char>::empty()
    };
    let q = if v.build.len() > 0 {
        seq!['+'] + v.build
    } else {
        Seq::<char>::empty()
    };
    assert forall|i: int| 0 <= i < p.len() implies p[i] != c by {
        if i > 0 {
            assert(p[i] == v.pre[i - 1]);
        }
    }
    assert forall|i: int| 0 <= i < q.len() implies q[i] != c by {
        if i > 0 {
            assert(q[i] == v.build[i - 1]);
        }
    }
    let s = render_version(v);
    assert(s =~= a + seq!['.'] + b + seq!['.'] + d + p + q);
    let n1 = a.len() as int;
    let n2 = n1 + 1 + b.len();
    let n3 = n2 + 1 + d.len();
    let n4 = n3 + p.len();
    assert forall|i: int| 0 <= i < s.len() implies s[i] != c by {
        if i < n1 {
            assert(s[i] == a[i]);
        } else if i == n1 {
        } else if i < n2 {
            assert(s[i] == b[i - n1 - 1]);
        } else if i == n2 {
        } else if i < n3 {
            assert(s[i] == d[i - n2 - 1]);
        } else if i < n4 {
            assert(s[i] == p[i - n3]);
        } else {
            assert(s[i] == q[i - n4]);
        }
    }
}

/// Reading the text of a valid version gives back that version.
pub proof fn lemma_version_round_trip(v: VersionView)
    requires
        version_wf(v),
    ensures
        parse_version(render_version(v)) == Some(v),
{
    let a = decimal(v.major);
    let b = decimal(v.minor);
    let c = decimal(v.patch);
    let t = render_suffix(v.pre, v.build);
    let s = render_version(v);
    let r2 = c + t;
    let r1 = b + seq!['.'] + r2;
    lemma_decimal(v.major);
    lemma_decimal(v.minor);
    lemma_decimal(v.patch);
    lemma_suffix_round_trip(v.pre, v.build);
    lemma_suffix_start(v.pre, v.build);
    assert(s =~= a + seq!['.'] + r1);
    let d1 = a.len() as int;
    let d2 = d1 + 1 + b.len();
    let e = d2 + 1 + c.len();
    lemma_split_at(a, '.', r1);
    lemma_split_at(b, '.', r2);
    lemma_core_end(c, t);
    assert(s.skip(0) =~= s);
    assert(s.skip(d1 + 1) =~= r1);
    assert(index_from(s, 0, '.') == d1);
    assert(index_from(s, d1 + 1, '.') == d2);
    assert(s.skip(d2 + 1) =~= r2);
    assert(min_int(index_from(s, d2 + 1, '-'), index_from(s, d2 + 1, '+')) == e);
    assert(s.subrange(0, d1) =~= a);
    assert(s.subrange(d1 + 1, d2) =~= b);
    assert(s.subrange(d2 + 1, e) =~= c);
    assert(s.skip(e) =~= t);
}

/// In `a`, then `c`, then `rest`, where `a` is made of digits and `c` is no
/// digit, the first `c` is the one that follows `a`.
proof fn lemma_split_at(a: Seq<char>, c: char, rest: Seq<char>)
    requires
        all_digits(a),
        !is_digit(c),
    ensures
        index_of(a + seq![c] + rest, c) == a.len(),
{
    let s = a + seq![c] + rest;
    assert forall|j: int| 0 <= j < a.len() implies s[j] != c by {
        assert(s[j] == a[j]);
    }
    assert(s[a.len() as int] == c);
    lemma_index_of_is(s, c, a.len() as int);
}

/// In a number followed by a suffix, the number ends where the first `-` or
/// `+` stands, or at the end.
proof fn lemma_core_end(c: Seq<char>, t: Seq<char>)
    requires
        all_digits(c),
        t.len() > 0 ==> t[0] == '-' || t[0] == '+',
    ensures
        min_int(index_of(c + t, '-'), index_of(c + t, '+')) == c.len(),
{
    let r = c + t;
    assert forall|j: int| 0 <= j < c.len() implies r[j] != '-' && r[j] != '+' by {
        assert(r[j] == c[j]);
    }
    lemma_index_of(r, '-');
    lemma_index_of(r, '+');
    if t.len() > 0 {
        assert(r[c.len() as int] == t[0]);
    }
}

/// A numeric field is the decimal text of the number that it denotes.
pub proof fn lemma_numeral_is_decimal(t: Seq<char>)
    requires
        is_numeral(t),
    ensures
        decimal(decimal_value(t)) == t,
    decreases t.len(),
{
    let head = t.drop_last();
    let last = t.last();
    assert(is_digit(last));
    assert(digit_char(digit_value(last)) == last);
    if t.len() == 1 {
        assert(head.len() == 0);
        assert(decimal_value(head) == 0);
        assert(decimal(decimal_value(t)) =~= t);
    } else {
        assert(head[0] == t[0]);
        assert(all_digits(head)) by {
            assert forall|i: int| 0 <= i < head.len() implies is_digit(#[trigger] head[i]) by {
                assert(head[i] == t[i]);
            }
        }
        lemma_numeral_is_decimal(head);
        lemma_decimal_value_prefix(head, 1);
        assert(head.take(1).drop_last() =~= Seq::<char>::empty());
        assert(decimal_value(head.take(1).drop_last()) == 0);
        assert(head.take(1).last() == head[0]);
        assert(decimal_value(head.take(1)) == digit_value(head[0]));
        assert(decimal_value(head) >= 1);
        let n = decimal_value(t);
        let m = decimal_value(head);
        let d = digit_value(last);
        assert(n == 10 * m + d);
        assert(n / 10 == m && n % 10 == d);
        assert(decimal(n) =~= head.push(last));
        assert(head.push(last) =~= t);
    }
}

/// What reading a suffix gives is valid, and its text is that suffix.
pub proof fn lemma_suffix_text(t: Seq<char>)
    requires
        parse_suffix(t) is Some,
    ensures
        match parse_suffix(t) {
            Some((pre, build)) => {
                &&& render_suffix(pre, build) == t
                &&& pre.len() > 0 ==> is_pre_release(pre)
                &&& build.len() > 0 ==> is_build(build)
            },
            None => false,
        },
{
    let (pre, build) = parse_suffix(t)->0;
    if t.len() == 0 {
        assert(render_suffix(pre, build) =~= t);
    } else if t[0] == '+' {
        lemma_dotted_nonempty(build, false);
        assert(render_suffix(pre, build) =~= t);
    } else {
        let plus = index_from(t, 1, '+');
        lemma_index_of(t.skip(1), '+');
        lemma_dotted_nonempty(pre, true);
        if plus == t.len() {
            assert(render_suffix(pre, build) =~= t);
        } else {
            lemma_dotted_nonempty(build, false);
            assert(t[plus] == t.skip(1)[plus - 1]);
            assert(render_suffix(pre, build) =~= t);
        }
    }
}

/// A text denotes a version exactly when the version is valid and the text is
/// its text. So no two texts denote one version, and no text denotes two.
pub proof fn lemma_version_text(s: Seq<char>, v: VersionView)
    ensures
        parse_version(s) == Some(v) <==> version_wf(v) && render_version(v) == s,
{
    if version_wf(v) && render_version(v) == s {
        lemma_version_round_trip(v);
    }
    if parse_version(s) == Some(v) {
        let d1 = index_from(s, 0, '.');
        let d2 = index_from(s, d1 + 1, '.');
        let dash = index_from(s, d2 + 1, '-');
        let plus = index_from(s, d2 + 1, '+');
        let e = min_int(dash, plus);
        assert(s.skip(0) =~= s);
        lemma_index_of(s, '.');
        lemma_index_of(s.skip(d1 + 1), '.');
        lemma_index_of(s.skip(d2 + 1), '-');
        lemma_index_of(s.skip(d2 + 1), '+');
        let a = s.subrange(0, d1);
        let b = s.subrange(d1 + 1, d2);
        let c = s.subrange(d2 + 1, e);
        let t = s.skip(e);
        lemma_numeral_is_decimal(a);
        lemma_numeral_is_decimal(b);
        lemma_numeral_is_decimal(c);
        lemma_suffix_text(t);
        assert(s[d1] == s.skip(0)[d1]);
        assert(s[d2] == s.skip(d1 + 1)[d2 - d1 - 1]);
        assert(s =~= a + seq!['.'] + b + seq!['.'] + c + t);
    }
}

/// Two texts that denote versions denote the same version only when they are
/// the same text: a pre-release tag or build metadata always tells.
pub proof fn lemma_version_texts_differ(s: Seq<char>, t: Seq<char>)
    requires
        parse_version(s) is Some,
        parse_version(t) is Some,
        s != t,
    ensures
        parse_version(s) != parse_version(t),
{
    lemma_version_text(s, parse_version(s)->0);
    lemma_version_text(t, parse_version(t)->0);
}

} // verus!
