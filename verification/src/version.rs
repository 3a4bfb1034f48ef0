//! Semantic versions: the value, its grammar, its text form.
//!
//! A version is written `major.minor.patch`, optionally followed by `-` and a
//! pre-release tag, optionally followed by `+` and build metadata. Two versions
//! are equal only when all five parts are equal.

use vstd::prelude::*;
use crate::text::{chars_of, find_from, find_in, index_of, lemma_index_of};

verus! {

/// A semantic version. An empty `pre` or `build` means that the part is absent.
#[derive(Debug, PartialEq, Eq)]
pub struct Version {
    pub major: u64,
    pub minor: u64,
    pub patch: u64,
    pub pre: String,
    pub build: String,
}

/// The mathematical value of a [`Version`].
pub struct VersionView {
    pub major: nat,
    pub minor: nat,
    pub patch: nat,
    pub pre: Seq<char>,
    pub build: Seq<char>,
}

impl View for Version {
    type V = VersionView;

    open spec fn view(&self) -> VersionView {
        VersionView {
            major: self.major as nat,
            minor: self.minor as nat,
            patch: self.patch as nat,
            pre: self.pre@,
            build: self.build@,
        }
    }
}

/// A decimal digit.
pub open spec fn is_digit(c: char) -> bool {
    '0' <= c && c <= '9'
}

/// A character of an identifier: an ASCII letter, a digit or a hyphen.
pub open spec fn is_ident_char(c: char) -> bool {
    is_digit(c) || ('a' <= c && c <= 'z') || ('A' <= c && c <= 'Z') || c == '-'
}

/// The number that a decimal digit stands for.
pub open spec fn digit_value(c: char) -> nat {
    (c as u8 - 48) as nat
}

/// The decimal digit that stands for `d`, for `d` below ten.
pub open spec fn digit_char(d: nat) -> char {
    ((d + 48) as u8) as char
}

/// Tells whether every character is a decimal digit.
pub open spec fn all_digits(s: Seq<char>) -> bool {
    forall|i: int| 0 <= i < s.len() ==> is_digit(#[trigger] s[i])
}

/// The number that a sequence of decimal digits denotes, most significant digit first.
pub open spec fn decimal_value(s: Seq<char>) -> nat
    decreases s.len(),
{
    if s.len() == 0 {
        0
    } else {
        10 * decimal_value(s.drop_last()) + digit_value(s.last())
    }
}

/// The decimal text of a number, without leading zeros.
pub open spec fn decimal(n: nat) -> Seq<char>
    decreases n,
{
    if n < 10 {
        seq![digit_char(n)]
    } else {
        decimal(n / 10).push(digit_char(n % 10))
    }
}

/// A numeric field: one or more digits, with no leading zero unless it is `0` itself.
pub open spec fn is_numeral(s: Seq<char>) -> bool {
    &&& s.len() > 0
    &&& all_digits(s)
    &&& s.len() > 1 ==> s[0] != '0'
}

/// The value of a numeric field that fits in 64 bits; `None` for any other text.
pub open spec fn number_of(s: Seq<char>) -> Option<nat> {
    if is_numeral(s) && decimal_value(s) <= u64::MAX {
        Some(decimal_value(s))
    } else {
        None
    }
}

/// An identifier of build metadata: one or more letters, digits or hyphens.
pub open spec fn is_identifier(s: Seq<char>) -> bool {
    &&& s.len() > 0
    &&& forall|i: int| 0 <= i < s.len() ==> is_ident_char(#[trigger] s[i])
}

/// An identifier of a pre-release tag: an identifier that, when it is all digits,
/// has no leading zero.
pub open spec fn is_pre_identifier(s: Seq<char>) -> bool {
    &&& is_identifier(s)
    &&& all_digits(s) ==> is_numeral(s)
}

/// One or more identifiers separated by dots. With `numeric_rule` the identifiers
/// are those of a pre-release tag, without it those of build metadata.
pub open spec fn is_dotted(s: Seq<char>, numeric_rule: bool) -> bool
    decreases s.len(),
{
    let d = index_of(s, '.');
    let head = s.take(d);
    &&& if numeric_rule {
        is_pre_identifier(head)
    } else {
        is_identifier(head)
    }
    &&& 0 <= d < s.len() ==> is_dotted(s.skip(d + 1), numeric_rule)
}

/// A pre-release tag, such as `beta.1`.
pub open spec fn is_pre_release(s: Seq<char>) -> bool {
    is_dotted(s, true)
}

/// Build metadata, such as `build.007`.
pub open spec fn is_build(s: Seq<char>) -> bool {
    is_dotted(s, false)
}

/// Position of the first `c` at or after `start`; the length when there is none.
pub open spec fn index_from(s: Seq<char>, start: int, c: char) -> int {
    start + index_of(s.skip(start), c)
}

/// The smaller of two integers.
pub open spec fn min_int(a: int, b: int) -> int {
    if a <= b {
        a
    } else {
        b
    }
}

/// Reads what follows the patch number: nothing, `-pre`, `+build` or `-pre+build`.
/// The result is the pair of the pre-release tag and the build metadata.
pub open spec fn parse_suffix(t: Seq<char>) -> Option<(Seq<char>, Seq<char>)> {
    if t.len() == 0 {
        Some((Seq::<char>::empty(), Seq::<char>::empty()))
    } else if t[0] == '+' {
        if is_build(t.skip(1)) {
            Some((Seq::<char>::empty(), t.skip(1)))
        } else {
            None
        }
    } else if t[0] == '-' {
        let plus = index_from(t, 1, '+');
        let pre = t.subrange(1, plus);
        if !is_pre_release(pre) {
            None
        } else if plus == t.len() {
            Some((pre, Seq::<char>::empty()))
        } else if is_build(t.skip(plus + 1)) {
            Some((pre, t.skip(plus + 1)))
        } else {
            None
        }
    } else {
        None
    }
}

/// The version that a text denotes; `None` for a text that is no semantic version,
/// or whose numbers do not fit in 64 bits.
pub open spec fn parse_version(s: Seq<char>) -> Option<VersionView> {
    let d1 = index_from(s, 0, '.');
    let d2 = index_from(s, d1 + 1, '.');
    let e = min_int(index_from(s, d2 + 1, '-'), index_from(s, d2 + 1, '+'));
    if d1 < s.len() && d2 < s.len() {
        match (
            number_of(s.subrange(0, d1)),
            number_of(s.subrange(d1 + 1, d2)),
            number_of(s.subrange(d2 + 1, e)),
            parse_suffix(s.skip(e)),
        ) {
            (Some(major), Some(minor), Some(patch), Some((pre, build))) => Some(
                VersionView { major, minor, patch, pre, build },
            ),
            _ => None,
        }
    } else {
        None
    }
}

/// The part of a version's text that follows the patch number.
pub open spec fn render_suffix(pre: Seq<char>, build: Seq<char>) -> Seq<char> {
    (if pre.len() > 0 {
        seq!['-'] + pre
    } else {
        Seq::<char>::empty()
    }) + (if build.len() > 0 {
        seq!['+'] + build
    } else {
        Seq::<char>::empty()
    })
}

/// The text of a version.
pub open spec fn render_version(v: VersionView) -> Seq<char> {
    decimal(v.major) + seq!['.'] + decimal(v.minor) + seq!['.'] + decimal(v.patch) + render_suffix(
        v.pre,
        v.build,
    )
}

/// Validity of a version value: each part that is present obeys the grammar.
pub open spec fn version_wf(v: VersionView) -> bool {
    &&& v.major <= u64::MAX
    &&& v.minor <= u64::MAX
    &&& v.patch <= u64::MAX
    &&& v.pre.len() > 0 ==> is_pre_release(v.pre)
    &&& v.build.len() > 0 ==> is_build(v.build)
}

/// A longer digit sequence denotes at least what its prefix denotes.
pub proof fn lemma_decimal_value_prefix(s: Seq<char>, k: int)
    requires
        0 <= k <= s.len(),
    ensures
        decimal_value(s.take(k)) <= decimal_value(s),
    decreases s.len() - k,
{
    if k == s.len() {
        assert(s.take(k) == s);
    } else {
        lemma_decimal_value_prefix(s.drop_last(), k);
        assert(s.drop_last().take(k) == s.take(k));
    }
}

fn digit_of(c: char) -> (d: u64)
    requires
        is_digit(c),
    ensures
        d == digit_value(c),
        d < 10,
{
    ((c as u8) - 48) as u64
}

/// Reads the numeric field that occupies positions `a..b` of `v`.
fn read_number(v: &Vec<char>, a: usize, b: usize) -> (r: Option<u64>)
    requires
        a <= b <= v.len(),
    ensures
        match r {
            Some(n) => number_of(v@.subrange(a as int, b as int)) == Some(n as nat),
            None => number_of(v@.subrange(a as int, b as int)) is None,
        },
{
    let ghost s = v@.subrange(a as int, b as int);
    if a == b {
        return None;
    }
    if b - a > 1 && v[a] == '0' {
        assert(s[0] == '0');
        return None;
    }
    let mut acc: u64 = 0;
    let mut i: usize = a;
    while i < b
        invariant
            a <= i <= b <= v.len(),
            s == v@.subrange(a as int, b as int),
            acc == decimal_value(s.take(i - a)),
            forall|j: int| 0 <= j < i - a ==> is_digit(#[trigger] s[j]),
        decreases b - i,
    {
        let c = v[i];
        if !('0' <= c && c <= '9') {
            assert(!is_digit(s[i - a]));
            return None;
        }
        let d = digit_of(c);
        proof {
            assert(s.take(i - a + 1).drop_last() == s.take(i - a));
            assert(s.take(i - a + 1).last() == c);
            lemma_decimal_value_prefix(s, i - a + 1);
        }
        if acc > (u64::MAX - d) / 10 {
            return None;
        }
        acc = acc * 10 + d;
        i += 1;
    }
    proof {
        assert(s.take(b - a) == s);
    }
    Some(acc)
}

/// Tells, of the characters at positions `a..b`, whether all are identifier
/// characters and whether all are digits.
fn classify(v: &Vec<char>, a: usize, b: usize) -> (r: (bool, bool))
    requires
        a <= b <= v.len(),
    ensures
        r.0 == (forall|j: int| a <= j < b ==> is_ident_char(#[trigger] v@[j])),
        r.1 == (forall|j: int| a <= j < b ==> is_digit(#[trigger] v@[j])),
{
    let mut ident = true;
    let mut digits = true;
    let mut i: usize = a;
    while i < b
        invariant
            a <= i <= b <= v.len(),
            ident == (forall|j: int| a <= j < i ==> is_ident_char(#[trigger] v@[j])),
            digits == (forall|j: int| a <= j < i ==> is_digit(#[trigger] v@[j])),
        decreases b - i,
    {
        let c = v[i];
        let d = '0' <= c && c <= '9';
        let l = d || ('a' <= c && c <= 'z') || ('A' <= c && c <= 'Z') || c == '-';
        if !d {
            digits = false;
        }
        if !l {
            ident = false;
        }
        i += 1;
    }
    (ident, digits)
}

/// Tells whether positions `a..b` of `v` hold one identifier.
fn check_identifier(v: &Vec<char>, a: usize, b: usize, numeric_rule: bool) -> (r: bool)
    requires
        a <= b <= v.len(),
    ensures
        r == if numeric_rule {
            is_pre_identifier(v@.subrange(a as int, b as int))
        } else {
            is_identifier(v@.subrange(a as int, b as int))
        },
{
    let ghost s = v@.subrange(a as int, b as int);
    let (ident, digits) = classify(v, a, b);
    proof {
        assert(ident == (forall|j: int| 0 <= j < s.len() ==> is_ident_char(#[trigger] s[j]))) by {
            if ident {
                assert forall|j: int| 0 <= j < s.len() implies is_ident_char(#[trigger] s[j]) by {
                    assert(s[j] == v@[a + j]);
                }
            } else {
                let j = choose|j: int| a <= j < b && !is_ident_char(#[trigger] v@[j]);
                assert(s[j - a] == v@[j]);
            }
        }
        assert(digits == all_digits(s)) by {
            if digits {
                assert forall|j: int| 0 <= j < s.len() implies is_digit(#[trigger] s[j]) by {
                    assert(s[j] == v@[a + j]);
                }
            } else {
                let j = choose|j: int| a <= j < b && !is_digit(#[trigger] v@[j]);
                assert(s[j - a] == v@[j]);
            }
        }
    }
    if a == b || !ident {
        return false;
    }
    if numeric_rule && digits && b - a > 1 && v[a] == '0' {
        assert(s[0] == '0');
        return false;
    }
    true
}

/// Tells whether positions `a..b` of `v` hold identifiers separated by dots.
fn check_dotted(v: &Vec<char>, a: usize, b: usize, numeric_rule: bool) -> (r: bool)
    requires
        a <= b <= v.len(),
    ensures
        r == is_dotted(v@.subrange(a as int, b as int), numeric_rule),
{
    let mut start: usize = a;
    loop
        invariant
            a <= start <= b <= v.len(),
            is_dotted(v@.subrange(a as int, b as int), numeric_rule) == is_dotted(
                v@.subrange(start as int, b as int),
                numeric_rule,
            ),
        decreases b - start,
    {
        let ghost s = v@.subrange(start as int, b as int);
        let end = find_in(v, start, b, '.');
        proof {
            assert(s.take(end - start) == v@.subrange(start as int, end as int));
            if end < b {
                assert(s.skip(end - start + 1) == v@.subrange(end + 1, b as int));
            }
        }
        if !check_identifier(v, start, end, numeric_rule) {
            return false;
        }
        if end == b {
            return true;
        }
        start = end + 1;
    }
}

/// Reads what follows the patch number, which ends before position `e` of `text`.
fn read_suffix(text: &str, v: &Vec<char>, e: usize) -> (r: Option<(String, String)>)
    requires
        v@ == text@,
        e <= v.len(),
    ensures
        match r {
            Some((pre, build)) => parse_suffix(text@.skip(e as int)) == Some((pre@, build@)),
            None => parse_suffix(text@.skip(e as int)) is None,
        },
{
    let n = v.len();
    let ghost t = text@.skip(e as int);
    if e == n {
        return Some((String::new(), String::new()));
    }
    assert(t[0] == v@[e as int]);
    if v[e] == '+' {
        proof {
            assert(t.skip(1) == v@.subrange(e + 1, n as int));
        }
        if !check_dotted(v, e + 1, n, false) {
            return None;
        }
        let build = text.substring_char(e + 1, n).to_owned();
        return Some((String::new(), build));
    }
    if v[e] != '-' {
        return None;
    }
    let plus = find_from(v, e + 1, '+');
    proof {
        assert(t.skip(1) == v@.skip(e + 1));
        assert(index_from(t, 1, '+') == plus - e);
        assert(t.subrange(1, plus - e) == v@.subrange(e + 1, plus as int));
        if plus < n {
            assert(t.skip(plus - e + 1) == v@.subrange(plus + 1, n as int));
        }
    }
    if !check_dotted(v, e + 1, plus, true) {
        return None;
    }
    let pre = text.substring_char(e + 1, plus).to_owned();
    if plus == n {
        return Some((pre, String::new()));
    }
    if !check_dotted(v, plus + 1, n, false) {
        return None;
    }
    let build = text.substring_char(plus + 1, n).to_owned();
    Some((pre, build))
}

impl Version {
    /// Validity: each part that is present obeys the grammar.
    pub open spec fn wf(&self) -> bool {
        version_wf(self@)
    }

    /// Reads a version from its text. The result is `None` exactly when the text
    /// is no semantic version or holds a number that does not fit in 64 bits.
    pub fn parse(text: &str) -> (r: Option<Version>)
        ensures
            match r {
                Some(v) => parse_version(text@) == Some(v@) && v.wf(),
                None => parse_version(text@) is None,
            },
    {
        let v = chars_of(text);
        let n = v.len();
        let d1 = find_from(&v, 0, '.');
        if d1 >= n {
            return None;
        }
        let d2 = find_from(&v, d1 + 1, '.');
        if d2 >= n {
            return None;
        }
        let dash = find_from(&v, d2 + 1, '-');
        let plus = find_from(&v, d2 + 1, '+');
        let e = if dash <= plus {
            dash
        } else {
            plus
        };
        let major = read_number(&v, 0, d1);
        let minor = read_number(&v, d1 + 1, d2);
        let patch = read_number(&v, d2 + 1, e);
        let suffix = read_suffix(text, &v, e);
        match (major, minor, patch, suffix) {
            (Some(major), Some(minor), Some(patch), Some((pre, build))) => {
                proof {
                    lemma_dotted_nonempty(pre@, true);
                    lemma_dotted_nonempty(build@, false);
                }
                Some(Version { major, minor, patch, pre, build })
            },
            _ => None,
        }
    }
}

/// A dotted list of identifiers is never empty.
pub proof fn lemma_dotted_nonempty(s: Seq<char>, numeric_rule: bool)
    ensures
        is_dotted(s, numeric_rule) ==> s.len() > 0,
{
    lemma_index_of(s, '.');
}

fn digit_text(d: u64) -> (r: &'static str)
    requires
        d < 10,
    ensures
        r@ == seq![digit_char(d as nat)],
{
    proof {
        reveal_strlit("0");
        reveal_strlit("1");
        reveal_strlit("2");
        reveal_strlit("3");
        reveal_strlit("4");
        reveal_strlit("5");
        reveal_strlit("6");
        reveal_strlit("7");
        reveal_strlit("8");
        reveal_strlit("9");
    }
    let r = if d == 0 {
        "0"
    } else if d == 1 {
        "1"
    } else if d == 2 {
        "2"
    } else if d == 3 {
        "3"
    } else if d == 4 {
        "4"
    } else if d == 5 {
        "5"
    } else if d == 6 {
        "6"
    } else if d == 7 {
        "7"
    } else if d == 8 {
        "8"
    } else {
        "9"
    };
    assert(r@ =~= seq![digit_char(d as nat)]);
    r
}

/// Appends the decimal text of `n` to `out`.
pub fn push_decimal(out: &mut String, n: u64)
    ensures
        final(out)@ == old(out)@ + decimal(n as nat),
    decreases n,
{
    if n >= 10 {
        push_decimal(out, n / 10);
    }
    out.append(digit_text(n % 10));
    proof {
        if n >= 10 {
            assert(old(out)@ + decimal((n / 10) as nat) + seq![digit_char((n % 10) as nat)]
                =~= old(out)@ + decimal(n as nat));
        }
    }
}

impl Clone for Version {
    fn clone(&self) -> (r: Self)
        ensures
            r == *self,
    {
        Version {
            major: self.major,
            minor: self.minor,
            patch: self.patch,
            pre: self.pre.clone(),
            build: self.build.clone(),
        }
    }
}

impl Version {
    /// Tells whether two versions are equal in all five parts.
    pub fn same(&self, other: &Version) -> (r: bool)
        ensures
            r == (self@ == other@),
    {
        self.major == other.major && self.minor == other.minor && self.patch == other.patch
            && self.pre == other.pre && self.build == other.build
    }

    /// Tells whether the version is valid.
    pub fn is_valid(&self) -> (r: bool)
        ensures
            r == self.wf(),
    {
        let pre = chars_of(self.pre.as_str());
        let build = chars_of(self.build.as_str());
        proof {
            assert(pre@.subrange(0, pre.len() as int) == pre@);
            assert(build@.subrange(0, build.len() as int) == build@);
        }
        (pre.len() == 0 || check_dotted(&pre, 0, pre.len(), true)) && (build.len() == 0
            || check_dotted(&build, 0, build.len(), false))
    }

    /// The text of the version.
    pub fn to_text(&self) -> (r: String)
        ensures
            r@ == render_version(self@),
    {
        let mut out = String::new();
        push_decimal(&mut out, self.major);
        out.append(".");
        push_decimal(&mut out, self.minor);
        out.append(".");
        push_decimal(&mut out, self.patch);
        if !self.pre.as_str().is_empty() {
            out.append("-");
            out.append(self.pre.as_str());
        }
        if !self.build.as_str().is_empty() {
            out.append("+");
            out.append(self.build.as_str());
        }
        proof {
            reveal_strlit(".");
            reveal_strlit("-");
            reveal_strlit("+");
            assert("."@ =~= seq!['.']);
            assert("-"@ =~= seq!['-']);
            assert("+"@ =~= seq!['+']);
            assert(out@ =~= render_version(self@));
        }
        out
    }
}

} // verus!
