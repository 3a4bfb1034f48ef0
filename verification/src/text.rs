//! Character sequences: the small vocabulary that the parsers share.

use vstd::prelude::*;

verus! {

/// Position of the first occurrence of `c` in `s`, or `s.len()` when `c` does not occur.
pub open spec fn index_of(s: Seq<char>, c: char) -> int
    decreases s.len(),
{
    if s.len() == 0 {
        0
    } else if s[0] == c {
        0
    } else {
        1 + index_of(s.drop_first(), c)
    }
}

/// Position of the last occurrence of `c` in `s`, or `-1` when `c` does not occur.
pub open spec fn last_index_of(s: Seq<char>, c: char) -> int
    decreases s.len(),
{
    if s.len() == 0 {
        -1
    } else if s.last() == c {
        s.len() - 1
    } else {
        last_index_of(s.drop_last(), c)
    }
}

/// The ASCII lower-case form of a character; every other character is itself.
pub open spec fn lower(c: char) -> char {
    if 'A' <= c && c <= 'Z' {
        ((c as u8) + 32) as char
    } else {
        c
    }
}

/// Equality of two character sequences up to the case of ASCII letters.
pub open spec fn eq_ignore_case(a: Seq<char>, b: Seq<char>) -> bool {
    &&& a.len() == b.len()
    &&& forall|i: int| 0 <= i < a.len() ==> lower(#[trigger] a[i]) == lower(b[i])
}

/// `index_of` returns the least position that holds `c`, and the length when none does.
pub proof fn lemma_index_of(s: Seq<char>, c: char)
    ensures
        0 <= index_of(s, c) <= s.len(),
        forall|j: int| 0 <= j < index_of(s, c) ==> s[j] != c,
        index_of(s, c) < s.len() ==> s[index_of(s, c)] == c,
        index_of(s, c) == s.len() <==> !s.contains(c),
    decreases s.len(),
{
    if s.len() == 0 {
    } else if s[0] == c {
    } else {
        let t = s.drop_first();
        lemma_index_of(t, c);
        assert forall|j: int| 0 <= j < index_of(s, c) implies s[j] != c by {
            if j > 0 {
                assert(s[j] == t[j - 1]);
            }
        }
        if index_of(s, c) == s.len() {
            assert forall|j: int| 0 <= j < s.len() implies s[j] != c by {}
        } else {
            assert(s[index_of(s, c)] == t[index_of(t, c)]);
        }
    }
}

/// Any position that holds `c` and has no `c` before it is the one `index_of` returns.
pub proof fn lemma_index_of_is(s: Seq<char>, c: char, i: int)
    requires
        0 <= i <= s.len(),
        forall|j: int| 0 <= j < i ==> s[j] != c,
        i < s.len() ==> s[i] == c,
    ensures
        index_of(s, c) == i,
{
    lemma_index_of(s, c);
}

/// `last_index_of` returns the greatest position that holds `c`, and `-1` when none does.
pub proof fn lemma_last_index_of(s: Seq<char>, c: char)
    ensures
        -1 <= last_index_of(s, c) < s.len(),
        forall|j: int| last_index_of(s, c) < j < s.len() ==> s[j] != c,
        0 <= last_index_of(s, c) ==> s[last_index_of(s, c)] == c,
    decreases s.len(),
{
    if s.len() == 0 {
    } else if s.last() == c {
    } else {
        let t = s.drop_last();
        lemma_last_index_of(t, c);
        assert forall|j: int| last_index_of(s, c) < j < s.len() implies s[j] != c by {
            if j < s.len() - 1 {
                assert(s[j] == t[j]);
            }
        }
        if 0 <= last_index_of(s, c) {
            assert(s[last_index_of(s, c)] == t[last_index_of(t, c)]);
        }
    }
}

/// A character occurs in two sequences put together exactly when it occurs in
/// one of them.
pub proof fn lemma_contains_concat(a: Seq<char>, b: Seq<char>, c: char)
    ensures
        (a + b).contains(c) <==> a.contains(c) || b.contains(c),
{
    let s = a + b;
    if s.contains(c) {
        let i = choose|i: int| 0 <= i < s.len() && s[i] == c;
        if i < a.len() {
            assert(a[i] == c);
        } else {
            assert(b[i - a.len()] == c);
        }
    }
    if a.contains(c) {
        let i = choose|i: int| 0 <= i < a.len() && a[i] == c;
        assert(s[i] == c);
    }
    if b.contains(c) {
        let i = choose|i: int| 0 <= i < b.len() && b[i] == c;
        assert(s[a.len() + i] == c);
    }
}

/// In `a`, then `c`, then `rest`, where `c` does not occur in `a`, the first
/// `c` is the one that follows `a`: it splits the whole into `a` and `rest`.
pub proof fn lemma_split_at_first(a: Seq<char>, c: char, rest: Seq<char>)
    requires
        !a.contains(c),
    ensures
        index_of(a + seq![c] + rest, c) == a.len(),
        (a + seq![c] + rest).take(a.len() as int) == a,
        (a + seq![c] + rest).skip(a.len() as int + 1) == rest,
{
    let s = a + seq![c] + rest;
    let n = a.len() as int;
    assert forall|j: int| 0 <= j < n implies s[j] != c by {
        assert(s[j] == a[j]);
        assert(a.contains(a[j]));
    }
    assert(s[n] == c);
    lemma_index_of_is(s, c, n);
    assert(s.take(n) =~= a);
    assert(s.skip(n + 1) =~= rest);
}

/// Copies the characters of a string slice into a vector, in order.
pub fn chars_of(s: &str) -> (v: Vec<char>)
    ensures
        v@ == s@,
{
    let mut v: Vec<char> = Vec::new();
    for c in it: s.chars()
        invariant
            it.seq() == s@,
            v@ == it.seq().take(it.index()),
    {
        v.push(c);
    }
    v
}

/// Finds the first `c` at or after `start`; the length of `v` when there is none.
pub fn find_from(v: &Vec<char>, start: usize, c: char) -> (i: usize)
    requires
        start <= v.len(),
    ensures
        i == start + index_of(v@.skip(start as int), c),
        start <= i <= v.len(),
{
    let mut i: usize = start;
    while i < v.len() && v[i] != c
        invariant
            start <= i <= v.len(),
            forall|j: int| start <= j < i ==> v@[j] != c,
        decreases v.len() - i,
    {
        i += 1;
    }
    proof {
        lemma_index_of_is(v@.skip(start as int), c, i - start);
    }
    i
}

/// Tells whether `c` occurs in `v`.
pub fn contains_char(v: &Vec<char>, c: char) -> (r: bool)
    ensures
        r == v@.contains(c),
{
    let i = find_from(v, 0, c);
    proof {
        assert(v@.skip(0) == v@);
        lemma_index_of(v@, c);
    }
    i < v.len()
}

/// Finds the first `c` among positions `a..b`; `b` when there is none.
pub fn find_in(v: &Vec<char>, a: usize, b: usize, c: char) -> (i: usize)
    requires
        a <= b <= v.len(),
    ensures
        i == a + index_of(v@.subrange(a as int, b as int), c),
        a <= i <= b,
{
    let mut i: usize = a;
    while i < b && v[i] != c
        invariant
            a <= i <= b <= v.len(),
            forall|j: int| a <= j < i ==> v@[j] != c,
        decreases b - i,
    {
        i += 1;
    }
    proof {
        lemma_index_of_is(v@.subrange(a as int, b as int), c, i - a);
    }
    i
}

/// Finds the last `c` in `v`.
pub fn find_last(v: &Vec<char>, c: char) -> (r: Option<usize>)
    ensures
        match r {
            Some(i) => i == last_index_of(v@, c),
            None => last_index_of(v@, c) == -1,
        },
{
    let mut i: usize = v.len();
    proof {
        assert(v@.take(v.len() as int) == v@);
    }
    while i > 0 && v[i - 1] != c
        invariant
            i <= v.len(),
            last_index_of(v@, c) == last_index_of(v@.take(i as int), c),
        decreases i,
    {
        proof {
            assert(v@.take(i as int).drop_last() == v@.take(i - 1));
        }
        i -= 1;
    }
    if i == 0 {
        None
    } else {
        Some(i - 1)
    }
}

/// The ASCII lower-case form of `c`.
pub fn to_lower(c: char) -> (r: char)
    ensures
        r == lower(c),
{
    if 'A' <= c && c <= 'Z' {
        ((c as u8) + 32) as char
    } else {
        c
    }
}

/// Compares two strings up to the case of ASCII letters.
pub fn same_ignoring_case(a: &str, b: &str) -> (r: bool)
    ensures
        r == eq_ignore_case(a@, b@),
{
    let x = chars_of(a);
    let y = chars_of(b);
    if x.len() != y.len() {
        return false;
    }
    let mut i: usize = 0;
    while i < x.len()
        invariant
            i <= x.len(),
            x.len() == y.len(),
            x@ == a@,
            y@ == b@,
            forall|j: int| 0 <= j < i ==> lower(#[trigger] x@[j]) == lower(y@[j]),
        decreases x.len() - i,
    {
        if to_lower(x[i]) != to_lower(y[i]) {
            proof {
                let k = i as int;
                assert(lower(a@[k]) != lower(b@[k]));
            }
            return false;
        }
        i += 1;
    }
    true
}

} // verus!
