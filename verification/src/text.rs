//! Character-level string operations with mathematical specifications.
use vstd::prelude::*;

verus! {

broadcast use vstd::string::group_string_axioms;

/// Returns the characters of `s` in order.
pub fn chars_of(s: &str) -> (v: Vec<char>)
    ensures
        v@ == s@,
{
    let mut v: Vec<char> = Vec::new();
    for c in it: s.chars()
        invariant
            it.seq() == s@,
            v@ == it.seq().take(it.index() as int),
    {
        v.push(c);
    }
    v
}

/// Appends one character to a string (`String::push`).
#[verifier::external_body]
pub(crate) fn push_char(s: &mut String, c: char)
    ensures
        final(s)@ == old(s)@.push(c),
{
    s.push(c);
}

/// Appends the first `n` characters of `v` to `s`.
pub fn push_prefix(s: &mut String, v: &Vec<char>, n: usize)
    requires
        n <= v@.len(),
    ensures
        final(s)@ == old(s)@ + v@.take(n as int),
{
    let ghost start = s@;
    let mut i: usize = 0;
    while i < n
        invariant
            i <= n,
            n <= v@.len(),
            s@ == start + v@.take(i as int),
        decreases n - i,
    {
        push_char(s, v[i]);
        i = i + 1;
        assert(v@.take(i as int) =~= v@.take((i - 1) as int).push(v@[i - 1]));
    }
}

/// Appends the characters of `t` to `s`.
pub fn push_str(s: &mut String, t: &str)
    ensures
        final(s)@ == old(s)@ + t@,
{
    let v = chars_of(t);
    push_prefix(s, &v, v.len());
    assert(v@.take(v@.len() as int) =~= v@);
}

/// Builds a string from the first `n` characters of `v`.
pub fn string_of_prefix(v: &Vec<char>, n: usize) -> (s: String)
    requires
        n <= v@.len(),
    ensures
        s@ == v@.take(n as int),
{
    let mut s = String::new();
    push_prefix(&mut s, v, n);
    assert(Seq::<char>::empty() + v@.take(n as int) =~= v@.take(n as int));
    s
}

/// The view of an optional string slice.
pub open spec fn str_opt(s: Option<&str>) -> Option<Seq<char>> {
    match s {
        Some(x) => Some(x@),
        None => None,
    }
}

/// The view of an optional string.
pub open spec fn string_opt(s: Option<String>) -> Option<Seq<char>> {
    match s {
        Some(x) => Some(x@),
        None => None,
    }
}

/// Character-wise equality of two strings.
pub fn str_eq(a: &str, b: &str) -> (r: bool)
    ensures
        r == (a@ == b@),
{
    let x = chars_of(a);
    let y = chars_of(b);
    if x.len() != y.len() {
        return false;
    }
    let mut i: usize = 0;
    while i < x.len()
        invariant
            x@ == a@,
            y@ == b@,
            x@.len() == y@.len(),
            i <= x@.len(),
            forall|j: int| 0 <= j < i ==> x@[j] == y@[j],
        decreases x@.len() - i,
    {
        if x[i] != y[i] {
            return false;
        }
        i = i + 1;
    }
    assert(x@ =~= y@);
    true
}

/// Whether `p` occurs in `s` starting at character index `i`.
pub fn occurs_at(s: &Vec<char>, p: &Vec<char>, i: usize) -> (r: bool)
    requires
        i <= s@.len(),
    ensures
        r == p@.is_prefix_of(s@.skip(i as int)),
{
    if p.len() > s.len() - i {
        return false;
    }
    let mut j: usize = 0;
    while j < p.len()
        invariant
            j <= p@.len(),
            i + p@.len() <= s.len(),
            forall|k: int| 0 <= k < j ==> s@[i + k] == p@[k],
        decreases p@.len() - j,
    {
        if s[i + j] != p[j] {
            assert(s@.skip(i as int).subrange(0, p@.len() as int)[j as int] == s@[i + j]);
            return false;
        }
        j = j + 1;
    }
    assert(p@ =~= s@.skip(i as int).subrange(0, p@.len() as int));
    true
}

/// `s` with every non-overlapping occurrence of `pat` replaced by `to`, scanning from the left
/// (`str::replace`); an empty pattern occurs before every character and at the end.
pub open spec fn replaced(s: Seq<char>, pat: Seq<char>, to: Seq<char>) -> Seq<char>
    decreases s.len(),
{
    if pat.len() == 0 {
        if s.len() == 0 {
            to
        } else {
            to + seq![s[0]] + replaced(s.skip(1), pat, to)
        }
    } else if s.len() == 0 {
        s
    } else if pat.is_prefix_of(s) {
        to + replaced(s.skip(pat.len() as int), pat, to)
    } else {
        seq![s[0]] + replaced(s.skip(1), pat, to)
    }
}

/// `s` with `to` before every character and at the end.
fn interleave(sv: &Vec<char>, tv: &Vec<char>) -> (r: String)
    ensures
        r@ == replaced(sv@, Seq::empty(), tv@),
{
    let ghost e = Seq::<char>::empty();
    let mut out = String::new();
    let mut i: usize = 0;
    assert(sv@.skip(0) =~= sv@);
    assert(out@ + replaced(sv@, e, tv@) =~= replaced(sv@, e, tv@));
    while i < sv.len()
        invariant
            e == Seq::<char>::empty(),
            i <= sv@.len(),
            out@ + replaced(sv@.skip(i as int), e, tv@) == replaced(sv@, e, tv@),
        decreases sv@.len() - i,
    {
        let ghost t = sv@.skip(i as int);
        let ghost before = out@;
        assert(replaced(t, e, tv@) == tv@ + seq![t[0]] + replaced(t.skip(1), e, tv@));
        assert(t[0] == sv@[i as int]);
        push_prefix(&mut out, tv, tv.len());
        assert(tv@.take(tv@.len() as int) =~= tv@);
        push_char(&mut out, sv[i]);
        assert(t.skip(1) =~= sv@.skip(i + 1));
        i = i + 1;
        assert((before + tv@).push(t[0]) + replaced(sv@.skip(i as int), e, tv@) =~= before + (tv@
            + seq![t[0]] + replaced(sv@.skip(i as int), e, tv@)));
    }
    assert(sv@.skip(i as int) =~= Seq::<char>::empty());
    push_prefix(&mut out, tv, tv.len());
    assert(tv@.take(tv@.len() as int) =~= tv@);
    out
}

/// Replaces every non-overlapping occurrence of `pat` in `s` by `to`, left to right.
pub fn replace_all(s: &str, pat: &str, to: &str) -> (r: String)
    ensures
        r@ == replaced(s@, pat@, to@),
{
    let sv = chars_of(s);
    let pv = chars_of(pat);
    let tv = chars_of(to);
    if pv.len() == 0 {
        assert(pv@ =~= Seq::<char>::empty());
        return interleave(&sv, &tv);
    }
    let mut out = String::new();
    let mut i: usize = 0;
    assert(sv@.skip(0) =~= sv@);
    assert(out@ + replaced(sv@, pv@, tv@) =~= replaced(sv@, pv@, tv@));
    while i < sv.len()
        invariant
            sv@ == s@,
            pv@ == pat@,
            tv@ == to@,
            pv@.len() > 0,
            i <= sv@.len(),
            out@ + replaced(sv@.skip(i as int), pv@, tv@) == replaced(sv@, pv@, tv@),
        decreases sv@.len() - i,
    {
        let ghost t = sv@.skip(i as int);
        let ghost before = out@;
        if occurs_at(&sv, &pv, i) {
            push_prefix(&mut out, &tv, tv.len());
            assert(tv@.take(tv@.len() as int) =~= tv@);
            assert(t.skip(pv@.len() as int) =~= sv@.skip(i + pv@.len()));
            i = i + pv.len();
            assert(before + tv@ + replaced(sv@.skip(i as int), pv@, tv@) =~= before + (tv@
                + replaced(sv@.skip(i as int), pv@, tv@)));
        } else {
            push_char(&mut out, sv[i]);
            assert(t.skip(1) =~= sv@.skip(i + 1));
            i = i + 1;
            assert(before.push(sv@[i - 1]) + replaced(sv@.skip(i as int), pv@, tv@) =~= before + (
            seq![t[0]] + replaced(sv@.skip(i as int), pv@, tv@)));
        }
    }
    assert(sv@.skip(i as int) =~= Seq::<char>::empty());
    assert(out@ + Seq::<char>::empty() =~= out@);
    out
}

/// `s` with trailing copies of `pat` removed, as many as there are (`str::trim_end_matches`).
pub open spec fn trimmed_end(s: Seq<char>, pat: Seq<char>) -> Seq<char>
    decreases s.len(),
{
    if pat.len() > 0 && pat.is_suffix_of(s) {
        trimmed_end(s.take(s.len() - pat.len()), pat)
    } else {
        s
    }
}

/// Removes every trailing copy of `pat` from `s`.
pub fn trim_end_matches(s: &str, pat: &str) -> (r: String)
    ensures
        r@ == trimmed_end(s@, pat@),
{
    let sv = chars_of(s);
    let pv = chars_of(pat);
    let mut e: usize = sv.len();
    assert(sv@.take(sv@.len() as int) =~= sv@);
    while pv.len() > 0 && pv.len() <= e && occurs_at(&sv, &pv, e - pv.len())
        invariant
            sv@ == s@,
            pv@ == pat@,
            e <= sv@.len(),
            trimmed_end(sv@.take(e as int), pv@) == trimmed_end(sv@, pv@),
        decreases e,
    {
        let ghost t = sv@.take(e as int);
        assert(t.subrange(t.len() - pv@.len(), t.len() as int) =~= sv@.skip(e - pv@.len()).subrange(
            0,
            pv@.len() as int,
        ));
        assert(t.take(t.len() - pv@.len()) =~= sv@.take(e - pv@.len()));
        e = e - pv.len();
    }
    let ghost t = sv@.take(e as int);
    proof {
        if pv@.len() > 0 && pv@.len() <= e {
            assert(t.subrange(t.len() - pv@.len(), t.len() as int) =~= sv@.skip(e - pv@.len()).subrange(
            0,
            pv@.len() as int,
        ));
        }
    }
    assert(sv@.take(sv@.len() as int) =~= sv@);
    string_of_prefix(&sv, e)
}

/// Whether `p` occurs somewhere in `s` (`str::contains` with a string pattern).
pub open spec fn has_substring(s: Seq<char>, p: Seq<char>) -> bool {
    exists|i: int| 0 <= i <= s.len() && #[trigger] p.is_prefix_of(s.skip(i))
}

/// Whether `p` occurs somewhere in `s`.
pub fn contains_str(s: &str, p: &str) -> (r: bool)
    ensures
        r == has_substring(s@, p@),
{
    let sv = chars_of(s);
    let pv = chars_of(p);
    let mut i: usize = 0;
    while pv.len() <= sv.len() && i <= sv.len() - pv.len()
        invariant
            sv@ == s@,
            pv@ == p@,
            forall|k: int| 0 <= k < i ==> !#[trigger] pv@.is_prefix_of(sv@.skip(k)),
        decreases sv@.len() + 1 - i,
    {
        if occurs_at(&sv, &pv, i) {
            return true;
        }
        i = i + 1;
    }
    assert forall|k: int| 0 <= k <= sv@.len() implies !#[trigger] pv@.is_prefix_of(sv@.skip(k)) by {
        if k >= i {
            assert(sv@.skip(k).len() < pv@.len());
        }
    }
    false
}

/// The characters of `s` before the first `c` (all of `s` when there is none).
pub open spec fn before_char(s: Seq<char>, c: char) -> Seq<char>
    decreases s.len(),
{
    if s.len() == 0 {
        s
    } else if s[0] == c {
        Seq::empty()
    } else {
        seq![s[0]] + before_char(s.skip(1), c)
    }
}

/// The characters of `s` after the first `c` (empty when there is none).
pub open spec fn after_char(s: Seq<char>, c: char) -> Seq<char>
    decreases s.len(),
{
    if s.len() == 0 {
        s
    } else if s[0] == c {
        s.skip(1)
    } else {
        after_char(s.skip(1), c)
    }
}

/// Splitting at the first occurrence of `c`, found at index `i`.
pub proof fn lemma_split_at_first(s: Seq<char>, c: char, i: int)
    requires
        0 <= i < s.len(),
        s[i] == c,
        forall|k: int| 0 <= k < i ==> s[k] != c,
    ensures
        before_char(s, c) == s.take(i),
        after_char(s, c) == s.skip(i + 1),
    decreases i,
{
    if i > 0 {
        lemma_split_at_first(s.skip(1), c, i - 1);
        assert(s.take(i) =~= seq![s[0]] + s.skip(1).take(i - 1));
        assert(s.skip(i + 1) =~= s.skip(1).skip(i));
    } else {
        assert(s.take(0) =~= Seq::<char>::empty());
    }
}

/// A string without `c` is all before it.
pub proof fn lemma_split_absent(s: Seq<char>, c: char)
    requires
        forall|k: int| 0 <= k < s.len() ==> s[k] != c,
    ensures
        before_char(s, c) == s,
    decreases s.len(),
{
    if s.len() > 0 {
        lemma_split_absent(s.skip(1), c);
        assert(s =~= seq![s[0]] + s.skip(1));
    }
}

/// Index of the first `c` in `v` at or after `from`, or the length when there is none.
fn find_char_from(v: &Vec<char>, c: char, from: usize) -> (i: usize)
    requires
        from <= v@.len(),
    ensures
        from <= i <= v@.len(),
        i < v@.len() ==> v@[i as int] == c,
        forall|k: int| from <= k < i ==> v@[k] != c,
{
    let mut i = from;
    while i < v.len()
        invariant
            from <= i <= v@.len(),
            forall|k: int| from <= k < i ==> v@[k] != c,
        decreases v@.len() - i,
    {
        if v[i] == c {
            return i;
        }
        i = i + 1;
    }
    i
}

/// Whether `c` occurs in `s`.
pub fn contains_char(s: &str, c: char) -> (r: bool)
    ensures
        r == s@.contains(c),
{
    let v = chars_of(s);
    let i = find_char_from(&v, c, 0);
    i < v.len()
}

/// The first two pieces of `s.split(c)`, for a string that holds `c`: the text before the
/// first `c`, and the text after it up to the next `c`.
pub fn split_first_two(s: &str, c: char) -> (r: (String, String))
    requires
        s@.contains(c),
    ensures
        r.0@ == before_char(s@, c),
        r.1@ == before_char(after_char(s@, c), c),
{
    let v = chars_of(s);
    let i = find_char_from(&v, c, 0);
    proof {
        let w = choose|w: int| 0 <= w < s@.len() && s@[w] == c;
        if i == v@.len() {
            assert(v@[w] != c);
        }
        lemma_split_at_first(v@, c, i as int);
    }
    assert(i < v.len());
    let j = find_char_from(&v, c, i + 1);
    let mut second = String::new();
    let mut k = i + 1;
    while k < j
        invariant
            i + 1 <= k <= j <= v@.len(),
            second@ == v@.subrange(i + 1, k as int),
        decreases j - k,
    {
        push_char(&mut second, v[k]);
        k = k + 1;
        assert(v@.subrange(i + 1, k as int) =~= v@.subrange(i + 1, k - 1).push(v@[k - 1]));
    }
    proof {
        let rest = v@.skip(i + 1);
        if j < v@.len() {
            lemma_split_at_first(rest, c, j - (i + 1));
            assert(rest.take(j - (i + 1)) =~= v@.subrange(i + 1, j as int));
        } else {
            lemma_split_absent(rest, c);
            assert(rest =~= v@.subrange(i + 1, j as int));
        }
    }
    (string_of_prefix(&v, i), second)
}

/// The lower-case form of a string, as `str::to_lowercase` computes it.
pub uninterp spec fn lowercase(s: Seq<char>) -> Seq<char>;

/// `str::to_lowercase`: its result is named `lowercase` of the argument, a function of the
/// characters alone (Unicode's lowercase mapping); nothing more of it is claimed here.
#[verifier::external_body]
pub(crate) fn to_lowercase(s: &str) -> (r: String)
    ensures
        r@ == lowercase(s@),
{
    s.to_lowercase()
}

} // verus!
