//! Character-level string helpers shared by the rendering code.

use vstd::prelude::*;

verus! {

broadcast use vstd::string::group_string_axioms;

/// The characters of `s`, in order.
pub fn chars_of(s: &str) -> (v: Vec<char>)
    ensures
        v@ == s@,
{
    let mut v: Vec<char> = Vec::new();
    for c in it: s.chars()
        invariant
            v@ == it.seq().take(it.index()),
            it.seq() == s@,
    {
        v.push(c);
    }
    v
}


/// ASCII lower-casing of one character: `'A'..='Z'` map to `'a'..='z'`,
/// every other character is left as it is.
pub open spec fn ascii_lower(c: char) -> char {
    if 'A' <= c && c <= 'Z' {
        ((c as u32) + 32) as char
    } else {
        c
    }
}

/// ASCII lower-casing of a whole character sequence.
pub open spec fn lower_seq(s: Seq<char>) -> Seq<char> {
    s.map_values(|c: char| ascii_lower(c))
}

/// ASCII lower-casing of one character.
pub fn lower_char(c: char) -> (r: char)
    ensures
        r == ascii_lower(c),
{
    if 'A' <= c && c <= 'Z' {
        ((c as u8) + 32) as char
    } else {
        c
    }
}


/// The characters of `v`, ASCII lower-cased.
pub fn lower_chars(v: &Vec<char>) -> (r: Vec<char>)
    ensures
        r@ == lower_seq(v@),
{
    let mut r: Vec<char> = Vec::new();
    let n = v.len();
    for i in 0..n
        invariant
            n == v@.len(),
            r@ == lower_seq(v@.take(i as int)),
    {
        r.push(lower_char(v[i]));
        assert(v@.take(i + 1) == v@.take(i as int).push(v@[i as int]));
    }
    assert(v@.take(n as int) == v@);
    r
}

/// `pat` occurs in `s` starting at index `i`.
pub open spec fn occurs_at(s: Seq<char>, pat: Seq<char>, i: int) -> bool {
    0 <= i && i + pat.len() <= s.len() && s.subrange(i, i + pat.len()) == pat
}

/// The first index `j >= i` at which `pat` occurs in `s`, if there is one.
pub open spec fn find_from(s: Seq<char>, pat: Seq<char>, i: int) -> Option<int>
    decreases s.len() - i,
{
    if i < 0 || i + pat.len() > s.len() {
        None
    } else if occurs_at(s, pat, i) {
        Some(i)
    } else if i >= s.len() {
        None
    } else {
        find_from(s, pat, i + 1)
    }
}

/// `find_from` gives the first occurrence at or after `i`, and `None` exactly
/// when there is no occurrence at or after `i`.
pub proof fn lemma_find_from(s: Seq<char>, pat: Seq<char>, i: int)
    requires
        0 <= i,
    ensures
        find_from(s, pat, i) matches Some(j) ==> i <= j && occurs_at(s, pat, j) && forall|k: int|
            i <= k < j ==> !occurs_at(s, pat, k),
        find_from(s, pat, i) is None ==> forall|k: int| i <= k ==> !occurs_at(s, pat, k),
    decreases s.len() - i,
{
    if i + pat.len() > s.len() {
    } else if occurs_at(s, pat, i) {
    } else if i >= s.len() {
        assert forall|k: int| i <= k implies !occurs_at(s, pat, k) by {
            if k > i {
            } else {
            }
        }
    } else {
        lemma_find_from(s, pat, i + 1);
    }
}

/// Whether `pat` occurs in `hay` at index `i`.
pub fn occurs_at_exec(hay: &Vec<char>, pat: &Vec<char>, i: usize) -> (r: bool)
    requires
        i + pat@.len() <= hay@.len(),
    ensures
        r == occurs_at(hay@, pat@, i as int),
{
    let m = pat.len();
    for k in 0..m
        invariant
            m == pat@.len(),
            i + m <= hay.len(),
            forall|t: int| 0 <= t < k ==> hay@[i + t] == pat@[t],
    {
        if hay[i + k] != pat[k] {
            assert(hay@.subrange(i as int, i + m)[k as int] != pat@[k as int]);
            return false;
        }
    }
    assert(hay@.subrange(i as int, i + m) =~= pat@);
    true
}

/// The first index at or after `from` at which `pat` occurs in `hay`.
pub fn find_in(hay: &Vec<char>, pat: &Vec<char>, from: usize) -> (r: Option<usize>)
    ensures
        match r {
            Some(j) => find_from(hay@, pat@, from as int) == Some(j as int),
            None => find_from(hay@, pat@, from as int) is None,
        },
{
    let n = hay.len();
    let m = pat.len();
    let mut i = from;
    while i <= n
        invariant
            n == hay@.len(),
            m == pat@.len(),
            from <= i,
            find_from(hay@, pat@, from as int) == find_from(hay@, pat@, i as int),
        decreases n + 1 - i,
    {
        if m > n - i {
            return None;
        }
        if occurs_at_exec(hay, pat, i) {
            return Some(i);
        }
        if i == n {
            return None;
        }
        i = i + 1;
    }
    None
}


/// ASCII whitespace as HTML understands it.
pub open spec fn is_html_space(c: char) -> bool {
    c == ' ' || c == '\t' || c == '\n' || c == '\r' || c == '\x0C'
}

/// Case- and whitespace-folding of one character: HTML whitespace becomes a
/// plain space, ASCII letters become lower case.
pub open spec fn fold_char(c: char) -> char {
    if is_html_space(c) {
        ' '
    } else {
        ascii_lower(c)
    }
}

/// `fold_char` applied to every character.
pub open spec fn fold_seq(s: Seq<char>) -> Seq<char> {
    s.map_values(|c: char| fold_char(c))
}

/// The characters of `v`, folded by `fold_char`.
pub fn fold_chars(v: &Vec<char>) -> (r: Vec<char>)
    ensures
        r@ == fold_seq(v@),
{
    let mut r: Vec<char> = Vec::new();
    let n = v.len();
    for i in 0..n
        invariant
            n == v@.len(),
            r@ == fold_seq(v@.take(i as int)),
    {
        let c = v[i];
        let f = if c == ' ' || c == '\t' || c == '\n' || c == '\r' || c == '\x0C' {
            ' '
        } else {
            lower_char(c)
        };
        r.push(f);
        assert(v@.take(i + 1) == v@.take(i as int).push(v@[i as int]));
    }
    assert(v@.take(n as int) == v@);
    r
}

/// The characters of `v` from index `a` up to (not including) `b`.
pub fn slice_chars(v: &Vec<char>, a: usize, b: usize) -> (r: Vec<char>)
    requires
        a <= b <= v@.len(),
    ensures
        r@ == v@.subrange(a as int, b as int),
{
    let mut r: Vec<char> = Vec::new();
    let mut i = a;
    while i < b
        invariant
            a <= i <= b,
            b <= v@.len(),
            r@ == v@.subrange(a as int, i as int),
        decreases b - i,
    {
        r.push(v[i]);
        assert(v@.subrange(a as int, i + 1) == v@.subrange(a as int, i as int).push(v@[i as int]));
        i = i + 1;
    }
    r
}

/// `c`, then the characters of `v`, then `d`.
pub fn wrap_chars(c: char, v: &Vec<char>, d: char) -> (r: Vec<char>)
    ensures
        r@ == seq![c] + v@ + seq![d],
{
    let mut r: Vec<char> = Vec::new();
    r.push(c);
    let n = v.len();
    for i in 0..n
        invariant
            n == v@.len(),
            r@ == seq![c] + v@.take(i as int),
    {
        r.push(v[i]);
        assert(v@.take(i + 1) == v@.take(i as int).push(v@[i as int]));
    }
    assert(v@.take(n as int) == v@);
    r.push(d);
    r
}

/// Whether `s` begins with `p`.
pub fn starts_with_str(s: &str, p: &str) -> (r: bool)
    ensures
        r == (p@.len() <= s@.len() && s@.take(p@.len() as int) == p@),
{
    let sv = chars_of(s);
    let pv = chars_of(p);
    if pv.len() > sv.len() {
        return false;
    }
    let r = occurs_at_exec(&sv, &pv, 0);
    assert(sv@.subrange(0, pv@.len() as int) == sv@.take(pv@.len() as int));
    r
}


/// Whether `a` and `b` hold the same characters.
pub fn chars_eq(a: &Vec<char>, b: &Vec<char>) -> (r: bool)
    ensures
        r == (a@ == b@),
{
    if a.len() != b.len() {
        return false;
    }
    let m = a.len();
    for j in 0..m
        invariant
            m == a@.len(),
            m == b@.len(),
            forall|t: int| 0 <= t < j ==> a@[t] == b@[t],
    {
        if a[j] != b[j] {
            assert(a@[j as int] != b@[j as int]);
            return false;
        }
    }
    assert(a@ =~= b@);
    true
}


/// Searching a suffix of `s` is searching `s` from the suffix's start.
pub proof fn lemma_find_from_skip(s: Seq<char>, pat: Seq<char>, d: int, i: int)
    requires
        0 <= d <= i,
        d <= s.len(),
    ensures
        find_from(s.skip(d), pat, i - d) == match find_from(s, pat, i) {
            Some(j) => Some(j - d),
            None => None::<int>,
        },
    decreases s.len() - i,
{
    let t = s.skip(d);
    if i + pat.len() > s.len() {
    } else {
        assert(t.subrange(i - d, i - d + pat.len()) =~= s.subrange(i, i + pat.len()));
        if occurs_at(s, pat, i) {
        } else if i >= s.len() {
        } else {
            lemma_find_from_skip(s, pat, d, i + 1);
        }
    }
}

/// `s` with every occurrence of `pat` (left to right, not overlapping)
/// replaced by `rep`.
pub open spec fn replace_all(s: Seq<char>, pat: Seq<char>, rep: Seq<char>) -> Seq<char>
    recommends
        pat.len() > 0,
    decreases s.len(),
{
    if pat.len() == 0 {
        s
    } else {
        match find_from(s, pat, 0) {
            Some(i) => if 0 <= i && i + pat.len() <= s.len() {
                s.take(i) + rep + replace_all(s.skip(i + pat.len()), pat, rep)
            } else {
                s
            },
            None => s,
        }
    }
}

/// `pat` occurs nowhere in `s`.
pub open spec fn occurs_nowhere(s: Seq<char>, pat: Seq<char>) -> bool {
    forall|k: int| !#[trigger] occurs_at(s, pat, k)
}

/// Replacing a pattern that occurs nowhere changes nothing.
pub proof fn lemma_replace_absent(s: Seq<char>, pat: Seq<char>, rep: Seq<char>)
    requires
        occurs_nowhere(s, pat),
    ensures
        replace_all(s, pat, rep) == s,
{
    lemma_find_from(s, pat, 0);
}

/// A text shorter than the pattern holds no occurrence of it.
pub proof fn lemma_shorter_holds_none(s: Seq<char>, pat: Seq<char>)
    requires
        s.len() < pat.len(),
    ensures
        occurs_nowhere(s, pat),
{
}

/// Replacing the pattern in the pattern itself gives the replacement.
pub proof fn lemma_replace_whole(pat: Seq<char>, rep: Seq<char>)
    requires
        pat.len() > 0,
    ensures
        replace_all(pat, pat, rep) == rep,
{
    assert(occurs_at(pat, pat, 0)) by {
        assert(pat.subrange(0, pat.len() as int) =~= pat);
    }
    assert(find_from(pat, pat, 0) == Some(0int));
    let rest = pat.skip(pat.len() as int);
    assert(rest =~= Seq::<char>::empty());
    assert(replace_all(rest, pat, rep) == rest);
    assert(pat.take(0) + rep + rest =~= rep);
}

/// `s` with `pat` replaced by `rep` everywhere (as `str::replace` does).
pub fn replace_all_str(s: &str, pat: &str, rep: &str) -> (r: String)
    requires
        pat@.len() > 0,
    ensures
        r@ == replace_all(s@, pat@, rep@),
{
    let sv = chars_of(s);
    let pv = chars_of(pat);
    let n = sv.len();
    let m = pv.len();
    let mut out = String::new();
    let mut pos: usize = 0;
    proof {
        assert(s@.skip(0) =~= s@);
    }
    while pos <= n
        invariant
            n == s@.len(),
            sv@ == s@,
            pv@ == pat@,
            m == pat@.len(),
            m > 0,
            pos <= n,
            out@ + replace_all(s@.skip(pos as int), pat@, rep@) == replace_all(s@, pat@, rep@),
        decreases n + 1 - pos,
    {
        let found = find_in(&sv, &pv, pos);
        proof {
            lemma_find_from_skip(s@, pat@, pos as int, pos as int);
            lemma_find_from(s@, pat@, pos as int);
        }
        match found {
            Some(i) => {
                let ghost t = s@.skip(pos as int);
                proof {
                    assert(t.take(i - pos) =~= s@.subrange(pos as int, i as int));
                    assert(t.skip(i - pos + m) =~= s@.skip(i + m));
                }
                out.append(s.substring_char(pos, i));
                out.append(rep);
                pos = i + m;
            },
            None => {
                proof {
                    assert(s@.skip(pos as int) =~= s@.subrange(pos as int, n as int));
                }
                out.append(s.substring_char(pos, n));
                return out;
            },
        }
    }
    out
}


/// Whether `a` and `b` are the same string.
pub fn str_eq(a: &str, b: &str) -> (r: bool)
    ensures
        r == (a@ == b@),
{
    chars_eq(&chars_of(a), &chars_of(b))
}

} // verus!
