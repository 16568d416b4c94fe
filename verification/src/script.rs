//! Making text safe to stand inside an inline `<script>` element: no
//! `</script` (in any ASCII case) that would close the element early, and no
//! raw U+2028 / U+2029, which end a line in older JavaScript string
//! literals. The escapes used (`\u003c`, `\u2028`, `\u2029`) are JSON and
//! JavaScript string escapes of the same characters.

use vstd::prelude::*;
use vstd::string::*;

use crate::text::{ascii_lower, chars_of, lower_chars, lower_seq, occurs_at, occurs_at_exec};

verus! {

broadcast use vstd::string::group_string_axioms;

/// The end tag opening that would close an inline script, lower-cased.
pub open spec fn script_close() -> Seq<char> {
    seq!['<', '/', 's', 'c', 'r', 'i', 'p', 't']
}

/// `s` holds `w` at `k`, ASCII case-insensitively.
pub open spec fn occurs_ci(s: Seq<char>, w: Seq<char>, k: int) -> bool {
    0 <= k && k + w.len() <= s.len() && lower_seq(s.subrange(k, k + w.len())) == w
}

/// `s` opens with `</script`, ASCII case-insensitively.
pub open spec fn opens_script_close(s: Seq<char>) -> bool {
    occurs_ci(s, script_close(), 0)
}

/// How the first character of `s` is written: a `<` that opens `</script`
/// as `\u003c`, U+2028 and U+2029 as `\u2028` and `\u2029`, anything else
/// as it is.
pub open spec fn script_piece(s: Seq<char>) -> Seq<char>
    recommends
        s.len() > 0,
{
    if s[0] == '<' && opens_script_close(s) {
        seq!['\\', 'u', '0', '0', '3', 'c']
    } else if s[0] == '\u{2028}' {
        seq!['\\', 'u', '2', '0', '2', '8']
    } else if s[0] == '\u{2029}' {
        seq!['\\', 'u', '2', '0', '2', '9']
    } else {
        seq![s[0]]
    }
}

/// `s` with every character written by `script_piece`.
pub open spec fn script_safe(s: Seq<char>) -> Seq<char>
    decreases s.len(),
{
    if s.len() == 0 {
        Seq::empty()
    } else {
        script_piece(s) + script_safe(s.skip(1))
    }
}

/// `s` holds no `</script` in any ASCII case.
pub open spec fn no_script_close(s: Seq<char>) -> bool {
    forall|k: int| !#[trigger] occurs_ci(s, script_close(), k)
}

/// `s` holds no raw U+2028 or U+2029.
pub open spec fn no_line_separator(s: Seq<char>) -> bool {
    forall|i: int| 0 <= i < s.len() ==> #[trigger] s[i] != '\u{2028}' && s[i] != '\u{2029}'
}

/// `s` can stand inside an inline `<script>`.
pub open spec fn script_clean(s: Seq<char>) -> bool {
    no_script_close(s) && no_line_separator(s)
}

/// A character whose lower case occurs in `</script`.
pub open spec fn in_script_close(c: char) -> bool {
    let l = ascii_lower(c);
    l == '<' || l == '/' || l == 's' || l == 'c' || l == 'r' || l == 'i' || l == 'p' || l == 't'
}

/// Where the output of `script_safe` begins with `w` (ignoring ASCII case)
/// and `w` holds no backslash, the input begins with `w` too: every escape
/// starts with a backslash, so the first characters were kept as they are.
proof fn lemma_prefix_kept(t: Seq<char>, w: Seq<char>)
    requires
        forall|j: int| 0 <= j < w.len() ==> #[trigger] w[j] != '\\',
        w.len() <= script_safe(t).len(),
        lower_seq(script_safe(t).take(w.len() as int)) == w,
    ensures
        w.len() <= t.len(),
        lower_seq(t.take(w.len() as int)) == w,
    decreases w.len(),
{
    if w.len() > 0 {
        let out = script_safe(t);
        assert(t.len() > 0);
        let p = script_piece(t);
        let rest = script_safe(t.skip(1));
        assert(out == p + rest);
        assert(lower_seq(out.take(w.len() as int))[0] == w[0]);
        assert(out[0] == p[0]);
        assert(ascii_lower(p[0]) == w[0]);
        assert(p == seq![t[0]]);
        let w1 = w.skip(1);
        assert forall|j: int| 0 <= j < w1.len() implies #[trigger] w1[j] != '\\' by {
            assert(w1[j] == w[j + 1]);
        }
        assert(lower_seq(rest.take(w1.len() as int)) =~= w1) by {
            assert forall|j: int| 0 <= j < w1.len() implies lower_seq(rest.take(w1.len() as int))[j]
                == w1[j] by {
                assert(rest[j] == out[j + 1]);
                assert(lower_seq(out.take(w.len() as int))[j + 1] == w[j + 1]);
            }
        }
        lemma_prefix_kept(t.skip(1), w1);
        assert(lower_seq(t.take(w.len() as int)) =~= w) by {
            assert forall|j: int| 0 <= j < w.len() implies lower_seq(t.take(w.len() as int))[j]
                == w[j] by {
                if j > 0 {
                    assert(t[j] == t.skip(1)[j - 1]);
                    assert(lower_seq(t.skip(1).take(w1.len() as int))[j - 1] == w1[j - 1]);
                }
            }
        }
    }
}

/// The output of `script_safe` never holds `</script`.
pub proof fn lemma_script_safe_no_close(s: Seq<char>)
    ensures
        no_script_close(script_safe(s)),
    decreases s.len(),
{
    if s.len() > 0 {
        lemma_script_safe_no_close(s.skip(1));
        let out = script_safe(s);
        let p = script_piece(s);
        let rest = script_safe(s.skip(1));
        assert(out == p + rest);
        let w = script_close();
        assert forall|k: int| !#[trigger] occurs_ci(out, w, k) by {
            if occurs_ci(out, w, k) {
                let sub = out.subrange(k, k + 8);
                assert(lower_seq(sub)[0] == '<');
                assert(sub[0] == out[k]);
                if k >= p.len() {
                    assert(rest.subrange(k - p.len(), k - p.len() + 8) =~= sub);
                    assert(occurs_ci(rest, w, k - p.len()));
                } else if p.len() == 6 {
                    assert(out[k] == p[k]);
                } else {
                    assert(k == 0);
                    assert(s[0] == '<');
                    assert(!opens_script_close(s));
                    let w7 = w.skip(1);
                    assert(w7 =~= seq!['/', 's', 'c', 'r', 'i', 'p', 't']);
                    assert(lower_seq(rest.take(7)) =~= w7) by {
                        assert forall|j: int| 0 <= j < 7 implies lower_seq(rest.take(7))[j] == w7[j] by {
                            assert(rest[j] == out[j + 1]);
                            assert(lower_seq(sub)[j + 1] == w[j + 1]);
                        }
                    }
                    lemma_prefix_kept(s.skip(1), w7);
                    assert(lower_seq(s.subrange(0, 8)) =~= w) by {
                        assert forall|j: int| 0 <= j < 8 implies lower_seq(s.subrange(0, 8))[j] == w[j] by {
                            if j > 0 {
                                assert(s[j] == s.skip(1)[j - 1]);
                                assert(lower_seq(s.skip(1).take(7))[j - 1] == w7[j - 1]);
                            }
                        }
                    }
                }
            }
        }
    }
}

/// The output of `script_safe` holds no raw U+2028 or U+2029.
pub proof fn lemma_script_safe_no_separator(s: Seq<char>)
    ensures
        no_line_separator(script_safe(s)),
    decreases s.len(),
{
    if s.len() > 0 {
        lemma_script_safe_no_separator(s.skip(1));
        let p = script_piece(s);
        let rest = script_safe(s.skip(1));
        assert forall|i: int| 0 <= i < (p + rest).len() implies #[trigger] (p + rest)[i] != '\u{2028}'
            && (p + rest)[i] != '\u{2029}' by {
            if i >= p.len() {
                assert((p + rest)[i] == rest[i - p.len()]);
            }
        }
    }
}

/// The output of `script_safe` can stand inside an inline `<script>`.
pub proof fn lemma_script_safe_clean(s: Seq<char>)
    ensures
        script_clean(script_safe(s)),
{
    lemma_script_safe_no_close(s);
    lemma_script_safe_no_separator(s);
}

/// Text without `<` holds no `</script`.
pub proof fn lemma_no_lt_no_close(s: Seq<char>)
    requires
        forall|i: int| 0 <= i < s.len() ==> #[trigger] s[i] != '<',
    ensures
        no_script_close(s),
{
    assert forall|k: int| !#[trigger] occurs_ci(s, script_close(), k) by {
        if occurs_ci(s, script_close(), k) {
            assert(lower_seq(s.subrange(k, k + 8))[0] == '<');
            assert(s.subrange(k, k + 8)[0] == s[k]);
        }
    }
}

/// Two clean texts make a clean text when the first does not end in a
/// character of `</script` (so no `</script` can straddle the seam).
pub proof fn lemma_clean_concat(a: Seq<char>, b: Seq<char>)
    requires
        script_clean(a),
        script_clean(b),
        a.len() == 0 || !in_script_close(a.last()),
    ensures
        script_clean(a + b),
{
    let ab = a + b;
    let w = script_close();
    assert forall|k: int| !#[trigger] occurs_ci(ab, w, k) by {
        if occurs_ci(ab, w, k) {
            let sub = ab.subrange(k, k + 8);
            if k + 8 <= a.len() {
                assert(a.subrange(k, k + 8) =~= sub);
                assert(occurs_ci(a, w, k));
            } else if k >= a.len() {
                assert(b.subrange(k - a.len(), k - a.len() + 8) =~= sub);
                assert(occurs_ci(b, w, k - a.len()));
            } else {
                let j = a.len() - 1 - k;
                assert(sub[j] == a.last());
                assert(lower_seq(sub)[j] == w[j]);
            }
        }
    }
    assert forall|i: int| 0 <= i < ab.len() implies #[trigger] ab[i] != '\u{2028}' && ab[i] != '\u{2029}' by {
        if i < a.len() {
            assert(ab[i] == a[i]);
        } else {
            assert(ab[i] == b[i - a.len()]);
        }
    }
}

/// `script_safe` keeps a last character that it does not escape.
pub proof fn lemma_script_safe_last(s: Seq<char>)
    requires
        s.len() > 0,
        s.last() != '<',
        s.last() != '\u{2028}',
        s.last() != '\u{2029}',
    ensures
        script_safe(s).len() > 0,
        script_safe(s).last() == s.last(),
    decreases s.len(),
{
    if s.len() == 1 {
        assert(s.skip(1).len() == 0);
        assert(script_safe(s.skip(1)) =~= Seq::<char>::empty());
        assert(script_piece(s) =~= seq![s[0]]);
        assert(script_safe(s) =~= seq![s[0]]);
    } else {
        lemma_script_safe_last(s.skip(1));
        assert(s.skip(1).last() == s.last());
        let p = script_piece(s);
        let rest = script_safe(s.skip(1));
        assert(script_safe(s) == p + rest);
        assert((p + rest).last() == rest.last());
    }
}

/// Whether the text `v` opens `</script` at `i`.
fn opens_close_at(lower: &Vec<char>, pat: &Vec<char>, i: usize) -> (r: bool)
    requires
        pat@ == script_close(),
    ensures
        r == occurs_at(lower@, pat@, i as int),
{
    if i <= lower.len() && lower.len() - i >= 8 {
        occurs_at_exec(lower, pat, i)
    } else {
        false
    }
}

/// Write every character of `s` by `script_piece`.
pub fn script_safe_str(s: &str) -> (r: String)
    ensures
        r@ == script_safe(s@),
{
    let sv = chars_of(s);
    let lv = lower_chars(&sv);
    let mut pat: Vec<char> = Vec::new();
    pat.push('<');
    pat.push('/');
    pat.push('s');
    pat.push('c');
    pat.push('r');
    pat.push('i');
    pat.push('p');
    pat.push('t');
    assert(pat@ =~= script_close());
    let n = sv.len();
    let mut out = String::new();
    assert(s@.skip(0) =~= s@);
    for i in 0..n
        invariant
            sv@ == s@,
            lv@ == lower_seq(s@),
            pat@ == script_close(),
            n == s@.len(),
            out@ + script_safe(s@.skip(i as int)) == script_safe(s@),
    {
        let ghost t = s@.skip(i as int);
        assert(t.skip(1) =~= s@.skip(i + 1));
        assert(script_safe(t) == script_piece(t) + script_safe(t.skip(1)));
        let c = sv[i];
        let closes = opens_close_at(&lv, &pat, i);
        proof {
            if i + 8 <= n {
                assert(lower_seq(s@).subrange(i as int, i + 8) =~= lower_seq(t.subrange(0, 8)));
            }
            assert(closes == opens_script_close(t));
        }
        let ghost before = out@;
        assert(t[0] == c);
        if c == '<' && closes {
            out.append("\\u003c");
            proof {
                reveal_strlit("\\u003c");
            }
            assert("\\u003c"@ =~= seq!['\\', 'u', '0', '0', '3', 'c']);
        } else if c == '\u{2028}' {
            out.append("\\u2028");
            proof {
                reveal_strlit("\\u2028");
            }
            assert("\\u2028"@ =~= seq!['\\', 'u', '2', '0', '2', '8']);
        } else if c == '\u{2029}' {
            out.append("\\u2029");
            proof {
                reveal_strlit("\\u2029");
            }
            assert("\\u2029"@ =~= seq!['\\', 'u', '2', '0', '2', '9']);
        } else {
            out.append(s.substring_char(i, i + 1));
            assert(s@.subrange(i as int, i + 1) =~= seq![c]);
        }
        assert(out@ == before + script_piece(t));
        assert(out@ + script_safe(s@.skip(i + 1)) =~= script_safe(s@));
    }
    assert(s@.skip(n as int) =~= Seq::<char>::empty());
    assert(out@ + Seq::<char>::empty() =~= out@);
    out
}

} // verus!
