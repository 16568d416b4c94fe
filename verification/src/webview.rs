//! Ephemeral-by-default WebView policy: the Content-Security-Policy that the
//! runtime owns, its injection into the composed HTML, the in-document fetch
//! grant, and the top-level navigation policy.
//!
//! Building the native WebView itself happens outside this library; what it
//! is handed (the prepared HTML, the incognito / clipboard switches and the
//! navigation predicate) is decided here.

use vstd::prelude::*;
use vstd::string::*;

use crate::text::{
    chars_eq, chars_of, find_from, occurs_at, find_in, fold_chars, fold_seq, is_html_space, lemma_find_from, occurs_at_exec, lower_chars, lower_seq,
    slice_chars, starts_with_str, wrap_chars,
};

verus! {

broadcast use vstd::string::group_string_axioms;

/// User-controlled permission relaxations.
///
/// Each flag relaxes exactly one slice of the default-deny policy.
#[derive(Debug, Clone, Copy)]
pub struct Permissions {
    /// Relax CSP `connect-src` from `'none'` to `https: http: ws: wss:`.
    pub allow_fetch: bool,
    /// Turn the WebView clipboard on.
    pub allow_clipboard: bool,
    /// Keep WebView storage across runs (no incognito).
    pub allow_storage: bool,
}

impl Default for Permissions {
    /// Everything denied.
    fn default() -> (p: Self)
        ensures
            !p.allow_fetch,
            !p.allow_clipboard,
            !p.allow_storage,
    {
        Permissions { allow_fetch: false, allow_clipboard: false, allow_storage: false }
    }
}

impl Permissions {
    /// Some relaxation has been granted.
    pub open spec fn any(self) -> bool {
        self.allow_fetch || self.allow_clipboard || self.allow_storage
    }
}

/// Options for building a WebView.
pub struct BuildOptions<'a> {
    /// Single HTML string to render.
    pub html: &'a str,
    pub perms: Permissions,
    /// Raw mode skips CSP `<meta>` injection unless a permission is granted.
    pub raw_mode: bool,
}

/// The `connect-src` directive for the given fetch permission.
pub open spec fn connect_src(allow_fetch: bool) -> Seq<char> {
    if allow_fetch {
        "connect-src https: http: ws: wss:"@
    } else {
        "connect-src 'none'"@
    }
}

/// The CSP policy text.
pub open spec fn csp_policy(allow_fetch: bool) -> Seq<char> {
    "default-src 'self' 'unsafe-inline' data: blob:; "@ + connect_src(allow_fetch)
        + "; object-src 'none'; base-uri 'none'; form-action 'none';"@
}

/// The `<meta>` element that carries the policy.
pub open spec fn csp_meta(allow_fetch: bool) -> Seq<char> {
    "<meta http-equiv=\"Content-Security-Policy\" content=\""@ + csp_policy(allow_fetch)
        + "\">"@
}

/// The first index at or after `from` where an opening `<head` tag starts in
/// the (lower-cased) `s`: `<head` followed by `>`, `/` or HTML whitespace,
/// so that `<header>` and the like do not count.
pub open spec fn head_tag_from(s: Seq<char>, from: int) -> Option<int>
    decreases s.len() - from,
{
    if from < 0 || from + 5 >= s.len() {
        None
    } else if occurs_at(s, "<head"@, from) && (s[from + 5] == '>' || s[from + 5] == '/'
        || is_html_space(s[from + 5])) {
        Some(from)
    } else {
        head_tag_from(s, from + 1)
    }
}

/// Where `head_tag_from` finds a tag, it lies at or after `from` and inside
/// the text.
pub proof fn lemma_head_tag_from(s: Seq<char>, from: int)
    requires
        0 <= from,
    ensures
        head_tag_from(s, from) matches Some(i) ==> from <= i && i + 5 < s.len(),
    decreases s.len() - from,
{
    if from + 5 < s.len() {
        lemma_head_tag_from(s, from + 1);
    }
}

/// Char offset just after the `>` that closes the first `<head ...>` opening
/// tag (matched ASCII case-insensitively), if there is one.
pub open spec fn head_open_end(html: Seq<char>) -> Option<int> {
    match head_tag_from(lower_seq(html), 0) {
        Some(start) => match find_from(lower_seq(html), seq!['>'], start) {
            Some(close) => Some(close + 1),
            None => None,
        },
        None => None,
    }
}

/// `html` with the CSP `<meta>` inserted right after the opening `<head ...>`
/// tag, or with a fresh `<head>` holding it prepended when there is none.
pub open spec fn csp_injected(html: Seq<char>, allow_fetch: bool) -> Seq<char> {
    match head_open_end(html) {
        Some(idx) => html.take(idx) + csp_meta(allow_fetch) + html.skip(idx),
        None => "<head>"@ + csp_meta(allow_fetch) + "</head>"@ + html,
    }
}

/// Injection keeps the document: the output is the document with the CSP
/// `<meta>` inserted at one place (after the opening `<head ...>` tag), or
/// the document after a fresh head holding the `<meta>`.
pub proof fn law_injection_preserves_document(html: Seq<char>, allow_fetch: bool)
    ensures
        (exists|i: int|
            0 <= i <= html.len() && #[trigger] csp_injected(html, allow_fetch) == html.take(i) + csp_meta(
                allow_fetch,
            ) + html.skip(i)) || csp_injected(html, allow_fetch) == "<head>"@ + csp_meta(allow_fetch)
            + "</head>"@ + html,
{
    if let Some(idx) = head_open_end(html) {
        let start = head_tag_from(lower_seq(html), 0)->0;
        lemma_head_tag_from(lower_seq(html), 0);
        lemma_find_from(lower_seq(html), seq!['>'], start);
        assert(0 <= idx <= html.len());
    }
}

/// In raw mode, a document that grants nothing and is given no permission
/// reaches the WebView untouched.
pub proof fn law_raw_mode_without_permissions_is_untouched(html: Seq<char>, perms: Permissions)
    requires
        !perms.any(),
        !html_allows_fetch(html),
    ensures
        prepared(html, perms, true) == html,
{
}

/// Outside raw mode the CSP always goes in.
pub proof fn law_csp_outside_raw_mode(html: Seq<char>, perms: Permissions)
    ensures
        prepared(html, perms, false) == csp_injected(html, effective(html, perms).allow_fetch),
{
}

/// Build the default CSP value, honoring `allow_fetch`.
pub fn build_csp(perms: &Permissions) -> (csp: String)
    ensures
        csp@ == csp_policy(perms.allow_fetch),
{
    let connect = if perms.allow_fetch {
        "connect-src https: http: ws: wss:"
    } else {
        "connect-src 'none'"
    };
    let mut csp = String::from_str("default-src 'self' 'unsafe-inline' data: blob:; ");
    csp.append(connect);
    csp.append("; object-src 'none'; base-uri 'none'; form-action 'none';");
    csp
}

/// The first opening `<head` tag in the lower-cased text (see
/// `head_tag_from`).
fn find_head_tag(lower: &Vec<char>) -> (r: Option<usize>)
    ensures
        match r {
            Some(i) => head_tag_from(lower@, 0) == Some(i as int),
            None => head_tag_from(lower@, 0) is None,
        },
{
    let pat = chars_of("<head");
    proof {
        reveal_strlit("<head");
    }
    let n = lower.len();
    let mut i: usize = 0;
    while n - i > 5
        invariant
            pat@ == "<head"@,
            pat@.len() == 5,
            n == lower@.len(),
            i <= n,
            head_tag_from(lower@, 0) == head_tag_from(lower@, i as int),
        decreases n - i,
    {
        if occurs_at_exec(lower, &pat, i) {
            let c = lower[i + 5];
            if c == '>' || c == '/' || c == ' ' || c == '\t' || c == '\n' || c == '\r' || c == '\x0C' {
                return Some(i);
            }
        }
        i = i + 1;
    }
    None
}

/// Find the `<head ...>` opening tag (ASCII case-insensitive) and return the
/// char offset just after its closing `>`.
fn find_head_open_end(html: &str) -> (r: Option<usize>)
    ensures
        match r {
            Some(i) => head_open_end(html@) == Some(i as int) && i <= html@.len(),
            None => head_open_end(html@) is None,
        },
{
    let lower = lower_chars(&chars_of(html));
    let len = lower.len();
    let start = match find_head_tag(&lower) {
        Some(s) => s,
        None => return None,
    };
    let gt = chars_of(">");
    proof {
        reveal_strlit(">");
        assert(gt@ =~= seq!['>']);
    }
    match find_in(&lower, &gt, start) {
        Some(close) => {
            proof {
                lemma_find_from(lower@, gt@, start as int);
                assert(close + 1 <= len);
                assert(lower@.len() == html@.len());
            }
            Some(close + 1)
        },
        None => None,
    }
}

/// Inject a CSP `<meta http-equiv>` tag into the HTML:
/// - if `<head>` exists, the tag goes right after the opening tag;
/// - otherwise a fresh `<head>...</head>` block is prepended.
pub fn inject_csp(html: &str, perms: &Permissions) -> (out: String)
    ensures
        out@ == csp_injected(html@, perms.allow_fetch),
{
    let csp = build_csp(perms);
    let mut meta = String::from_str("<meta http-equiv=\"Content-Security-Policy\" content=\"");
    meta.append(csp.as_str());
    meta.append("\">");
    match find_head_open_end(html) {
        Some(idx) => {
            let n = html.unicode_len();
            let mut out = String::from_str(html.substring_char(0, idx));
            out.append(meta.as_str());
            out.append(html.substring_char(idx, n));
            proof {
                assert(html@.take(idx as int) =~= html@.subrange(0, idx as int));
                assert(html@.skip(idx as int) =~= html@.subrange(idx as int, n as int));
            }
            out
        },
        None => {
            let mut out = String::from_str("<head>");
            out.append(meta.as_str());
            out.append("</head>");
            out.append(html);
            out
        },
    }
}


/// In a folded tag, the value of the quoted attribute value that begins at
/// index `k` (the opening quote, `"` or `'`, runs to the next same quote).
pub open spec fn quoted_value_at(t: Seq<char>, k: int) -> Option<Seq<char>> {
    if 0 <= k < t.len() && (t[k] == '"' || t[k] == '\'') {
        match find_from(t, seq![t[k]], k + 1) {
            Some(e) => Some(t.subrange(k + 1, e)),
            None => None,
        }
    } else {
        None
    }
}

/// In a folded tag, the quoted value of the first ` attr=` in it.
pub open spec fn attr_value(t: Seq<char>, attr: Seq<char>) -> Option<Seq<char>> {
    let pat = seq![' '] + attr + seq!['='];
    match find_from(t, pat, 0) {
        Some(k) => quoted_value_at(t, k + pat.len()),
        None => None,
    }
}

/// The space-separated list `v` holds the token `tok`.
pub open spec fn has_token(v: Seq<char>, tok: Seq<char>) -> bool {
    find_from(seq![' '] + v + seq![' '], seq![' '] + tok + seq![' '], 0) is Some
}

/// In the folded document `n`, the `<meta ` tag that starts at `i` reads
/// `name="tinyview-allow"` and lists the `fetch` token in its `content`.
pub open spec fn meta_grants_fetch(n: Seq<char>, i: int) -> bool {
    match find_from(n, seq!['>'], i) {
        Some(e) => {
            let tag = n.subrange(i, e);
            &&& attr_value(tag, "name"@) == Some("tinyview-allow"@)
            &&& match attr_value(tag, "content"@) {
                Some(c) => has_token(c, "fetch"@),
                None => false,
            }
        },
        None => false,
    }
}

/// The document grants itself network access with
/// `<meta name="tinyview-allow" content="fetch">` (attribute names, values
/// and the tag are matched ASCII case-insensitively, any HTML whitespace
/// separates them, values are single- or double-quoted, and `content` is a
/// space-separated token list).
pub open spec fn html_allows_fetch(html: Seq<char>) -> bool {
    exists|i: int| occurs_at(fold_seq(html), "<meta "@, i) && meta_grants_fetch(fold_seq(html), i)
}

/// A `<meta ` tag anywhere in the document that grants fetch makes the
/// document grant fetch: every tag is looked at, not only the first.
pub proof fn law_any_granting_meta_counts(html: Seq<char>, i: int)
    requires
        occurs_at(fold_seq(html), "<meta "@, i),
        meta_grants_fetch(fold_seq(html), i),
    ensures
        html_allows_fetch(html),
{
}

/// The plain grant tag.
pub open spec fn grant_tag() -> Seq<char> {
    "<meta name=\"tinyview-allow\" content=\"fetch\">"@
}

/// The first occurrence at or after `i` is at `j` when `pat` occurs at `j`
/// and nowhere in between.
proof fn lemma_first_at(s: Seq<char>, pat: Seq<char>, i: int, j: int)
    requires
        0 <= i <= j,
        occurs_at(s, pat, j),
        forall|k: int| i <= k < j ==> !#[trigger] occurs_at(s, pat, k),
    ensures
        find_from(s, pat, i) == Some(j),
{
    lemma_find_from(s, pat, i);
}

/// The plain grant tag, placed anywhere in a document, whatever comes before
/// or after it (other `<meta>` tags included), makes the document grant
/// itself fetch.
pub proof fn law_grant_tag_anywhere(a: Seq<char>, b: Seq<char>)
    ensures
        html_allows_fetch(a + grant_tag() + b),
{
    reveal_strlit("<meta name=\"tinyview-allow\" content=\"fetch\">");
    reveal_strlit("<meta ");
    reveal_strlit("name");
    reveal_strlit("content");
    reveal_strlit("tinyview-allow");
    reveal_strlit("fetch");
    let g = grant_tag();
    assert(g.len() == 44);
    assert(fold_seq(g) =~= g);
    let html = a + g + b;
    let n = fold_seq(html);
    assert(n =~= fold_seq(a) + g + fold_seq(b));
    let i0 = a.len() as int;
    assert forall|k: int| 0 <= k < 44 implies #[trigger] n[i0 + k] == g[k] by {
        assert(n[i0 + k] == (fold_seq(a) + g + fold_seq(b))[i0 + k]);
    }
    // the tag opens with `<meta `
    assert(occurs_at(n, "<meta "@, i0)) by {
        assert(n.subrange(i0, i0 + 6) =~= "<meta "@) by {
            assert forall|k: int| 0 <= k < 6 implies n.subrange(i0, i0 + 6)[k] == "<meta "@[k] by {
                assert(n[i0 + k] == g[k]);
            }
        }
    }
    // it closes at its `>`
    let gt = seq!['>'];
    assert(occurs_at(n, gt, i0 + 43)) by {
        assert(n[i0 + 43] == g[43]);
        assert(n.subrange(i0 + 43, i0 + 44) =~= gt);
    }
    assert forall|k: int| i0 <= k < i0 + 43 implies !#[trigger] occurs_at(n, gt, k) by {
        assert(n[k] == g[k - i0]);
        assert(n.subrange(k, k + 1)[0] == n[k]);
    }
    lemma_first_at(n, gt, i0, i0 + 43);
    let t = n.subrange(i0, i0 + 43);
    assert(t =~= g.take(43)) by {
        assert forall|k: int| 0 <= k < 43 implies t[k] == g.take(43)[k] by {
            assert(n[i0 + k] == g[k]);
        }
    }
    // name="tinyview-allow"
    let pn = seq![' '] + "name"@ + seq!['='];
    assert(occurs_at(t, pn, 5)) by {
        assert(t.subrange(5, 11) =~= pn);
    }
    assert forall|k: int| 0 <= k < 5 implies !#[trigger] occurs_at(t, pn, k) by {
        assert(t.subrange(k, k + 6)[0] == t[k]);
    }
    lemma_first_at(t, pn, 0, 5);
    let q = seq!['"'];
    assert(occurs_at(t, q, 26)) by {
        assert(t.subrange(26, 27) =~= q);
    }
    assert forall|k: int| 12 <= k < 26 implies !#[trigger] occurs_at(t, q, k) by {
        assert(t.subrange(k, k + 1)[0] == t[k]);
    }
    lemma_first_at(t, q, 12, 26);
    assert(t[11] == '"');
    assert(seq![t[11]] =~= q);
    assert(t.subrange(12, 26) =~= "tinyview-allow"@);
    assert(attr_value(t, "name"@) == Some("tinyview-allow"@));
    // content="fetch"
    let pc = seq![' '] + "content"@ + seq!['='];
    assert(occurs_at(t, pc, 27)) by {
        assert(t.subrange(27, 36) =~= pc);
    }
    assert forall|k: int| 0 <= k < 27 implies !#[trigger] occurs_at(t, pc, k) by {
        assert(t.subrange(k, k + 9)[0] == t[k]);
        assert(t.subrange(k, k + 9)[1] == t[k + 1]);
    }
    lemma_first_at(t, pc, 0, 27);
    assert(occurs_at(t, q, 42)) by {
        assert(t.subrange(42, 43) =~= q);
    }
    assert forall|k: int| 37 <= k < 42 implies !#[trigger] occurs_at(t, q, k) by {
        assert(t.subrange(k, k + 1)[0] == t[k]);
    }
    lemma_first_at(t, q, 37, 42);
    assert(t[36] == '"');
    assert(seq![t[36]] =~= q);
    assert(t.subrange(37, 42) =~= "fetch"@);
    assert(attr_value(t, "content"@) == Some("fetch"@));
    let padded = seq![' '] + "fetch"@ + seq![' '];
    assert(occurs_at(padded, padded, 0)) by {
        assert(padded.subrange(0, padded.len() as int) =~= padded);
    }
    lemma_first_at(padded, padded, 0, 0);
    assert(has_token("fetch"@, "fetch"@));
    assert(meta_grants_fetch(n, i0));
}

/// A document holding the plain grant tag anywhere is prepared, in raw mode
/// or not and whatever the flags, with the CSP injected and `connect-src`
/// opened to `https: http: ws: wss:`.
pub proof fn law_grant_tag_opens_connect(a: Seq<char>, b: Seq<char>, perms: Permissions, raw_mode: bool)
    ensures
        prepared(a + grant_tag() + b, perms, raw_mode) == csp_injected(a + grant_tag() + b, true),
{
    law_grant_tag_anywhere(a, b);
}

/// The value of the quoted attribute value starting at `k` in `t`.
fn quoted_value_at_exec(t: &Vec<char>, k: usize) -> (r: Option<Vec<char>>)
    ensures
        match r {
            Some(v) => quoted_value_at(t@, k as int) == Some(v@),
            None => quoted_value_at(t@, k as int) is None,
        },
{
    if k >= t.len() {
        return None;
    }
    let q = t[k];
    if q != '"' && q != '\'' {
        return None;
    }
    let mut qv: Vec<char> = Vec::new();
    qv.push(q);
    assert(qv@ =~= seq![t@[k as int]]);
    match find_in(t, &qv, k + 1) {
        Some(e) => {
            proof {
                lemma_find_from(t@, qv@, k + 1);
            }
            Some(slice_chars(t, k + 1, e))
        },
        None => None,
    }
}

/// The quoted value of the first ` attr=` in the folded tag `t`.
fn attr_value_exec(t: &Vec<char>, attr: &Vec<char>) -> (r: Option<Vec<char>>)
    ensures
        match r {
            Some(v) => attr_value(t@, attr@) == Some(v@),
            None => attr_value(t@, attr@) is None,
        },
{
    let pat = wrap_chars(' ', attr, '=');
    match find_in(t, &pat, 0) {
        Some(k) => {
            let tl = t.len();
            proof {
                lemma_find_from(t@, pat@, 0);
                assert(k + pat@.len() <= tl);
            }
            quoted_value_at_exec(t, k + pat.len())
        },
        None => None,
    }
}

/// Whether the tag of `n` starting at `i` grants fetch.
fn meta_grants_fetch_exec(n: &Vec<char>, i: usize) -> (r: bool)
    requires
        i <= n@.len(),
    ensures
        r == meta_grants_fetch(n@, i as int),
{
    let gt = chars_of(">");
    proof {
        reveal_strlit(">");
        assert(gt@ =~= seq!['>']);
    }
    let e = match find_in(n, &gt, i) {
        Some(e) => e,
        None => return false,
    };
    proof {
        lemma_find_from(n@, gt@, i as int);
    }
    let tag = slice_chars(n, i, e);
    let name = match attr_value_exec(&tag, &chars_of("name")) {
        Some(v) => v,
        None => return false,
    };
    if !chars_eq(&name, &chars_of("tinyview-allow")) {
        return false;
    }
    let content = match attr_value_exec(&tag, &chars_of("content")) {
        Some(v) => v,
        None => return false,
    };
    let padded = wrap_chars(' ', &content, ' ');
    let tok = wrap_chars(' ', &chars_of("fetch"), ' ');
    find_in(&padded, &tok, 0).is_some()
}

/// Whether the document carries the in-document fetch grant
/// `<meta name="tinyview-allow" content="fetch">`.
pub fn meta_allows_fetch(html: &str) -> (r: bool)
    ensures
        r == html_allows_fetch(html@),
{
    let n = fold_chars(&chars_of(html));
    let pat = chars_of("<meta ");
    let len = n.len();
    let mut from: usize = 0;
    while from <= len
        invariant
            len == n@.len(),
            n@ == fold_seq(html@),
            pat@ == "<meta "@,
            forall|j: int| 0 <= j < from && occurs_at(n@, pat@, j) ==> !meta_grants_fetch(n@, j),
        decreases len + 1 - from,
    {
        match find_in(&n, &pat, from) {
            Some(i) => {
                proof {
                    lemma_find_from(n@, pat@, from as int);
                    reveal_strlit("<meta ");
                    assert(i < len);
                }
                if meta_grants_fetch_exec(&n, i) {
                    assert(occurs_at(fold_seq(html@), "<meta "@, i as int) && meta_grants_fetch(
                        fold_seq(html@),
                        i as int,
                    ));
                    return true;
                }
                from = i + 1;
            },
            None => {
                proof {
                    lemma_find_from(n@, pat@, from as int);
                    assert forall|j: int|
                        !(occurs_at(fold_seq(html@), "<meta "@, j) && meta_grants_fetch(
                            fold_seq(html@),
                            j,
                        )) by {
                        if 0 <= j < from {
                        }
                    }
                }
                return false;
            },
        }
    }
    false
}

/// The permissions in force for `html`: the caller's, with `allow_fetch`
/// also granted by the document's own `tinyview-allow` meta. Clipboard and
/// storage are never granted by the document.
pub fn effective_perms(html: &str, perms: &Permissions) -> (p: Permissions)
    ensures
        p.allow_fetch == (perms.allow_fetch || html_allows_fetch(html@)),
        p.allow_clipboard == perms.allow_clipboard,
        p.allow_storage == perms.allow_storage,
{
    let meta = if perms.allow_fetch { true } else { meta_allows_fetch(html) };
    Permissions {
        allow_fetch: perms.allow_fetch || meta,
        allow_clipboard: perms.allow_clipboard,
        allow_storage: perms.allow_storage,
    }
}

/// The permissions in force for `html` given the caller's `perms`.
pub open spec fn effective(html: Seq<char>, perms: Permissions) -> Permissions {
    Permissions {
        allow_fetch: perms.allow_fetch || html_allows_fetch(html),
        allow_clipboard: perms.allow_clipboard,
        allow_storage: perms.allow_storage,
    }
}

/// Whether the CSP `<meta>` goes into the document: always outside raw
/// mode, and in raw mode only once some permission is in force.
pub open spec fn injects_csp(html: Seq<char>, perms: Permissions, raw_mode: bool) -> bool {
    !raw_mode || effective(html, perms).any()
}

/// The HTML that the WebView loads.
pub open spec fn prepared(html: Seq<char>, perms: Permissions, raw_mode: bool) -> Seq<char> {
    if injects_csp(html, perms, raw_mode) {
        csp_injected(html, effective(html, perms).allow_fetch)
    } else {
        html
    }
}

/// Prepare `html` for loading: inject the CSP (honoring the document's fetch
/// grant) unless raw mode is on and no permission is in force.
pub fn prepare_html(html: &str, perms: &Permissions, raw_mode: bool) -> (out: String)
    ensures
        out@ == prepared(html@, *perms, raw_mode),
{
    let eff = effective_perms(html, perms);
    let any = eff.allow_fetch || eff.allow_clipboard || eff.allow_storage;
    if !raw_mode || any {
        inject_csp(html, &eff)
    } else {
        String::from_str(html)
    }
}

/// Top-level navigation policy: only `about:` and `data:` URLs may load.
pub fn navigation_allowed(url: &str) -> (ok: bool)
    ensures
        ok == (url@.take(6) == "about:"@ && url@.len() >= 6 || url@.take(5) == "data:"@
            && url@.len() >= 5),
{
    proof {
        reveal_strlit("about:");
        reveal_strlit("data:");
    }
    starts_with_str(url, "about:") || starts_with_str(url, "data:")
}

/// The WebView runs incognito unless storage is allowed.
pub fn use_incognito(perms: &Permissions) -> (r: bool)
    ensures
        r == !perms.allow_storage,
{
    !perms.allow_storage
}

} // verus!
