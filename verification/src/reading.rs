//! Reading the injected `window.__TINYVIEW__` literal back as JSON: a
//! reader for JSON strings (with their escapes) and for the object of the
//! four members `input`, `params`, `path` and `title`, and the law that the
//! literal reads back as the data it was built from.

use vstd::prelude::*;
use vstd::string::*;

use crate::script::{opens_script_close, script_piece, script_safe};
use crate::template::{
    hex_digit, inject_literal, json_escape_char, json_escaped, json_string, params_members,
    safe_json_string,
};

verus! {

broadcast use vstd::string::group_string_axioms;

/// The value of a hexadecimal digit, in either case.
pub open spec fn hex_value(c: char) -> Option<int> {
    if '0' <= c && c <= '9' {
        Some(c as int - 48)
    } else if 'a' <= c && c <= 'f' {
        Some(c as int - 87)
    } else if 'A' <= c && c <= 'F' {
        Some(c as int - 55)
    } else {
        None
    }
}

/// The code unit that the four hexadecimal digits `t[0..4]` write.
pub open spec fn hex4(t: Seq<char>) -> Option<int>
    recommends
        t.len() >= 4,
{
    match (hex_value(t[0]), hex_value(t[1]), hex_value(t[2]), hex_value(t[3])) {
        (Some(a), Some(b), Some(c), Some(d)) => Some(((a * 16 + b) * 16 + c) * 16 + d),
        _ => None,
    }
}

/// The character of a two-character escape `\x`.
pub open spec fn short_escape(c: char) -> Option<char> {
    if c == '"' {
        Some('"')
    } else if c == '\\' {
        Some('\\')
    } else if c == '/' {
        Some('/')
    } else if c == 'b' {
        Some('\u{8}')
    } else if c == 'f' {
        Some('\u{c}')
    } else if c == 'n' {
        Some('\n')
    } else if c == 'r' {
        Some('\r')
    } else if c == 't' {
        Some('\t')
    } else {
        None
    }
}

/// `\uXXXX` at the start of `t` with a code unit that is a character by
/// itself (not a surrogate half).
pub open spec fn unicode_escape(t: Seq<char>) -> Option<char> {
    if t.len() >= 6 && t[0] == '\\' && t[1] == 'u' && hex4(t.subrange(2, 6)) is Some {
        let v = hex4(t.subrange(2, 6))->0;
        if 0xD800 <= v && v <= 0xDFFF {
            None
        } else {
            Some(v as char)
        }
    } else {
        None
    }
}

/// Read the body of a JSON string, after its opening quote: the characters
/// it denotes and the text after its closing quote. Raw control characters
/// are refused, as JSON does; surrogate pairs are not read.
pub open spec fn read_body(t: Seq<char>) -> Option<(Seq<char>, Seq<char>)>
    decreases t.len(),
{
    if t.len() == 0 {
        None
    } else if t[0] == '"' {
        Some((Seq::empty(), t.skip(1)))
    } else if t[0] == '\\' {
        if t.len() >= 2 && short_escape(t[1]) is Some {
            match read_body(t.skip(2)) {
                Some(p) => Some((seq![short_escape(t[1])->0] + p.0, p.1)),
                None => None,
            }
        } else if unicode_escape(t) is Some {
            match read_body(t.skip(6)) {
                Some(p) => Some((seq![unicode_escape(t)->0] + p.0, p.1)),
                None => None,
            }
        } else {
            None
        }
    } else if (t[0] as int) < 32 {
        None
    } else {
        match read_body(t.skip(1)) {
            Some(p) => Some((seq![t[0]] + p.0, p.1)),
            None => None,
        }
    }
}

/// Read a JSON string at the start of `t`: its value and the text after it.
pub open spec fn read_string(t: Seq<char>) -> Option<(Seq<char>, Seq<char>)> {
    if t.len() > 0 && t[0] == '"' {
        read_body(t.skip(1))
    } else {
        None
    }
}

/// `c` put in front of what was read.
pub open spec fn read_prefixed(c: Seq<char>, r: Option<(Seq<char>, Seq<char>)>) -> Option<(Seq<char>, Seq<char>)> {
    match r {
        Some(p) => Some((c + p.0, p.1)),
        None => None,
    }
}

/// A hexadecimal digit written by `hex_digit` reads back as its value.
proof fn lemma_hex_digit(n: int)
    requires
        0 <= n < 16,
    ensures
        hex_value(hex_digit(n)) == Some(n),
{
}

/// One character written by `json_escape_char` reads back as itself.
proof fn lemma_read_escape_char(c: char, t: Seq<char>)
    ensures
        read_body(json_escape_char(c) + t) == read_prefixed(seq![c], read_body(t)),
{
    let e = json_escape_char(c);
    let et = e + t;
    if c == '"' || c == '\\' || c == '\u{8}' || c == '\t' || c == '\n' || c == '\u{c}' || c == '\r' {
        assert(et[0] == '\\');
        assert(et[1] == e[1]);
        assert(et.skip(2) =~= t);
    } else if (c as int) < 32 {
        let v = c as int;
        lemma_hex_digit(v / 16);
        lemma_hex_digit(v % 16);
        assert(et.subrange(2, 6) =~= seq!['0', '0', hex_digit(v / 16), hex_digit(v % 16)]);
        assert(hex4(et.subrange(2, 6)) == Some(v));
        assert(unicode_escape(et) == Some(c));
        assert(et.skip(6) =~= t);
        assert(short_escape(et[1]) is None);
    } else {
        assert(et[0] == c);
        assert(et.skip(1) =~= t);
    }
}

/// Escaped characters read back as the characters.
proof fn lemma_read_escaped(s: Seq<char>, t: Seq<char>)
    ensures
        read_body(json_escaped(s) + t) == read_prefixed(s, read_body(t)),
    decreases s.len(),
{
    if s.len() == 0 {
        assert(json_escaped(s) + t =~= t);
        match read_body(t) {
            Some(p) => assert(s + p.0 =~= p.0),
            None => {},
        }
    } else {
        let init = s.drop_last();
        let c = s.last();
        let t2 = json_escape_char(c) + t;
        assert(json_escaped(s) + t =~= json_escaped(init) + t2);
        lemma_read_escaped(init, t2);
        lemma_read_escape_char(c, t);
        match read_body(t) {
            Some(p) => {
                assert(init + (seq![c] + p.0) =~= s + p.0);
            },
            None => {},
        }
    }
}

/// `script_safe` keeps a prefix that holds no `<`, U+2028 or U+2029.
proof fn lemma_safe_prefix(y: Seq<char>, k: int)
    requires
        0 <= k <= y.len(),
        forall|i: int| 0 <= i < k ==> #[trigger] y[i] != '<' && y[i] != '\u{2028}' && y[i] != '\u{2029}',
    ensures
        script_safe(y) == y.take(k) + script_safe(y.skip(k)),
    decreases k,
{
    if k == 0 {
        assert(y.take(0) + script_safe(y.skip(0)) =~= script_safe(y)) by {
            assert(y.skip(0) =~= y);
        }
    } else {
        assert(script_piece(y) == seq![y[0]]);
        assert(script_safe(y) == seq![y[0]] + script_safe(y.skip(1)));
        let y1 = y.skip(1);
        assert forall|i: int| 0 <= i < k - 1 implies #[trigger] y1[i] != '<' && y1[i] != '\u{2028}' && y1[i]
            != '\u{2029}' by {
            assert(y1[i] == y[i + 1]);
        }
        lemma_safe_prefix(y1, k - 1);
        assert(y1.skip(k - 1) =~= y.skip(k));
        assert(seq![y[0]] + (y1.take(k - 1) + script_safe(y.skip(k))) =~= y.take(k) + script_safe(y.skip(k)));
    }
}

/// Making a JSON string body script-safe does not change what it reads as.
proof fn lemma_read_script_safe(y: Seq<char>, more: Seq<char>)
    requires
        read_body(y) is Some,
    ensures
        read_body(script_safe(y) + more) == Some(((read_body(y)->0).0, script_safe((read_body(y)->0).1) + more)),
    decreases y.len(),
{
    let out = script_safe(y) + more;
    if y[0] == '"' {
        lemma_safe_prefix(y, 1);
        assert(out =~= seq!['"'] + (script_safe(y.skip(1)) + more));
        assert(out.skip(1) =~= script_safe(y.skip(1)) + more);
    } else if y[0] == '\\' {
        if y.len() >= 2 && short_escape(y[1]) is Some {
            lemma_safe_prefix(y, 2);
            lemma_read_script_safe(y.skip(2), more);
            assert(out =~= y.take(2) + (script_safe(y.skip(2)) + more));
            assert(out[0] == '\\');
            assert(out[1] == y[1]);
            assert(out.skip(2) =~= script_safe(y.skip(2)) + more);
        } else {
            let c = unicode_escape(y)->0;
            lemma_safe_prefix(y, 6);
            lemma_read_script_safe(y.skip(6), more);
            assert(out =~= y.take(6) + (script_safe(y.skip(6)) + more));
            assert(out.subrange(0, 6) =~= y.subrange(0, 6));
            assert(out.subrange(2, 6) =~= y.subrange(2, 6));
            assert(unicode_escape(out) == Some(c));
            assert(short_escape(out[1]) is None);
            assert(out.skip(6) =~= script_safe(y.skip(6)) + more);
        }
    } else {
        let c = y[0];
        lemma_read_script_safe(y.skip(1), more);
        let rest = script_safe(y.skip(1)) + more;
        assert(script_safe(y) == script_piece(y) + script_safe(y.skip(1)));
        assert(out =~= script_piece(y) + rest);
        if c == '<' && opens_script_close(y) {
            let e = seq!['\\', 'u', '0', '0', '3', 'c'];
            assert(out =~= e + rest);
            assert(out.subrange(2, 6) =~= seq!['0', '0', '3', 'c']);
            assert(hex4(out.subrange(2, 6)) == Some(60int));
            assert(unicode_escape(out) == Some('<'));
            assert(short_escape(out[1]) is None);
            assert(out.skip(6) =~= rest);
        } else if c == '\u{2028}' {
            let e = seq!['\\', 'u', '2', '0', '2', '8'];
            assert(out =~= e + rest);
            assert(out.subrange(2, 6) =~= seq!['2', '0', '2', '8']);
            assert(hex4(out.subrange(2, 6)) == Some(0x2028int));
            assert(unicode_escape(out) == Some('\u{2028}'));
            assert(short_escape(out[1]) is None);
            assert(out.skip(6) =~= rest);
        } else if c == '\u{2029}' {
            let e = seq!['\\', 'u', '2', '0', '2', '9'];
            assert(out =~= e + rest);
            assert(out.subrange(2, 6) =~= seq!['2', '0', '2', '9']);
            assert(hex4(out.subrange(2, 6)) == Some(0x2029int));
            assert(unicode_escape(out) == Some('\u{2029}'));
            assert(short_escape(out[1]) is None);
            assert(out.skip(6) =~= rest);
        } else {
            assert(out[0] == c);
            assert(out.skip(1) =~= rest);
        }
    }
}

/// A script-safe JSON string literal reads back as its value, and reading
/// stops right after it.
pub proof fn lemma_read_safe_json_string(s: Seq<char>, more: Seq<char>)
    ensures
        read_string(safe_json_string(s) + more) == Some((s, more)),
{
    let j = json_string(s);
    let b = json_escaped(s) + seq!['"'];
    assert(j =~= seq!['"'] + b);
    assert(j[0] == '"');
    lemma_safe_prefix(j, 1);
    assert(j.skip(1) =~= b);
    lemma_read_escaped(s, seq!['"']);
    assert(read_body(seq!['"']) == Some((Seq::<char>::empty(), seq!['"'].skip(1))));
    assert(seq!['"'].skip(1) =~= Seq::<char>::empty());
    assert(s + Seq::<char>::empty() =~= s);
    lemma_read_script_safe(b, more);
    assert(script_safe(Seq::<char>::empty()) =~= Seq::<char>::empty());
    assert(Seq::<char>::empty() + more =~= more);
    let t = safe_json_string(s) + more;
    assert(t =~= seq!['"'] + (script_safe(b) + more));
    assert(t.skip(1) =~= script_safe(b) + more);
}

/// Reading a string consumes at least its quotes.
proof fn lemma_read_body_shorter(t: Seq<char>)
    ensures
        read_body(t) matches Some(p) ==> p.1.len() < t.len(),
    decreases t.len(),
{
    if t.len() > 0 && t[0] != '"' {
        if t[0] == '\\' {
            if t.len() >= 2 {
                lemma_read_body_shorter(t.skip(2));
            }
            if t.len() >= 6 {
                lemma_read_body_shorter(t.skip(6));
            }
        } else {
            lemma_read_body_shorter(t.skip(1));
        }
    }
}

/// Reading a string at the start of `t` leaves less than `t`.
pub proof fn lemma_read_string_shorter(t: Seq<char>)
    ensures
        read_string(t) matches Some(p) ==> p.1.len() < t.len(),
{
    if t.len() > 0 && t[0] == '"' {
        lemma_read_body_shorter(t.skip(1));
    }
}

/// Read one or more members `"key":"value"` separated by `,` up to the
/// closing `}`: the pairs and the text after the `}`.
pub open spec fn read_member_list(t: Seq<char>) -> Option<(Seq<(Seq<char>, Seq<char>)>, Seq<char>)>
    decreases t.len(),
{
    match read_string(t) {
        Some(kp) => {
            let t1 = kp.1;
            if t1.len() > 0 && t1[0] == ':' {
                match read_string(t1.skip(1)) {
                    Some(vp) => {
                        let t2 = vp.1;
                        if t2.len() > 0 && t2[0] == '}' {
                            Some((seq![(kp.0, vp.0)], t2.skip(1)))
                        } else if t2.len() > 0 && t2[0] == ',' {
                            proof {
                                lemma_read_string_shorter(t);
                                lemma_read_string_shorter(t1.skip(1));
                            }
                            match read_member_list(t2.skip(1)) {
                                Some(rest) => Some((seq![(kp.0, vp.0)] + rest.0, rest.1)),
                                None => None,
                            }
                        } else {
                            None
                        }
                    },
                    None => None,
                }
            } else {
                None
            }
        },
        None => None,
    }
}

/// Read the members of an object after its `{`: the pairs and the text
/// after the closing `}`.
pub open spec fn read_members(t: Seq<char>) -> Option<(Seq<(Seq<char>, Seq<char>)>, Seq<char>)> {
    if t.len() > 0 && t[0] == '}' {
        Some((Seq::empty(), t.skip(1)))
    } else {
        read_member_list(t)
    }
}

/// The text after the prefix `p` of `t`, if `t` starts with it.
pub open spec fn after_text(t: Seq<char>, p: Seq<char>) -> Option<Seq<char>> {
    if p.len() <= t.len() && t.take(p.len() as int) == p {
        Some(t.skip(p.len() as int))
    } else {
        None
    }
}

/// Read `null` or a string: `None` or the string's value, and the text
/// after it.
pub open spec fn read_optional_string(t: Seq<char>) -> Option<(Option<Seq<char>>, Seq<char>)> {
    match after_text(t, "null"@) {
        Some(r) => Some((None, r)),
        None => match read_string(t) {
            Some(p) => Some((Some(p.0), p.1)),
            None => None,
        },
    }
}

/// What the injected object holds: input, parameters, path and title.
pub struct LiteralValue {
    pub input: Seq<char>,
    pub params: Seq<(Seq<char>, Seq<char>)>,
    pub path: Option<Seq<char>>,
    pub title: Seq<char>,
}

/// Read the whole text `t` as the JSON object
/// `{"input":..,"params":{..},"path":..,"title":..}`; `None` if it is not
/// such an object or text follows it.
pub open spec fn read_literal(t: Seq<char>) -> Option<LiteralValue> {
    match after_text(t, "{\"input\":"@) {
        Some(t1) => match read_string(t1) {
            Some(ip) => match after_text(ip.1, ",\"params\":{"@) {
                Some(t3) => match read_members(t3) {
                    Some(mp) => match after_text(mp.1, ",\"path\":"@) {
                        Some(t5) => match read_optional_string(t5) {
                            Some(pp) => match after_text(pp.1, ",\"title\":"@) {
                                Some(t7) => match read_string(t7) {
                                    Some(tp) => if tp.1 == seq!['}'] {
                                        Some(
                                            LiteralValue {
                                                input: ip.0,
                                                params: mp.0,
                                                path: pp.0,
                                                title: tp.0,
                                            },
                                        )
                                    } else {
                                        None
                                    },
                                    None => None,
                                },
                                None => None,
                            },
                            None => None,
                        },
                        None => None,
                    },
                    None => None,
                },
                None => None,
            },
            None => None,
        },
        None => None,
    }
}

/// The parameters as pairs of characters.
pub open spec fn param_pairs(ps: Seq<(Seq<char>, String)>) -> Seq<(Seq<char>, Seq<char>)> {
    ps.map_values(|p: (Seq<char>, String)| (p.0, p.1@))
}

/// One member, followed by `}` or by `,` and more members.
proof fn lemma_one_member(k: Seq<char>, v: Seq<char>, c: char, t: Seq<char>)
    requires
        c == '}' || c == ',',
    ensures
        read_member_list(safe_json_string(k) + ":"@ + safe_json_string(v) + seq![c] + t) == if c == '}' {
            Some((seq![(k, v)], t))
        } else {
            match read_member_list(t) {
                Some(rest) => Some((seq![(k, v)] + rest.0, rest.1)),
                None => None,
            }
        },
{
    reveal_strlit(":");
    let x = safe_json_string(k) + ":"@ + safe_json_string(v) + seq![c] + t;
    let t1 = ":"@ + safe_json_string(v) + seq![c] + t;
    assert(x =~= safe_json_string(k) + t1);
    lemma_read_safe_json_string(k, t1);
    let t2 = seq![c] + t;
    assert(t1.skip(1) =~= safe_json_string(v) + t2);
    lemma_read_safe_json_string(v, t2);
    assert(t2.skip(1) =~= t);
}

/// The quoted parameters, followed by `}` or by `,` and more members, read
/// back as the parameters.
proof fn lemma_read_params_members(ps: Seq<(Seq<char>, String)>, c: char, t: Seq<char>)
    requires
        ps.len() > 0,
        c == '}' || c == ',',
    ensures
        read_member_list(params_members(ps) + seq![c] + t) == if c == '}' {
            Some((param_pairs(ps), t))
        } else {
            match read_member_list(t) {
                Some(rest) => Some((param_pairs(ps) + rest.0, rest.1)),
                None => None,
            }
        },
    decreases ps.len(),
{
    let k = ps.last().0;
    let v = ps.last().1@;
    if ps.len() == 1 {
        lemma_one_member(k, v, c, t);
        assert(param_pairs(ps) =~= seq![(k, v)]);
    } else {
        reveal_strlit(",");
        let init = ps.drop_last();
        let t2 = safe_json_string(k) + ":"@ + safe_json_string(v) + seq![c] + t;
        assert(params_members(ps) + seq![c] + t =~= params_members(init) + seq![','] + t2) by {
            assert(","@ =~= seq![',']);
        }
        lemma_read_params_members(init, ',', t2);
        lemma_one_member(k, v, c, t);
        assert(param_pairs(ps) =~= param_pairs(init) + seq![(k, v)]);
        if c == ',' {
            match read_member_list(t) {
                Some(rest) => {
                    assert(param_pairs(init) + (seq![(k, v)] + rest.0) =~= param_pairs(ps) + rest.0);
                },
                None => {},
            }
        }
    }
}

/// A text read after its own prefix leaves the rest.
proof fn lemma_after(x: Seq<char>, y: Seq<char>)
    ensures
        after_text(x + y, x) == Some(y),
{
    assert((x + y).take(x.len() as int) =~= x);
    assert((x + y).skip(x.len() as int) =~= y);
}

/// The members and the `}` after them read back as the parameters.
proof fn lemma_stage_params(params: Seq<(Seq<char>, String)>, rest: Seq<char>)
    ensures
        read_members(params_members(params) + seq!['}'] + rest) == Some((param_pairs(params), rest)),
{
    let m = params_members(params);
    let t3 = m + seq!['}'] + rest;
    if params.len() == 0 {
        assert(m =~= Seq::<char>::empty());
        assert(t3 =~= seq!['}'] + rest);
        assert(t3.skip(1) =~= rest);
        assert(param_pairs(params) =~= Seq::<(Seq<char>, Seq<char>)>::empty());
    } else {
        lemma_read_params_members(params, '}', rest);
        lemma_read_string_head(params);
        assert(t3[0] == '"');
    }
}

/// A script-safe JSON string literal starts with a quote.
proof fn lemma_safe_json_string_head(s: Seq<char>)
    ensures
        safe_json_string(s).len() > 0,
        safe_json_string(s)[0] == '"',
{
    lemma_read_safe_json_string(s, Seq::empty());
    assert(safe_json_string(s) + Seq::<char>::empty() =~= safe_json_string(s));
}

/// The path (a string or `null`) reads back.
proof fn lemma_stage_path(path: Option<Seq<char>>, rest: Seq<char>)
    ensures
        read_optional_string(
            match path {
                Some(q) => safe_json_string(q),
                None => "null"@,
            } + rest,
        ) == Some((path, rest)),
{
    reveal_strlit("null");
    match path {
        Some(q) => {
            let t5 = safe_json_string(q) + rest;
            lemma_read_safe_json_string(q, rest);
            lemma_safe_json_string_head(q);
            assert(t5[0] == '"');
            if after_text(t5, "null"@) is Some {
                assert(t5.take(4)[0] == 'n');
            }
        },
        None => {
            lemma_after("null"@, rest);
        },
    }
}

/// The injected literal reads back, as a JSON object, as exactly the data
/// it was built from: its input, its parameters in order, its path (`null`
/// when there is none) and its title.
pub proof fn law_literal_reads_back(
    input: Seq<char>,
    params: Seq<(Seq<char>, String)>,
    title: Seq<char>,
    path: Option<Seq<char>>,
)
    ensures
        read_literal(inject_literal(input, params, title, path)) == Some(
            LiteralValue { input: input, params: param_pairs(params), path: path, title: title },
        ),
{
    let f1 = "{\"input\":"@;
    let f2 = ",\"params\":{"@;
    let f3b = ",\"path\":"@;
    let f5 = ",\"title\":"@;
    let f6 = seq!['}'];
    reveal_strlit("},\"path\":");
    reveal_strlit(",\"path\":");
    reveal_strlit("}");
    assert("},\"path\":"@ =~= seq!['}'] + f3b);
    assert("}"@ =~= f6);
    let qi = safe_json_string(input);
    let qt = safe_json_string(title);
    let m = params_members(params);
    let p = match path {
        Some(q) => safe_json_string(q),
        None => "null"@,
    };
    let lit = inject_literal(input, params, title, path);
    let t7 = qt + f6;
    let t6 = f5 + t7;
    let t5 = p + t6;
    let t4 = f3b + t5;
    let t3 = m + seq!['}'] + t4;
    let t2 = f2 + t3;
    let t1 = qi + t2;
    assert(lit == f1 + qi + f2 + m + "},\"path\":"@ + p + f5 + qt + "}"@);
    assert(lit =~= f1 + t1);
    lemma_after(f1, t1);
    lemma_read_safe_json_string(input, t2);
    lemma_after(f2, t3);
    lemma_stage_params(params, t4);
    lemma_after(f3b, t5);
    lemma_stage_path(path, t6);
    lemma_after(f5, t7);
    lemma_read_safe_json_string(title, f6);
    assert(read_literal(f1 + t1) == Some(
        LiteralValue { input: input, params: param_pairs(params), path: path, title: title },
    ));
}

/// The quoted parameters start with the quote of their first key.
proof fn lemma_read_string_head(ps: Seq<(Seq<char>, String)>)
    requires
        ps.len() > 0,
    ensures
        params_members(ps).len() > 0,
        params_members(ps)[0] == '"',
    decreases ps.len(),
{
    if ps.len() == 1 {
        lemma_read_safe_json_string(ps[0].0, Seq::empty());
        assert(safe_json_string(ps[0].0) + Seq::<char>::empty() =~= safe_json_string(ps[0].0));
    } else {
        lemma_read_string_head(ps.drop_last());
    }
}

} // verus!
