//! Template runtime: which template to use (explicit > extension mapping >
//! default > raw), the composition of the optional built-ins with their
//! vendored libraries, and the single marker substitution that injects
//! `window.__TINYVIEW__`.

use vstd::prelude::*;
use vstd::string::*;

use crate::script::{
    in_script_close, lemma_clean_concat, lemma_no_lt_no_close, lemma_script_safe_clean,
    lemma_script_safe_last, script_clean, script_safe, script_safe_str,
};
use crate::strmap::StrMap;
use crate::text::{
    chars_eq, chars_of, find_from, find_in, lemma_find_from, lemma_replace_absent,
    lemma_replace_whole, lemma_shorter_holds_none, lower_chars, lower_seq, occurs_at, occurs_nowhere,
    replace_all,
    replace_all_str,
};

verus! {

broadcast use vstd::string::group_string_axioms;

/// Resolved template selection.
#[derive(Debug, Clone, PartialEq, Eq)]
pub enum TemplateRef {
    /// Pass the input straight to the WebView; no substitution.
    Raw,
    /// Built-in `text` template (plain text).
    Text,
    /// Built-in `minimal` template (centered HTML fragment shell).
    Minimal,
    /// Optional built-in `markdown` template.
    Markdown,
    /// Optional built-in `mermaid` template.
    Mermaid,
    /// Optional built-in `code` template.
    Code,
    /// User template file `<name>.html`, relative to the templates root
    /// until the caller joins it there.
    User(String),
}

/// A template selection with the user path by its characters.
pub enum TemplateSpec {
    Raw,
    Text,
    Minimal,
    Markdown,
    Mermaid,
    Code,
    User(Seq<char>),
}

impl View for TemplateRef {
    type V = TemplateSpec;

    open spec fn view(&self) -> TemplateSpec {
        match self {
            TemplateRef::Raw => TemplateSpec::Raw,
            TemplateRef::Text => TemplateSpec::Text,
            TemplateRef::Minimal => TemplateSpec::Minimal,
            TemplateRef::Markdown => TemplateSpec::Markdown,
            TemplateRef::Mermaid => TemplateSpec::Mermaid,
            TemplateRef::Code => TemplateSpec::Code,
            TemplateRef::User(p) => TemplateSpec::User(p@),
        }
    }
}

/// The built-in template that a name denotes, if it is a built-in name.
pub open spec fn builtin_named(name: Seq<char>) -> Option<TemplateSpec> {
    if name == "raw"@ {
        Some(TemplateSpec::Raw)
    } else if name == "text"@ {
        Some(TemplateSpec::Text)
    } else if name == "minimal"@ {
        Some(TemplateSpec::Minimal)
    } else if name == "markdown"@ {
        Some(TemplateSpec::Markdown)
    } else if name == "mermaid"@ {
        Some(TemplateSpec::Mermaid)
    } else if name == "code"@ {
        Some(TemplateSpec::Code)
    } else {
        None
    }
}

/// `r` is what the template name `name` maps to: the built-in of that name,
/// or else the user template file `<name>.html`.
pub open spec fn names_template(name: Seq<char>, r: TemplateSpec) -> bool {
    match builtin_named(name) {
        Some(b) => r == b,
        None => r == TemplateSpec::User(name + ".html"@),
    }
}

/// A path separator on some platform.
pub open spec fn is_separator(c: char) -> bool {
    c == '/' || c == '\\'
}

/// A directory part after which a path's final component starts on every
/// platform: empty, or ending in `/` and not opening with two separators
/// (which could start a network or verbatim prefix).
pub open spec fn dir_part(d: Seq<char>) -> bool {
    d.len() == 0 || (d.last() == '/' && !(d.len() >= 2 && is_separator(d[0]) && is_separator(
        d[1],
    )))
}

/// An ordinary path component on every platform: non-empty, not `.` or
/// `..`, without a separator or `:`.
pub open spec fn path_component(x: Seq<char>) -> bool {
    &&& x.len() > 0
    &&& x != seq!['.']
    &&& x != seq!['.', '.']
    &&& forall|i: int| 0 <= i < x.len() ==> !is_separator(#[trigger] x[i]) && x[i] != ':'
}

/// The directory part `d` followed by the file name `f`.
pub open spec fn in_dir(d: Seq<char>, f: Seq<char>) -> Seq<char> {
    d + f
}

/// A file name that every platform reads alike: an ordinary component
/// (non-empty, not `.` or `..`, without a separator or `:`).
pub open spec fn file_name_like(f: Seq<char>) -> bool {
    path_component(f)
}

/// The index of the last `c` in `s`, if there is one.
pub open spec fn last_index_of(s: Seq<char>, c: char) -> Option<int>
    decreases s.len(),
{
    if s.len() == 0 {
        None
    } else if s.last() == c {
        Some(s.len() - 1)
    } else {
        last_index_of(s.drop_last(), c)
    }
}

/// The extension of a file name: the part after its last `.`, if it has
/// one that is not its first character (`.notes` has none).
pub open spec fn name_extension(f: Seq<char>) -> Option<Seq<char>> {
    match last_index_of(f, '.') {
        Some(i) => if i > 0 {
            Some(f.skip(i + 1))
        } else {
            None
        },
        None => None,
    }
}

/// The stem of a file name: the part before its last `.`, or the whole
/// name when it has no `.` after its first character.
pub open spec fn name_stem(f: Seq<char>) -> Seq<char> {
    match last_index_of(f, '.') {
        Some(i) => if i > 0 {
            f.take(i)
        } else {
            f
        },
        None => f,
    }
}

/// An optional string by its characters.
pub open spec fn opt_string_view(o: Option<String>) -> Option<Seq<char>> {
    match o {
        Some(s) => Some(s@),
        None => None,
    }
}

/// `Path::extension` of `path`: the part of the file name after its final
/// `.`, if the name has a `.` that is not its first character. Stated: such
/// a part never holds a `.`; for `<dir>/<name>` (or a bare `<name>`) whose
/// file name is an ordinary component without a separator or `:`, it is the
/// part of the name after its last `.`, or `None` when the name has no `.`
/// after its first character. How other paths are cut into a file name
/// depends on the platform's path rules.
#[verifier::external_body]
fn path_extension(path: &str) -> (r: Option<String>)
    ensures
        r matches Some(e) ==> forall|i: int| 0 <= i < e@.len() ==> e@[i] != '.',
        forall|d: Seq<char>, f: Seq<char>|
            dir_part(d) && file_name_like(f) && path@ == #[trigger] in_dir(d, f)
                ==> opt_string_view(r) == name_extension(f),
{
    std::path::Path::new(path).extension().map(|e| e.to_string_lossy().into_owned())
}

/// Whether `s` is exactly `lit`.
fn str_is(s: &str, lit: &str) -> (r: bool)
    ensures
        r == (s@ == lit@),
{
    chars_eq(&chars_of(s), &chars_of(lit))
}

/// Map a template name to a [`TemplateRef`]. Unknown names map to the user
/// template file `<name>.html`, to be joined onto the templates root.
pub fn name_to_ref(name: &str) -> (r: TemplateRef)
    ensures
        names_template(name@, r@),
{
    if str_is(name, "raw") {
        TemplateRef::Raw
    } else if str_is(name, "text") {
        TemplateRef::Text
    } else if str_is(name, "minimal") {
        TemplateRef::Minimal
    } else if str_is(name, "markdown") {
        TemplateRef::Markdown
    } else if str_is(name, "mermaid") {
        TemplateRef::Mermaid
    } else if str_is(name, "code") {
        TemplateRef::Code
    } else {
        let mut file = String::from_str(name);
        file.append(".html");
        TemplateRef::User(file)
    }
}

/// The template name that the priority chain selects: explicit, then the
/// extension mapping (the extension as it is, then ASCII lower-cased), then
/// the default; `None` means raw.
pub open spec fn chosen_name(
    explicit: Option<Seq<char>>,
    ext: Option<Seq<char>>,
    map: Option<Map<Seq<char>, String>>,
    default_template: Option<Seq<char>>,
) -> Option<Seq<char>> {
    if explicit is Some {
        explicit
    } else if ext is Some && map is Some && map->0.contains_key(ext->0) {
        Some(map->0[ext->0]@)
    } else if ext is Some && map is Some && map->0.contains_key(lower_seq(ext->0)) {
        Some(map->0[lower_seq(ext->0)]@)
    } else {
        default_template
    }
}

/// `r` is the template that the priority chain selects.
pub open spec fn resolves_to(
    explicit: Option<Seq<char>>,
    ext: Option<Seq<char>>,
    map: Option<Map<Seq<char>, String>>,
    default_template: Option<Seq<char>>,
    r: TemplateSpec,
) -> bool {
    match chosen_name(explicit, ext, map, default_template) {
        Some(name) => names_template(name, r),
        None => r == TemplateSpec::Raw,
    }
}

/// An optional string by its characters.
pub open spec fn opt_view(o: Option<&str>) -> Option<Seq<char>> {
    match o {
        Some(s) => Some(s@),
        None => None,
    }
}

/// An optional map by its contents.
pub open spec fn opt_map(m: Option<&StrMap<String>>) -> Option<Map<Seq<char>, String>> {
    match m {
        Some(m) => Some(m.as_map()),
        None => None,
    }
}

/// An optional map, well-formed when present.
pub open spec fn opt_wf(m: Option<&StrMap<String>>) -> bool {
    match m {
        Some(m) => m.wf(),
        None => true,
    }
}

/// An explicit template name wins over the extension mapping and the
/// default.
pub proof fn law_explicit_wins(
    name: Seq<char>,
    ext: Option<Seq<char>>,
    map: Option<Map<Seq<char>, String>>,
    default_template: Option<Seq<char>>,
    r: TemplateSpec,
)
    ensures
        resolves_to(Some(name), ext, map, default_template, r) == names_template(name, r),
{
}

/// Without an explicit name, a mapped extension wins over the default.
pub proof fn law_extension_before_default(
    ext: Seq<char>,
    map: Map<Seq<char>, String>,
    default_template: Option<Seq<char>>,
    r: TemplateSpec,
)
    requires
        map.contains_key(ext),
    ensures
        resolves_to(None, Some(ext), Some(map), default_template, r) == names_template(map[ext]@, r),
{
}

/// With nothing to go on, the template is `raw`.
pub proof fn law_raw_fallback(ext: Option<Seq<char>>, map: Option<Map<Seq<char>, String>>, r: TemplateSpec)
    requires
        ext is None || map is None,
    ensures
        resolves_to(None, ext, map, None, r) == (r == TemplateSpec::Raw),
{
}

/// Without an explicit name, an extension that the map holds neither as it
/// is nor lower-cased does not decide: the default template does, exactly
/// as when there is no extension at all, and without a default the
/// template is `raw`.
pub proof fn law_unmapped_extension_uses_default(
    ext: Seq<char>,
    map: Map<Seq<char>, String>,
    default_template: Option<Seq<char>>,
    r: TemplateSpec,
)
    requires
        !map.contains_key(ext),
        !map.contains_key(lower_seq(ext)),
    ensures
        resolves_to(None, Some(ext), Some(map), default_template, r) == resolves_to(
            None,
            None,
            Some(map),
            default_template,
            r,
        ),
        resolves_to(None, Some(ext), Some(map), default_template, r) == match default_template {
            Some(d) => names_template(d, r),
            None => r == TemplateSpec::Raw,
        },
{
}

/// Resolve the template from an already extracted file extension.
pub fn resolve_with_extension(
    explicit: Option<&str>,
    ext: Option<&str>,
    extension_map: Option<&StrMap<String>>,
    default_template: Option<&str>,
) -> (r: TemplateRef)
    requires
        opt_wf(extension_map),
    ensures
        resolves_to(
            opt_view(explicit),
            opt_view(ext),
            opt_map(extension_map),
            opt_view(default_template),
            r@,
        ),
{
    if let Some(name) = explicit {
        return name_to_ref(name);
    }
    if let (Some(e), Some(map)) = (ext, extension_map) {
        if let Some(name) = map.get(e) {
            return name_to_ref(name.as_str());
        }
        let lowered = lower_chars(&chars_of(e));
        if let Some(name) = map.get_chars(&lowered) {
            return name_to_ref(name.as_str());
        }
    }
    if let Some(name) = default_template {
        return name_to_ref(name);
    }
    TemplateRef::Raw
}

/// Resolve which template to use. Priority: `explicit` (`--template`), the
/// extension mapping for the input file's extension, `default_template`,
/// then `raw`.
pub fn resolve(
    explicit: Option<&str>,
    input_path: Option<&str>,
    extension_map: Option<&StrMap<String>>,
    default_template: Option<&str>,
) -> (r: TemplateRef)
    requires
        opt_wf(extension_map),
    ensures
        input_path is None || extension_map is None || explicit is Some ==> resolves_to(
            opt_view(explicit),
            None,
            opt_map(extension_map),
            opt_view(default_template),
            r@,
        ),
        forall|d: Seq<char>, f: Seq<char>|
            dir_part(d) && file_name_like(f) && opt_view(input_path) == Some(
                #[trigger] in_dir(d, f),
            ) ==> resolves_to(
                opt_view(explicit),
                name_extension(f),
                opt_map(extension_map),
                opt_view(default_template),
                r@,
            ),
        exists|ext: Option<Seq<char>>|
            #![trigger resolves_to(opt_view(explicit), ext, opt_map(extension_map), opt_view(default_template), r@)]
            (ext matches Some(e) ==> forall|i: int| 0 <= i < e.len() ==> e[i] != '.') && resolves_to(
                opt_view(explicit),
                ext,
                opt_map(extension_map),
                opt_view(default_template),
                r@,
            ),
{
    if explicit.is_none() && input_path.is_some() && extension_map.is_some() {
        let ext = path_extension(input_path.unwrap());
        let r = match &ext {
            Some(e) => resolve_with_extension(None, Some(e.as_str()), extension_map, default_template),
            None => resolve_with_extension(None, None, extension_map, default_template),
        };
        let ghost g = match &ext {
            Some(e) => Some(e@),
            None => None,
        };
        assert(resolves_to(None, g, opt_map(extension_map), opt_view(default_template), r@));
        r
    } else {
        let r = resolve_with_extension(explicit, None, extension_map, default_template);
        assert(resolves_to(
            opt_view(explicit),
            None,
            opt_map(extension_map),
            opt_view(default_template),
            r@,
        ));
        r
    }
}


/// The marker that a template carries once and that rendering replaces with
/// the `window.__TINYVIEW__` JSON literal.
pub open spec fn marker() -> Seq<char> {
    "/*__TINYVIEW__*/ null /*__TINYVIEW__*/"@
}

/// Data injected into `window.__TINYVIEW__`.
pub struct InjectData<'a> {
    pub input: &'a str,
    pub params: &'a StrMap<String>,
    pub title: &'a str,
    pub path: Option<&'a str>,
}

/// Errors that can occur during template rendering.
#[derive(Debug, Clone, PartialEq, Eq)]
pub enum RenderError {
    /// Failed to read a user-supplied template file (the reason, as text).
    UserTemplateRead(String),
}

impl RenderError {
    /// The user-facing description of the error.
    pub fn message(&self) -> (m: String)
        ensures
            match self {
                RenderError::UserTemplateRead(e) => m@ == "failed to read user template: "@
                    + e@,
            },
    {
        match self {
            RenderError::UserTemplateRead(e) => {
                let mut m = String::from_str("failed to read user template: ");
                m.append(e.as_str());
                m
            },
        }
    }
}

/// The lower-case hexadecimal digit for a value below sixteen.
pub open spec fn hex_digit(n: int) -> char {
    if n < 10 {
        (48 + n) as char
    } else {
        (87 + n) as char
    }
}

/// How one character stands inside a JSON string literal: the quote and
/// the backslash are escaped, the control characters below U+0020 take
/// their short escape where JSON has one and `\u00XX` otherwise, and every
/// other character stands as it is.
pub open spec fn json_escape_char(c: char) -> Seq<char> {
    if c == '"' {
        seq!['\\', '"']
    } else if c == '\\' {
        seq!['\\', '\\']
    } else if c == '\u{8}' {
        seq!['\\', 'b']
    } else if c == '\t' {
        seq!['\\', 't']
    } else if c == '\n' {
        seq!['\\', 'n']
    } else if c == '\u{c}' {
        seq!['\\', 'f']
    } else if c == '\r' {
        seq!['\\', 'r']
    } else if (c as int) < 32 {
        seq!['\\', 'u', '0', '0', hex_digit((c as int) / 16), hex_digit((c as int) % 16)]
    } else {
        seq![c]
    }
}

/// The characters of `s`, each escaped for a JSON string literal.
pub open spec fn json_escaped(s: Seq<char>) -> Seq<char>
    decreases s.len(),
{
    if s.len() == 0 {
        Seq::empty()
    } else {
        json_escaped(s.drop_last()) + json_escape_char(s.last())
    }
}

/// The JSON string literal for `s`: its escaped characters between quotes.
pub open spec fn json_string(s: Seq<char>) -> Seq<char> {
    seq!['"'] + json_escaped(s) + seq!['"']
}

/// `serde_json::to_string` of a string slice. Claimed: the result is the
/// JSON string literal that `json_string` describes, as serde_json's
/// compact formatter writes it (its escape table and lower-case `\u00XX`
/// form for the other control characters). Serialising a `&str` into a
/// `Vec` does not fail.
#[verifier::external_body]
fn json_quote(s: &str) -> (r: String)
    ensures
        r@ == json_string(s@),
{
    match serde_json::to_string(s) {
        Ok(t) => t,
        Err(_) => String::new(),
    }
}

/// The JSON string literal for `s`, made safe for an inline `<script>`.
pub open spec fn safe_json_string(s: Seq<char>) -> Seq<char> {
    script_safe(json_string(s))
}

/// The script-safe JSON string literal for `s`.
fn quote_json(s: &str) -> (r: String)
    ensures
        r@ == safe_json_string(s@),
{
    script_safe_str(json_quote(s).as_str())
}

/// The `"key":"value"` members of the params object, in the given order.
pub open spec fn params_members(ps: Seq<(Seq<char>, String)>) -> Seq<char>
    decreases ps.len(),
{
    if ps.len() == 0 {
        Seq::empty()
    } else if ps.len() == 1 {
        safe_json_string(ps[0].0) + ":"@ + safe_json_string(ps[0].1@)
    } else {
        params_members(ps.drop_last()) + ","@ + safe_json_string(ps.last().0) + ":"@ + safe_json_string(
            ps.last().1@,
        )
    }
}

/// The JSON object `{"input":..,"params":{..},"path":..,"title":..}` (keys in
/// ascending order, parameters in ascending key order, as `serde_json`
/// writes a map), built from already quoted parts.
pub open spec fn literal_of(
    input: Seq<char>,
    members: Seq<char>,
    path: Option<Seq<char>>,
    title: Seq<char>,
) -> Seq<char> {
    "{\"input\":"@ + input + ",\"params\":{"@ + members + "},\"path\":"@ + match path {
        Some(p) => p,
        None => "null"@,
    } + ",\"title\":"@ + title + "}"@
}

/// The JSON literal injected for `data`.
pub open spec fn inject_literal(
    input: Seq<char>,
    params: Seq<(Seq<char>, String)>,
    title: Seq<char>,
    path: Option<Seq<char>>,
) -> Seq<char> {
    literal_of(
        safe_json_string(input),
        params_members(params),
        match path {
            Some(p) => Some(safe_json_string(p)),
            None => None,
        },
        safe_json_string(title),
    )
}

/// Join `key:value` members with commas.
pub open spec fn joined_members(ms: Seq<Seq<char>>) -> Seq<char>
    decreases ms.len(),
{
    if ms.len() == 0 {
        Seq::empty()
    } else if ms.len() == 1 {
        ms[0]
    } else {
        joined_members(ms.drop_last()) + ","@ + ms.last()
    }
}

/// Assemble the injected object from already quoted JSON strings.
pub fn assemble_literal(
    input: &str,
    members: &Vec<(String, String)>,
    path: Option<&str>,
    title: &str,
) -> (r: String)
    ensures
        r@ == literal_of(
            input@,
            joined_members(members@.map_values(|m: (String, String)| m.0@ + ":"@ + m.1@)),
            opt_view(path),
            title@,
        ),
{
    let ghost ms = members@.map_values(|m: (String, String)| m.0@ + ":"@ + m.1@);
    let mut r = String::from_str("{\"input\":");
    r.append(input);
    r.append(",\"params\":{");
    let ghost start = r@;
    let n = members.len();
    for i in 0..n
        invariant
            n == members@.len(),
            ms == members@.map_values(|m: (String, String)| m.0@ + ":"@ + m.1@),
            r@ == start + joined_members(ms.take(i as int)),
    {
        if i > 0 {
            r.append(",");
        }
        r.append(members[i].0.as_str());
        r.append(":");
        r.append(members[i].1.as_str());
        proof {
            assert(ms.take(i + 1).drop_last() =~= ms.take(i as int));
            assert(ms.take(i + 1).last() == ms[i as int]);
            if i == 0 {
                assert(ms.take(1) =~= seq![ms[0]]);
            }
        }
    }
    assert(ms.take(n as int) =~= ms);
    r.append("},\"path\":");
    match path {
        Some(p) => r.append(p),
        None => r.append("null"),
    }
    r.append(",\"title\":");
    r.append(title);
    r.append("}");
    r
}

/// `params_members` is the comma-join of the quoted members.
proof fn lemma_params_members(ps: Seq<(Seq<char>, String)>)
    ensures
        params_members(ps) == joined_members(
            ps.map_values(|p: (Seq<char>, String)| safe_json_string(p.0) + ":"@ + safe_json_string(p.1@)),
        ),
    decreases ps.len(),
{
    let f = |p: (Seq<char>, String)| safe_json_string(p.0) + ":"@ + safe_json_string(p.1@);
    if ps.len() > 1 {
        lemma_params_members(ps.drop_last());
        assert(ps.map_values(f).drop_last() =~= ps.drop_last().map_values(f));
    }
}

/// A JSON string literal ends with its closing quote.
proof fn lemma_json_string_ends(s: Seq<char>)
    ensures
        json_string(s).len() > 0,
        json_string(s).last() == '"',
{
}

/// A script-safe JSON string literal is clean and ends with its closing
/// quote.
proof fn lemma_safe_json_string(s: Seq<char>)
    ensures
        script_clean(safe_json_string(s)),
        safe_json_string(s).len() > 0,
        safe_json_string(s).last() == '"',
        !in_script_close(safe_json_string(s).last()),
{
    lemma_json_string_ends(s);
    lemma_script_safe_clean(json_string(s));
    lemma_script_safe_last(json_string(s));
}

/// A short separator of the literal (no `<`, no line separator).
proof fn lemma_fragment_clean(f: Seq<char>)
    requires
        forall|i: int| 0 <= i < f.len() ==> #[trigger] f[i] != '<' && f[i] != '\u{2028}' && f[i]
            != '\u{2029}',
    ensures
        script_clean(f),
{
    lemma_no_lt_no_close(f);
}

/// The quoted parameters are clean and end with a quote when there are any.
proof fn lemma_params_members_clean(ps: Seq<(Seq<char>, String)>)
    ensures
        script_clean(params_members(ps)),
        ps.len() > 0 ==> params_members(ps).len() > 0 && params_members(ps).last() == '"',
    decreases ps.len(),
{
    reveal_strlit(":");
    reveal_strlit(",");
    lemma_fragment_clean(":"@);
    lemma_fragment_clean(","@);
    if ps.len() == 0 {
        lemma_fragment_clean(Seq::empty());
    } else if ps.len() == 1 {
        lemma_safe_json_string(ps[0].0);
        lemma_safe_json_string(ps[0].1@);
        lemma_clean_concat(safe_json_string(ps[0].0), ":"@);
        lemma_clean_concat(safe_json_string(ps[0].0) + ":"@, safe_json_string(ps[0].1@));
    } else {
        lemma_params_members_clean(ps.drop_last());
        lemma_safe_json_string(ps.last().0);
        lemma_safe_json_string(ps.last().1@);
        let m = params_members(ps.drop_last());
        lemma_clean_concat(m, ","@);
        lemma_clean_concat(m + ","@, safe_json_string(ps.last().0));
        lemma_clean_concat(m + ","@ + safe_json_string(ps.last().0), ":"@);
        lemma_clean_concat(m + ","@ + safe_json_string(ps.last().0) + ":"@, safe_json_string(ps.last().1@));
    }
}

/// The injected literal can stand inside an inline `<script>`: it holds no
/// `</script` in any ASCII case and no raw U+2028 or U+2029, whatever the
/// input, parameters, title and path.
pub proof fn law_literal_script_safe(
    input: Seq<char>,
    params: Seq<(Seq<char>, String)>,
    title: Seq<char>,
    path: Option<Seq<char>>,
)
    ensures
        script_clean(inject_literal(input, params, title, path)),
{
    let f1 = "{\"input\":"@;
    let f2 = ",\"params\":{"@;
    let f3 = "},\"path\":"@;
    let f4 = "null"@;
    let f5 = ",\"title\":"@;
    let f6 = "}"@;
    reveal_strlit("{\"input\":");
    reveal_strlit(",\"params\":{");
    reveal_strlit("},\"path\":");
    reveal_strlit("null");
    reveal_strlit(",\"title\":");
    reveal_strlit("}");
    lemma_fragment_clean(f1);
    lemma_fragment_clean(f2);
    lemma_fragment_clean(f3);
    lemma_fragment_clean(f4);
    lemma_fragment_clean(f5);
    lemma_fragment_clean(f6);
    lemma_safe_json_string(input);
    lemma_safe_json_string(title);
    lemma_params_members_clean(params);
    let p = match path {
        Some(q) => safe_json_string(q),
        None => f4,
    };
    if let Some(q) = path {
        lemma_safe_json_string(q);
    }
    let members = params_members(params);
    lemma_clean_concat(f1, safe_json_string(input));
    let a = f1 + safe_json_string(input);
    lemma_clean_concat(a, f2);
    lemma_clean_concat(a + f2, members);
    let b = a + f2 + members;
    if members.len() == 0 {
        assert(b.last() == f2.last()) by {
            assert(b =~= a + f2);
        }
    }
    lemma_clean_concat(b, f3);
    lemma_clean_concat(b + f3, p);
    let c = b + f3 + p;
    lemma_clean_concat(c, f5);
    lemma_clean_concat(c + f5, safe_json_string(title));
    lemma_clean_concat(c + f5 + safe_json_string(title), f6);
    assert(inject_literal(input, params, title, path) == c + f5 + safe_json_string(title) + f6);
}

/// Build the JSON literal that replaces the marker.
pub fn build_literal(data: &InjectData) -> (r: String)
    requires
        data.params.wf(),
    ensures
        r@ == inject_literal(data.input@, data.params.pairs(), data.title@, opt_view(data.path)),
{
    let entries = data.params.entries();
    let ghost ps = data.params.pairs();
    let mut members: Vec<(String, String)> = Vec::new();
    let n = entries.len();
    for i in 0..n
        invariant
            n == entries@.len(),
            entries@.map_values(|e: (String, String)| (e.0@, e.1)) == ps,
            members@.len() == i,
            forall|j: int|
                0 <= j < i ==> (#[trigger] members@[j]).0@ == safe_json_string(ps[j].0) && members@[j].1@
                    == safe_json_string(ps[j].1@),
    {
        let k = quote_json(entries[i].0.as_str());
        let v = quote_json(entries[i].1.as_str());
        members.push((k, v));
    }
    let input = quote_json(data.input);
    let title = quote_json(data.title);
    let r = match data.path {
        Some(p) => {
            let q = quote_json(p);
            assemble_literal(input.as_str(), &members, Some(q.as_str()), title.as_str())
        },
        None => assemble_literal(input.as_str(), &members, None, title.as_str()),
    };
    proof {
        lemma_params_members(ps);
        let f = |p: (Seq<char>, String)| safe_json_string(p.0) + ":"@ + safe_json_string(p.1@);
        assert(members@.map_values(|m: (String, String)| m.0@ + ":"@ + m.1@) =~= ps.map_values(f));
    }
    r
}

/// `source` with its first marker replaced by `literal`; `None` when the
/// marker does not occur.
pub open spec fn marker_substituted(source: Seq<char>, literal: Seq<char>) -> Option<Seq<char>> {
    match find_from(source, marker(), 0) {
        Some(i) => Some(source.take(i) + literal + source.skip(i + marker().len())),
        None => None,
    }
}

/// Rendering replaces the first marker only: the template before it holds
/// no marker and is kept, as is everything after it.
pub proof fn law_marker_replaced_once(source: Seq<char>, literal: Seq<char>)
    ensures
        marker_substituted(source, literal) matches Some(out) ==> exists|i: int|
            0 <= i && i + marker().len() <= source.len() && occurs_at(source, marker(), i) && (forall|
                k: int,
            | 0 <= k < i ==> !occurs_at(source, marker(), k)) && out == source.take(i) + literal
                + source.skip(i + marker().len()),
        marker_substituted(source, literal) is None ==> forall|k: int|
            0 <= k ==> !occurs_at(source, marker(), k),
{
    lemma_find_from(source, marker(), 0);
    if let Some(i) = find_from(source, marker(), 0) {
        assert(occurs_at(source, marker(), i));
    }
}

/// The outcome of rendering: the HTML and whether the marker was found.
/// Without the marker the HTML is the template unchanged.
pub struct Rendered {
    pub html: String,
    pub marker_found: bool,
}

/// The rendered HTML for template source `source` and literal `literal`.
pub open spec fn rendered_html(source: Seq<char>, literal: Seq<char>) -> Seq<char> {
    match marker_substituted(source, literal) {
        Some(out) => out,
        None => source,
    }
}

/// Substitute the marker once; without a marker the source is returned
/// unchanged and `marker_found` is false.
pub fn substitute_marker(source: &str, literal: &str) -> (r: Rendered)
    ensures
        r.marker_found == marker_substituted(source@, literal@) is Some,
        r.html@ == rendered_html(source@, literal@),
{
    let sv = chars_of(source);
    let mv = chars_of("/*__TINYVIEW__*/ null /*__TINYVIEW__*/");
    match find_in(&sv, &mv, 0) {
        Some(i) => {
            let n = sv.len();
            proof {
                lemma_find_from(sv@, mv@, 0);
            }
            let mut out = String::from_str(source.substring_char(0, i));
            out.append(literal);
            out.append(source.substring_char(i + mv.len(), n));
            proof {
                assert(source@.take(i as int) =~= source@.subrange(0, i as int));
                assert(source@.skip(i + mv@.len()) =~= source@.subrange(
                    i + mv@.len(),
                    n as int,
                ));
            }
            Rendered { html: out, marker_found: true }
        },
        None => Rendered { html: String::from_str(source), marker_found: false },
    }
}

/// The built-in template shells and the vendored libraries that the
/// optional built-ins inline.
pub struct BuiltinAssets<'a> {
    pub text: &'a str,
    pub minimal: &'a str,
    pub markdown: &'a str,
    pub code: &'a str,
    pub mermaid: &'a str,
    pub marked_js: &'a str,
    pub hljs_js: &'a str,
    pub hljs_css: &'a str,
    pub mermaid_js: &'a str,
}

/// The marked.js placeholder in the optional template shells.
pub open spec fn lib_marked() -> Seq<char> {
    "/*__TINYVIEW_MARKED__*/"@
}

/// The highlight.js placeholder.
pub open spec fn lib_hljs() -> Seq<char> {
    "/*__TINYVIEW_HLJS__*/"@
}

/// The highlight.js stylesheet placeholder.
pub open spec fn lib_hljs_css() -> Seq<char> {
    "/*__TINYVIEW_HLJS_CSS__*/"@
}

/// The mermaid.js placeholder.
pub open spec fn lib_mermaid() -> Seq<char> {
    "/*__TINYVIEW_MERMAID__*/"@
}

/// The HTML of a built-in template (not `raw`): the shell, with the
/// optional built-ins' library placeholders replaced by the libraries (the
/// CSS placeholder first).
pub open spec fn builtin_html(t: TemplateSpec, a: BuiltinAssets) -> Seq<char> {
    match t {
        TemplateSpec::Text => a.text@,
        TemplateSpec::Minimal => a.minimal@,
        TemplateSpec::Markdown => replace_all(
            replace_all(replace_all(a.markdown@, lib_hljs_css(), a.hljs_css@), lib_marked(), a.marked_js@),
            lib_hljs(),
            a.hljs_js@,
        ),
        TemplateSpec::Code => replace_all(
            replace_all(a.code@, lib_hljs_css(), a.hljs_css@),
            lib_hljs(),
            a.hljs_js@,
        ),
        TemplateSpec::Mermaid => replace_all(a.mermaid@, lib_mermaid(), a.mermaid_js@),
        _ => Seq::empty(),
    }
}

/// Each library placeholder of an optional built-in is filled with its own
/// library: a shell that is just the marked.js placeholder becomes marked.js,
/// just the highlight.js stylesheet placeholder becomes the stylesheet, just
/// the highlight.js placeholder becomes highlight.js, and just the
/// mermaid.js placeholder becomes mermaid.js (where the library does not
/// itself hold a placeholder that is filled after it).
pub proof fn law_library_placeholders_filled(a: BuiltinAssets)
    ensures
        a.markdown@ == lib_hljs_css() && occurs_nowhere(a.hljs_css@, lib_marked()) && occurs_nowhere(
            a.hljs_css@,
            lib_hljs(),
        ) ==> builtin_html(TemplateSpec::Markdown, a) == a.hljs_css@,
        a.markdown@ == lib_marked() && occurs_nowhere(a.marked_js@, lib_hljs()) ==> builtin_html(
            TemplateSpec::Markdown,
            a,
        ) == a.marked_js@,
        a.markdown@ == lib_hljs() ==> builtin_html(TemplateSpec::Markdown, a) == a.hljs_js@,
        a.code@ == lib_hljs_css() && occurs_nowhere(a.hljs_css@, lib_hljs()) ==> builtin_html(
            TemplateSpec::Code,
            a,
        ) == a.hljs_css@,
        a.code@ == lib_hljs() ==> builtin_html(TemplateSpec::Code, a) == a.hljs_js@,
        a.mermaid@ == lib_mermaid() ==> builtin_html(TemplateSpec::Mermaid, a) == a.mermaid_js@,
{
    reveal_strlit("/*__TINYVIEW_MARKED__*/");
    reveal_strlit("/*__TINYVIEW_HLJS__*/");
    reveal_strlit("/*__TINYVIEW_HLJS_CSS__*/");
    reveal_strlit("/*__TINYVIEW_MERMAID__*/");
    let m = lib_marked();
    let h = lib_hljs();
    let c = lib_hljs_css();
    assert(m.len() == 23 && h.len() == 21 && c.len() == 25 && lib_mermaid().len() == 24);
    if a.markdown@ == c && occurs_nowhere(a.hljs_css@, m) && occurs_nowhere(a.hljs_css@, h) {
        lemma_replace_whole(c, a.hljs_css@);
        lemma_replace_absent(a.hljs_css@, m, a.marked_js@);
        lemma_replace_absent(a.hljs_css@, h, a.hljs_js@);
    }
    if a.markdown@ == m && occurs_nowhere(a.marked_js@, h) {
        lemma_shorter_holds_none(m, c);
        lemma_replace_absent(m, c, a.hljs_css@);
        lemma_replace_whole(m, a.marked_js@);
        lemma_replace_absent(a.marked_js@, h, a.hljs_js@);
    }
    if a.markdown@ == h {
        lemma_shorter_holds_none(h, c);
        lemma_replace_absent(h, c, a.hljs_css@);
        lemma_shorter_holds_none(h, m);
        lemma_replace_absent(h, m, a.marked_js@);
        lemma_replace_whole(h, a.hljs_js@);
    }
    if a.code@ == c && occurs_nowhere(a.hljs_css@, h) {
        lemma_replace_whole(c, a.hljs_css@);
        lemma_replace_absent(a.hljs_css@, h, a.hljs_js@);
    }
    if a.code@ == h {
        lemma_shorter_holds_none(h, c);
        lemma_replace_absent(h, c, a.hljs_css@);
        lemma_replace_whole(h, a.hljs_js@);
    }
    if a.mermaid@ == lib_mermaid() {
        lemma_replace_whole(lib_mermaid(), a.mermaid_js@);
    }
}


/// The HTML of a built-in template, `None` for `raw` and user templates.
pub fn builtin_source(tpl: &TemplateRef, a: &BuiltinAssets) -> (r: Option<String>)
    ensures
        match tpl@ {
            TemplateSpec::Raw | TemplateSpec::User(_) => r is None,
            _ => r matches Some(h) && h@ == builtin_html(tpl@, *a),
        },
{
    proof {
        reveal_strlit("/*__TINYVIEW_MARKED__*/");
        reveal_strlit("/*__TINYVIEW_HLJS__*/");
        reveal_strlit("/*__TINYVIEW_HLJS_CSS__*/");
        reveal_strlit("/*__TINYVIEW_MERMAID__*/");
    }
    match tpl {
        TemplateRef::Raw => None,
        TemplateRef::User(_) => None,
        TemplateRef::Text => Some(String::from_str(a.text)),
        TemplateRef::Minimal => Some(String::from_str(a.minimal)),
        TemplateRef::Markdown => {
            let s1 = replace_all_str(a.markdown, "/*__TINYVIEW_HLJS_CSS__*/", a.hljs_css);
            let s2 = replace_all_str(s1.as_str(), "/*__TINYVIEW_MARKED__*/", a.marked_js);
            Some(replace_all_str(s2.as_str(), "/*__TINYVIEW_HLJS__*/", a.hljs_js))
        },
        TemplateRef::Code => {
            let s1 = replace_all_str(a.code, "/*__TINYVIEW_HLJS_CSS__*/", a.hljs_css);
            Some(replace_all_str(s1.as_str(), "/*__TINYVIEW_HLJS__*/", a.hljs_js))
        },
        TemplateRef::Mermaid => Some(
            replace_all_str(a.mermaid, "/*__TINYVIEW_MERMAID__*/", a.mermaid_js),
        ),
    }
}

/// `r` is what rendering the (non-raw) template `tpl` gives: its HTML with
/// the first marker replaced by the literal for `data`, with whether the
/// marker was found; or the user template's read error.
pub open spec fn renders_as(
    tpl: TemplateSpec,
    data: &InjectData,
    assets: BuiltinAssets,
    user_source: Result<&str, RenderError>,
    r: Result<Rendered, RenderError>,
) -> bool {
    let lit = inject_literal(data.input@, data.params.pairs(), data.title@, opt_view(data.path));
    match tpl {
        TemplateSpec::User(_) => match user_source {
            Ok(s) => r matches Ok(out) && out.html@ == rendered_html(s@, lit) && out.marker_found
                == marker_substituted(s@, lit) is Some,
            Err(e) => r == Err::<Rendered, RenderError>(e),
        },
        _ => r matches Ok(out) && out.html@ == rendered_html(builtin_html(tpl, assets), lit)
            && out.marker_found == marker_substituted(builtin_html(tpl, assets), lit) is Some,
    }
}

/// Render a template: substitute the marker in its HTML with the JSON
/// literal for `data`. Built-ins take their HTML from `assets`; a user
/// template's HTML is `user_source`, as read by the caller (its read error
/// is passed through). `raw` is never rendered: callers skip rendering for
/// it.
pub fn render(
    tpl: &TemplateRef,
    data: &InjectData,
    assets: &BuiltinAssets,
    user_source: Result<&str, RenderError>,
) -> (r: Result<Rendered, RenderError>)
    requires
        !(tpl@ is Raw),
        data.params.wf(),
    ensures
        renders_as(tpl@, data, *assets, user_source, r),
{
    let literal = build_literal(data);
    match builtin_source(tpl, assets) {
        Some(source) => Ok(substitute_marker(source.as_str(), literal.as_str())),
        None => match user_source {
            Ok(s) => Ok(substitute_marker(s, literal.as_str())),
            Err(e) => Err(e),
        },
    }
}

/// Compose the document for `tpl`: in raw mode the input itself (there is
/// no marker to look for, and `marker_found` is true: nothing was skipped),
/// otherwise the rendered template.
pub fn compose(
    tpl: &TemplateRef,
    data: &InjectData,
    assets: &BuiltinAssets,
    user_source: Result<&str, RenderError>,
) -> (r: Result<Rendered, RenderError>)
    requires
        data.params.wf(),
    ensures
        tpl@ is Raw ==> (r matches Ok(out) && out.html@ == data.input@ && out.marker_found),
        !(tpl@ is Raw) ==> renders_as(tpl@, data, *assets, user_source, r),
{
    match tpl {
        TemplateRef::Raw => Ok(Rendered { html: String::from_str(data.input), marker_found: true }),
        _ => render(tpl, data, assets, user_source),
    }
}

} // verus!
