//! Decisions of the command-line runtime: where the input comes from, the
//! raw fast path, `--param` parsing and merging, window sizes, permissions,
//! foreground / detach, and the event-loop reactions.
//!
//! Reading stdin and files, loading the config and running the window
//! happen outside this library; they act on what is decided here.

use vstd::prelude::*;
use vstd::string::*;

use crate::config::Config;
use crate::strmap::StrMap;
use crate::template::{
    builtin_named, names_template, dir_part, file_name_like, in_dir, is_separator, name_stem, opt_string_view, path_component,
    TemplateRef, TemplateSpec,
};
use crate::text::{chars_of, find_from, find_in, lemma_find_from};
use crate::webview::{prepare_html, prepared, Permissions};

verus! {

broadcast use vstd::string::group_string_axioms;

/// The command-line options, as plain values.
pub struct Options {
    /// Path to an input file.
    pub source: Option<String>,
    /// Inline HTML string.
    pub html: Option<String>,
    /// Template name.
    pub template: Option<String>,
    /// `--param key=value`, in command-line order.
    pub params: Vec<(String, String)>,
    pub width: Option<u32>,
    pub height: Option<u32>,
    pub foreground: bool,
    pub watch: bool,
    pub frameless: bool,
    pub transparent: bool,
    pub allow_clipboard: bool,
    pub allow_storage: bool,
}

/// The input document.
pub struct Input {
    pub content: String,
    /// The file it was read from; `None` for stdin and `--html`.
    pub path: Option<String>,
}

/// Where the input is read from.
#[derive(Debug, Clone, Copy, PartialEq, Eq, Structural)]
pub enum InputSource {
    /// Piped stdin with data ready.
    Stdin,
    /// The `source` file.
    File,
    /// The `--html` string.
    Inline,
    /// Nothing given: an error.
    Missing,
}

/// Input priority: stdin (when it is not a terminal and has data ready) >
/// file path > `--html`.
pub fn choose_input(stdin_is_terminal: bool, stdin_has_data: bool, opts: &Options) -> (r: InputSource)
    ensures
        r == (if !stdin_is_terminal && stdin_has_data {
            InputSource::Stdin
        } else if opts.source is Some {
            InputSource::File
        } else if opts.html is Some {
            InputSource::Inline
        } else {
            InputSource::Missing
        }),
{
    if !stdin_is_terminal && stdin_has_data {
        InputSource::Stdin
    } else if opts.source.is_some() {
        InputSource::File
    } else if opts.html.is_some() {
        InputSource::Inline
    } else {
        InputSource::Missing
    }
}

/// The result of parsing `key=value`: split at the first `=`.
pub open spec fn param_parsed(s: Seq<char>) -> Result<(Seq<char>, Seq<char>), Seq<char>> {
    match find_from(s, seq!['='], 0) {
        Some(i) => Ok((s.take(i), s.skip(i + 1))),
        None => Err("expected key=value, got `"@ + s + "`"@),
    }
}

/// Parse a `--param` value `key=value` (split at the first `=`).
pub fn parse_param(s: &str) -> (r: Result<(String, String), String>)
    ensures
        match (r, param_parsed(s@)) {
            (Ok((k, v)), Ok((sk, sv))) => k@ == sk && v@ == sv,
            (Err(e), Err(se)) => e@ == se,
            _ => false,
        },
{
    let sv = chars_of(s);
    let eq = chars_of("=");
    proof {
        reveal_strlit("=");
        assert(eq@ =~= seq!['=']);
    }
    match find_in(&sv, &eq, 0) {
        Some(i) => {
            proof {
                lemma_find_from(sv@, eq@, 0);
            }
            let n = sv.len();
            let k = String::from_str(s.substring_char(0, i));
            let v = String::from_str(s.substring_char(i + 1, n));
            proof {
                assert(s@.take(i as int) =~= s@.subrange(0, i as int));
                assert(s@.skip(i + 1) =~= s@.subrange(i + 1, n as int));
            }
            Ok((k, v))
        },
        None => {
            let mut e = String::from_str("expected key=value, got `");
            e.append(s);
            e.append("`");
            Err(e)
        },
    }
}

/// The raw fast path: no template, no `--param` and no file path. It skips
/// loading the config.
pub fn is_raw_fast_path(opts: &Options, input: &Input) -> (r: bool)
    ensures
        r == (opts.template is None && opts.params@.len() == 0 && input.path is None),
{
    opts.template.is_none() && opts.params.len() == 0 && input.path.is_none()
}

/// `--watch` needs a file input; stdin and `--html` are rejected (exit 2).
pub fn watch_rejected(opts: &Options, input: &Input) -> (r: bool)
    ensures
        r == (opts.watch && input.path is None),
{
    opts.watch && input.path.is_none()
}

/// `--watch` implies staying in the foreground.
pub fn stays_foreground(opts: &Options) -> (r: bool)
    ensures
        r == (opts.foreground || opts.watch),
{
    opts.foreground || opts.watch
}

/// The exit status for a rejected `--watch`.
pub fn watch_rejected_status() -> (r: u8)
    ensures
        r == 2,
{
    2
}

/// A window dimension: the command line's, else the config's, else the
/// default.
pub fn window_dimension(cli: Option<u32>, cfg: Option<u32>, default: u32) -> (r: u32)
    ensures
        r == match cli {
            Some(v) => v,
            None => match cfg {
                Some(v) => v,
                None => default,
            },
        },
{
    match cli {
        Some(v) => v,
        None => match cfg {
            Some(v) => v,
            None => default,
        },
    }
}

/// Window size: command line > config > 1000 x 760.
pub fn window_size(opts: &Options, cfg: Option<&Config>) -> (r: (u32, u32))
    ensures
        r.0 == match opts.width {
            Some(v) => v,
            None => match cfg {
                Some(c) => match c.window_width {
                    Some(v) => v,
                    None => 1000,
                },
                None => 1000,
            },
        },
        r.1 == match opts.height {
            Some(v) => v,
            None => match cfg {
                Some(c) => match c.window_height {
                    Some(v) => v,
                    None => 760,
                },
                None => 760,
            },
        },
{
    let (cw, ch) = match cfg {
        Some(c) => (c.window_width, c.window_height),
        None => (None, None),
    };
    (window_dimension(opts.width, cw, 1000), window_dimension(opts.height, ch, 760))
}

/// The permissions that the command line grants. Outbound fetch has no
/// command-line flag: a document grants it itself with the
/// `tinyview-allow` meta (see `webview::effective_perms`).
pub fn permissions(opts: &Options) -> (p: Permissions)
    ensures
        !p.allow_fetch,
        p.allow_clipboard == opts.allow_clipboard,
        p.allow_storage == opts.allow_storage,
{
    Permissions {
        allow_fetch: false,
        allow_clipboard: opts.allow_clipboard,
        allow_storage: opts.allow_storage,
    }
}

/// Raw mode: the resolved template is `raw`.
pub fn is_raw_mode(tpl: &TemplateRef) -> (r: bool)
    ensures
        r == (tpl@ is Raw),
{
    match tpl {
        TemplateRef::Raw => true,
        _ => false,
    }
}

/// `map` with the pairs of `ps` set in order (a later pair wins).
pub open spec fn with_params(m: Map<Seq<char>, String>, ps: Seq<(String, String)>) -> Map<Seq<char>, String>
    decreases ps.len(),
{
    if ps.len() == 0 {
        m
    } else {
        with_params(m, ps.drop_last()).insert(ps.last().0@, ps.last().1)
    }
}

/// The value of the last pair of `ps` with key `k`.
pub open spec fn last_value_for(ps: Seq<(String, String)>, k: Seq<char>) -> Option<String>
    decreases ps.len(),
{
    if ps.len() == 0 {
        None
    } else if ps.last().0@ == k {
        Some(ps.last().1)
    } else {
        last_value_for(ps.drop_last(), k)
    }
}

/// Command-line parameters win: a key given on the command line takes its
/// last command-line value; any other key keeps the configured value.
pub proof fn law_cli_params_win(m: Map<Seq<char>, String>, ps: Seq<(String, String)>, k: Seq<char>)
    ensures
        with_params(m, ps).contains_key(k) == (last_value_for(ps, k) is Some || m.contains_key(k)),
        last_value_for(ps, k) matches Some(v) ==> with_params(m, ps)[k] == v,
        last_value_for(ps, k) is None && m.contains_key(k) ==> with_params(m, ps)[k] == m[k],
    decreases ps.len(),
{
    if ps.len() > 0 {
        law_cli_params_win(m, ps.drop_last(), k);
    }
}

/// The configured parameters of template `name`, empty when there are none.
pub open spec fn configured_params(cfg: Option<&Config>, name: Option<Seq<char>>) -> Map<Seq<char>, String> {
    match (cfg, name) {
        (Some(c), Some(n)) => if c.templates.as_map().contains_key(n) {
            c.templates.as_map()[n].params.as_map()
        } else {
            Map::empty()
        },
        _ => Map::empty(),
    }
}

/// Merge the configured `[templates.<name>.params]` with the command-line
/// parameters (the command line wins).
pub fn merge_params_named(
    name: Option<&str>,
    cfg: Option<&Config>,
    cli_params: &Vec<(String, String)>,
) -> (r: StrMap<String>)
    requires
        cfg matches Some(c) ==> c.wf(),
    ensures
        r.wf(),
        r.as_map() == with_params(
            configured_params(
                cfg,
                match name {
                    Some(n) => Some(n@),
                    None => None,
                },
            ),
            cli_params@,
        ),
{
    let ghost base = configured_params(
        cfg,
        match name {
            Some(n) => Some(n@),
            None => None,
        },
    );
    let mut out: StrMap<String> = StrMap::new();
    if let (Some(c), Some(n)) = (cfg, name) {
        if let Some(entry) = c.templates.get(n) {
            let es = entry.params.entries();
            let m = es.len();
            for i in 0..m
                invariant
                    m == es@.len(),
                    es@.map_values(|e: (String, String)| (e.0@, e.1)) == entry.params.pairs(),
                    crate::strmap::sorted_keys(entry.params.pairs()),
                    out.wf(),
                    out.as_map() == crate::strmap::pairs_map(entry.params.pairs().take(i as int)),
            {
                out.insert(es[i].0.clone(), es[i].1.clone());
                proof {
                    crate::strmap::lemma_pairs_map_take(entry.params.pairs(), i as int);
                }
            }
            assert(entry.params.pairs().take(m as int) =~= entry.params.pairs());
        }
    }
    assert(out.as_map() =~= base);
    let n = cli_params.len();
    for i in 0..n
        invariant
            n == cli_params@.len(),
            out.wf(),
            out.as_map() == with_params(base, cli_params@.take(i as int)),
    {
        out.insert(cli_params[i].0.clone(), cli_params[i].1.clone());
        assert(cli_params@.take(i + 1).drop_last() =~= cli_params@.take(i as int));
    }
    assert(cli_params@.take(n as int) =~= cli_params@);
    out
}


/// `Path::file_stem` of `path`: the file name without its extension.
/// Stated: for `<dir>/<name>` (or a bare `<name>`) whose file name is an
/// ordinary component without a separator or `:`, the part of the name
/// before its last `.`, or the whole name when it has no `.` after its first
/// character. How other paths are cut into a file name depends on the
/// platform's path rules.
#[verifier::external_body]
fn file_stem(path: &str) -> (r: Option<String>)
    ensures
        forall|d: Seq<char>, f: Seq<char>|
            dir_part(d) && file_name_like(f) && path@ == #[trigger] in_dir(d, f)
                ==> opt_string_view(r) == Some(name_stem(f)),
{
    std::path::Path::new(path).file_stem().map(|s| s.to_string_lossy().into_owned())
}

/// The configuration name of a built-in template.
pub open spec fn builtin_name(t: TemplateSpec) -> Option<Seq<char>> {
    match t {
        TemplateSpec::Raw => Some("raw"@),
        TemplateSpec::Text => Some("text"@),
        TemplateSpec::Minimal => Some("minimal"@),
        TemplateSpec::Markdown => Some("markdown"@),
        TemplateSpec::Mermaid => Some("mermaid"@),
        TemplateSpec::Code => Some("code"@),
        TemplateSpec::User(_) => None,
    }
}

/// A built-in template's configuration name is the name that selects it:
/// for every built-in name `n`, the template that `n` names (see
/// `name_to_ref`) has `n` as its configuration name (see `template_name`),
/// so `[templates.<n>.params]` configures exactly the template `-t <n>`
/// selects. User templates have no built-in name.
pub proof fn law_builtin_name_round_trip(n: Seq<char>, t: TemplateSpec)
    ensures
        names_template(n, t) && builtin_named(n) is Some ==> builtin_name(t) == Some(n),
        builtin_name(t) matches Some(m) ==> builtin_named(m) == Some(t),
        t is User <==> builtin_name(t) is None,
{
    reveal_strlit("raw");
    reveal_strlit("text");
    reveal_strlit("minimal");
    reveal_strlit("markdown");
    reveal_strlit("mermaid");
    reveal_strlit("code");
    assert("raw"@.len() == 3);
    assert("text"@.len() == 4 && "code"@.len() == 4);
    assert("minimal"@.len() == 7 && "mermaid"@.len() == 7);
    assert("markdown"@.len() == 8);
    assert("mermaid"@ != "minimal"@) by {
        assert("mermaid"@[1] != "minimal"@[1]);
    }
    assert("code"@ != "text"@) by {
        assert("code"@[0] != "text"@[0]);
    }
}


/// The name under which the config holds a template's parameters: the
/// built-in's name, or a user template's file stem.
pub fn template_name(tpl: &TemplateRef) -> (r: Option<String>)
    ensures
        !(tpl@ is User) ==> match r {
            Some(n) => builtin_name(tpl@) == Some(n@),
            None => false,
        },
        forall|d: Seq<char>, f: Seq<char>|
            tpl@ == TemplateSpec::User(#[trigger] in_dir(d, f)) && dir_part(d) && file_name_like(f)
                ==> opt_string_view(r) == Some(name_stem(f)),
{
    match tpl {
        TemplateRef::Raw => Some(String::from_str("raw")),
        TemplateRef::Text => Some(String::from_str("text")),
        TemplateRef::Minimal => Some(String::from_str("minimal")),
        TemplateRef::Markdown => Some(String::from_str("markdown")),
        TemplateRef::Mermaid => Some(String::from_str("mermaid")),
        TemplateRef::Code => Some(String::from_str("code")),
        TemplateRef::User(p) => file_stem(p.as_str()),
    }
}

/// Merge the config's `[templates.<name>.params]` for `tpl` with the
/// command-line `--param` pairs; the command line wins.
pub fn merge_params(tpl: &TemplateRef, cfg: Option<&Config>, cli_params: &Vec<(String, String)>) -> (r:
    StrMap<String>)
    requires
        cfg matches Some(c) ==> c.wf(),
    ensures
        r.wf(),
        !(tpl@ is User) ==> r.as_map() == with_params(configured_params(cfg, builtin_name(tpl@)), cli_params@),
        forall|d: Seq<char>, f: Seq<char>|
            tpl@ == TemplateSpec::User(#[trigger] in_dir(d, f)) && dir_part(d) && file_name_like(f)
                ==> r.as_map() == with_params(configured_params(cfg, Some(name_stem(f))), cli_params@),
        exists|n: Option<Seq<char>>|
            r.as_map() == #[trigger] with_params(configured_params(cfg, n), cli_params@),
{
    let name = template_name(tpl);
    let r = match &name {
        Some(n) => merge_params_named(Some(n.as_str()), cfg, cli_params),
        None => merge_params_named(None, cfg, cli_params),
    };
    let ghost g = match &name {
        Some(n) => Some(n@),
        None => None,
    };
    assert(r.as_map() == with_params(configured_params(cfg, g), cli_params@));
    r
}

/// `Path::is_relative`: not absolute. Stated: a path that does not start
/// with a separator and holds no `:` has neither a root nor a prefix, so it
/// is relative on every platform. What else counts as relative depends on
/// the platform's path rules.
#[verifier::external_body]
fn path_is_relative(path: &str) -> (r: bool)
    ensures
        (path@.len() == 0 || !is_separator(path@[0])) && (forall|i: int|
            0 <= i < path@.len() ==> path@[i] != ':') ==> r,
{
    std::path::Path::new(path).is_relative()
}

/// A base path that `Path::join` extends with one separator on every
/// platform: non-empty, not ending in a separator, holding no `:` and not
/// opening with two separators (no prefix).
pub open spec fn join_base(b: Seq<char>) -> bool {
    &&& b.len() > 0
    &&& !is_separator(b.last())
    &&& forall|i: int| 0 <= i < b.len() ==> b[i] != ':'
    &&& !(b.len() >= 2 && is_separator(b[0]) && is_separator(b[1]))
}

/// `base`, the separator `sep`, then `rel`.
pub open spec fn joined(base: Seq<char>, sep: char, rel: Seq<char>) -> Seq<char> {
    base + seq![sep] + rel
}

/// `Path::join`: `base` extended with `rel` (`PathBuf::push`). Stated: an
/// ordinary component joined onto such a base is appended after the
/// platform's separator (`/` on Unix, `\\` on Windows). Absolute parts and
/// other bases depend on the platform's path rules.
#[verifier::external_body]
fn path_join(base: &str, rel: &str) -> (r: String)
    ensures
        join_base(base@) && path_component(rel@) ==> r@ == joined(base@, '/', rel@) || r@ == joined(
            base@,
            '\\',
            rel@,
        ),
{
    std::path::Path::new(base).join(rel).to_string_lossy().into_owned()
}

/// The templates root by its characters, `.` when it is unknown.
pub open spec fn root_or_dot(templates_root: Option<&str>) -> Seq<char> {
    match templates_root {
        Some(r) => r@,
        None => "."@,
    }
}

/// Put a relative user template path under the templates root (`.` when
/// the root is unknown). Other templates are returned unchanged.
pub fn resolve_user_template_path(tpl: TemplateRef, templates_root: Option<&str>) -> (r: TemplateRef)
    ensures
        !(tpl@ is User) ==> r@ == tpl@,
        tpl@ is User ==> r@ is User,
        match tpl@ {
            TemplateSpec::User(rel) => path_component(rel) && join_base(root_or_dot(templates_root))
                ==> r@ == TemplateSpec::User(joined(root_or_dot(templates_root), '/', rel)) || r@
                == TemplateSpec::User(joined(root_or_dot(templates_root), '\\', rel)),
            _ => true,
        },
{
    match tpl {
        TemplateRef::User(rel) => {
            if path_is_relative(rel.as_str()) {
                let root = match templates_root {
                    Some(r) => r,
                    None => ".",
                };
                TemplateRef::User(path_join(root, rel.as_str()))
            } else {
                TemplateRef::User(rel)
            }
        },
        other => other,
    }
}

/// An event of the window's event loop.
pub enum LoopEvent {
    /// The user closed the window.
    CloseRequested,
    /// The watched source changed; the freshly composed HTML.
    Reload(String),
    /// Anything else.
    Other,
}

/// What the event loop does in reply.
pub enum LoopAction {
    /// Leave the loop.
    Exit,
    /// Load this (prepared) HTML into the WebView and keep waiting.
    Load(String),
    /// Keep waiting.
    Wait,
}

/// The event loop's reaction to `event`. A reload is prepared exactly like
/// the first render (the CSP goes in again).
pub fn on_loop_event(event: LoopEvent, perms: &Permissions, raw_mode: bool) -> (a: LoopAction)
    ensures
        match (event, a) {
            (LoopEvent::CloseRequested, LoopAction::Exit) => true,
            (LoopEvent::Reload(h), LoopAction::Load(out)) => out@ == prepared(h@, *perms, raw_mode),
            (LoopEvent::Other, LoopAction::Wait) => true,
            _ => false,
        },
{
    match event {
        LoopEvent::CloseRequested => LoopAction::Exit,
        LoopEvent::Reload(h) => LoopAction::Load(prepare_html(h.as_str(), perms, raw_mode)),
        LoopEvent::Other => LoopAction::Wait,
    }
}

} // verus!
