use tinyview::strmap::StrMap;
use tinyview::script::script_safe_str;
use tinyview::template::{
    build_literal, builtin_source, name_to_ref, render, resolve, resolve_with_extension,
    substitute_marker, BuiltinAssets, InjectData, RenderError, TemplateRef,
};

const MARKER: &str = "/*__TINYVIEW__*/ null /*__TINYVIEW__*/";

fn empty_map() -> StrMap<String> {
    StrMap::new()
}

fn map_of(pairs: &[(&str, &str)]) -> StrMap<String> {
    let mut m = StrMap::new();
    for (k, v) in pairs {
        m.insert(k.to_string(), v.to_string());
    }
    m
}

const TEXT_SHELL: &str = "<!doctype html><html><head><script>window.__TINYVIEW__ = /*__TINYVIEW__*/ null /*__TINYVIEW__*/;</script></head><body><pre id=\"out\"></pre></body></html>";
const MINIMAL_SHELL: &str = "<!doctype html><html><head><script>window.__TINYVIEW__ = /*__TINYVIEW__*/ null /*__TINYVIEW__*/;</script></head><body><main></main></body></html>";
const MARKDOWN_SHELL: &str = "<html><head><style>/*__TINYVIEW_HLJS_CSS__*/</style><script>/*__TINYVIEW_MARKED__*/</script><script>/*__TINYVIEW_HLJS__*/</script><script>window.__TINYVIEW__ = /*__TINYVIEW__*/ null /*__TINYVIEW__*/;</script></head><body></body></html>";
const CODE_SHELL: &str = "<html><head><style>/*__TINYVIEW_HLJS_CSS__*/</style><script>/*__TINYVIEW_HLJS__*/</script><script>window.__TINYVIEW__ = /*__TINYVIEW__*/ null /*__TINYVIEW__*/;</script></head><body></body></html>";
const MERMAID_SHELL: &str = "<html><head><script>/*__TINYVIEW_MERMAID__*/</script><script>window.__TINYVIEW__ = /*__TINYVIEW__*/ null /*__TINYVIEW__*/;</script></head><body></body></html>";

fn assets() -> BuiltinAssets<'static> {
    BuiltinAssets {
        text: TEXT_SHELL,
        minimal: MINIMAL_SHELL,
        markdown: MARKDOWN_SHELL,
        code: CODE_SHELL,
        mermaid: MERMAID_SHELL,
        marked_js: "var marked={parse:function(s){return s}};",
        hljs_js: "var hljs={highlightAll:function(){}};",
        hljs_css: ".hljs{color:black}",
        mermaid_js: "globalThis.mermaid={initialize:function(){}};",
    }
}

fn render_ok(tpl: &TemplateRef, data: &InjectData) -> String {
    let out = render(tpl, data, &assets(), Ok("")).expect("render ok");
    out.html
}

#[test]
fn resolve_explicit_wins_over_everything() {
    let ext = map_of(&[("md", "markdown")]);
    let got = resolve(Some("text"), Some("README.md"), Some(&ext), Some("minimal"));
    assert_eq!(got, TemplateRef::Text);
}

#[test]
fn resolve_extension_used_when_no_explicit() {
    let ext = map_of(&[("md", "minimal")]);
    let got = resolve(None, Some("notes.md"), Some(&ext), Some("text"));
    assert_eq!(got, TemplateRef::Minimal);
}

#[test]
fn resolve_default_used_when_no_extension_match() {
    let ext = empty_map();
    let got = resolve(None, Some("a.unknown"), Some(&ext), Some("text"));
    assert_eq!(got, TemplateRef::Text);
}

#[test]
fn resolve_falls_back_to_raw() {
    let got = resolve(None, None, None, None);
    assert_eq!(got, TemplateRef::Raw);
}

#[test]
fn resolve_unknown_name_becomes_user_template() {
    let got = resolve(Some("custom-layout"), None, None, None);
    assert_eq!(got, TemplateRef::User("custom-layout.html".to_string()));
}

#[test]
fn resolve_optional_builtin_names() {
    assert_eq!(resolve(Some("markdown"), None, None, None), TemplateRef::Markdown);
    assert_eq!(resolve(Some("mermaid"), None, None, None), TemplateRef::Mermaid);
    assert_eq!(resolve(Some("code"), None, None, None), TemplateRef::Code);
}

#[test]
fn resolve_extension_falls_back_to_lowercase() {
    let ext = map_of(&[("md", "markdown")]);
    assert_eq!(resolve(None, Some("NOTES.MD"), Some(&ext), None), TemplateRef::Markdown);
    assert_eq!(resolve_with_extension(None, Some("Md"), Some(&ext), None), TemplateRef::Markdown);
    let exact = map_of(&[("MD", "text"), ("md", "markdown")]);
    assert_eq!(resolve(None, Some("a.MD"), Some(&exact), None), TemplateRef::Text);
    assert_eq!(resolve(None, Some("noext"), Some(&ext), None), TemplateRef::Raw);
}

#[test]
fn resolve_reads_extension_of_final_component() {
    let ext = map_of(&[("md", "markdown"), ("v1", "text")]);
    assert_eq!(resolve(None, Some("/home/u/notes.md"), Some(&ext), None), TemplateRef::Markdown);
    assert_eq!(resolve(None, Some("docs.v1/readme"), Some(&ext), Some("minimal")), TemplateRef::Minimal);
    assert_eq!(resolve(None, Some("docs.v1/readme"), Some(&ext), None), TemplateRef::Raw);
}

#[test]
fn resolve_uses_the_last_dot_of_the_file_name() {
    let ext = map_of(&[("md", "markdown"), ("v2", "text"), ("gz", "code")]);
    assert_eq!(resolve(None, Some("/home/u/notes.v2.md"), Some(&ext), None), TemplateRef::Markdown);
    assert_eq!(resolve(None, Some("archive.tar.gz"), Some(&ext), None), TemplateRef::Code);
    assert_eq!(resolve(None, Some("dir.v2/notes"), Some(&ext), None), TemplateRef::Raw);
    assert_eq!(resolve(None, Some("/home/u/.notes.md"), Some(&ext), None), TemplateRef::Markdown);
    assert_eq!(resolve(None, Some("/home/u/.v2"), Some(&ext), Some("minimal")), TemplateRef::Minimal);
}

#[test]
fn name_to_ref_maps_builtins_and_user_names() {
    assert_eq!(name_to_ref("raw"), TemplateRef::Raw);
    assert_eq!(name_to_ref("text"), TemplateRef::Text);
    assert_eq!(name_to_ref("minimal"), TemplateRef::Minimal);
    assert_eq!(name_to_ref("Text"), TemplateRef::User("Text.html".to_string()));
    assert_eq!(name_to_ref("layout.v2"), TemplateRef::User("layout.v2.html".to_string()));
    assert_eq!(name_to_ref("my.layout"), TemplateRef::User("my.layout.html".to_string()));
    assert_eq!(name_to_ref("sub/page"), TemplateRef::User("sub/page.html".to_string()));
}

#[test]
fn render_substitutes_marker_once() {
    let params = empty_map();
    let data = InjectData { input: "<h1>Hi</h1>", params: &params, title: "tinyview", path: None };
    let out = render_ok(&TemplateRef::Text, &data);
    assert!(!out.contains(MARKER), "marker should have been substituted");
    assert!(out.contains(r#""input":"<h1>Hi</h1>""#), "input not present in JSON literal: {out}");
    assert!(out.contains(r#""title":"tinyview""#));
    assert!(out.contains(r#""path":null"#));
}

#[test]
fn render_minimal_includes_params() {
    let params = map_of(&[("theme", "github")]);
    let data = InjectData { input: "hello", params: &params, title: "t", path: Some("/tmp/x.md") };
    let out = render_ok(&TemplateRef::Minimal, &data);
    assert!(out.contains(r#""theme":"github""#));
    assert!(out.contains(r#""path":"/tmp/x.md""#));
    assert!(!out.contains(MARKER));
}

#[test]
fn render_marker_missing_returns_source_unchanged() {
    let html = "<html><body>no marker here</body></html>";
    let params = empty_map();
    let data = InjectData { input: "x", params: &params, title: "t", path: None };
    let out = render(&TemplateRef::User("nomarker.html".to_string()), &data, &assets(), Ok(html))
        .expect("render ok");
    assert_eq!(out.html, html);
    assert!(!out.marker_found);
}

#[test]
fn render_markdown_inlines_libs_and_marker() {
    let params = empty_map();
    let data = InjectData { input: "Hello markdown", params: &params, title: "tinyview", path: Some("README.md") };
    let out = render_ok(&TemplateRef::Markdown, &data);
    assert!(!out.contains(MARKER));
    assert!(!out.contains("/*__TINYVIEW_MARKED__*/"));
    assert!(!out.contains("/*__TINYVIEW_HLJS__*/"));
    assert!(!out.contains("/*__TINYVIEW_HLJS_CSS__*/"));
    assert!(out.contains("marked"), "marked.js not inlined");
    assert!(out.contains("hljs"), "highlight.js not inlined");
    assert!(out.contains(r#""input":"Hello markdown""#));
    assert!(!out.contains("<script src="));
    assert!(!out.contains("<link "));
}

#[test]
fn render_code_inlines_hljs() {
    let params = map_of(&[("lang", "rust")]);
    let data = InjectData { input: "fn main() {}", params: &params, title: "t", path: None };
    let out = render_ok(&TemplateRef::Code, &data);
    assert!(!out.contains(MARKER));
    assert!(!out.contains("/*__TINYVIEW_HLJS__*/"));
    assert!(!out.contains("/*__TINYVIEW_HLJS_CSS__*/"));
    assert!(out.contains("hljs"), "highlight.js not inlined");
    assert!(out.contains(r#""lang":"rust""#));
}

#[test]
fn render_mermaid_inlines_lib() {
    let params = empty_map();
    let data = InjectData { input: "graph TD; A-->B", params: &params, title: "t", path: None };
    let out = render_ok(&TemplateRef::Mermaid, &data);
    assert!(!out.contains(MARKER));
    assert!(!out.contains("/*__TINYVIEW_MERMAID__*/"));
    assert!(out.contains("mermaid"), "mermaid.js not inlined");
    assert!(out.contains(r#""input":"graph TD; A-->B""#));
    assert!(!out.contains("<script src="));
}

#[test]
fn render_passes_user_read_error_through() {
    let params = empty_map();
    let data = InjectData { input: "x", params: &params, title: "t", path: None };
    let err = RenderError::UserTemplateRead("No such file or directory (os error 2)".to_string());
    let got = render(&TemplateRef::User("missing.html".to_string()), &data, &assets(), Err(err.clone()));
    assert!(matches!(got, Err(e) if e == err));
    assert_eq!(
        err.message(),
        "failed to read user template: No such file or directory (os error 2)"
    );
}

#[test]
fn build_literal_exact_object() {
    let params = map_of(&[("z", "1"), ("a", "q\"x")]);
    let data = InjectData { input: "line\nnext", params: &params, title: "tinyview", path: Some("/p") };
    assert_eq!(
        build_literal(&data),
        r#"{"input":"line\nnext","params":{"a":"q\"x","z":"1"},"path":"/p","title":"tinyview"}"#
    );
    let empty = empty_map();
    let d2 = InjectData { input: "", params: &empty, title: "", path: None };
    assert_eq!(build_literal(&d2), r#"{"input":"","params":{},"path":null,"title":""}"#);
}

#[test]
fn build_literal_escapes_control_characters() {
    let empty = empty_map();
    let data = InjectData { input: "\u{1}\u{1f}\t\\\r\u{8}\u{c}é", params: &empty, title: "", path: None };
    assert_eq!(
        build_literal(&data),
        r#"{"input":"\u0001\u001f\t\\\r\b\fé","params":{},"path":null,"title":""}"#
    );
}

#[test]
fn build_literal_neutralizes_script_close_and_line_terminators() {
    let empty = empty_map();
    let input = "before</script>after\u{2028}x\u{2029}";
    let data = InjectData { input, params: &empty, title: "t", path: None };
    let lit = build_literal(&data);
    assert!(!lit.to_ascii_lowercase().contains("</script"));
    assert!(!lit.contains('<'));
    assert!(!lit.contains('\u{2028}') && !lit.contains('\u{2029}'));
    assert_eq!(
        lit,
        r#"{"input":"before\u003c/script>after\u2028x\u2029","params":{},"path":null,"title":"t"}"#
    );
    let v: serde_json::Value = serde_json::from_str(&lit).unwrap();
    assert_eq!(v["input"], input);
}

#[test]
fn substitute_marker_only_first() {
    let src = format!("a{MARKER}b{MARKER}c");
    let out = substitute_marker(&src, "L");
    assert!(out.marker_found);
    assert_eq!(out.html, format!("aLb{MARKER}c"));
}

#[test]
fn builtin_source_replaces_every_placeholder() {
    let a = BuiltinAssets {
        code: "/*__TINYVIEW_HLJS__*/-/*__TINYVIEW_HLJS__*/-/*__TINYVIEW_HLJS_CSS__*/",
        hljs_js: "J",
        hljs_css: "C",
        ..assets()
    };
    assert_eq!(builtin_source(&TemplateRef::Code, &a), Some("J-J-C".to_string()));
    assert_eq!(builtin_source(&TemplateRef::Raw, &a), None);
    assert_eq!(builtin_source(&TemplateRef::User("u.html".to_string()), &a), None);
    assert_eq!(builtin_source(&TemplateRef::Text, &a), Some(TEXT_SHELL.to_string()));
}

#[test]
fn script_safe_escapes_only_script_close_in_any_case() {
    assert_eq!(script_safe_str("<h1>a</h1>"), "<h1>a</h1>");
    assert_eq!(script_safe_str("x</SCRIPT >y</Script"), "x\\u003c/SCRIPT >y\\u003c/Script");
    assert_eq!(script_safe_str("</scrip"), "</scrip");
    assert_eq!(script_safe_str("a\u{2028}b\u{2029}"), "a\\u2028b\\u2029");
}

#[test]
fn build_literal_parses_back_to_the_object() {
    let params = map_of(&[("z", "</script>"), ("a", "q\"x\u{2028}")]);
    let data = InjectData { input: "in\n<b>", params: &params, title: "tinyview", path: Some("/p/.n.md") };
    let v: serde_json::Value = serde_json::from_str(&build_literal(&data)).unwrap();
    let obj = v.as_object().unwrap();
    assert_eq!(obj.len(), 4);
    assert_eq!(obj["input"], "in\n<b>");
    assert_eq!(obj["title"], "tinyview");
    assert_eq!(obj["path"], "/p/.n.md");
    let ps = obj["params"].as_object().unwrap();
    assert_eq!(ps.len(), 2);
    assert_eq!(ps["z"], "</script>");
    assert_eq!(ps["a"], "q\"x\u{2028}");
    let empty = empty_map();
    let d2 = InjectData { input: "", params: &empty, title: "", path: None };
    let v2: serde_json::Value = serde_json::from_str(&build_literal(&d2)).unwrap();
    assert!(v2["path"].is_null());
}
