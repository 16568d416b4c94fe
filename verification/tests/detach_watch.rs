use tinyview::detach::{child_args, child_env, SpawnOpts, DETACHED_CHILD_ENV, RAW_MODE_ENV};
use tinyview::strmap::StrMap;
use tinyview::template::{BuiltinAssets, RenderError, TemplateRef};
use tinyview::watch::{paths_match, recompose_html, touches_target, WatchContext};

fn spawn_opts() -> SpawnOpts<'static> {
    SpawnOpts {
        html: "<p>x</p>",
        width: 1000,
        height: 760,
        raw_mode: false,
        allow_clipboard: false,
        allow_storage: false,
        frameless: false,
        transparent: false,
    }
}

#[test]
fn child_args_carry_size_and_flags() {
    assert_eq!(child_args(&spawn_opts()), vec!["--width", "1000", "--height", "760"]);
    let o = SpawnOpts { width: 7, height: 0, allow_storage: true, transparent: true, ..spawn_opts() };
    assert_eq!(
        child_args(&o),
        vec!["--width", "7", "--height", "0", "--allow-storage", "--transparent"]
    );
    let all = SpawnOpts { allow_clipboard: true, frameless: true, width: 4294967295, ..spawn_opts() };
    assert_eq!(
        child_args(&all),
        vec!["--width", "4294967295", "--height", "760", "--allow-clipboard", "--frameless"]
    );
}

#[test]
fn child_env_marks_child_and_raw_mode() {
    assert_eq!(child_env(&spawn_opts()), vec![(DETACHED_CHILD_ENV.to_string(), "1".to_string())]);
    let raw = SpawnOpts { raw_mode: true, ..spawn_opts() };
    assert_eq!(
        child_env(&raw),
        vec![
            ("TINYVIEW_DETACHED_CHILD".to_string(), "1".to_string()),
            (RAW_MODE_ENV.to_string(), "1".to_string())
        ]
    );
}

#[test]
fn paths_match_direct_equality() {
    let p = "/tmp/some-file.html";
    assert!(paths_match(p, p, None));
}

#[test]
fn paths_match_canonicalizes() {
    assert!(paths_match("/tmp/./x/../file.html", "/tmp/file.html", Some("/tmp/file.html")));
    assert!(!paths_match("/tmp/other.html", "/tmp/file.html", Some("/tmp/other.html")));
    assert!(!paths_match("/tmp/other.html", "/tmp/file.html", None));
}

#[test]
fn touches_target_any_event() {
    let evs = vec!["/d/a".to_string(), "/d/b".to_string()];
    assert!(touches_target(&evs, &vec![None, None], "/d/b"));
    assert!(!touches_target(&evs, &vec![None, None], "/d/c"));
    assert!(!touches_target(&Vec::new(), &Vec::new(), "/d/b"));
    assert!(touches_target(&evs, &vec![Some("/d/c".to_string()), None], "/d/c"));
}

fn assets() -> BuiltinAssets<'static> {
    BuiltinAssets {
        text: "<script>window.__TINYVIEW__ = /*__TINYVIEW__*/ null /*__TINYVIEW__*/;</script>",
        minimal: "",
        markdown: "",
        code: "",
        mermaid: "",
        marked_js: "",
        hljs_js: "",
        hljs_css: "",
        mermaid_js: "",
    }
}

#[test]
fn recompose_raw_and_templated() {
    let raw = WatchContext { source: "a.html".to_string(), template: TemplateRef::Raw, params: StrMap::new(), raw_mode: true };
    assert_eq!(recompose_html(&raw, "<b>new</b>", &assets(), Ok("")), Ok("<b>new</b>".to_string()));
    let txt = WatchContext { source: "/w/a.txt".to_string(), template: TemplateRef::Text, params: StrMap::new(), raw_mode: false };
    let out = recompose_html(&txt, "hello", &assets(), Ok("")).unwrap();
    assert_eq!(
        out,
        r#"<script>window.__TINYVIEW__ = {"input":"hello","params":{},"path":"/w/a.txt","title":"tinyview"};</script>"#
    );
    let user = WatchContext { source: "/w/a.md".to_string(), template: TemplateRef::User("/t/u.html".to_string()), params: StrMap::new(), raw_mode: false };
    let err = RenderError::UserTemplateRead("gone".to_string());
    assert_eq!(recompose_html(&user, "x", &assets(), Err(err.clone())), Err(err));
}
