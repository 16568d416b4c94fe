use tinyview::config::{config_root, Config, ConfigRoot, TemplateEntry};
use tinyview::runtime::{
    choose_input, is_raw_fast_path, is_raw_mode, merge_params, merge_params_named, on_loop_event,
    parse_param, permissions, resolve_user_template_path, stays_foreground, template_name,
    watch_rejected, watch_rejected_status, window_size, Input, InputSource, LoopAction, LoopEvent,
    Options,
};
use tinyview::strmap::StrMap;
use tinyview::template::TemplateRef;
use tinyview::webview::Permissions;

fn opts() -> Options {
    Options {
        source: None,
        html: None,
        template: None,
        params: Vec::new(),
        width: None,
        height: None,
        foreground: false,
        watch: false,
        frameless: false,
        transparent: false,
        allow_clipboard: false,
        allow_storage: false,
    }
}

fn input(path: Option<&str>) -> Input {
    Input { content: "x".to_string(), path: path.map(|p| p.to_string()) }
}

fn get(m: &StrMap<String>, k: &str) -> Option<String> {
    m.get(k).cloned()
}

#[test]
fn parse_param_splits_at_first_equals() {
    assert_eq!(parse_param("lang=rust"), Ok(("lang".to_string(), "rust".to_string())));
    assert_eq!(parse_param("a=b=c"), Ok(("a".to_string(), "b=c".to_string())));
    assert_eq!(parse_param("k="), Ok(("k".to_string(), String::new())));
    assert_eq!(parse_param("novalue"), Err("expected key=value, got `novalue`".to_string()));
}

#[test]
fn input_priority_stdin_file_html() {
    let mut o = opts();
    o.source = Some("a.html".to_string());
    o.html = Some("<p>".to_string());
    assert_eq!(choose_input(false, true, &o), InputSource::Stdin);
    assert_eq!(choose_input(true, true, &o), InputSource::File);
    assert_eq!(choose_input(false, false, &o), InputSource::File);
    o.source = None;
    assert_eq!(choose_input(true, false, &o), InputSource::Inline);
    o.html = None;
    assert_eq!(choose_input(true, false, &o), InputSource::Missing);
}

#[test]
fn raw_fast_path_and_watch_rules() {
    let mut o = opts();
    assert!(is_raw_fast_path(&o, &input(None)));
    assert!(!is_raw_fast_path(&o, &input(Some("a.md"))));
    o.params.push(("k".to_string(), "v".to_string()));
    assert!(!is_raw_fast_path(&o, &input(None)));
    let mut w = opts();
    w.watch = true;
    assert!(watch_rejected(&w, &input(None)));
    assert!(!watch_rejected(&w, &input(Some("a.md"))));
    assert!(stays_foreground(&w));
    assert!(!stays_foreground(&opts()));
    assert_eq!(watch_rejected_status(), 2);
}

#[test]
fn window_size_priority() {
    let mut o = opts();
    assert_eq!(window_size(&o, None), (1000, 760));
    let mut cfg = Config::new();
    cfg.window_width = Some(1200);
    cfg.window_height = Some(800);
    assert_eq!(window_size(&o, Some(&cfg)), (1200, 800));
    o.width = Some(420);
    assert_eq!(window_size(&o, Some(&cfg)), (420, 800));
}

#[test]
fn cli_overrides_config_params() {
    let mut cfg = Config::new();
    let mut entry = TemplateEntry::new();
    entry.params.insert("lang".to_string(), "python".to_string());
    entry.params.insert("theme".to_string(), "github".to_string());
    cfg.templates.insert("code".to_string(), entry);
    let cli = vec![("lang".to_string(), "rust".to_string())];
    let merged = merge_params(&TemplateRef::Code, Some(&cfg), &cli);
    assert_eq!(get(&merged, "lang").as_deref(), Some("rust"));
    assert_eq!(get(&merged, "theme").as_deref(), Some("github"));
    assert_eq!(merged.len(), 2);
    let other = merge_params(&TemplateRef::Text, Some(&cfg), &cli);
    assert_eq!(other.len(), 1);
}

#[test]
fn later_cli_param_wins_and_user_stem_is_used() {
    let mut cfg = Config::new();
    let mut entry = TemplateEntry::new();
    entry.params.insert("theme".to_string(), "light".to_string());
    cfg.templates.insert("custom".to_string(), entry);
    let cli = vec![("a".to_string(), "1".to_string()), ("a".to_string(), "2".to_string())];
    let merged = merge_params(&TemplateRef::User("/home/u/.tinyview/templates/custom.html".to_string()), Some(&cfg), &cli);
    assert_eq!(get(&merged, "a").as_deref(), Some("2"));
    assert_eq!(get(&merged, "theme").as_deref(), Some("light"));
    let none = merge_params_named(None, Some(&cfg), &Vec::new());
    assert_eq!(none.len(), 0);
    assert_eq!(template_name(&TemplateRef::Markdown).as_deref(), Some("markdown"));
}

#[test]
fn dotted_user_stem_names_the_config_entry() {
    let mut cfg = Config::new();
    let mut entry = TemplateEntry::new();
    entry.params.insert("theme".to_string(), "dark".to_string());
    cfg.templates.insert("my.layout".to_string(), entry);
    let path = TemplateRef::User("/home/u/.tinyview/templates/my.layout.html".to_string());
    assert_eq!(template_name(&path).as_deref(), Some("my.layout"));
    let merged = merge_params(&path, Some(&cfg), &Vec::new());
    assert_eq!(get(&merged, "theme").as_deref(), Some("dark"));
    let hidden = TemplateRef::User("/home/u/.tinyview/templates/.hidden.html".to_string());
    assert_eq!(template_name(&hidden).as_deref(), Some(".hidden"));
}

#[test]
fn user_template_path_goes_under_root() {
    let got = resolve_user_template_path(TemplateRef::User("custom.html".to_string()), Some("/home/u/.tinyview/templates"));
    assert_eq!(got, TemplateRef::User("/home/u/.tinyview/templates/custom.html".to_string()));
    let abs = resolve_user_template_path(TemplateRef::User("/abs/t.html".to_string()), Some("/root"));
    assert_eq!(abs, TemplateRef::User("/abs/t.html".to_string()));
    assert_eq!(resolve_user_template_path(TemplateRef::Text, Some("/root")), TemplateRef::Text);
    let dot = resolve_user_template_path(TemplateRef::User("c.html".to_string()), None);
    assert_eq!(dot, TemplateRef::User("./c.html".to_string()));
}

#[test]
fn permissions_and_raw_mode() {
    let mut o = opts();
    o.allow_clipboard = true;
    let p = permissions(&o);
    assert!(p.allow_clipboard && !p.allow_fetch && !p.allow_storage);
    assert!(is_raw_mode(&TemplateRef::Raw));
    assert!(!is_raw_mode(&TemplateRef::Text));
}

#[test]
fn loop_reload_reinjects_csp() {
    let perms = Permissions::default();
    match on_loop_event(LoopEvent::Reload("<head></head>".to_string()), &perms, false) {
        LoopAction::Load(h) => assert!(h.contains("Content-Security-Policy")),
        _ => panic!("reload must load"),
    }
    match on_loop_event(LoopEvent::Reload("<p>x</p>".to_string()), &perms, true) {
        LoopAction::Load(h) => assert_eq!(h, "<p>x</p>"),
        _ => panic!("reload must load"),
    }
    assert!(matches!(on_loop_event(LoopEvent::CloseRequested, &perms, false), LoopAction::Exit));
    assert!(matches!(on_loop_event(LoopEvent::Other, &perms, false), LoopAction::Wait));
}

#[test]
fn config_root_fallback_chain() {
    assert_eq!(config_root(Some("/x"), true, true, true), Some(ConfigRoot::Xdg));
    assert_eq!(config_root(None, true, false, true), Some(ConfigRoot::DotConfig));
    assert_eq!(config_root(None, true, false, false), Some(ConfigRoot::Legacy));
    assert_eq!(config_root(Some("/x"), true, false, false), Some(ConfigRoot::Legacy));
    assert_eq!(config_root(Some(""), true, true, true), Some(ConfigRoot::DotConfig));
    assert_eq!(config_root(None, false, false, false), None);
}
