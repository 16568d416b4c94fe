use tinyview::webview::{
    build_csp, effective_perms, inject_csp, meta_allows_fetch, navigation_allowed, prepare_html,
    use_incognito, Permissions,
};

#[test]
fn csp_default_blocks_connect() {
    let csp = build_csp(&Permissions::default());
    assert!(csp.contains("connect-src 'none'"));
    assert!(csp.contains("default-src 'self' 'unsafe-inline' data: blob:"));
    assert!(csp.contains("object-src 'none'"));
    assert!(csp.contains("base-uri 'none'"));
    assert!(csp.contains("form-action 'none'"));
}

#[test]
fn csp_allow_fetch_opens_connect() {
    let csp = build_csp(&Permissions { allow_fetch: true, ..Default::default() });
    assert!(csp.contains("connect-src https: http: ws: wss:"));
    assert!(!csp.contains("connect-src 'none'"));
}

#[test]
fn csp_exact_text() {
    assert_eq!(
        build_csp(&Permissions::default()),
        "default-src 'self' 'unsafe-inline' data: blob:; connect-src 'none'; object-src 'none'; base-uri 'none'; form-action 'none';"
    );
}

#[test]
fn inject_csp_inserts_after_head() {
    let html = "<html><head><title>x</title></head><body>y</body></html>";
    let out = inject_csp(html, &Permissions::default());
    let meta_idx = out.find("<meta http-equiv=\"Content-Security-Policy\"").unwrap();
    let title_idx = out.find("<title>").unwrap();
    let head_open_end = out.find("<head>").unwrap() + "<head>".len();
    assert_eq!(meta_idx, head_open_end);
    assert!(meta_idx < title_idx);
}

#[test]
fn inject_csp_handles_head_with_attributes() {
    let html = r#"<html><head lang="en"><title>x</title></head><body></body></html>"#;
    let out = inject_csp(html, &Permissions::default());
    let head_open = out.find("<head ").unwrap();
    let head_close = out[head_open..].find('>').unwrap() + head_open + 1;
    let meta_idx = out.find("<meta http-equiv=\"Content-Security-Policy\"").unwrap();
    assert_eq!(meta_idx, head_close, "meta must be inserted immediately after the opening <head ...> tag");
}

#[test]
fn inject_csp_creates_head_when_missing() {
    let html = "<html><body>only body</body></html>";
    let out = inject_csp(html, &Permissions::default());
    assert!(out.starts_with("<head>"));
    assert!(out.contains("<meta http-equiv=\"Content-Security-Policy\""));
    assert!(out.contains("</head><html>"));
}

#[test]
fn inject_csp_respects_allow_fetch() {
    let html = "<head></head>";
    let out = inject_csp(html, &Permissions { allow_fetch: true, ..Default::default() });
    assert!(out.contains("connect-src https: http: ws: wss:"));
}

#[test]
fn inject_csp_matches_head_case_insensitively_and_keeps_document() {
    let html = "<HTML><HEAD><title>é</title></HEAD></HTML>";
    let out = inject_csp(html, &Permissions::default());
    let meta = format!(
        "<meta http-equiv=\"Content-Security-Policy\" content=\"{}\">",
        build_csp(&Permissions::default())
    );
    assert_eq!(out, format!("<HTML><HEAD>{meta}<title>é</title></HEAD></HTML>"));
    assert_eq!(out.replacen(&meta, "", 1), html);
}

#[test]
fn inject_csp_non_ascii_before_head() {
    let html = "ÄÖ<head>x";
    let out = inject_csp(html, &Permissions::default());
    assert!(out.starts_with("ÄÖ<head><meta http-equiv="));
    assert!(out.ends_with("\">x"));
}

#[test]
fn meta_allows_fetch_detects_grant() {
    assert!(meta_allows_fetch(r#"<head><meta name="tinyview-allow" content="fetch"></head>"#));
    assert!(meta_allows_fetch(r#"<META NAME='TinyView-Allow' CONTENT='other FETCH'>"#));
    assert!(meta_allows_fetch("<meta\tname=\"tinyview-allow\"\ncontent=\"fetch\">"));
    assert!(!meta_allows_fetch(r#"<meta name="tinyview-allow" content="prefetch">"#));
    assert!(!meta_allows_fetch(r#"<meta name="viewport" content="fetch">"#));
    assert!(!meta_allows_fetch(r#"<meta data-name="tinyview-allow" content="fetch">"#));
    assert!(!meta_allows_fetch("<p>no meta</p>"));
}

#[test]
fn effective_perms_folds_meta_into_fetch_only() {
    let html = r#"<meta name="tinyview-allow" content="fetch">"#;
    let p = effective_perms(html, &Permissions::default());
    assert!(p.allow_fetch && !p.allow_clipboard && !p.allow_storage);
    let q = effective_perms("<p>x</p>", &Permissions { allow_fetch: true, ..Default::default() });
    assert!(q.allow_fetch);
    let r = effective_perms("<p>x</p>", &Permissions::default());
    assert!(!r.allow_fetch);
}

#[test]
fn prepare_html_honors_raw_mode_and_meta() {
    let plain = "<head></head><p>x</p>";
    assert_eq!(prepare_html(plain, &Permissions::default(), true), plain);
    assert!(prepare_html(plain, &Permissions::default(), false).contains("connect-src 'none'"));
    let granted = r#"<head><meta name="tinyview-allow" content="fetch"></head>"#;
    let out = prepare_html(granted, &Permissions::default(), true);
    assert!(out.contains("connect-src https: http: ws: wss:"));
    let clip = prepare_html(plain, &Permissions { allow_clipboard: true, ..Default::default() }, true);
    assert!(clip.contains("connect-src 'none'"));
}

#[test]
fn navigation_policy() {
    assert!(navigation_allowed("about:blank"));
    assert!(navigation_allowed("data:text/html,x"));
    assert!(!navigation_allowed("https://example.com"));
    assert!(!navigation_allowed("file:///etc/passwd"));
    assert!(!navigation_allowed("about"));
}

#[test]
fn incognito_unless_storage() {
    assert!(use_incognito(&Permissions::default()));
    assert!(!use_incognito(&Permissions { allow_storage: true, ..Default::default() }));
}

#[test]
fn inject_csp_does_not_take_header_for_head() {
    let html = "<body><header>h</header></body>";
    let out = inject_csp(html, &Permissions::default());
    let meta = format!(
        "<meta http-equiv=\"Content-Security-Policy\" content=\"{}\">",
        build_csp(&Permissions::default())
    );
    assert_eq!(out, format!("<head>{meta}</head>{html}"));
}

#[test]
fn inject_csp_accepts_head_followed_by_whitespace() {
    let html = "<header>x</header><HEAD\nlang=\"en\"><title>t</title></HEAD>";
    let out = inject_csp(html, &Permissions::default());
    let meta_idx = out.find("<meta http-equiv").unwrap();
    assert_eq!(meta_idx, "<header>x</header><HEAD\nlang=\"en\">".len());
}

#[test]
fn inject_csp_accepts_self_closing_head() {
    let html = "<head/>x";
    let out = inject_csp(html, &Permissions::default());
    let meta = format!(
        "<meta http-equiv=\"Content-Security-Policy\" content=\"{}\">",
        build_csp(&Permissions::default())
    );
    assert_eq!(out, format!("<head/>{meta}x"));
}
