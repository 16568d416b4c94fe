use tinyview::selftest::{evaluate, html_for, selftest_steps, Probe, Report, SelftestRun};

fn results(v: &[Option<&str>]) -> Vec<Option<String>> {
    v.iter().map(|o| o.map(|s| s.to_string())).collect()
}

#[test]
fn steps_in_order() {
    let ids: Vec<&str> = selftest_steps().iter().map(|s| s.id).collect();
    assert_eq!(
        ids,
        vec!["fetch_off", "fetch_on", "clip_off", "clip_on", "store_off_set", "store_off_get", "store_on_set", "store_on_get", "cleanup"]
    );
    let steps = selftest_steps();
    assert!(steps[1].perms.allow_fetch);
    assert!(steps[3].perms.allow_clipboard);
    assert!(steps[8].perms.allow_storage && steps[8].probe == Probe::StorageCleanup);
}

#[test]
fn html_for_wraps_probe() {
    assert_eq!(
        html_for("x()"),
        "<!doctype html><html><head><title>e2e</title></head><body><script>x()</script></body></html>"
    );
}

#[test]
fn report_check_sorts_lines() {
    let mut r = Report::new();
    r.check("a", true, false, "d");
    r.check("b", false, true, "e");
    r.check("c", false, false, "f");
    assert_eq!(r.passes, vec!["a — got \"d\"".to_string()]);
    assert_eq!(r.warnings, vec!["b — got \"e\"".to_string()]);
    assert_eq!(r.failures, vec!["c — got \"f\"".to_string()]);
    assert!(!r.succeeded());
}

#[test]
fn run_state_machine() {
    let mut run = SelftestRun::new(2);
    assert_eq!(run.to_start(), Some(0));
    run.started();
    assert_eq!(run.to_start(), None);
    run.received("blocked".to_string());
    assert_eq!(run.to_start(), Some(1));
    run.start_failed("no display");
    assert!(run.is_finished());
    assert_eq!(run.results(), &vec![Some("blocked".to_string()), Some("ERR:no display".to_string())]);
    let mut t = SelftestRun::new(1);
    t.started();
    t.timed_out();
    assert_eq!(t.results(), &vec![Some("TIMEOUT".to_string())]);
}

#[test]
fn evaluate_expected_platform_behaviour() {
    let rs = results(&[
        Some("blocked"),
        Some("allowed"),
        Some("clipboard:undefined|none"),
        Some("clipboard:undefined|none"),
        Some("set:err:SecurityError"),
        Some("get:err:SecurityError"),
        Some("set:err:SecurityError"),
        Some("get:err:SecurityError"),
        Some("cleanup"),
    ]);
    let r = evaluate(&rs, true);
    assert_eq!(r.passes.len(), 6);
    assert!(r.succeeded());
}

#[test]
fn evaluate_failures_and_warnings() {
    let rs = results(&[Some("allowed"), None, Some("clipboard:object|function"), Some("clipboard:object|function"), Some("set:ok"), Some("get:42"), Some("set:ok"), Some("get:42"), None]);
    let mac = evaluate(&rs, true);
    assert_eq!(mac.failures.len(), 4);
    assert_eq!(mac.warnings.len(), 2);
    assert_eq!(mac.failures[1], "allow-fetch: flag permits fetch (no CSP block) — got \"MISSING\"");
    assert_eq!(mac.failures[3], "allow-storage: default does not persist data across runs — got \"set=set:ok get=get:42\"");
    let linux = evaluate(&rs, false);
    assert_eq!(linux.failures.len(), 3);
    assert_eq!(linux.warnings.len(), 3);
}
