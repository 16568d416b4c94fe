//! Live-WebView self-test of the `--allow-*` permissions: the scenario
//! list, the step-by-step run state, and the verdict drawn from the probes'
//! answers. Driving the WebViews and reading the probes' messages happens
//! outside this library.

use vstd::prelude::*;
use vstd::string::*;

use crate::text::{starts_with_str, str_eq};
use crate::webview::Permissions;

verus! {

broadcast use vstd::string::group_string_axioms;

/// The page-side probe a scenario runs.
#[derive(Debug, Clone, Copy, PartialEq, Eq, Structural)]
pub enum Probe {
    /// Reports `blocked` / `allowed` for an outbound `fetch`.
    Fetch,
    /// Reports `clipboard:<typeof navigator.clipboard>|<typeof writeText>`.
    Clipboard,
    /// Writes a sentinel into `localStorage`.
    StorageSet,
    /// Reads the sentinel back: `get:<value>`.
    StorageGet,
    /// Removes the sentinel.
    StorageCleanup,
}

/// One scenario: a WebView built with `perms` runs `probe`.
#[derive(Clone, Copy)]
pub struct Step {
    pub id: &'static str,
    pub perms: Permissions,
    pub probe: Probe,
}

/// Permissions from the three flags.
pub open spec fn perms_of(fetch: bool, clipboard: bool, storage: bool) -> Permissions {
    Permissions { allow_fetch: fetch, allow_clipboard: clipboard, allow_storage: storage }
}

/// The scenarios, in order: fetch off/on, clipboard off/on, storage off
/// (write, read), storage on (write, read), cleanup.
pub open spec fn steps_spec() -> Seq<(Seq<char>, Permissions, Probe)> {
    seq![
        ("fetch_off"@, perms_of(false, false, false), Probe::Fetch),
        ("fetch_on"@, perms_of(true, false, false), Probe::Fetch),
        ("clip_off"@, perms_of(false, false, false), Probe::Clipboard),
        ("clip_on"@, perms_of(false, true, false), Probe::Clipboard),
        ("store_off_set"@, perms_of(false, false, false), Probe::StorageSet),
        ("store_off_get"@, perms_of(false, false, false), Probe::StorageGet),
        ("store_on_set"@, perms_of(false, false, true), Probe::StorageSet),
        ("store_on_get"@, perms_of(false, false, true), Probe::StorageGet),
        ("cleanup"@, perms_of(false, false, true), Probe::StorageCleanup),
    ]
}

fn step(id: &'static str, fetch: bool, clipboard: bool, storage: bool, probe: Probe) -> (s: Step)
    ensures
        s.id@ == id@,
        s.perms == perms_of(fetch, clipboard, storage),
        s.probe == probe,
{
    Step {
        id,
        perms: Permissions { allow_fetch: fetch, allow_clipboard: clipboard, allow_storage: storage },
        probe,
    }
}

/// The self-test scenarios.
pub fn selftest_steps() -> (v: Vec<Step>)
    ensures
        v@.map_values(|s: Step| (s.id@, s.perms, s.probe)) == steps_spec(),
{
    let mut v: Vec<Step> = Vec::new();
    v.push(step("fetch_off", false, false, false, Probe::Fetch));
    v.push(step("fetch_on", true, false, false, Probe::Fetch));
    v.push(step("clip_off", false, false, false, Probe::Clipboard));
    v.push(step("clip_on", false, true, false, Probe::Clipboard));
    v.push(step("store_off_set", false, false, false, Probe::StorageSet));
    v.push(step("store_off_get", false, false, false, Probe::StorageGet));
    v.push(step("store_on_set", false, false, true, Probe::StorageSet));
    v.push(step("store_on_get", false, false, true, Probe::StorageGet));
    v.push(step("cleanup", false, false, true, Probe::StorageCleanup));
    assert(v@.map_values(|s: Step| (s.id@, s.perms, s.probe)) =~= steps_spec());
    v
}

/// The page that runs `probe`: the script sits at the end of `<body>`, after
/// the injected CSP in `<head>` is active.
pub fn html_for(probe: &str) -> (r: String)
    ensures
        r@ == "<!doctype html><html><head><title>e2e</title></head><body><script>"@ + probe@
            + "</script></body></html>"@,
{
    let mut r = String::from_str(
        "<!doctype html><html><head><title>e2e</title></head><body><script>",
    );
    r.append(probe);
    r.append("</script></body></html>");
    r
}

/// The progress of a self-test run: one scenario at a time, each ending in
/// a message, a start failure or a timeout.
pub struct SelftestRun {
    idx: usize,
    active: bool,
    results: Vec<Option<String>>,
}

/// Optional strings by their characters.
pub open spec fn opt_strings(v: Seq<Option<String>>) -> Seq<Option<Seq<char>>> {
    v.map_values(|o: Option<String>|
        match o {
            Some(s) => Some(s@),
            None => None,
        })
}

impl SelftestRun {
    /// The index of the current (or next) scenario.
    pub closed spec fn index(&self) -> nat {
        self.idx as nat
    }

    /// A scenario's WebView is up and its probe is running.
    pub closed spec fn is_active(&self) -> bool {
        self.active
    }

    /// The recorded outcome of each scenario so far.
    pub closed spec fn outcomes(&self) -> Seq<Option<Seq<char>>> {
        opt_strings(self.results@)
    }

    /// The index stays within the scenarios; a running scenario is a real one.
    pub closed spec fn wf(&self) -> bool {
        &&& self.idx <= self.results@.len()
        &&& self.active ==> self.idx < self.results@.len()
    }

    /// A run over `n` scenarios, none started.
    pub fn new(n: usize) -> (r: Self)
        ensures
            r.wf(),
            r.index() == 0,
            !r.is_active(),
            r.outcomes() == Seq::new(n as nat, |i: int| None::<Seq<char>>),
    {
        let mut results: Vec<Option<String>> = Vec::new();
        for i in 0..n
            invariant
                results@.len() == i,
                forall|j: int| 0 <= j < i ==> results@[j] is None,
        {
            results.push(None);
        }
        assert(opt_strings(results@) =~= Seq::new(n as nat, |j: int| None::<Seq<char>>));
        SelftestRun { idx: 0, active: false, results }
    }

    /// The scenario to start now: the next one, when none is running and
    /// some are left.
    pub fn to_start(&self) -> (r: Option<usize>)
        requires
            self.wf(),
        ensures
            r == (if !self.is_active() && self.index() < self.outcomes().len() {
                Some(self.index() as usize)
            } else {
                None::<usize>
            }),
    {
        if !self.active && self.idx < self.results.len() {
            Some(self.idx)
        } else {
            None
        }
    }

    /// The scenario's WebView was built; its probe runs.
    pub fn started(&mut self)
        requires
            old(self).wf(),
            !old(self).is_active(),
            old(self).index() < old(self).outcomes().len(),
        ensures
            final(self).wf(),
            final(self).is_active(),
            final(self).index() == old(self).index(),
            final(self).outcomes() == old(self).outcomes(),
    {
        self.active = true;
    }

    /// Record `outcome` for the current scenario and move to the next.
    fn finish_current(&mut self, outcome: String)
        requires
            old(self).wf(),
            old(self).index() < old(self).outcomes().len(),
        ensures
            final(self).wf(),
            !final(self).is_active(),
            final(self).index() == old(self).index() + 1,
            final(self).outcomes() == old(self).outcomes().update(old(self).index() as int, Some(outcome@)),
    {
        let i = self.idx;
        let n = self.results.len();
        assert(i < n);
        self.results.set(i, Some(outcome));
        self.idx = i + 1;
        self.active = false;
        assert(opt_strings(self.results@) =~= opt_strings(old(self).results@).update(i as int, Some(outcome@)));
    }

    /// The scenario's WebView could not be built: record `ERR:<error>`.
    pub fn start_failed(&mut self, err: &str)
        requires
            old(self).wf(),
            !old(self).is_active(),
            old(self).index() < old(self).outcomes().len(),
        ensures
            final(self).wf(),
            !final(self).is_active(),
            final(self).index() == old(self).index() + 1,
            final(self).outcomes() == old(self).outcomes().update(old(self).index() as int, Some("ERR:"@ + err@)),
    {
        let mut s = String::from_str("ERR:");
        s.append(err);
        self.finish_current(s);
    }

    /// The running probe answered `msg`.
    pub fn received(&mut self, msg: String)
        requires
            old(self).wf(),
            old(self).is_active(),
        ensures
            final(self).wf(),
            !final(self).is_active(),
            final(self).index() == old(self).index() + 1,
            final(self).outcomes() == old(self).outcomes().update(old(self).index() as int, Some(msg@)),
    {
        self.finish_current(msg);
    }

    /// The running probe gave no answer in time: record `TIMEOUT`.
    pub fn timed_out(&mut self)
        requires
            old(self).wf(),
            old(self).is_active(),
        ensures
            final(self).wf(),
            !final(self).is_active(),
            final(self).index() == old(self).index() + 1,
            final(self).outcomes() == old(self).outcomes().update(old(self).index() as int, Some("TIMEOUT"@)),
    {
        self.finish_current(String::from_str("TIMEOUT"));
    }

    /// Every scenario has an outcome and none runs.
    pub fn is_finished(&self) -> (r: bool)
        requires
            self.wf(),
        ensures
            r == (!self.is_active() && self.index() >= self.outcomes().len()),
    {
        !self.active && self.idx >= self.results.len()
    }

    /// The recorded outcomes.
    pub fn results(&self) -> (r: &Vec<Option<String>>)
        ensures
            opt_strings(r@) == self.outcomes(),
    {
        &self.results
    }
}


/// The text that `{:?}` (`Debug`) writes for the string `s`: quoted, with
/// escapes.
pub uninterp spec fn debug_str(s: Seq<char>) -> Seq<char>;

/// `format!("{s:?}")`.
#[verifier::external_body]
fn debug_quoted(s: &str) -> (r: String)
    ensures
        r@ == debug_str(s@),
{
    format!("{s:?}")
}

/// The report line of a check.
pub open spec fn check_line(name: Seq<char>, detail: Seq<char>) -> Seq<char> {
    name + " — got "@ + debug_str(detail)
}

/// Aggregated check results.
pub struct Report {
    pub passes: Vec<String>,
    pub warnings: Vec<String>,
    pub failures: Vec<String>,
}

/// The lines by their characters.
pub open spec fn lines(v: Seq<String>) -> Seq<Seq<char>> {
    v.map_values(|s: String| s@)
}

/// The three lists of a report, as text.
pub open spec fn report_view(r: &Report) -> (Seq<Seq<char>>, Seq<Seq<char>>, Seq<Seq<char>>) {
    (lines(r.passes@), lines(r.warnings@), lines(r.failures@))
}

/// A check: its name, whether it held, whether it is soft, and the detail.
pub type CheckSpec = (Seq<char>, bool, bool, Seq<char>);

/// The report after recording `checks` in order: a held check passes, a
/// failed soft check warns, any other fails.
pub open spec fn report_of(checks: Seq<CheckSpec>) -> (Seq<Seq<char>>, Seq<Seq<char>>, Seq<Seq<char>>)
    decreases checks.len(),
{
    if checks.len() == 0 {
        (Seq::empty(), Seq::empty(), Seq::empty())
    } else {
        let prev = report_of(checks.drop_last());
        let c = checks.last();
        let line = check_line(c.0, c.3);
        if c.1 {
            (prev.0.push(line), prev.1, prev.2)
        } else if c.2 {
            (prev.0, prev.1.push(line), prev.2)
        } else {
            (prev.0, prev.1, prev.2.push(line))
        }
    }
}

impl Report {
    /// An empty report.
    pub fn new() -> (r: Self)
        ensures
            report_view(&r) == report_of(Seq::empty()),
    {
        let r = Report { passes: Vec::new(), warnings: Vec::new(), failures: Vec::new() };
        assert(report_view(&r) =~~= report_of(Seq::empty()));
        r
    }

    /// Record a check. Soft checks never fail the run; they warn.
    pub fn check(&mut self, name: &str, ok: bool, soft: bool, detail: &str)
        ensures
            report_view(final(self)) == ({
                let prev = report_view(old(self));
                let line = check_line(name@, detail@);
                if ok {
                    (prev.0.push(line), prev.1, prev.2)
                } else if soft {
                    (prev.0, prev.1.push(line), prev.2)
                } else {
                    (prev.0, prev.1, prev.2.push(line))
                }
            }),
    {
        let mut line = String::from_str(name);
        line.append(" — got ");
        line.append(debug_quoted(detail).as_str());
        if ok {
            self.passes.push(line);
        } else if soft {
            self.warnings.push(line);
        } else {
            self.failures.push(line);
        }
        assert(report_view(self) =~~= ({
            let prev = report_view(old(self));
            let line = check_line(name@, detail@);
            if ok {
                (prev.0.push(line), prev.1, prev.2)
            } else if soft {
                (prev.0, prev.1.push(line), prev.2)
            } else {
                (prev.0, prev.1, prev.2.push(line))
            }
        }));
    }

    /// The run succeeds when no hard check failed.
    pub fn succeeded(&self) -> (r: bool)
        ensures
            r == (self.failures@.len() == 0),
    {
        self.failures.len() == 0
    }
}

/// The outcome recorded for scenario `i`, `MISSING` when there is none.
pub open spec fn outcome(rs: Seq<Option<Seq<char>>>, i: int) -> Seq<char> {
    match rs[i] {
        Some(s) => s,
        None => "MISSING"@,
    }
}

/// The self-test's checks over the scenarios' outcomes (in
/// `steps_spec` order). The default clipboard check is hard on macOS only.
pub open spec fn selftest_checks(rs: Seq<Option<Seq<char>>>, on_macos: bool) -> Seq<CheckSpec> {
    seq![
        ("allow-fetch: default CSP blocks fetch"@, outcome(rs, 0) == "blocked"@, false, outcome(rs, 0)),
        ("allow-fetch: flag permits fetch (no CSP block)"@, outcome(rs, 1) == "allowed"@, false, outcome(rs, 1)),
        ("allow-clipboard: default does not expose navigator.clipboard"@, outcome(rs, 2)
            == "clipboard:undefined|none"@, !on_macos, outcome(rs, 2)),
        ("allow-clipboard: opaque-origin in-memory HTML keeps clipboard unexposed"@, outcome(rs, 3)
            == "clipboard:undefined|none"@, true, outcome(rs, 3)),
        ("allow-storage: default does not persist data across runs"@, outcome(rs, 5) != "get:42"@,
            false, "set="@ + outcome(rs, 4) + " get="@ + outcome(rs, 5)),
        ("allow-storage: opaque-origin in-memory HTML keeps localStorage unavailable"@, (outcome(rs, 6).len()
            >= 7 && outcome(rs, 6).take(7) == "set:err"@) || outcome(rs, 7) != "get:42"@, true, "set="@
            + outcome(rs, 6) + " get="@ + outcome(rs, 7)),
    ]
}

fn outcome_of(results: &Vec<Option<String>>, i: usize) -> (r: String)
    requires
        i < results@.len(),
    ensures
        r@ == outcome(opt_strings(results@), i as int),
{
    match &results[i] {
        Some(s) => s.clone(),
        None => String::from_str("MISSING"),
    }
}

fn set_get_detail(set: &String, get: &String) -> (r: String)
    ensures
        r@ == "set="@ + set@ + " get="@ + get@,
{
    let mut d = String::from_str("set=");
    d.append(set.as_str());
    d.append(" get=");
    d.append(get.as_str());
    d
}

/// The report of a self-test run over its nine scenario outcomes.
pub fn evaluate(results: &Vec<Option<String>>, on_macos: bool) -> (r: Report)
    requires
        results@.len() == 9,
    ensures
        report_view(&r) == report_of(selftest_checks(opt_strings(results@), on_macos)),
{
    let ghost rs = opt_strings(results@);
    let ghost cs = selftest_checks(rs, on_macos);
    let o0 = outcome_of(results, 0);
    let o1 = outcome_of(results, 1);
    let o2 = outcome_of(results, 2);
    let o3 = outcome_of(results, 3);
    let o4 = outcome_of(results, 4);
    let o5 = outcome_of(results, 5);
    let o6 = outcome_of(results, 6);
    let o7 = outcome_of(results, 7);
    proof {
        reveal_strlit("set:err");
    }
    let mut report = Report::new();
    report.check("allow-fetch: default CSP blocks fetch", str_eq(o0.as_str(), "blocked"), false, o0.as_str());
    assert(cs.take(1).drop_last() =~= Seq::<CheckSpec>::empty());
    assert(report_view(&report) == report_of(cs.take(1)));
    report.check(
        "allow-fetch: flag permits fetch (no CSP block)",
        str_eq(o1.as_str(), "allowed"),
        false,
        o1.as_str(),
    );
    assert(cs.take(2).drop_last() =~= cs.take(1));
    assert(report_view(&report) == report_of(cs.take(2)));
    report.check(
        "allow-clipboard: default does not expose navigator.clipboard",
        str_eq(o2.as_str(), "clipboard:undefined|none"),
        !on_macos,
        o2.as_str(),
    );
    assert(cs.take(3).drop_last() =~= cs.take(2));
    assert(report_view(&report) == report_of(cs.take(3)));
    report.check(
        "allow-clipboard: opaque-origin in-memory HTML keeps clipboard unexposed",
        str_eq(o3.as_str(), "clipboard:undefined|none"),
        true,
        o3.as_str(),
    );
    assert(cs.take(4).drop_last() =~= cs.take(3));
    assert(report_view(&report) == report_of(cs.take(4)));
    let d45 = set_get_detail(&o4, &o5);
    report.check(
        "allow-storage: default does not persist data across runs",
        !str_eq(o5.as_str(), "get:42"),
        false,
        d45.as_str(),
    );
    assert(cs.take(5).drop_last() =~= cs.take(4));
    assert(report_view(&report) == report_of(cs.take(5)));
    let d67 = set_get_detail(&o6, &o7);
    let ok6 = starts_with_str(o6.as_str(), "set:err") || !str_eq(o7.as_str(), "get:42");
    report.check(
        "allow-storage: opaque-origin in-memory HTML keeps localStorage unavailable",
        ok6,
        true,
        d67.as_str(),
    );
    assert(cs.take(6).drop_last() =~= cs.take(5));
    assert(cs.take(6) =~= cs);
    report
}

} // verus!
