//! `--watch` mode decisions: which file-system events concern the watched
//! source, and the re-composition of the HTML from the re-read source with
//! the same template and parameters. The watcher thread, the debouncing and
//! the file reads happen outside this library.

use vstd::prelude::*;
use vstd::string::*;

use crate::strmap::StrMap;
use crate::template::{
    dir_part, in_dir, path_component, inject_literal, render, BuiltinAssets, InjectData, RenderError, TemplateRef, TemplateSpec,
    builtin_html, rendered_html,
};

verus! {

broadcast use vstd::string::group_string_axioms;

/// Trailing debounce window in milliseconds.
pub const DEBOUNCE_MS: u64 = 100;

/// User event passed from the watcher to the event loop: the fully composed
/// HTML (the event loop applies the CSP).
#[derive(Debug, Clone)]
pub enum UserEvent {
    Reload(String),
}

/// What is needed to re-render the source on each change.
pub struct WatchContext {
    pub source: String,
    pub template: TemplateRef,
    pub params: StrMap<String>,
    pub raw_mode: bool,
}

/// `a` and `b` share their directory part and end in two different
/// ordinary components, so they name different paths on every platform.
pub open spec fn last_components_differ(a: Seq<char>, b: Seq<char>) -> bool {
    exists|d: Seq<char>, x: Seq<char>, y: Seq<char>|
        #![trigger in_dir(d, x), in_dir(d, y)]
        dir_part(d) && path_component(x) && path_component(y) && x != y && a == in_dir(d, x) && b
            == in_dir(d, y)
}

/// The event path and, where there is one, its canonical form are both
/// known to name another path than `target`.
pub open spec fn known_distinct(event_path: Seq<char>, canonical: Option<Seq<char>>, target: Seq<char>) -> bool {
    last_components_differ(event_path, target) && match canonical {
        Some(c) => last_components_differ(c, target),
        None => true,
    }
}

/// `Path == Path`, which compares the two paths' components
/// (`Path::components`). Stated: equal strings are equal paths, and two
/// paths with the same directory part and different ordinary final
/// components are different. How other spellings compare depends on the
/// platform's path rules.
#[verifier::external_body]
fn paths_equal(a: &str, b: &str) -> (r: bool)
    ensures
        a@ == b@ ==> r,
        last_components_differ(a@, b@) ==> !r,
{
    std::path::Path::new(a) == std::path::Path::new(b)
}

/// An optional string by its characters.
pub open spec fn opt_chars(o: Option<&str>) -> Option<Seq<char>> {
    match o {
        Some(s) => Some(s@),
        None => None,
    }
}

/// Whether an event path names the watched target: directly, or through
/// its canonical form (`canonical_event`, when the caller could
/// canonicalize it).
pub fn paths_match(event_path: &str, target: &str, canonical_event: Option<&str>) -> (r: bool)
    ensures
        event_path@ == target@ ==> r,
        (canonical_event matches Some(c) && c@ == target@) ==> r,
        canonical_event is None && !r ==> event_path@ != target@,
        known_distinct(event_path@, opt_chars(canonical_event), target@) ==> !r,
{
    if paths_equal(event_path, target) {
        return true;
    }
    match canonical_event {
        Some(c) => paths_equal(c, target),
        None => false,
    }
}

/// Event `i` is known not to name the target.
pub open spec fn distinct_at(events: Seq<String>, canonical: Seq<Option<String>>, target: Seq<char>, i: int) -> bool {
    known_distinct(
        events[i]@,
        match canonical[i] {
            Some(c) => Some(c@),
            None => None,
        },
        target,
    )
}

/// Whether any of the events (their paths, with their canonical forms at
/// the same indices) names the target.
pub fn touches_target(event_paths: &Vec<String>, canonical: &Vec<Option<String>>, target: &str) -> (r: bool)
    requires
        event_paths@.len() == canonical@.len(),
    ensures
        (exists|i: int|
            0 <= i < event_paths@.len() && (#[trigger] event_paths@[i])@ == target@) ==> r,
        (exists|i: int|
            0 <= i < canonical@.len() && (#[trigger] canonical@[i]) is Some && canonical@[i]->0@
                == target@) ==> r,
        (forall|i: int|
            0 <= i < event_paths@.len() ==> #[trigger] distinct_at(event_paths@, canonical@, target@, i))
            ==> !r,
{
    let n = event_paths.len();
    for i in 0..n
        invariant
            n == event_paths@.len(),
            n == canonical@.len(),
            forall|j: int| 0 <= j < i ==> (#[trigger] event_paths@[j])@ != target@,
            forall|j: int|
                0 <= j < i ==> !((#[trigger] canonical@[j]) is Some && canonical@[j]->0@ == target@),
    {
        let c = match &canonical[i] {
            Some(c) => Some(c.as_str()),
            None => None,
        };
        if paths_match(event_paths[i].as_str(), target, c) {
            assert(!distinct_at(event_paths@, canonical@, target@, i as int));
            return true;
        }
    }
    false
}

/// Re-compose the HTML from the re-read source `input`: in raw mode the
/// input itself, otherwise the same template rendered again with the source
/// path injected.
pub fn recompose_html(
    ctx: &WatchContext,
    input: &str,
    assets: &BuiltinAssets,
    user_source: Result<&str, RenderError>,
) -> (r: Result<String, RenderError>)
    requires
        ctx.params.wf(),
        !ctx.raw_mode ==> !(ctx.template@ is Raw),
    ensures
        ctx.raw_mode ==> (r matches Ok(h) && h@ == input@),
        !ctx.raw_mode ==> ({
            let lit = inject_literal(input@, ctx.params.pairs(), "tinyview"@, Some(ctx.source@));
            match ctx.template@ {
                TemplateSpec::User(_) => match user_source {
                    Ok(s) => r matches Ok(h) && h@ == rendered_html(s@, lit),
                    Err(e) => r == Err::<String, RenderError>(e),
                },
                _ => r matches Ok(h) && h@ == rendered_html(builtin_html(ctx.template@, *assets), lit),
            }
        }),
{
    if ctx.raw_mode {
        return Ok(String::from_str(input));
    }
    let data = InjectData {
        input,
        params: &ctx.params,
        title: "tinyview",
        path: Some(ctx.source.as_str()),
    };
    match render(&ctx.template, &data, assets, user_source) {
        Ok(out) => Ok(out.html),
        Err(e) => Err(e),
    }
}

} // verus!
