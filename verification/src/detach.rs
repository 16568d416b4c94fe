//! Detach-by-default: the parent re-spawns itself as a detached child that
//! reads the composed HTML from its stdin. This module decides the child's
//! command line and environment; spawning it happens outside this library.

use vstd::prelude::*;
use vstd::string::*;

verus! {

broadcast use vstd::string::group_string_axioms;

/// Environment variable that marks the detached child (value `1`).
pub const DETACHED_CHILD_ENV: &'static str = "TINYVIEW_DETACHED_CHILD";

/// Environment variable that tells the child it runs in raw mode.
pub const RAW_MODE_ENV: &'static str = "TINYVIEW_RAW_MODE";

/// What the detached child is started with.
pub struct SpawnOpts<'a> {
    /// The composed HTML, written to the child's stdin.
    pub html: &'a str,
    pub width: u32,
    pub height: u32,
    pub raw_mode: bool,
    pub allow_clipboard: bool,
    pub allow_storage: bool,
    pub frameless: bool,
    pub transparent: bool,
}

/// The decimal digit for `d < 10`.
pub open spec fn digit(d: nat) -> char {
    (('0' as u32) + d) as char
}

/// The decimal numeral of `n`, without leading zeros.
pub open spec fn decimal(n: nat) -> Seq<char>
    decreases n,
{
    if n < 10 {
        seq![digit(n)]
    } else {
        decimal(n / 10) + seq![digit(n % 10)]
    }
}

/// The one-character string of the decimal digit `d`.
fn digit_string(d: u32) -> (r: String)
    requires
        d < 10,
    ensures
        r@ == seq![digit(d as nat)],
{
    proof {
        reveal_strlit("0");
        reveal_strlit("1");
        reveal_strlit("2");
        reveal_strlit("3");
        reveal_strlit("4");
        reveal_strlit("5");
        reveal_strlit("6");
        reveal_strlit("7");
        reveal_strlit("8");
        reveal_strlit("9");
    }
    let r = if d == 0 {
        String::from_str("0")
    } else if d == 1 {
        String::from_str("1")
    } else if d == 2 {
        String::from_str("2")
    } else if d == 3 {
        String::from_str("3")
    } else if d == 4 {
        String::from_str("4")
    } else if d == 5 {
        String::from_str("5")
    } else if d == 6 {
        String::from_str("6")
    } else if d == 7 {
        String::from_str("7")
    } else if d == 8 {
        String::from_str("8")
    } else {
        String::from_str("9")
    };
    assert(r@ =~= seq![digit(d as nat)]);
    r
}

/// The decimal numeral of `n` (as integer `Display` writes it).
fn decimal_string(n: u32) -> (r: String)
    ensures
        r@ == decimal(n as nat),
    decreases n,
{
    if n < 10 {
        digit_string(n)
    } else {
        let mut s = decimal_string(n / 10);
        let d = digit_string(n % 10);
        s.append(d.as_str());
        s
    }
}

/// `flag` when `on`, else nothing.
pub open spec fn flag_if(on: bool, flag: Seq<char>) -> Seq<Seq<char>> {
    if on {
        seq![flag]
    } else {
        Seq::empty()
    }
}

/// The child's arguments.
pub open spec fn child_args_of(o: SpawnOpts) -> Seq<Seq<char>> {
    seq!["--width"@, decimal(o.width as nat), "--height"@, decimal(o.height as nat)]
        + flag_if(o.allow_clipboard, "--allow-clipboard"@)
        + flag_if(o.allow_storage, "--allow-storage"@)
        + flag_if(o.frameless, "--frameless"@)
        + flag_if(o.transparent, "--transparent"@)
}

/// The strings by their characters.
pub open spec fn strings_view(v: Seq<String>) -> Seq<Seq<char>> {
    v.map_values(|s: String| s@)
}

fn push_flag(args: &mut Vec<String>, on: bool, flag: &str)
    ensures
        strings_view(final(args)@) == strings_view(old(args)@) + flag_if(on, flag@),
{
    if on {
        args.push(String::from_str(flag));
        assert(strings_view(args@) =~= strings_view(old(args)@) + flag_if(on, flag@));
    } else {
        assert(strings_view(args@) =~= strings_view(old(args)@) + flag_if(on, flag@));
    }
}

/// The command-line arguments of the detached child.
pub fn child_args(opts: &SpawnOpts) -> (args: Vec<String>)
    ensures
        strings_view(args@) == child_args_of(*opts),
{
    let mut args: Vec<String> = Vec::new();
    args.push(String::from_str("--width"));
    args.push(decimal_string(opts.width));
    args.push(String::from_str("--height"));
    args.push(decimal_string(opts.height));
    assert(strings_view(args@) =~= seq![
        "--width"@,
        decimal(opts.width as nat),
        "--height"@,
        decimal(opts.height as nat),
    ]);
    push_flag(&mut args, opts.allow_clipboard, "--allow-clipboard");
    push_flag(&mut args, opts.allow_storage, "--allow-storage");
    push_flag(&mut args, opts.frameless, "--frameless");
    push_flag(&mut args, opts.transparent, "--transparent");
    args
}

/// The child's extra environment.
pub open spec fn child_env_of(raw_mode: bool) -> Seq<(Seq<char>, Seq<char>)> {
    seq![(DETACHED_CHILD_ENV@, "1"@)] + if raw_mode {
        seq![(RAW_MODE_ENV@, "1"@)]
    } else {
        Seq::empty()
    }
}

/// The environment variables set for the detached child.
pub fn child_env(opts: &SpawnOpts) -> (env: Vec<(String, String)>)
    ensures
        env@.map_values(|e: (String, String)| (e.0@, e.1@)) == child_env_of(opts.raw_mode),
{
    let mut env: Vec<(String, String)> = Vec::new();
    env.push((String::from_str(DETACHED_CHILD_ENV), String::from_str("1")));
    if opts.raw_mode {
        env.push((String::from_str(RAW_MODE_ENV), String::from_str("1")));
    }
    assert(env@.map_values(|e: (String, String)| (e.0@, e.1@)) =~= child_env_of(opts.raw_mode));
    env
}

} // verus!
