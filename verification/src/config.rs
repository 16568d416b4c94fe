//! The runtime configuration (`config.toml` in the config root) as plain
//! data, and the choice of the config root.
//!
//! Reading and parsing the file happens outside this library, and only when
//! the raw fast path is bypassed.

use vstd::prelude::*;

use crate::strmap::StrMap;

verus! {

/// Per-template settings (`[templates.<name>]`).
pub struct TemplateEntry {
    /// `[templates.<name>.params]`.
    pub params: StrMap<String>,
}

impl TemplateEntry {
    /// The parameter map is well-formed.
    pub open spec fn wf(&self) -> bool {
        self.params.wf()
    }

    /// No parameters.
    pub fn new() -> (e: Self)
        ensures
            e.wf(),
            e.params.as_map() == Map::<Seq<char>, String>::empty(),
    {
        TemplateEntry { params: StrMap::new() }
    }
}

/// `config.toml`.
pub struct Config {
    pub window_width: Option<u32>,
    pub window_height: Option<u32>,
    pub default_template: Option<String>,
    /// `[extension]`: file extension to template name.
    pub extension: StrMap<String>,
    /// `[templates.<name>]` tables.
    pub templates: StrMap<TemplateEntry>,
}

impl Config {
    /// The maps are well-formed, the per-template ones included.
    pub open spec fn wf(&self) -> bool {
        &&& self.extension.wf()
        &&& self.templates.wf()
        &&& forall|k: Seq<char>| #[trigger]
            self.templates.as_map().contains_key(k) ==> self.templates.as_map()[k].wf()
    }

    /// A configuration with nothing set.
    pub fn new() -> (c: Self)
        ensures
            c.wf(),
            c.window_width is None,
            c.window_height is None,
            c.default_template is None,
            c.extension.as_map() == Map::<Seq<char>, String>::empty(),
            c.templates.as_map() == Map::<Seq<char>, TemplateEntry>::empty(),
    {
        Config {
            window_width: None,
            window_height: None,
            default_template: None,
            extension: StrMap::new(),
            templates: StrMap::new(),
        }
    }
}

/// Which directory is the config root.
#[derive(Debug, Clone, Copy, PartialEq, Eq, Structural)]
pub enum ConfigRoot {
    /// `$XDG_CONFIG_HOME/tinyview`
    Xdg,
    /// `$HOME/.config/tinyview`
    DotConfig,
    /// `$HOME/.tinyview`
    Legacy,
}

/// The config root chosen from the environment and which candidate
/// directories exist: the XDG one when `XDG_CONFIG_HOME` is set, non-empty
/// and its directory exists; else `~/.config/tinyview` when `HOME` is set
/// and it exists; else the legacy `~/.tinyview` when `HOME` is set (whether
/// or not it exists); else none.
pub open spec fn chosen_root(
    xdg: Option<Seq<char>>,
    home_set: bool,
    xdg_dir_exists: bool,
    dot_config_exists: bool,
) -> Option<ConfigRoot> {
    if xdg matches Some(x) && x.len() > 0 && xdg_dir_exists {
        Some(ConfigRoot::Xdg)
    } else if home_set && dot_config_exists {
        Some(ConfigRoot::DotConfig)
    } else if home_set {
        Some(ConfigRoot::Legacy)
    } else {
        None
    }
}

/// Choose the config root (see [`chosen_root`]). An empty
/// `XDG_CONFIG_HOME` counts as unset.
pub fn config_root(
    xdg: Option<&str>,
    home_set: bool,
    xdg_dir_exists: bool,
    dot_config_exists: bool,
) -> (r: Option<ConfigRoot>)
    ensures
        r == chosen_root(
            match xdg {
                Some(x) => Some(x@),
                None => None,
            },
            home_set,
            xdg_dir_exists,
            dot_config_exists,
        ),
{
    let xdg_usable = match xdg {
        Some(x) => !x.is_empty(),
        None => false,
    };
    if xdg_usable && xdg_dir_exists {
        Some(ConfigRoot::Xdg)
    } else if home_set && dot_config_exists {
        Some(ConfigRoot::DotConfig)
    } else if home_set {
        Some(ConfigRoot::Legacy)
    } else {
        None
    }
}

/// The config root is the first candidate directory that exists:
/// `$XDG_CONFIG_HOME/tinyview` when `XDG_CONFIG_HOME` is set (non-empty)
/// and that directory exists, else `~/.config/tinyview` when it exists,
/// else the legacy `~/.tinyview` whenever `HOME` is set. A set
/// `XDG_CONFIG_HOME` whose `tinyview` directory is missing is skipped as if
/// it were unset.
pub proof fn law_first_existing_root(
    xdg: Option<Seq<char>>,
    home_set: bool,
    xdg_dir_exists: bool,
    dot_config_exists: bool,
)
    ensures
        chosen_root(xdg, home_set, false, dot_config_exists) == chosen_root(
            None,
            home_set,
            false,
            dot_config_exists,
        ),
        (xdg matches Some(x) && x.len() > 0 && xdg_dir_exists) ==> chosen_root(
            xdg,
            home_set,
            xdg_dir_exists,
            dot_config_exists,
        ) == Some(ConfigRoot::Xdg),
        home_set && dot_config_exists && !(xdg matches Some(x) && x.len() > 0 && xdg_dir_exists)
            ==> chosen_root(xdg, home_set, xdg_dir_exists, dot_config_exists) == Some(
            ConfigRoot::DotConfig,
        ),
        home_set && !dot_config_exists && !(xdg matches Some(x) && x.len() > 0 && xdg_dir_exists)
            ==> chosen_root(xdg, home_set, xdg_dir_exists, dot_config_exists) == Some(
            ConfigRoot::Legacy,
        ),
        chosen_root(xdg, home_set, xdg_dir_exists, dot_config_exists) is None <==> (!home_set && !(
        xdg matches Some(x) && x.len() > 0 && xdg_dir_exists)),
{
}

} // verus!
