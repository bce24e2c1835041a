//! Configuration: its typed model, where it is looked for, and how changes
//! to its files are recognised.
pub mod schema;
pub mod watcher;

pub use schema::{
    AnchorPoint, GlobalSettings, LayerType, NovaConfig, PositionConfig, ScreenConfig,
    WidgetDefaults, WidgetInstance,
};
pub use watcher::{ChangeEvent, ChangeKind, ReloadDebouncer};

use vstd::prelude::*;
use crate::error::NovaError;
use crate::paths::{join, join_path, parent_of, path_parent};
use crate::text::{concat, concat3, views};

verus! {

/// A configuration and the file it was read from.
#[derive(Debug)]
pub struct ConfigLoader {
    /// Resolved path to the loaded config file
    pub path: String,
    /// The parsed config
    pub config: NovaConfig,
}

/// Where the configuration is looked for, in order: the user's
/// `novashell/config.yaml` (when the user config directory is known), then
/// `/etc/novashell/config.yaml`.
pub open spec fn config_search_paths(user_config_dir: Option<Seq<char>>) -> Seq<Seq<char>> {
    match user_config_dir {
        Some(d) => seq![join(join(d, "novashell"@), "config.yaml"@), "/etc/novashell/config.yaml"@],
        None => seq!["/etc/novashell/config.yaml"@],
    }
}

/// The directory a config file lives in: its parent, or `.` for a path without one.
pub open spec fn dir_of(path: Seq<char>) -> Seq<char> {
    match path_parent(path) {
        Some(d) => d,
        None => "."@,
    }
}

impl ConfigLoader {
    /// The paths searched for the default configuration, in order.
    pub fn default_config_paths(user_config_dir: Option<&str>) -> (r: Vec<String>)
        ensures
            views(r@) == config_search_paths(crate::ipc::opt_view(user_config_dir)),
    {
        let mut r: Vec<String> = Vec::new();
        match user_config_dir {
            Some(d) => {
                let a = join_path(d, "novashell");
                r.push(join_path(a.as_str(), "config.yaml"));
            },
            None => {},
        }
        r.push("/etc/novashell/config.yaml".to_owned());
        proof {
            match user_config_dir {
                Some(d) => assert(views(r@) =~= config_search_paths(crate::ipc::opt_view(user_config_dir))),
                None => assert(views(r@) =~= config_search_paths(crate::ipc::opt_view(user_config_dir))),
            }
        }
        r
    }

    /// The loader used when no config file exists: built-in defaults, kept
    /// under the first search path.
    pub fn with_defaults(candidates: &Vec<String>) -> (l: Self)
        ensures
            candidates@.len() > 0 ==> l.path@ == candidates@[0]@,
            candidates@.len() == 0 ==> l.path@ == "/tmp/novashell-default.yaml"@,
            crate::config::schema::is_default_config(l.config),
    {
        let path = if candidates.len() > 0 {
            candidates[0].clone()
        } else {
            "/tmp/novashell-default.yaml".to_owned()
        };
        ConfigLoader { path, config: NovaConfig::default() }
    }

    /// The configuration.
    pub fn config(&self) -> (c: &NovaConfig)
        ensures
            *c == self.config,
    {
        &self.config
    }

    /// The directory of the config file (plugins, widgets and styles live there).
    pub fn config_dir(&self) -> (d: String)
        ensures
            d@ == dir_of(self.path@),
    {
        match parent_of(self.path.as_str()) {
            Some(d) => d,
            None => ".".to_owned(),
        }
    }
}

/// The first of the candidates that exists, by position.
pub fn first_existing(exists: &Vec<bool>) -> (r: Option<usize>)
    ensures
        match r {
            Some(i) => i < exists@.len() && exists@[i as int] && forall|j: int| 0 <= j < i ==> !exists@[j],
            None => forall|j: int| 0 <= j < exists@.len() ==> !exists@[j],
        },
{
    let mut i: usize = 0;
    while i < exists.len()
        invariant
            i <= exists@.len(),
            forall|j: int| 0 <= j < i ==> !exists@[j],
        decreases exists.len() - i,
    {
        if exists[i] {
            return Some(i);
        }
        i = i + 1;
    }
    None
}

/// The error for a config file that cannot be read.
pub fn config_read_error(path: &str, detail: &str) -> (e: NovaError)
    ensures
        e matches NovaError::Config(d) && d@ == "Cannot read "@ + path@ + ": "@ + detail@,
{
    let mut m = concat3("Cannot read ", path, ": ");
    crate::text::push_str(&mut m, detail);
    NovaError::Config(m)
}

/// The error for a config file that is not valid YAML for the configuration.
pub fn config_parse_error(path: &str, detail: &str) -> (e: NovaError)
    ensures
        e matches NovaError::Config(d) && d@ == "YAML parse error in "@ + path@ + ": "@ + detail@,
{
    let mut m = concat3("YAML parse error in ", path, ": ");
    crate::text::push_str(&mut m, detail);
    NovaError::Config(m)
}

} // verus!
