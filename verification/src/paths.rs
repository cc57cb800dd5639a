//! The files that the application uses.

use vstd::prelude::*;
use vstd::string::*;

use crate::backend::{join_path, joined_path};
use crate::text::opt_view;

verus! {

/// What the process environment says about places.
#[derive(Debug, PartialEq, Eq)]
pub struct Environment {
    pub home: Option<String>,
    pub plugin_config_dir: Option<String>,
    pub plugin_state_dir: Option<String>,
    pub xdg_config_home: Option<String>,
    pub xdg_state_home: Option<String>,
}

/// Files and user-owned inputs used by the command-line application.
#[derive(Debug, PartialEq, Eq)]
pub struct AppPaths {
    pub config_file: String,
    pub state_file: String,
    pub ssh_config_file: String,
}

/// No variable says where a directory is.
#[derive(Clone, Copy, Debug, PartialEq, Eq, Structural)]
pub enum PathsError {
    NoConfigDir,
    NoStateDir,
}

impl PathsError {
    /// What went wrong, for a reader.
    pub fn message(&self) -> (text: String)
        ensures
            text@ == match self {
                PathsError::NoConfigDir =>
                    "HOME is not set and neither HERDR_PLUGIN_CONFIG_DIR nor XDG_CONFIG_HOME is available"@,
                PathsError::NoStateDir =>
                    "HOME is not set and neither HERDR_PLUGIN_STATE_DIR nor XDG_STATE_HOME is available"@,
            },
    {
        match self {
            PathsError::NoConfigDir =>
                "HOME is not set and neither HERDR_PLUGIN_CONFIG_DIR nor XDG_CONFIG_HOME is available".to_owned(),
            PathsError::NoStateDir =>
                "HOME is not set and neither HERDR_PLUGIN_STATE_DIR nor XDG_STATE_HOME is available".to_owned(),
        }
    }
}

/// A directory: the plugin's own, the one below an XDG directory, or the one
/// below the home directory, in this order.
pub open spec fn directory_of(
    plugin: Option<Seq<char>>,
    xdg: Option<Seq<char>>,
    home: Option<Seq<char>>,
    below_home: Seq<char>,
) -> Option<Seq<char>> {
    match plugin {
        Some(path) => Some(path),
        None => match xdg {
            Some(path) => Some(joined_path(path, "herdr-tether"@)),
            None => match home {
                Some(path) => Some(joined_path(path, below_home)),
                None => None,
            },
        },
    }
}

/// The directory that the variables say.
fn directory(
    plugin: &Option<String>,
    xdg: &Option<String>,
    home: &Option<String>,
    below_home: &str,
) -> (path: Option<String>)
    ensures
        opt_view(path) == directory_of(
            opt_view(*plugin),
            opt_view(*xdg),
            opt_view(*home),
            below_home@,
        ),
{
    match plugin {
        Some(path) => Some(path.clone()),
        None => match xdg {
            Some(path) => Some(join_path(path.as_str(), "herdr-tether")),
            None => match home {
                Some(path) => Some(join_path(path.as_str(), below_home)),
                None => None,
            },
        },
    }
}

impl AppPaths {
    /// Resolve paths from the process environment.
    ///
    /// Herdr's per-plugin directories take precedence independently. Outside a
    /// plugin, the XDG variables are honored before their HOME-based defaults.
    pub fn from_env(environment: &Environment) -> (r: Result<AppPaths, PathsError>)
        ensures
            ({
                let config = directory_of(
                    opt_view(environment.plugin_config_dir),
                    opt_view(environment.xdg_config_home),
                    opt_view(environment.home),
                    ".config/herdr-tether"@,
                );
                let state = directory_of(
                    opt_view(environment.plugin_state_dir),
                    opt_view(environment.xdg_state_home),
                    opt_view(environment.home),
                    ".local/state/herdr-tether"@,
                );
                match r {
                    Ok(paths) => {
                        &&& config is Some
                        &&& state is Some
                        &&& paths.config_file@ == joined_path(config->0, "config.toml"@)
                        &&& paths.state_file@ == joined_path(state->0, "state.json"@)
                        &&& paths.ssh_config_file@ == match environment.home {
                            Some(home) => joined_path(home@, ".ssh/config"@),
                            None => ""@,
                        }
                    },
                    Err(PathsError::NoConfigDir) => config is None,
                    Err(PathsError::NoStateDir) => config is Some && state is None,
                }
            }),
    {
        let config = match directory(
            &environment.plugin_config_dir,
            &environment.xdg_config_home,
            &environment.home,
            ".config/herdr-tether",
        ) {
            Some(path) => path,
            None => {
                return Err(PathsError::NoConfigDir);
            },
        };
        let state = match directory(
            &environment.plugin_state_dir,
            &environment.xdg_state_home,
            &environment.home,
            ".local/state/herdr-tether",
        ) {
            Some(path) => path,
            None => {
                return Err(PathsError::NoStateDir);
            },
        };
        let ssh = match &environment.home {
            Some(home) => join_path(home.as_str(), ".ssh/config"),
            None => "".to_owned(),
        };
        Ok(
            AppPaths {
                config_file: join_path(config.as_str(), "config.toml"),
                state_file: join_path(state.as_str(), "state.json"),
                ssh_config_file: ssh,
            },
        )
    }
}

} // verus!
