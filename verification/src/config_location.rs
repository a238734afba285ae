//! Where the agent's configuration file is located.
//!
//! The configuration lives in one root directory — `/etc/tedge` unless a
//! custom root is chosen — and the main file is `tedge.toml` inside it.
//! Loading and storing the file is the executable layer's part; this
//! module only derives the paths.

use vstd::prelude::*;

verus! {

/// The root directory and main file of the agent's configuration.
#[derive(Debug, Clone, PartialEq, Eq)]
pub struct TEdgeConfigLocation {
    /// Root directory where `tedge.toml` and the other configuration
    /// files are located.
    pub tedge_config_root_path: String,
    /// Full path to the `tedge.toml` file.
    pub tedge_config_file_path: String,
}

impl TEdgeConfigLocation {
    /// The configuration under a custom root directory.
    pub fn from_custom_root(tedge_config_root_path: &str) -> (r: TEdgeConfigLocation)
        ensures
            r.tedge_config_root_path@ == tedge_config_root_path@,
            r.tedge_config_file_path@ == tedge_config_root_path@ + "/tedge.toml"@,
    {
        let mut file = tedge_config_root_path.to_owned();
        file.append("/tedge.toml");
        TEdgeConfigLocation {
            tedge_config_root_path: tedge_config_root_path.to_owned(),
            tedge_config_file_path: file,
        }
    }

    pub fn root_path(&self) -> (r: &str)
        ensures
            r@ == self.tedge_config_root_path@,
    {
        self.tedge_config_root_path.as_str()
    }

    pub fn file_path(&self) -> (r: &str)
        ensures
            r@ == self.tedge_config_file_path@,
    {
        self.tedge_config_file_path.as_str()
    }
}

/// The configuration directory: the directory named by the environment,
/// when one is named and non-empty, and the system default otherwise.
/// The caller reads the environment and hands the value in.
pub fn get_config_dir(env_value: &Option<String>) -> (r: String)
    ensures
        (match env_value {
            Some(dir) => {
                if dir@.len() > 0 {
                    r@ == dir@
                } else {
                    r@ == "/etc/tedge"@
                }
            },
            None => r@ == "/etc/tedge"@,
        }),
{
    match env_value {
        Some(dir) => {
            if !dir.as_str().is_empty() {
                dir.clone()
            } else {
                String::from_str("/etc/tedge")
            }
        },
        None => String::from_str("/etc/tedge"),
    }
}

impl Default for TEdgeConfigLocation {
    /// `tedge.toml` is located in `/etc/tedge`.
    fn default() -> (r: Self)
        ensures
            r.tedge_config_root_path@ == "/etc/tedge"@,
            r.tedge_config_file_path@ == "/etc/tedge/tedge.toml"@,
    {
        let r = Self::from_custom_root("/etc/tedge");
        proof {
            reveal_strlit("/etc/tedge");
            reveal_strlit("/tedge.toml");
            reveal_strlit("/etc/tedge/tedge.toml");
            assert("/etc/tedge"@ + "/tedge.toml"@ =~= "/etc/tedge/tedge.toml"@);
        }
        r
    }
}

} // verus!
