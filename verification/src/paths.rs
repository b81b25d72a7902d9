//! Where configuration is read from and generated artifacts are written.

use vstd::prelude::*;

use crate::text::{chars_of, concat, owned};

verus! {

/// The configuration, generated, state and cache directories.
#[derive(Debug)]
pub struct NetweftPaths {
    pub config_dir: String,
    pub generated_dir: String,
    pub state_dir: String,
    pub cache_dir: String,
}

/// The environment variables that path resolution reads, each as it was
/// found (`None` when unset).
#[derive(Debug)]
pub struct PathEnvironment {
    pub home: Option<String>,
    pub netweft_config_dir: Option<String>,
    pub xdg_config_home: Option<String>,
    pub xdg_data_home: Option<String>,
    pub xdg_state_home: Option<String>,
    pub xdg_cache_home: Option<String>,
}

/// Why the default paths could not be resolved.
#[derive(Debug, Clone, Copy, PartialEq, Eq, Structural)]
pub enum PathError {
    HomeUnset,
    HomeEmpty,
}

/// `b` joined onto `a` as a Unix path: an absolute `b` replaces `a`;
/// otherwise a `/` separates them unless `a` is empty or already ends in one.
pub open spec fn join_path(a: Seq<char>, b: Seq<char>) -> Seq<char> {
    if b.len() > 0 && b[0] == '/' {
        b
    } else if a.len() == 0 {
        b
    } else if a.last() == '/' {
        a + b
    } else {
        a + seq!['/'] + b
    }
}

/// Joins a relative or absolute path onto a directory.
pub fn join(a: &str, b: &str) -> (r: String)
    ensures
        r@ == join_path(a@, b@),
{
    let ac = chars_of(a);
    let bc = chars_of(b);
    if bc.len() > 0 && bc[0] == '/' {
        owned(b)
    } else if ac.len() == 0 {
        owned(b)
    } else if ac[ac.len() - 1] == '/' {
        concat(a, b)
    } else {
        let mut s = owned(a);
        crate::text::push_char(&mut s, '/');
        let r = concat(s.as_str(), b);
        assert(r@ =~= a@ + seq!['/'] + b@);
        r
    }
}

pub open spec fn or_else(o: Option<String>, d: Seq<char>) -> Seq<char> {
    match o {
        Some(s) => s@,
        None => d,
    }
}

impl NetweftPaths {
    /// Resolves the directories: the configuration directory from the
    /// command line, else `NETWEFT_CONFIG_DIR`, else `$XDG_CONFIG_HOME/netweft`,
    /// else `~/.config/netweft`; the others under the XDG data, state and
    /// cache homes, or their defaults under `HOME`. `HOME` must be set and
    /// non-empty.
    pub fn resolve(cli_config_dir: Option<&str>, env: &PathEnvironment) -> (r: Result<NetweftPaths, PathError>)
        ensures
            env.home is None ==> r == Err::<NetweftPaths, PathError>(PathError::HomeUnset),
            env.home matches Some(h) && h@.len() == 0 ==> r == Err::<NetweftPaths, PathError>(PathError::HomeEmpty),
            env.home matches Some(h) ==> (h@.len() > 0 ==> (r matches Ok(p) && {
                let home = h@;
                &&& p.config_dir@ == match cli_config_dir {
                    Some(c) => c@,
                    None => match env.netweft_config_dir {
                        Some(d) => d@,
                        None => match env.xdg_config_home {
                            Some(x) => join_path(x@, "netweft"@),
                            None => join_path(home, ".config/netweft"@),
                        },
                    },
                }
                &&& p.generated_dir@ == join_path(or_else(env.xdg_data_home, join_path(home, ".local/share"@)), "netweft/generated"@)
                &&& p.state_dir@ == join_path(or_else(env.xdg_state_home, join_path(home, ".local/state"@)), "netweft"@)
                &&& p.cache_dir@ == join_path(or_else(env.xdg_cache_home, join_path(home, ".cache"@)), "netweft"@)
            })),
    {
        let home = match &env.home {
            None => {
                return Err(PathError::HomeUnset);
            },
            Some(h) => h.as_str(),
        };
        if chars_of(home).len() == 0 {
            return Err(PathError::HomeEmpty);
        }
        let config_dir = match cli_config_dir {
            Some(c) => owned(c),
            None => match &env.netweft_config_dir {
                Some(d) => owned(d.as_str()),
                None => match &env.xdg_config_home {
                    Some(x) => join(x.as_str(), "netweft"),
                    None => join(home, ".config/netweft"),
                },
            },
        };
        let data = match &env.xdg_data_home {
            Some(x) => owned(x.as_str()),
            None => join(home, ".local/share"),
        };
        let state = match &env.xdg_state_home {
            Some(x) => owned(x.as_str()),
            None => join(home, ".local/state"),
        };
        let cache = match &env.xdg_cache_home {
            Some(x) => owned(x.as_str()),
            None => join(home, ".cache"),
        };
        Ok(NetweftPaths {
            config_dir,
            generated_dir: join(data.as_str(), "netweft/generated"),
            state_dir: join(state.as_str(), "netweft"),
            cache_dir: join(cache.as_str(), "netweft"),
        })
    }

    /// The directories, one per line, as `netweft paths` shows them.
    pub fn display_text(&self) -> (r: String)
        ensures
            r@ == "Config:    "@ + self.config_dir@ + "\nGenerated: "@ + self.generated_dir@ + "\nState:     "@ + self.state_dir@ + "\nCache:     "@ + self.cache_dir@,
    {
        let s = concat("Config:    ", self.config_dir.as_str());
        let s = concat(s.as_str(), "\nGenerated: ");
        let s = concat(s.as_str(), self.generated_dir.as_str());
        let s = concat(s.as_str(), "\nState:     ");
        let s = concat(s.as_str(), self.state_dir.as_str());
        let s = concat(s.as_str(), "\nCache:     ");
        concat(s.as_str(), self.cache_dir.as_str())
    }
}

} // verus!
