//! Where the source configuration lives: the files a load reads below the
//! configuration directory.

use vstd::prelude::*;

use crate::paths::{join, join_path};
use crate::text::{concat, owned};

verus! {

/// Reads the source configuration below one directory.
#[derive(Debug)]
pub struct ConfigLoader {
    pub config_dir: String,
}

/// The location file of `name`, relative to the configuration directory.
pub open spec fn location_file_of(name: Seq<char>) -> Seq<char> {
    "locations/"@ + name + ".toml"@
}

impl ConfigLoader {
    pub fn new(config_dir: &str) -> (r: Self)
        ensures
            r.config_dir@ == config_dir@,
    {
        ConfigLoader { config_dir: owned(config_dir) }
    }

    /// The location file a load reads: that of `location_override` when
    /// given, else that of the active location.
    pub fn location_file(location_override: Option<&str>, active_location: &str) -> (r: String)
        ensures
            r@ == location_file_of(
                match location_override {
                    Some(n) => n@,
                    None => active_location@,
                },
            ),
    {
        let name = match location_override {
            Some(n) => n,
            None => active_location,
        };
        let s = concat("locations/", name);
        concat(s.as_str(), ".toml")
    }

    /// The path of a file below the configuration directory.
    pub fn path_of(&self, relative: &str) -> (r: String)
        ensures
            r@ == join_path(self.config_dir@, relative@),
    {
        join(self.config_dir.as_str(), relative)
    }
}

} // verus!
