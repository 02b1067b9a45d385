//! The user's configuration.

use vstd::prelude::*;

verus! {

/// What a user may configure. Reading the configuration file is left to the
/// caller.
#[derive(Debug, PartialEq, Eq)]
pub struct Config {
    /// The namespace of the images that are built from local definitions.
    pub tag_namespace: Option<String>,
    /// The directory below which the definitions lie.
    pub images_dir: Option<String>,
}

impl Default for Config {
    /// The configuration in which nothing is set.
    fn default() -> (config: Self)
        ensures
            config.tag_namespace is None,
            config.images_dir is None,
    {
        Config { tag_namespace: None, images_dir: None }
    }
}

} // verus!
