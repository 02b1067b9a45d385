//! Volumes that the projects of an environment share.

use vstd::prelude::*;
use vstd::string::*;

verus! {

/// The mathematical value of a [`SharedVolume`].
pub struct SharedVolumeView {
    pub name: Seq<char>,
    pub at: Seq<char>,
}

/// A volume that is mounted into every container of an environment.
#[derive(Debug, PartialEq, Eq)]
pub struct SharedVolume {
    name: String,
    at: String,
}

impl View for SharedVolume {
    type V = SharedVolumeView;

    closed spec fn view(&self) -> SharedVolumeView {
        SharedVolumeView { name: self.name@, at: self.at@ }
    }
}

impl SharedVolume {
    /// The volume `name`, mounted at `at`.
    pub fn new(name: &str, at: &str) -> (volume: SharedVolume)
        ensures
            volume@ == (SharedVolumeView { name: name@, at: at@ }),
    {
        SharedVolume { name: String::from_str(name), at: String::from_str(at) }
    }

    /// The name of the volume.
    pub fn name(&self) -> (name: &str)
        ensures
            name@ == self@.name,
    {
        self.name.as_str()
    }

    /// The path at which the volume is mounted.
    pub fn at(&self) -> (at: &str)
        ensures
            at@ == self@.at,
    {
        self.at.as_str()
    }
}

} // verus!
