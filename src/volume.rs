//! Declared container volumes: those to create and those to remove.
use vstd::prelude::*;
use std::collections::HashMap;

verus! {

/// A volume that should exist.
#[derive(Debug, PartialEq, Eq, Clone, Default)]
pub struct VolumeCreated {
    pub name: String,
    pub driver: String,
    pub options: HashMap<String, String>,
    pub labels: HashMap<String, String>,
}

/// A volume that should be gone; `force` removes it even while in use.
#[derive(Debug, PartialEq, Eq, Clone, Default)]
pub struct VolumeRemoved {
    pub name: String,
    pub force: Option<bool>,
}

/// The volumes one declaration asks for.
#[derive(Debug, PartialEq, Eq, Clone, Default)]
pub struct VolumeResources {
    pub created: Vec<VolumeCreated>,
    pub removed: Vec<VolumeRemoved>,
}

impl VolumeResources {
    /// Appends this declaration's volumes to those of `new`.
    pub fn merge(self, new: &mut VolumeResources)
        ensures
            final(new).created@ == old(new).created@ + self.created@,
            final(new).removed@ == old(new).removed@ + self.removed@,
    {
        let mut created = self.created;
        let mut removed = self.removed;
        new.created.append(&mut created);
        new.removed.append(&mut removed);
    }
}

} // verus!
