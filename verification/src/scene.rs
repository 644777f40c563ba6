//! Scene-wide settings handed to the traversal shader.

use vstd::prelude::*;

verus! {

/// How many instances and lights the scene holds.
#[derive(Clone, Copy, Debug, Default, PartialEq, Eq)]
pub struct SceneSettingsGPU {
    pub instance_count: u32,
    pub light_count: u32,
}

} // verus!
