//! The axes of scroll bars, and how a frame's scene is brought up to date.
use vstd::prelude::*;

verus! {

/// The axis a scroll bar's thumb slides along.
#[derive(Clone, Copy, Debug, PartialEq, Eq, Structural)]
pub enum ScrollAxis {
    Vertical,
    Horizontal,
}

/// How a frame brings the retained scene up to date.
#[derive(Clone, Copy, Debug, PartialEq, Eq, Structural)]
pub enum SceneUpdatePlan {
    /// Lower the whole tree into a fresh scene (the overlays are emitted anew).
    Rebuild,
    /// No element needs re-lowering; only the selection chrome overlays are refreshed,
    /// since the selection may have moved or cleared.
    ChromeOnly,
    /// Re-lower the minimal patch roots of the dirty elements, then refresh the chrome.
    Patch,
}

/// A full rebuild is asked for, or nothing was built yet: rebuild; otherwise with no
/// dirty element only the chrome is refreshed, and with some the dirty subtrees are
/// patched.
pub open spec fn scene_update_plan_spec(full_rebuild: bool, built: bool, dirty_elements: nat) -> SceneUpdatePlan {
    if full_rebuild || !built {
        SceneUpdatePlan::Rebuild
    } else if dirty_elements == 0 {
        SceneUpdatePlan::ChromeOnly
    } else {
        SceneUpdatePlan::Patch
    }
}

/// How to bring the scene up to date: see [`scene_update_plan_spec`].
pub fn scene_update_plan(full_rebuild: bool, built: bool, dirty_elements: usize) -> (r: SceneUpdatePlan)
    ensures
        r == scene_update_plan_spec(full_rebuild, built, dirty_elements as nat),
{
    if full_rebuild || !built {
        SceneUpdatePlan::Rebuild
    } else if dirty_elements == 0 {
        SceneUpdatePlan::ChromeOnly
    } else {
        SceneUpdatePlan::Patch
    }
}

} // verus!
