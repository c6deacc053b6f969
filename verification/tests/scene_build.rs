use hayate_core::scene_build::{scene_update_plan, SceneUpdatePlan};

#[test]
fn a_scene_is_rebuilt_until_built_then_patched_or_chrome_refreshed() {
    assert_eq!(scene_update_plan(false, false, 0), SceneUpdatePlan::Rebuild);
    assert_eq!(scene_update_plan(true, true, 3), SceneUpdatePlan::Rebuild);
    assert_eq!(scene_update_plan(false, true, 0), SceneUpdatePlan::ChromeOnly);
    assert_eq!(scene_update_plan(false, true, 2), SceneUpdatePlan::Patch);
}
