use pake::geometry::{
    initial_placement, reconcile, state_to_persist, AppliedGeometry, ConfigDefaults,
    InitialPlacement, InitialPosition, LiveGeometry, MonitorRegion,
};
use pake::state::WindowState;

fn monitor() -> MonitorRegion {
    MonitorRegion { x: 0, y: 0, width: 1920, height: 1080 }
}

fn live_at(x: i32, y: i32) -> LiveGeometry {
    LiveGeometry {
        width: 800,
        height: 600,
        x,
        y,
        maximized: false,
        visible: true,
        decorated: true,
        fullscreen: false,
    }
}

fn cfg() -> ConfigDefaults {
    ConfigDefaults { width: 800, height: 600, fullscreen: false, resizable: true, transparent: false }
}

#[test]
fn contains_is_strict() {
    let m = MonitorRegion { x: 10, y: 20, width: 100, height: 50 };
    assert!(m.contains(11, 21));
    assert!(m.contains(109, 69));
    assert!(!m.contains(10, 21), "corner exactly on the left edge is outside");
    assert!(!m.contains(11, 20), "corner exactly on the top edge is outside");
    assert!(!m.contains(110, 21), "right edge is outside");
    assert!(!m.contains(11, 70), "bottom edge is outside");
}

#[test]
fn persist_keeps_inside_position_and_size() {
    let st = state_to_persist(&live_at(100, 50), &Some(monitor()));
    assert_eq!(st.width, 800);
    assert_eq!(st.height, 600);
    assert_eq!(st.x, 100);
    assert_eq!(st.y, 50);
    assert!(!st.maximized);
    assert!(!st.fullscreen);
    assert!(st.visible);
    assert!(st.decorated);
}

#[test]
fn persist_suppresses_everything_when_maximized() {
    let mut live = live_at(100, 50);
    live.maximized = true;
    let st = state_to_persist(&live, &Some(monitor()));
    assert_eq!(st.width, 0);
    assert_eq!(st.height, 0);
    assert_eq!(st.x, 0);
    assert_eq!(st.y, 0);
    assert!(st.maximized);
}

#[test]
fn persist_rejects_corner_one_pixel_off_monitor() {
    let m = MonitorRegion { x: 100, y: 200, width: 1920, height: 1080 };
    let st = state_to_persist(&live_at(99, 200), &Some(m));
    assert_eq!(st.x, 0);
    assert_eq!(st.y, 0);
    assert_eq!(st.width, 800, "size is still kept");
}

#[test]
fn persist_rejects_position_without_monitor() {
    let st = state_to_persist(&live_at(100, 50), &None);
    assert_eq!(st.x, 0);
    assert_eq!(st.y, 0);
}

#[test]
fn persist_drops_zero_size() {
    let mut live = live_at(100, 50);
    live.width = 0;
    let st = state_to_persist(&live, &Some(monitor()));
    assert_eq!(st.width, 0);
    assert_eq!(st.height, 0);
    assert_eq!(st.x, 100);
}

#[test]
fn bounds_idempotent_concrete() {
    let live = live_at(300, 400);
    let persisted = state_to_persist(&live, &Some(monitor()));
    assert_eq!((persisted.x, persisted.y), (300, 400));
    let placement = initial_placement(&Some(persisted));
    assert_eq!(placement.position, InitialPosition::Physical(300, 400));
    let again = state_to_persist(
        &LiveGeometry { x: persisted.x, y: persisted.y, ..live },
        &Some(monitor()),
    );
    assert_eq!((again.x, again.y), (300, 400));
}

#[test]
fn placement_without_state_is_default() {
    let p = initial_placement(&None);
    assert_eq!(
        p,
        InitialPlacement { maximized: false, position: InitialPosition::DefaultLogical }
    );
}

#[test]
fn placement_with_state_restores_position_and_maximized() {
    let st = WindowState { x: 7, y: 9, maximized: true, ..WindowState::default() };
    let p = initial_placement(&Some(st));
    assert_eq!(p, InitialPlacement { maximized: true, position: InitialPosition::Physical(7, 9) });
}

#[test]
fn reconcile_without_state_uses_config() {
    let g = reconcile(&None, &cfg(), true);
    assert_eq!(g, AppliedGeometry { fullscreen: false, width: 800, height: 600 });
}

#[test]
fn reconcile_restores_persisted_fullscreen_over_config() {
    let st = WindowState { fullscreen: true, width: 1024, height: 768, ..WindowState::default() };
    let g = reconcile(&Some(st), &cfg(), true);
    assert!(g.fullscreen);
    assert_eq!((g.width, g.height), (1024, 768));
}

#[test]
fn reconcile_falls_back_to_windowed_without_monitor() {
    let st = WindowState { fullscreen: true, width: 1024, height: 768, ..WindowState::default() };
    let g = reconcile(&Some(st), &cfg(), false);
    assert!(!g.fullscreen);
}

#[test]
fn reconcile_treats_zero_size_as_absent() {
    let st = WindowState::default();
    let g = reconcile(&Some(st), &cfg(), true);
    assert_eq!((g.width, g.height), (800, 600));
}

#[test]
fn maximized_close_restores_config_size_on_relaunch() {
    let mut live = live_at(100, 50);
    live.width = 1024;
    live.height = 768;
    live.maximized = true;
    let persisted = state_to_persist(&live, &Some(monitor()));
    let g = reconcile(&Some(persisted), &cfg(), true);
    assert_eq!((g.width, g.height), (800, 600));
}

#[test]
fn config_defaults() {
    let d = ConfigDefaults::default();
    assert_eq!(
        d,
        ConfigDefaults { width: 800, height: 600, fullscreen: false, resizable: true, transparent: false }
    );
}
