use pake::codec::{decode_state, encode_state, load_state};
use pake::control::{interpret_ipc, step, Action, IpcAction, LoopEvent, Mode};
use pake::geometry::{reconcile, ConfigDefaults, LiveGeometry, MonitorRegion};
use pake::relay::RelayEvent;
use pake::state::WindowState;

#[test]
fn ipc_drag() {
    assert_eq!(interpret_ipc("drag_window"), IpcAction::DragWindow);
}

#[test]
fn ipc_fullscreen_toggles_maximize() {
    assert_eq!(interpret_ipc("fullscreen"), IpcAction::ToggleMaximize);
}

#[test]
fn ipc_open_browser_extracts_uri() {
    assert_eq!(
        interpret_ipc("open_browser:https://example.com/page"),
        IpcAction::OpenBrowser("https://example.com/page".to_string())
    );
}

#[test]
fn ipc_open_browser_empty_uri() {
    assert_eq!(interpret_ipc("open_browser:"), IpcAction::OpenBrowser(String::new()));
}

#[test]
fn ipc_unrecognized_is_ignored() {
    assert_eq!(interpret_ipc("make_coffee"), IpcAction::Ignore);
    assert_eq!(interpret_ipc(""), IpcAction::Ignore);
    assert_eq!(interpret_ipc("open_browse"), IpcAction::Ignore);
}

#[test]
fn step_toggle_flips_live_maximized() {
    let (mode, act) = step(
        Mode::Running,
        LoopEvent::Ipc { request: "fullscreen".to_string(), maximized: true },
    );
    assert_eq!(mode, Mode::Running);
    assert_eq!(act, Action::SetMaximized { maximized: false });
}

#[test]
fn step_menu_close_minimizes() {
    let (mode, act) = step(Mode::Running, LoopEvent::MenuCloseWindow);
    assert_eq!(mode, Mode::Running);
    assert_eq!(act, Action::Minimize);
}

#[test]
fn step_download_complete_success_notifies() {
    let ev = RelayEvent::DownloadCompleted { path: Some("/tmp/x".to_string()), success: true };
    let (mode, act) = step(Mode::Running, LoopEvent::Relayed { event: ev });
    assert_eq!(mode, Mode::Running);
    assert_eq!(act, Action::NotifyDownloadSaved);
}

#[test]
fn step_download_complete_failure_is_quiet() {
    let ev = RelayEvent::DownloadCompleted { path: None, success: false };
    let (_, act) = step(Mode::Running, LoopEvent::Relayed { event: ev });
    assert_eq!(act, Action::Nothing);
}

#[test]
fn step_download_started_is_observational() {
    let ev = RelayEvent::DownloadStarted {
        uri: "u".to_string(),
        destination: "d".to_string(),
    };
    let (_, act) = step(Mode::Running, LoopEvent::Relayed { event: ev });
    assert_eq!(act, Action::Nothing);
}

#[test]
fn step_close_then_save_terminates() {
    let live = LiveGeometry {
        width: 800,
        height: 600,
        x: 100,
        y: 50,
        maximized: false,
        visible: true,
        decorated: true,
        fullscreen: false,
    };
    let monitor = Some(MonitorRegion { x: 0, y: 0, width: 1920, height: 1080 });
    let (mode, act) = step(Mode::Running, LoopEvent::CloseRequested { live, monitor });
    assert_eq!(mode, Mode::ClosingSave);
    match act {
        Action::PersistAndExit { state } => {
            assert_eq!(state.x, 100);
            assert_eq!(state.y, 50);
        },
        other => panic!("expected a persist-and-exit action, got {:?}", other),
    }
    let (mode, act) = step(mode, LoopEvent::SaveFinished { ok: true });
    assert_eq!(mode, Mode::Terminated);
    assert_eq!(act, Action::Nothing);
    let (mode, act) = step(mode, LoopEvent::MenuCloseWindow);
    assert_eq!(mode, Mode::Terminated);
    assert_eq!(act, Action::Nothing);
}

#[test]
fn first_launch_scenario() {
    // No state file: the reconciler applies the config defaults.
    let cfg = ConfigDefaults { width: 800, height: 600, fullscreen: false, resizable: true, transparent: false };
    let loaded = load_state(&None).unwrap();
    assert!(loaded.is_none());
    let g = reconcile(&loaded, &cfg, true);
    assert_eq!((g.width, g.height, g.fullscreen), (800, 600, false));

    // On close, not maximized, corner at (100, 50) inside the monitor: the
    // written record holds exactly the live geometry.
    let live = LiveGeometry {
        width: g.width,
        height: g.height,
        x: 100,
        y: 50,
        maximized: false,
        visible: true,
        decorated: true,
        fullscreen: false,
    };
    let monitor = Some(MonitorRegion { x: 0, y: 0, width: 1920, height: 1080 });
    let (_, act) = step(Mode::Running, LoopEvent::CloseRequested { live, monitor });
    let state = match act {
        Action::PersistAndExit { state } => state,
        other => panic!("expected a persist-and-exit action, got {:?}", other),
    };
    assert_eq!(
        state,
        WindowState {
            width: 800,
            height: 600,
            x: 100,
            y: 50,
            maximized: false,
            visible: true,
            decorated: true,
            fullscreen: false,
        }
    );
    let bytes = encode_state(&state);
    assert_eq!(decode_state(&bytes).unwrap(), state);
}

#[test]
fn relaunch_with_fullscreen_state_scenario() {
    // A persisted fullscreen flag wins over the config default when the
    // current monitor is known.
    let st = WindowState { fullscreen: true, width: 1024, height: 768, ..WindowState::default() };
    let loaded = load_state(&Some(encode_state(&st))).unwrap();
    assert_eq!(loaded, Some(st));
    let cfg = ConfigDefaults { width: 800, height: 600, fullscreen: false, resizable: true, transparent: false };
    let g = reconcile(&loaded, &cfg, true);
    assert!(g.fullscreen);
}
