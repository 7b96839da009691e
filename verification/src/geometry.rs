use vstd::prelude::*;

use crate::state::WindowState;

verus! {

/// A monitor's rectangle in physical pixels: origin and size.
/// Queried live from the platform, never persisted; used only for
/// bounds-checking when a window position is saved or restored.
#[derive(Clone, Copy, PartialEq, Eq, Structural, Debug)]
pub struct MonitorRegion {
    pub x: i32,
    pub y: i32,
    pub width: u32,
    pub height: u32,
}

impl MonitorRegion {
    /// A point lies inside the region only strictly: a corner exactly on a
    /// monitor edge counts as outside, so a window there falls back to the
    /// default placement rather than being restored off screen.
    pub open spec fn contains_spec(self, px: int, py: int) -> bool {
        self.x < px && px < self.x + self.width && self.y < py && py < self.y + self.height
    }

    pub fn contains(&self, px: i32, py: i32) -> (r: bool)
        ensures
            r == self.contains_spec(px as int, py as int),
    {
        (self.x as i64) < (px as i64) && (px as i64) < (self.x as i64) + (self.width as i64) && (
        self.y as i64) < (py as i64) && (py as i64) < (self.y as i64) + (self.height as i64)
    }
}

/// What the control loop reads off the live window when a close is requested:
/// the logical inner size, the physical corner position, and the mode flags.
#[derive(Clone, Copy, PartialEq, Eq, Structural, Debug)]
pub struct LiveGeometry {
    pub width: u32,
    pub height: u32,
    pub x: i32,
    pub y: i32,
    pub maximized: bool,
    pub visible: bool,
    pub decorated: bool,
    pub fullscreen: bool,
}

/// The bounds policy at save time. The size is kept only when both sides are
/// strictly positive and the window is not maximized; the position only when
/// the current monitor strictly contains the corner and the window is not
/// maximized. Everything else stays at the zero defaults, which the
/// reconciler reads as "use the config defaults" on the next launch.
pub open spec fn persist_spec(live: LiveGeometry, monitor: Option<MonitorRegion>) -> WindowState {
    WindowState {
        width: if live.width > 0 && live.height > 0 && !live.maximized {
            live.width
        } else {
            0
        },
        height: if live.width > 0 && live.height > 0 && !live.maximized {
            live.height
        } else {
            0
        },
        x: if (monitor matches Some(m) && m.contains_spec(live.x as int, live.y as int))
            && !live.maximized {
            live.x
        } else {
            0
        },
        y: if (monitor matches Some(m) && m.contains_spec(live.x as int, live.y as int))
            && !live.maximized {
            live.y
        } else {
            0
        },
        maximized: live.maximized,
        visible: live.visible,
        decorated: live.decorated,
        fullscreen: live.fullscreen,
    }
}

/// Apply the bounds policy to a live snapshot: the record that `save` is then
/// given to write.
pub fn state_to_persist(live: &LiveGeometry, monitor: &Option<MonitorRegion>) -> (st: WindowState)
    ensures
        st == persist_spec(*live, *monitor),
{
    let keep_size = live.width > 0 && live.height > 0 && !live.maximized;
    let keep_pos = match monitor {
        Some(m) => m.contains(live.x, live.y) && !live.maximized,
        None => false,
    };
    WindowState {
        width: if keep_size {
            live.width
        } else {
            0
        },
        height: if keep_size {
            live.height
        } else {
            0
        },
        x: if keep_pos {
            live.x
        } else {
            0
        },
        y: if keep_pos {
            live.y
        } else {
            0
        },
        maximized: live.maximized,
        visible: live.visible,
        decorated: live.decorated,
        fullscreen: live.fullscreen,
    }
}

/// The geometry defaults read from the application config, used whenever no
/// usable persisted state exists.
#[derive(Clone, Copy, PartialEq, Eq, Structural, Debug)]
pub struct ConfigDefaults {
    pub width: u32,
    pub height: u32,
    pub fullscreen: bool,
    pub resizable: bool,
    pub transparent: bool,
}

impl Default for ConfigDefaults {
    /// The defaults a window gets when the config names none.
    fn default() -> (d: ConfigDefaults)
        ensures
            d == (ConfigDefaults {
                width: 800,
                height: 600,
                fullscreen: false,
                resizable: true,
                transparent: false,
            }),
    {
        ConfigDefaults { width: 800, height: 600, fullscreen: false, resizable: true, transparent: false }
    }
}

/// Where the window is asked to appear before it exists.
#[derive(Clone, Copy, PartialEq, Eq, Structural, Debug)]
pub enum InitialPosition {
    /// The persisted physical corner.
    Physical(i32, i32),
    /// No state: let the platform place the window at the logical origin.
    DefaultLogical,
}

/// What is handed to the window constructor: initial maximization and
/// position, both taken from the persisted state when there is one.
#[derive(Clone, Copy, PartialEq, Eq, Structural, Debug)]
pub struct InitialPlacement {
    pub maximized: bool,
    pub position: InitialPosition,
}

pub open spec fn placement_spec(state: Option<WindowState>) -> InitialPlacement {
    match state {
        Some(st) => InitialPlacement {
            maximized: st.maximized,
            position: InitialPosition::Physical(st.x, st.y),
        },
        None => InitialPlacement { maximized: false, position: InitialPosition::DefaultLogical },
    }
}

pub fn initial_placement(state: &Option<WindowState>) -> (p: InitialPlacement)
    ensures
        p == placement_spec(*state),
{
    match state {
        Some(st) => InitialPlacement {
            maximized: st.maximized,
            position: InitialPosition::Physical(st.x, st.y),
        },
        None => InitialPlacement { maximized: false, position: InitialPosition::DefaultLogical },
    }
}

/// The mode and size applied to the window right after construction.
#[derive(Clone, Copy, PartialEq, Eq, Structural, Debug)]
pub struct AppliedGeometry {
    pub fullscreen: bool,
    pub width: u32,
    pub height: u32,
}

/// The reconciliation rule. Fullscreen follows the persisted flag when state
/// exists, else the config default, and is entered only when the current
/// monitor could be determined (else fall back to windowed). The size is the
/// persisted one when it is usable (both sides strictly positive), else the
/// config default; a non-positive persisted size can only come from a
/// hand-edited file and is treated as absent.
pub open spec fn reconcile_spec(
    state: Option<WindowState>,
    cfg: ConfigDefaults,
    monitor_known: bool,
) -> AppliedGeometry {
    match state {
        Some(st) => AppliedGeometry {
            fullscreen: st.fullscreen && monitor_known,
            width: if st.width > 0 && st.height > 0 {
                st.width
            } else {
                cfg.width
            },
            height: if st.width > 0 && st.height > 0 {
                st.height
            } else {
                cfg.height
            },
        },
        None => AppliedGeometry {
            fullscreen: cfg.fullscreen && monitor_known,
            width: cfg.width,
            height: cfg.height,
        },
    }
}

pub fn reconcile(state: &Option<WindowState>, cfg: &ConfigDefaults, monitor_known: bool) -> (g:
    AppliedGeometry)
    ensures
        g == reconcile_spec(*state, *cfg, monitor_known),
{
    match state {
        Some(st) => {
            let usable = st.width > 0 && st.height > 0;
            AppliedGeometry {
                fullscreen: st.fullscreen && monitor_known,
                width: if usable {
                    st.width
                } else {
                    cfg.width
                },
                height: if usable {
                    st.height
                } else {
                    cfg.height
                },
            }
        },
        None => AppliedGeometry {
            fullscreen: cfg.fullscreen && monitor_known,
            width: cfg.width,
            height: cfg.height,
        },
    }
}

/// Bounds idempotence: when the corner lies inside the monitor and the window
/// is not maximized, the bounds policy persists that exact position, and
/// reconciling with the persisted record under the same monitor layout asks
/// for exactly that position again.
pub proof fn lemma_bounds_idempotent(live: LiveGeometry, m: MonitorRegion)
    requires
        m.contains_spec(live.x as int, live.y as int),
        !live.maximized,
    ensures
        persist_spec(live, Some(m)).x == live.x,
        persist_spec(live, Some(m)).y == live.y,
        placement_spec(Some(persist_spec(live, Some(m)))).position == InitialPosition::Physical(
            live.x,
            live.y,
        ),
{
}

/// Maximized suppression: whenever the window closes maximized, the persisted
/// size and position are the zero defaults, whatever the live geometry was.
pub proof fn lemma_maximized_suppression(live: LiveGeometry, monitor: Option<MonitorRegion>)
    requires
        live.maximized,
    ensures
        persist_spec(live, monitor).width == 0,
        persist_spec(live, monitor).height == 0,
        persist_spec(live, monitor).x == 0,
        persist_spec(live, monitor).y == 0,
        persist_spec(live, monitor).maximized,
{
}

/// Off-monitor rejection: a corner one pixel left of the monitor's origin is
/// never persisted as the position; the record keeps the zero defaults.
pub proof fn lemma_off_monitor_rejected(live: LiveGeometry, m: MonitorRegion)
    requires
        live.x as int == m.x - 1,
        live.y == m.y,
    ensures
        persist_spec(live, Some(m)).x == 0,
        persist_spec(live, Some(m)).y == 0,
{
}

/// Fields the bounds policy suppressed come back as the config defaults: a
/// record written at a maximized close carries no size, so the next launch
/// reconciles to the configured one.
pub proof fn lemma_suppressed_size_restores_defaults(
    live: LiveGeometry,
    monitor: Option<MonitorRegion>,
    cfg: ConfigDefaults,
    monitor_known: bool,
)
    requires
        live.maximized,
    ensures
        reconcile_spec(Some(persist_spec(live, monitor)), cfg, monitor_known).width == cfg.width,
        reconcile_spec(Some(persist_spec(live, monitor)), cfg, monitor_known).height == cfg.height,
{
}

/// A persisted fullscreen flag wins over the config default whenever the
/// current monitor can be determined, whatever the config says.
pub proof fn lemma_fullscreen_restored(st: WindowState, cfg: ConfigDefaults)
    requires
        st.fullscreen,
    ensures
        reconcile_spec(Some(st), cfg, true).fullscreen,
{
}

} // verus!
