use vstd::prelude::*;

verus! {

/// The persisted record: a best-effort snapshot of one window at one point
/// in time. Width and height are the logical inner size in whole pixels;
/// `x` and `y` are the physical position of the top-left corner. Zero width
/// or height means "nothing meaningful was saved": the reconciler falls back
/// to the configured defaults.
#[derive(Clone, Copy, PartialEq, Eq, Structural, Debug)]
pub struct WindowState {
    pub width: u32,
    pub height: u32,
    pub x: i32,
    pub y: i32,
    pub maximized: bool,
    pub visible: bool,
    pub decorated: bool,
    pub fullscreen: bool,
}

impl WindowState {
    /// The all-defaults record: no size, origin position, all flags off.
    pub open spec fn zeroed() -> WindowState {
        WindowState {
            width: 0,
            height: 0,
            x: 0,
            y: 0,
            maximized: false,
            visible: false,
            decorated: false,
            fullscreen: false,
        }
    }
}

impl Default for WindowState {
    fn default() -> (d: WindowState)
        ensures
            d == WindowState::zeroed(),
    {
        WindowState {
            width: 0,
            height: 0,
            x: 0,
            y: 0,
            maximized: false,
            visible: false,
            decorated: false,
            fullscreen: false,
        }
    }
}

} // verus!
