//! The verified core of a single-window web-page shell: the window-state
//! persistence and restoration engine, the geometry reconciler and its bounds
//! policy, the event relay between background callbacks and the control loop,
//! and the control loop's decision rule. The platform window, the webview and
//! all file and process I/O live outside and talk to this library in plain
//! values.

pub mod codec;
pub mod config;
pub mod control;
pub mod external;
pub mod geometry;
pub mod paths;
pub mod relay;
pub mod state;
