use vstd::prelude::*;

use crate::geometry::{persist_spec, state_to_persist, LiveGeometry, MonitorRegion};
use crate::relay::RelayEvent;
use crate::state::WindowState;

verus! {

/// The control loop's phase. `Running` from the moment the window exists;
/// `ClosingSave` once a close was requested and the state is being persisted;
/// `Terminated` when the loop has been told to exit.
#[derive(Clone, Copy, PartialEq, Eq, Structural, Debug)]
pub enum Mode {
    Running,
    ClosingSave,
    Terminated,
}

/// What the embedded page asked for over IPC.
#[derive(Debug, Clone, PartialEq, Eq)]
pub enum IpcAction {
    DragWindow,
    ToggleMaximize,
    OpenBrowser(String),
    Ignore,
}

pub open spec fn is_drag_request(r: Seq<char>) -> bool {
    r == "drag_window"@
}

pub open spec fn is_toggle_request(r: Seq<char>) -> bool {
    r == "fullscreen"@
}

pub open spec fn is_open_browser_request(r: Seq<char>) -> bool {
    r.len() >= 13 && r.subrange(0, 13) == "open_browser:"@
}

pub open spec fn browser_uri_of(r: Seq<char>) -> Seq<char> {
    r.subrange(13, r.len() as int)
}

fn str_eq(a: &str, b: &str) -> (r: bool)
    ensures
        r == (a@ == b@),
{
    let al = a.unicode_len();
    let bl = b.unicode_len();
    if al != bl {
        return false;
    }
    let mut k: usize = 0;
    while k < al
        invariant
            al == a@.len(),
            al == b@.len(),
            0 <= k <= al,
            forall|m: int| 0 <= m < k ==> a@[m] == b@[m],
        decreases al - k,
    {
        if a.get_char(k) != b.get_char(k) {
            return false;
        }
        k += 1;
    }
    proof {
        assert(a@ =~= b@);
    }
    true
}

fn str_prefix(a: &str, p: &str) -> (r: bool)
    ensures
        r == (a@.len() >= p@.len() && a@.subrange(0, p@.len() as int) == p@),
{
    let pl = p.unicode_len();
    let al = a.unicode_len();
    if al < pl {
        return false;
    }
    let mut k: usize = 0;
    while k < pl
        invariant
            pl == p@.len(),
            al == a@.len(),
            al >= pl,
            0 <= k <= pl,
            forall|m: int| 0 <= m < k ==> a@[m] == p@[m],
        decreases pl - k,
    {
        if a.get_char(k) != p.get_char(k) {
            proof {
                assert(a@.subrange(0, p@.len() as int)[k as int] == a@[k as int]);
            }
            return false;
        }
        k += 1;
    }
    proof {
        assert(a@.subrange(0, p@.len() as int) =~= p@);
    }
    true
}

/// Classify a plain-text IPC request: `drag_window` begins a window drag,
/// `fullscreen` flips the maximized state, `open_browser:<uri>` opens the
/// remainder in the system browser, anything else is ignored.
pub fn interpret_ipc(req: &str) -> (a: IpcAction)
    ensures
        match a {
            IpcAction::DragWindow => is_drag_request(req@),
            IpcAction::ToggleMaximize => !is_drag_request(req@) && is_toggle_request(req@),
            IpcAction::OpenBrowser(uri) => !is_drag_request(req@) && !is_toggle_request(req@)
                && is_open_browser_request(req@) && uri@ == browser_uri_of(req@),
            IpcAction::Ignore => !is_drag_request(req@) && !is_toggle_request(req@)
                && !is_open_browser_request(req@),
        },
{
    proof {
        reveal_strlit("drag_window");
        reveal_strlit("fullscreen");
        reveal_strlit("open_browser:");
    }
    if str_eq(req, "drag_window") {
        return IpcAction::DragWindow;
    }
    if str_eq(req, "fullscreen") {
        return IpcAction::ToggleMaximize;
    }
    let n = req.unicode_len();
    if str_prefix(req, "open_browser:") {
        let uri = req.substring_char(13, n);
        return IpcAction::OpenBrowser(String::from_str(uri));
    }
    IpcAction::Ignore
}

/// One inbound happening, as the surrounding event loop hands it over. A
/// close request carries the live geometry and the current monitor, read off
/// the window at that moment.
pub enum LoopEvent {
    Started,
    CloseRequested { live: LiveGeometry, monitor: Option<MonitorRegion> },
    Ipc { request: String, maximized: bool },
    Relayed { event: RelayEvent },
    MenuCloseWindow,
    SaveFinished { ok: bool },
    Other,
}

/// What the loop asks its surroundings to do in response to one event.
#[derive(Debug, Clone, PartialEq, Eq)]
pub enum Action {
    Nothing,
    /// Write this record to the state file, then exit; a write failure is
    /// fatal, there is no later opportunity to retry.
    PersistAndExit { state: WindowState },
    DragWindow,
    SetMaximized { maximized: bool },
    OpenBrowser { uri: String },
    /// Tell the embedded content that a download landed in the downloads
    /// folder.
    NotifyDownloadSaved,
    /// The close menu item minimizes instead of closing, keeping the process
    /// alive.
    Minimize,
}

/// The control loop's whole decision rule: from the current mode and one
/// event to the next mode and the action to perform. A close request applies
/// the bounds policy to the live geometry and hands the record to persist
/// out; everything else keeps the loop running.
pub fn step(mode: Mode, event: LoopEvent) -> (r: (Mode, Action))
    ensures
        ({
            let (next, act) = r;
            match mode {
                Mode::Running => match event {
                    LoopEvent::Started => next == Mode::Running && act == Action::Nothing,
                    LoopEvent::CloseRequested { live, monitor } => next == Mode::ClosingSave && act
                        == (Action::PersistAndExit { state: persist_spec(live, monitor) }),
                    LoopEvent::Ipc { request, maximized } => next == Mode::Running && (match act {
                        Action::DragWindow => is_drag_request(request@),
                        Action::SetMaximized { maximized: m2 } => !is_drag_request(request@)
                            && is_toggle_request(request@) && m2 == !maximized,
                        Action::OpenBrowser { uri } => !is_drag_request(request@)
                            && !is_toggle_request(request@) && is_open_browser_request(request@)
                            && uri@ == browser_uri_of(request@),
                        Action::Nothing => !is_drag_request(request@) && !is_toggle_request(
                            request@,
                        ) && !is_open_browser_request(request@),
                        _ => false,
                    }),
                    LoopEvent::Relayed { event: ev } => next == Mode::Running && (match ev {
                        RelayEvent::DownloadStarted { .. } => act == Action::Nothing,
                        RelayEvent::DownloadCompleted { path: _, success } => act == (if success {
                            Action::NotifyDownloadSaved
                        } else {
                            Action::Nothing
                        }),
                    }),
                    LoopEvent::MenuCloseWindow => next == Mode::Running && act == Action::Minimize,
                    LoopEvent::SaveFinished { .. } => next == Mode::Running && act
                        == Action::Nothing,
                    LoopEvent::Other => next == Mode::Running && act == Action::Nothing,
                },
                Mode::ClosingSave => match event {
                    LoopEvent::SaveFinished { .. } => next == Mode::Terminated && act
                        == Action::Nothing,
                    _ => next == Mode::ClosingSave && act == Action::Nothing,
                },
                Mode::Terminated => next == Mode::Terminated && act == Action::Nothing,
            }
        }),
{
    match mode {
        Mode::Running => match event {
            LoopEvent::Started => (Mode::Running, Action::Nothing),
            LoopEvent::CloseRequested { live, monitor } => {
                let st = state_to_persist(&live, &monitor);
                (Mode::ClosingSave, Action::PersistAndExit { state: st })
            },
            LoopEvent::Ipc { request, maximized } => {
                let act = match interpret_ipc(request.as_str()) {
                    IpcAction::DragWindow => Action::DragWindow,
                    IpcAction::ToggleMaximize => Action::SetMaximized { maximized: !maximized },
                    IpcAction::OpenBrowser(uri) => Action::OpenBrowser { uri },
                    IpcAction::Ignore => Action::Nothing,
                };
                (Mode::Running, act)
            },
            LoopEvent::Relayed { event: ev } => {
                let act = match ev {
                    RelayEvent::DownloadStarted { .. } => Action::Nothing,
                    RelayEvent::DownloadCompleted { path: _, success } => {
                        if success {
                            Action::NotifyDownloadSaved
                        } else {
                            Action::Nothing
                        }
                    },
                };
                (Mode::Running, act)
            },
            LoopEvent::MenuCloseWindow => (Mode::Running, Action::Minimize),
            LoopEvent::SaveFinished { .. } => (Mode::Running, Action::Nothing),
            LoopEvent::Other => (Mode::Running, Action::Nothing),
        },
        Mode::ClosingSave => match event {
            LoopEvent::SaveFinished { .. } => (Mode::Terminated, Action::Nothing),
            _ => (Mode::ClosingSave, Action::Nothing),
        },
        Mode::Terminated => (Mode::Terminated, Action::Nothing),
    }
}

} // verus!
