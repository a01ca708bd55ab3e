//! The compositor bridge: which compositor to talk to, and the one event
//! that every backend reports.

pub mod hyprland;
pub mod niri;
pub mod sway;

use vstd::prelude::*;
use vstd::string::StringSliceAdditionalSpecFns;
use crate::bytes::starts_with;

verus! {

/// The compositors whose workspaces this library can follow.
#[derive(Clone, Copy, Debug, PartialEq, Eq, Structural)]
pub enum Compositor {
    Sway,
    Niri,
    Hyprland,
}

/// What the process environment tells about the running compositor.
pub struct Environment {
    /// The bytes of `XDG_SESSION_DESKTOP`, where it is set.
    pub xdg_session_desktop: Option<Vec<u8>>,
    /// The bytes of `XDG_CURRENT_DESKTOP`, where it is set.
    pub xdg_current_desktop: Option<Vec<u8>>,
    /// Whether `SWAYSOCK` is set.
    pub swaysock: bool,
    /// Whether `NIRI_SOCKET` is set.
    pub niri_socket: bool,
    /// Whether `HYPRLAND_INSTANCE_SIGNATURE` is set.
    pub hyprland_instance_signature: bool,
}

/// A workspace became visible on an output.
#[derive(Debug)]
pub struct WorkspaceVisible {
    pub output: String,
    pub workspace_name: String,
}

impl View for WorkspaceVisible {
    type V = (Seq<char>, Seq<char>);

    open spec fn view(&self) -> (Seq<char>, Seq<char>) {
        (self.output@, self.workspace_name@)
    }
}

/// The views of a list of events.
pub open spec fn events_view(events: Seq<WorkspaceVisible>) -> Seq<(Seq<char>, Seq<char>)> {
    events.map_values(|event: WorkspaceVisible| event@)
}

/// The view of an optional event.
pub open spec fn event_view(event: Option<WorkspaceVisible>) -> Option<(Seq<char>, Seq<char>)> {
    match event {
        Some(event) => Some(event@),
        None => None,
    }
}

/// The compositor that a desktop name stands for: the name begins with
/// `sway`, with `niri` or with `Hyprland`.
pub open spec fn desktop_hint(desktop: Seq<u8>) -> Option<Compositor> {
    if "sway".spec_bytes().is_prefix_of(desktop) {
        Some(Compositor::Sway)
    } else if "niri".spec_bytes().is_prefix_of(desktop) {
        Some(Compositor::Niri)
    } else if "Hyprland".spec_bytes().is_prefix_of(desktop) {
        Some(Compositor::Hyprland)
    } else {
        None
    }
}

/// The compositor that a desktop variable stands for, where it is set.
pub open spec fn desktop_var_hint(value: Option<Vec<u8>>) -> Option<Compositor> {
    match value {
        Some(desktop) => desktop_hint(desktop@),
        None => None,
    }
}

/// The compositor whose socket variable is set: Sway's before Niri's before
/// Hyprland's.
pub open spec fn socket_hint(swaysock: bool, niri_socket: bool, hyprland: bool) -> Option<
    Compositor,
> {
    if swaysock {
        Some(Compositor::Sway)
    } else if niri_socket {
        Some(Compositor::Niri)
    } else if hyprland {
        Some(Compositor::Hyprland)
    } else {
        None
    }
}

/// The compositor that the environment points to: by the session desktop,
/// else by the current desktop, else by the socket variables.
pub open spec fn environment_hint(environment: Environment) -> Option<Compositor> {
    match desktop_var_hint(environment.xdg_session_desktop) {
        Some(compositor) => Some(compositor),
        None => match desktop_var_hint(environment.xdg_current_desktop) {
            Some(compositor) => Some(compositor),
            None => socket_hint(
                environment.swaysock,
                environment.niri_socket,
                environment.hyprland_instance_signature,
            ),
        },
    }
}

/// The place of the first event for `output` among `events[start..]`.
pub open spec fn first_on_output_from(
    events: Seq<(Seq<char>, Seq<char>)>,
    output: Seq<char>,
    start: int,
) -> Option<int>
    decreases events.len() - start,
{
    if start < 0 || start >= events.len() {
        None
    } else if events[start].0 == output {
        Some(start)
    } else {
        first_on_output_from(events, output, start + 1)
    }
}

/// The first event for `output`.
pub open spec fn first_on_output(events: Seq<(Seq<char>, Seq<char>)>, output: Seq<char>) -> Option<
    (Seq<char>, Seq<char>),
> {
    match first_on_output_from(events, output, 0) {
        Some(at) => Some(events[at]),
        None => None,
    }
}

impl Compositor {
    /// The compositor that the environment points to, if it points to one:
    /// see [`environment_hint`].
    pub fn from_env(environment: &Environment) -> (compositor: Option<Compositor>)
        ensures
            compositor == environment_hint(*environment),
    {
        match Compositor::from_xdg_desktop_var(&environment.xdg_session_desktop) {
            Some(compositor) => Some(compositor),
            None => match Compositor::from_xdg_desktop_var(&environment.xdg_current_desktop) {
                Some(compositor) => Some(compositor),
                None => Compositor::from_ipc_socket_var(
                    environment.swaysock,
                    environment.niri_socket,
                    environment.hyprland_instance_signature,
                ),
            },
        }
    }

    /// The compositor that the value of a desktop variable stands for. A
    /// value that stands for none is to be reported as unrecognized.
    pub fn from_xdg_desktop_var(value: &Option<Vec<u8>>) -> (compositor: Option<Compositor>)
        ensures
            compositor == desktop_var_hint(*value),
    {
        match value {
            None => None,
            Some(desktop) => {
                if starts_with(desktop.as_slice(), "sway".as_bytes()) {
                    Some(Compositor::Sway)
                } else if starts_with(desktop.as_slice(), "niri".as_bytes()) {
                    Some(Compositor::Niri)
                } else if starts_with(desktop.as_slice(), "Hyprland".as_bytes()) {
                    Some(Compositor::Hyprland)
                } else {
                    None
                }
            },
        }
    }

    /// The compositor whose socket variable is set.
    pub fn from_ipc_socket_var(swaysock: bool, niri_socket: bool, hyprland: bool) -> (compositor:
        Option<Compositor>)
        ensures
            compositor == socket_hint(swaysock, niri_socket, hyprland),
    {
        if swaysock {
            Some(Compositor::Sway)
        } else if niri_socket {
            Some(Compositor::Niri)
        } else if hyprland {
            Some(Compositor::Hyprland)
        } else {
            None
        }
    }

    /// The compositor to talk to: the one asked for, else the one the
    /// environment points to, else Sway.
    pub fn select(explicit: Option<Compositor>, environment: &Environment) -> (compositor:
        Compositor)
        ensures
            compositor == match explicit {
                Some(compositor) => compositor,
                None => match environment_hint(*environment) {
                    Some(compositor) => compositor,
                    None => Compositor::Sway,
                },
            },
    {
        match explicit {
            Some(compositor) => compositor,
            None => match Compositor::from_env(environment) {
                Some(compositor) => compositor,
                None => Compositor::Sway,
            },
        }
    }
}

/// The first of the visible workspaces that is on `output`: the answer to
/// a request for the workspace visible on one output.
pub fn request_visible_workspace(visible: &Vec<WorkspaceVisible>, output: &str) -> (found: Option<
    WorkspaceVisible,
>)
    ensures
        event_view(found) == first_on_output(events_view(visible@), output@),
{
    let wanted = output.to_owned();
    let mut index: usize = 0;
    while index < visible.len()
        invariant
            index <= visible.len(),
            wanted@ == output@,
            first_on_output_from(events_view(visible@), output@, 0) == first_on_output_from(
                events_view(visible@),
                output@,
                index as int,
            ),
        decreases visible.len() - index,
    {
        if visible[index].output == wanted {
            return Some(
                WorkspaceVisible {
                    output: visible[index].output.clone(),
                    workspace_name: visible[index].workspace_name.clone(),
                },
            );
        }
        index += 1;
    }
    None
}

} // verus!
