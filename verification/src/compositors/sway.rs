//! The Sway backend: what its workspace list and its workspace events say.

use vstd::prelude::*;
use crate::compositors::{WorkspaceVisible, events_view};

verus! {

/// One workspace of the reply to a workspaces request.
pub struct Workspace {
    pub name: String,
    pub output: String,
    /// Whether the workspace is shown on its output.
    pub visible: bool,
}

/// The workspace that a workspace event is about.
pub struct Node {
    pub name: Option<String>,
    pub output: Option<String>,
}

/// A focus event that breaks the protocol.
#[derive(Clone, Copy, Debug, PartialEq, Eq, Structural)]
pub enum SwayError {
    /// The event names no workspace.
    NoCurrent,
    /// The workspace has no output.
    NoOutput,
    /// The workspace has no name.
    NoName,
}

/// The events for the visible ones among `workspaces`, in their order.
pub open spec fn visible_of(workspaces: Seq<Workspace>) -> Seq<(Seq<char>, Seq<char>)>
    decreases workspaces.len(),
{
    if workspaces.len() == 0 {
        Seq::empty()
    } else if workspaces.last().visible {
        visible_of(workspaces.drop_last()).push(
            (workspaces.last().output@, workspaces.last().name@),
        )
    } else {
        visible_of(workspaces.drop_last())
    }
}

/// What a workspace event asks for: nothing unless it is a focus event;
/// else an event for the workspace it is about, which has to be there,
/// with an output and with a name.
pub open spec fn focus_meaning(is_focus: bool, current: Option<Node>) -> Result<
    Option<(Seq<char>, Seq<char>)>,
    SwayError,
> {
    if !is_focus {
        Ok(None)
    } else {
        match current {
            None => Err(SwayError::NoCurrent),
            Some(node) => match (node.output, node.name) {
                (None, _) => Err(SwayError::NoOutput),
                (Some(_), None) => Err(SwayError::NoName),
                (Some(output), Some(name)) => Ok(Some((output@, name@))),
            },
        }
    }
}

/// The view of what a workspace event asks for.
pub open spec fn focus_view(asked: Result<Option<WorkspaceVisible>, SwayError>) -> Result<
    Option<(Seq<char>, Seq<char>)>,
    SwayError,
> {
    match asked {
        Ok(Some(event)) => Ok(Some(event@)),
        Ok(None) => Ok(None),
        Err(error) => Err(error),
    }
}

/// The events for all visible workspaces, in the order of the list.
pub fn request_visible_workspaces(workspaces: &Vec<Workspace>) -> (visible: Vec<WorkspaceVisible>)
    ensures
        events_view(visible@) == visible_of(workspaces@),
{
    let mut visible: Vec<WorkspaceVisible> = Vec::new();
    let mut index: usize = 0;
    proof {
        assert(workspaces@.take(0) =~= Seq::empty());
        assert(events_view(visible@) =~= visible_of(workspaces@.take(0)));
    }
    while index < workspaces.len()
        invariant
            index <= workspaces.len(),
            events_view(visible@) == visible_of(
                workspaces@.take(index as int),
            ),
        decreases workspaces.len() - index,
    {
        let workspace = &workspaces[index];
        let ghost seen = visible@;
        proof {
            assert(workspaces@.take(index + 1).drop_last() =~= workspaces@.take(index as int));
            assert(workspaces@.take(index + 1).last() == workspaces@[index as int]);
        }
        if workspace.visible {
            visible.push(
                WorkspaceVisible {
                    output: workspace.output.clone(),
                    workspace_name: workspace.name.clone(),
                },
            );
            proof {
                assert(events_view(visible@) =~= events_view(
                    seen,
                ).push((workspace.output@, workspace.name@)));
            }
        }
        index += 1;
    }
    proof {
        assert(workspaces@.take(index as int) =~= workspaces@);
    }
    visible
}

/// Reads a workspace event: see [`focus_meaning`].
pub fn subscribe_event(is_focus: bool, current: Option<&Node>) -> (asked: Result<
    Option<WorkspaceVisible>,
    SwayError,
>)
    ensures
        focus_view(asked) == focus_meaning(
            is_focus,
            match current {
                Some(node) => Some(*node),
                None => None,
            },
        ),
{
    if !is_focus {
        return Ok(None);
    }
    let node = match current {
        None => {
            return Err(SwayError::NoCurrent);
        },
        Some(node) => node,
    };
    let output = match &node.output {
        None => {
            return Err(SwayError::NoOutput);
        },
        Some(output) => output.clone(),
    };
    let workspace_name = match &node.name {
        None => {
            return Err(SwayError::NoName);
        },
        Some(name) => name.clone(),
    };
    Ok(Some(WorkspaceVisible { output, workspace_name }))
}

} // verus!
