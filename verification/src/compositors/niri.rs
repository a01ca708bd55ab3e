//! The Niri backend: its workspaces, and the events of its event stream.

use vstd::prelude::*;
use vstd::string::StringExecFns;
use crate::compositors::{WorkspaceVisible, events_view};

verus! {

/// One workspace as Niri describes it.
pub struct Workspace {
    pub id: u64,
    /// The position of the workspace on its monitor.
    pub idx: u8,
    pub name: Option<String>,
    pub output: Option<String>,
    /// Whether the workspace is the one shown on its output.
    pub is_active: bool,
}

/// An event of Niri's event stream, as far as this library reads it.
pub enum Event {
    /// The workspaces are these from now on.
    WorkspacesChanged { workspaces: Vec<Workspace> },
    /// The workspace of this id became the one shown on its output.
    WorkspaceActivated { id: u64 },
    /// Any other event.
    Other,
}

/// An event that breaks the protocol.
#[derive(Clone, Copy, Debug, PartialEq, Eq, Structural)]
pub enum NiriError {
    /// No known workspace has the id of an activated workspace.
    UnknownWorkspace(u64),
}

/// The character of a decimal digit.
pub open spec fn digit(value: nat) -> char {
    if value == 0 {
        '0'
    } else if value == 1 {
        '1'
    } else if value == 2 {
        '2'
    } else if value == 3 {
        '3'
    } else if value == 4 {
        '4'
    } else if value == 5 {
        '5'
    } else if value == 6 {
        '6'
    } else if value == 7 {
        '7'
    } else if value == 8 {
        '8'
    } else {
        '9'
    }
}

/// A number in decimal digits, without leading zeros.
pub open spec fn decimal(value: nat) -> Seq<char>
    decreases value,
{
    if value < 10 {
        seq![digit(value)]
    } else {
        decimal(value / 10).push(digit(value % 10))
    }
}

/// The name that a workspace goes by: its own, or its position in decimal
/// digits where it has none.
pub open spec fn label_of(workspace: Workspace) -> Seq<char> {
    match workspace.name {
        Some(name) => name@,
        None => decimal(workspace.idx as nat),
    }
}

/// The output of a workspace, or the empty name where it has none.
pub open spec fn output_of(workspace: Workspace) -> Seq<char> {
    match workspace.output {
        Some(output) => output@,
        None => Seq::empty(),
    }
}

/// The events for the active ones among `workspaces`, in their order.
pub open spec fn active_of(workspaces: Seq<Workspace>) -> Seq<(Seq<char>, Seq<char>)>
    decreases workspaces.len(),
{
    if workspaces.len() == 0 {
        Seq::empty()
    } else if workspaces.last().is_active {
        active_of(workspaces.drop_last()).push(
            (output_of(workspaces.last()), label_of(workspaces.last())),
        )
    } else {
        active_of(workspaces.drop_last())
    }
}

/// The place of the first workspace with `id` among `workspaces[start..]`.
pub open spec fn workspace_at_from(workspaces: Seq<Workspace>, id: u64, start: int) -> Option<int>
    decreases workspaces.len() - start,
{
    if start < 0 || start >= workspaces.len() {
        None
    } else if workspaces[start].id == id {
        Some(start)
    } else {
        workspace_at_from(workspaces, id, start + 1)
    }
}

/// The event for the first workspace with `id`.
pub open spec fn found_workspace(workspaces: Seq<Workspace>, id: u64) -> Option<
    (Seq<char>, Seq<char>),
> {
    match workspace_at_from(workspaces, id, 0) {
        Some(at) => Some((output_of(workspaces[at]), label_of(workspaces[at]))),
        None => None,
    }
}

/// The text of one decimal digit.
fn digit_text(value: u8) -> (text: &'static str)
    requires
        value < 10,
    ensures
        text@ == seq![digit(value as nat)],
{
    proof {
        reveal_strlit("0");
        reveal_strlit("1");
        reveal_strlit("2");
        reveal_strlit("3");
        reveal_strlit("4");
        reveal_strlit("5");
        reveal_strlit("6");
        reveal_strlit("7");
        reveal_strlit("8");
        reveal_strlit("9");
    }
    let text = if value == 0 {
        "0"
    } else if value == 1 {
        "1"
    } else if value == 2 {
        "2"
    } else if value == 3 {
        "3"
    } else if value == 4 {
        "4"
    } else if value == 5 {
        "5"
    } else if value == 6 {
        "6"
    } else if value == 7 {
        "7"
    } else if value == 8 {
        "8"
    } else {
        "9"
    };
    assert(text@ =~= seq![digit(value as nat)]);
    text
}

/// A position in decimal digits.
pub fn decimal_text(value: u8) -> (text: String)
    ensures
        text@ == decimal(value as nat),
{
    let mut text = String::new();
    if value >= 100 {
        text.append(digit_text(value / 100));
    }
    if value >= 10 {
        text.append(digit_text((value / 10) % 10));
    }
    text.append(digit_text(value % 10));
    proof {
        let n = value as nat;
        assert(decimal(n % 10) == seq![digit(n % 10)]);
        if n >= 10 {
            assert(decimal(n / 10) =~= if n >= 100 {
                seq![digit(n / 100), digit((n / 10) % 10)]
            } else {
                seq![digit(n / 10)]
            }) by {
                if n >= 100 {
                    assert(decimal(n / 10 / 10) == seq![digit(n / 100)]);
                }
            }
        }
        assert(text@ =~= decimal(n));
    }
    text
}

/// The name that a workspace goes by.
pub fn workspace_label(workspace: &Workspace) -> (label: String)
    ensures
        label@ == label_of(*workspace),
{
    match &workspace.name {
        Some(name) => name.clone(),
        None => decimal_text(workspace.idx),
    }
}

/// The event that says that `workspace` is visible.
fn visible_event(workspace: &Workspace) -> (event: WorkspaceVisible)
    ensures
        event@ == (output_of(*workspace), label_of(*workspace)),
{
    let output = match &workspace.output {
        Some(output) => output.clone(),
        None => String::new(),
    };
    WorkspaceVisible { output, workspace_name: workspace_label(workspace) }
}

/// The events for all active workspaces, in the order of the list.
pub fn request_visible_workspaces(workspaces: &Vec<Workspace>) -> (visible: Vec<WorkspaceVisible>)
    ensures
        events_view(visible@) == active_of(workspaces@),
{
    let mut visible: Vec<WorkspaceVisible> = Vec::new();
    let mut index: usize = 0;
    proof {
        assert(workspaces@.take(0) =~= Seq::empty());
        assert(events_view(visible@) =~= active_of(workspaces@.take(0)));
    }
    while index < workspaces.len()
        invariant
            index <= workspaces.len(),
            events_view(visible@) == active_of(workspaces@.take(index as int)),
        decreases workspaces.len() - index,
    {
        let workspace = &workspaces[index];
        let ghost seen = visible@;
        proof {
            assert(workspaces@.take(index + 1).drop_last() =~= workspaces@.take(index as int));
            assert(workspaces@.take(index + 1).last() == workspaces@[index as int]);
        }
        if workspace.is_active {
            visible.push(visible_event(workspace));
            proof {
                assert(events_view(visible@) =~= events_view(seen).push(
                    (output_of(*workspace), label_of(*workspace)),
                ));
            }
        }
        index += 1;
    }
    proof {
        assert(workspaces@.take(index as int) =~= workspaces@);
    }
    visible
}

/// Whether a workspace has `id`.
pub fn has_workspace(workspaces: &Vec<Workspace>, id: u64) -> (has: bool)
    ensures
        has == (workspace_at_from(workspaces@, id, 0) is Some),
{
    let mut index: usize = 0;
    while index < workspaces.len()
        invariant
            index <= workspaces.len(),
            workspace_at_from(workspaces@, id, 0) == workspace_at_from(
                workspaces@,
                id,
                index as int,
            ),
        decreases workspaces.len() - index,
    {
        if workspaces[index].id == id {
            return true;
        }
        index += 1;
    }
    false
}

/// The event for the first workspace with `id`: it is visible on its
/// output, or on the output without a name where it has none, under its
/// name, or under its position in decimal digits where it has none. The
/// id has to be that of a workspace; [`has_workspace`] tells.
pub fn find_workspace(workspaces: &Vec<Workspace>, id: u64) -> (found: WorkspaceVisible)
    requires
        workspace_at_from(workspaces@, id, 0) is Some,
    ensures
        Some(found@) == found_workspace(workspaces@, id),
{
    let mut index: usize = 0;
    while workspaces[index].id != id
        invariant
            index < workspaces.len(),
            workspace_at_from(workspaces@, id, index as int) is Some,
            workspace_at_from(workspaces@, id, 0) == workspace_at_from(
                workspaces@,
                id,
                index as int,
            ),
        decreases workspaces.len() - index,
    {
        index += 1;
    }
    visible_event(&workspaces[index])
}

/// The model of the follower: the workspaces as the stream last reported
/// them, and what the follower has failed on, if it has.
pub struct FollowerView {
    pub workspaces: Seq<Workspace>,
    pub failed: Option<NiriError>,
}

impl FollowerView {
    /// A follower that knows no workspace and has not failed.
    pub open spec fn initial() -> FollowerView {
        FollowerView { workspaces: Seq::empty(), failed: None }
    }

    /// Reading one event. A follower that has failed fails again, and
    /// nothing changes. An activation asks for the event of the workspace
    /// activated; where no workspace has its id, the follower has failed.
    /// A change of the workspaces replaces the known ones and asks for
    /// nothing, as every other event does.
    pub open spec fn step(self, event: Event) -> (
        FollowerView,
        Result<Option<(Seq<char>, Seq<char>)>, NiriError>,
    ) {
        match self.failed {
            Some(error) => (self, Err(error)),
            None => match event {
                Event::WorkspaceActivated { id } => match found_workspace(self.workspaces, id) {
                    Some(visible) => (self, Ok(Some(visible))),
                    None => (
                        FollowerView { failed: Some(NiriError::UnknownWorkspace(id)), ..self },
                        Err(NiriError::UnknownWorkspace(id)),
                    ),
                },
                Event::WorkspacesChanged { workspaces } => (
                    FollowerView { workspaces: workspaces@, ..self },
                    Ok(None),
                ),
                Event::Other => (self, Ok(None)),
            },
        }
    }
}

/// A failure is final: once an event has failed, every later event fails
/// in the same way, asks for nothing and changes nothing.
pub proof fn lemma_failure_is_final(follower: FollowerView, event: Event, later: Event)
    requires
        follower.step(event).1 is Err,
    ensures
        follower.step(event).0.step(later) == (
            follower.step(event).0,
            Err::<Option<(Seq<char>, Seq<char>)>, NiriError>(follower.step(event).1->Err_0),
        ),
{
}

/// The follower of Niri's event stream: it keeps the workspaces as the
/// stream last reported them.
pub struct NiriConnectionTask {
    workspaces: Vec<Workspace>,
    failed: Option<NiriError>,
}

impl View for NiriConnectionTask {
    type V = FollowerView;

    closed spec fn view(&self) -> FollowerView {
        FollowerView { workspaces: self.workspaces@, failed: self.failed }
    }
}

/// The view of what an event asks for.
pub open spec fn asked_view(asked: Result<Option<WorkspaceVisible>, NiriError>) -> Result<
    Option<(Seq<char>, Seq<char>)>,
    NiriError,
> {
    match asked {
        Ok(Some(event)) => Ok(Some(event@)),
        Ok(None) => Ok(None),
        Err(error) => Err(error),
    }
}

impl NiriConnectionTask {
    /// A follower that knows no workspace yet.
    pub fn new() -> (task: Self)
        ensures
            task@ == FollowerView::initial(),
    {
        NiriConnectionTask { workspaces: Vec::new(), failed: None }
    }

    /// Takes the workspaces as a request reported them.
    pub fn set_workspaces(&mut self, workspaces: Vec<Workspace>)
        ensures
            final(self)@ == (FollowerView { workspaces: workspaces@, ..old(self)@ }),
    {
        self.workspaces = workspaces;
    }

    /// Reads one event of the stream: see [`FollowerView::step`].
    pub fn subscribe_event(&mut self, event: Event) -> (asked: Result<
        Option<WorkspaceVisible>,
        NiriError,
    >)
        ensures
            (final(self)@, asked_view(asked)) == old(self)@.step(event),
    {
        match self.failed {
            Some(error) => {
                return Err(error);
            },
            None => {},
        }
        match event {
            Event::WorkspaceActivated { id } => {
                if has_workspace(&self.workspaces, id) {
                    Ok(Some(find_workspace(&self.workspaces, id)))
                } else {
                    self.failed = Some(NiriError::UnknownWorkspace(id));
                    Err(NiriError::UnknownWorkspace(id))
                }
            },
            Event::WorkspacesChanged { workspaces } => {
                self.workspaces = workspaces;
                Ok(None)
            },
            Event::Other => Ok(None),
        }
    }
}

} // verus!
