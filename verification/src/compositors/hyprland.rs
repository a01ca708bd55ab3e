//! The Hyprland backend: the records of its event socket.
//!
//! The socket sends records of the form `name>data` and a line feed. The
//! task keeps what was read and not yet understood, takes one record at a
//! time from it, and follows the focused monitor, which the `workspace`
//! record does not name. A record that breaks the protocol ends the task:
//! from then on every step fails as that record did.

use vstd::prelude::*;
use vstd::string::StringSliceAdditionalSpecFns;
use vstd::utf8::{decode_utf8, valid_utf8};
use crate::bytes::{
    bytes_equal, copy_range, find_byte, first_byte_from, lemma_first_byte_absent,
    lemma_first_byte_from, lemma_first_byte_is,
};
use crate::compositors::{WorkspaceVisible, events_view};

verus! {

/// The byte `>`, which ends a record's name.
pub const GREATER_THAN: u8 = 62;

/// The line feed, which ends a record.
pub const LINE_FEED: u8 = 10;

/// The comma, which ends the monitor's name in a `focusedmon` record.
pub const COMMA: u8 = 44;

/// The length of the read buffer at the start.
pub const INITIAL_BUFFER: usize = 2000;

/// One monitor of the reply to a monitors request.
pub struct Monitor {
    pub name: String,
    /// The name of the workspace that is active on the monitor.
    pub active_workspace: String,
    pub focused: bool,
}

/// What a monitors request tells: the focused monitor, and for each monitor
/// the workspace visible on it.
pub struct CurrentState {
    pub active_monitor: String,
    pub visible_workspaces: Vec<WorkspaceVisible>,
}

/// Why the event stream cannot be followed any further.
#[derive(Clone, Copy, Debug, PartialEq, Eq, Structural)]
pub enum HyprlandError {
    /// A name in a record is not UTF-8.
    InvalidUtf8,
    /// A `focusedmon` record has no comma after the monitor's name.
    MissingComma,
    /// The bytes read do not fit this machine's addresses.
    BufferOverflow,
}

/// What the next record asks of the caller.
#[derive(Debug)]
pub enum Step {
    /// No whole record has been read yet: read on.
    NeedMore,
    /// A record was taken that asks for nothing.
    Consumed,
    /// A record was taken: this event is to be delivered.
    Emit(WorkspaceVisible),
    /// A record was taken: the monitors are to be asked anew, their
    /// visible workspaces delivered and the focused monitor set.
    Requery,
    /// A record was taken that breaks the protocol.
    Fatal(HyprlandError),
}

/// The model of a step.
pub enum StepView {
    NeedMore,
    Consumed,
    Emit { output: Seq<char>, workspace_name: Seq<char> },
    Requery,
    Fatal(HyprlandError),
}

impl View for Step {
    type V = StepView;

    open spec fn view(&self) -> StepView {
        match self {
            Step::NeedMore => StepView::NeedMore,
            Step::Consumed => StepView::Consumed,
            Step::Emit(event) => StepView::Emit {
                output: event.output@,
                workspace_name: event.workspace_name@,
            },
            Step::Requery => StepView::Requery,
            Step::Fatal(error) => StepView::Fatal(*error),
        }
    }
}

/// The model of the task: the bytes read and not yet taken, the name of
/// the focused monitor, and what the task has failed on, if it has.
pub struct TaskView {
    pub pending: Seq<u8>,
    pub active_monitor: Seq<char>,
    pub failed: Option<HyprlandError>,
}

/// One record of the event stream.
pub struct Record {
    /// The bytes before the first `>`.
    pub name: Seq<u8>,
    /// The bytes after the `>` that ends the name, up to the line feed.
    pub data: Seq<u8>,
    /// The bytes of the whole record, its line feed included.
    pub consumed: int,
}

/// The first record of `pending`, where `pending` holds a whole one: a
/// name, ended by the first `>`, and the data, ended by the first line
/// feed after that.
pub open spec fn next_record(pending: Seq<u8>) -> Option<Record> {
    match first_byte_from(pending, GREATER_THAN, 0) {
        None => None,
        Some(gt) => match first_byte_from(pending, LINE_FEED, gt + 1) {
            None => None,
            Some(lf) => Some(
                Record {
                    name: pending.subrange(0, gt),
                    data: pending.subrange(gt + 1, lf),
                    consumed: lf + 1,
                },
            ),
        },
    }
}

/// What a record means while `active_monitor` is focused: the step it asks
/// for, and the monitor focused afterwards.
pub open spec fn record_meaning(record: Record, active_monitor: Seq<char>) -> (
    StepView,
    Seq<char>,
) {
    if record.name == "workspace".spec_bytes() {
        if valid_utf8(record.data) {
            (
                StepView::Emit {
                    output: active_monitor,
                    workspace_name: decode_utf8(record.data),
                },
                active_monitor,
            )
        } else {
            (StepView::Fatal(HyprlandError::InvalidUtf8), active_monitor)
        }
    } else if record.name == "focusedmon".spec_bytes() {
        match first_byte_from(record.data, COMMA, 0) {
            None => (StepView::Fatal(HyprlandError::MissingComma), active_monitor),
            Some(comma) => if valid_utf8(record.data.subrange(0, comma)) {
                (StepView::Consumed, decode_utf8(record.data.subrange(0, comma)))
            } else {
                (StepView::Fatal(HyprlandError::InvalidUtf8), active_monitor)
            },
        }
    } else if record.name == "moveworkspace".spec_bytes() || record.name
        == "renameworkspace".spec_bytes() {
        (StepView::Requery, active_monitor)
    } else {
        (StepView::Consumed, active_monitor)
    }
}

/// The failure that a step is, if it is one.
pub open spec fn failure_of(step: StepView) -> Option<HyprlandError> {
    match step {
        StepView::Fatal(error) => Some(error),
        _ => None,
    }
}

impl TaskView {
    /// A task that has read nothing, knows no focused monitor and has not
    /// failed.
    pub open spec fn initial() -> TaskView {
        TaskView { pending: Seq::empty(), active_monitor: Seq::empty(), failed: None }
    }

    /// Taking the first record. A task that has failed fails again, and
    /// nothing changes. Where there is no whole record, nothing changes
    /// either. Else the record leaves the pending bytes and gets its
    /// meaning, and a record that breaks the protocol leaves the task
    /// failed.
    pub open spec fn step(self) -> (TaskView, StepView) {
        match self.failed {
            Some(error) => (self, StepView::Fatal(error)),
            None => match next_record(self.pending) {
                None => (self, StepView::NeedMore),
                Some(record) => {
                    let (step, active_monitor) = record_meaning(record, self.active_monitor);
                    (
                        TaskView {
                            pending: self.pending.skip(record.consumed),
                            active_monitor,
                            failed: failure_of(step),
                        },
                        step,
                    )
                },
            },
        }
    }

    /// Taking in bytes read from the socket. A task that has failed
    /// refuses them as it failed. Bytes that, with the pending ones, are
    /// more than this machine can address are refused, and the task has
    /// failed. Else the bytes follow the pending ones.
    pub open spec fn fed(self, bytes: Seq<u8>) -> (TaskView, Result<(), HyprlandError>) {
        match self.failed {
            Some(error) => (self, Err(error)),
            None => if self.pending.len() + bytes.len() > usize::MAX {
                (
                    TaskView { failed: Some(HyprlandError::BufferOverflow), ..self },
                    Err(HyprlandError::BufferOverflow),
                )
            } else {
                (TaskView { pending: self.pending + bytes, ..self }, Ok(()))
            },
        }
    }

    /// The task and the steps after `count` steps.
    pub open spec fn steps(self, count: nat) -> (TaskView, Seq<StepView>)
        decreases count,
    {
        if count == 0 {
            (self, Seq::empty())
        } else {
            let (before, steps) = self.steps((count - 1) as nat);
            let (after, step) = before.step();
            (after, steps.push(step))
        }
    }
}

/// A failure is final. Once a step has failed, the task has failed: every
/// later step fails in the same way, changes nothing and gives no event,
/// and bytes are refused with that failure.
pub proof fn lemma_failure_is_final(task: TaskView, bytes: Seq<u8>, count: nat)
    requires
        task.step().1 is Fatal,
    ensures
        task.step().0.failed == failure_of(task.step().1),
        task.step().0.fed(bytes) == (
            task.step().0,
            Err::<(), HyprlandError>(task.step().1->Fatal_0),
        ),
        task.step().0.steps(count).0 == task.step().0,
        task.step().0.steps(count).1.len() == count,
        forall|i: int|
            0 <= i < count ==> #[trigger] task.step().0.steps(count).1[i] == task.step().1,
    decreases count,
{
    if count > 0 {
        lemma_failure_is_final(task, bytes, (count - 1) as nat);
    }
}

/// What is found in a byte string is found in every longer one.
pub proof fn lemma_first_byte_stable(s: Seq<u8>, more: Seq<u8>, byte: u8, from: int)
    requires
        0 <= from,
        first_byte_from(s, byte, from) is Some,
    ensures
        first_byte_from(s + more, byte, from) == first_byte_from(s, byte, from),
    decreases s.len() - from,
{
    if from < s.len() && s[from] != byte {
        assert((s + more)[from] == s[from]);
        lemma_first_byte_stable(s, more, byte, from + 1);
    } else if from < s.len() {
        assert((s + more)[from] == s[from]);
    }
}

/// A whole record stays what it is, whatever is read after it: reading on
/// never changes a record that could be taken already.
pub proof fn lemma_record_stable(pending: Seq<u8>, more: Seq<u8>)
    requires
        next_record(pending) is Some,
    ensures
        next_record(pending + more) == next_record(pending),
{
    let gt = first_byte_from(pending, GREATER_THAN, 0)->0;
    lemma_first_byte_stable(pending, more, GREATER_THAN, 0);
    lemma_first_byte_from(pending, GREATER_THAN, 0);
    lemma_first_byte_stable(pending, more, LINE_FEED, gt + 1);
    let lf = first_byte_from(pending, LINE_FEED, gt + 1)->0;
    lemma_first_byte_from(pending, LINE_FEED, gt + 1);
    assert((pending + more).subrange(0, gt) =~= pending.subrange(0, gt));
    assert((pending + more).subrange(gt + 1, lf) =~= pending.subrange(gt + 1, lf));
}

/// The name of the last focused monitor, or the empty name.
pub open spec fn focused_monitor(monitors: Seq<Monitor>) -> Seq<char>
    decreases monitors.len(),
{
    if monitors.len() == 0 {
        Seq::empty()
    } else if monitors.last().focused {
        monitors.last().name@
    } else {
        focused_monitor(monitors.drop_last())
    }
}

/// For each monitor, its name and the name of its active workspace.
pub open spec fn visible_on(monitors: Seq<Monitor>) -> Seq<(Seq<char>, Seq<char>)> {
    monitors.map_values(|monitor: Monitor| (monitor.name@, monitor.active_workspace@))
}

/// Calls `String::from_utf8` of the standard library, which returns the
/// string where the bytes are valid UTF-8, and an error, here `None`,
/// where they are not. The string's characters are those the bytes encode.
#[verifier::external_body]
fn string_from_utf8(bytes: Vec<u8>) -> (string: Option<String>)
    ensures
        string is Some <==> valid_utf8(bytes@),
        string matches Some(s) ==> s@ == decode_utf8(bytes@),
{
    String::from_utf8(bytes).ok()
}

/// Reads the reply to a monitors request: the focused monitor is the last
/// one marked so, and each monitor shows its active workspace.
pub fn current_state(monitors: &Vec<Monitor>) -> (state: CurrentState)
    ensures
        state.active_monitor@ == focused_monitor(monitors@),
        events_view(state.visible_workspaces@) == visible_on(monitors@),
{
    let mut active_monitor = String::new();
    let mut visible_workspaces: Vec<WorkspaceVisible> = Vec::new();
    let mut index: usize = 0;
    proof {
        assert(monitors@.take(0) =~= Seq::empty());
        assert(events_view(visible_workspaces@) =~= visible_on(
            monitors@.take(0),
        ));
    }
    while index < monitors.len()
        invariant
            index <= monitors.len(),
            visible_workspaces@.len() == index,
            active_monitor@ == focused_monitor(monitors@.take(index as int)),
            events_view(visible_workspaces@) == visible_on(
                monitors@.take(index as int),
            ),
        decreases monitors.len() - index,
    {
        let monitor = &monitors[index];
        let ghost seen = visible_workspaces@;
        if monitor.focused {
            active_monitor = monitor.name.clone();
        }
        visible_workspaces.push(
            WorkspaceVisible {
                output: monitor.name.clone(),
                workspace_name: monitor.active_workspace.clone(),
            },
        );
        proof {
            assert(monitors@.take(index + 1).drop_last() =~= monitors@.take(index as int));
            assert(monitors@.take(index + 1).last() == monitors@[index as int]);
            assert forall|j: int| 0 <= j < index + 1 implies events_view(
                visible_workspaces@,
            )[j] == visible_on(monitors@.take(index + 1))[j] by {
                if j < index {
                    assert(visible_workspaces@[j] == seen[j]);
                    assert(events_view(seen)[j] == visible_on(monitors@.take(index as int))[j]);
                    assert(monitors@.take(index as int)[j] == monitors@.take(index + 1)[j]);
                }
            }
            assert(events_view(visible_workspaces@) =~= visible_on(
                monitors@.take(index + 1),
            ));
        }
        index += 1;
    }
    proof {
        assert(monitors@.take(index as int) =~= monitors@);
    }
    CurrentState { active_monitor, visible_workspaces }
}

/// The reader of Hyprland's event socket.
pub struct HyprlandConnectionTask {
    buf: Vec<u8>,
    filled: usize,
    parsed: usize,
    active_monitor: String,
    failed: Option<HyprlandError>,
}

impl View for HyprlandConnectionTask {
    type V = TaskView;

    closed spec fn view(&self) -> TaskView {
        TaskView {
            pending: self.buf@.subrange(self.parsed as int, self.filled as int),
            active_monitor: self.active_monitor@,
            failed: self.failed,
        }
    }
}

impl HyprlandConnectionTask {
    /// The taken bytes lie before the pending ones, and both in the buffer.
    pub closed spec fn wf(&self) -> bool {
        self.parsed <= self.filled <= self.buf@.len()
    }

    /// A task that has read nothing, knows no focused monitor and has not
    /// failed.
    pub fn new() -> (task: Self)
        ensures
            task.wf(),
            task@ == TaskView::initial(),
    {
        let mut buf: Vec<u8> = Vec::new();
        buf.resize(INITIAL_BUFFER, 0u8);
        let task = HyprlandConnectionTask {
            buf,
            filled: 0,
            parsed: 0,
            active_monitor: String::new(),
            failed: None,
        };
        proof {
            assert(task@.pending =~= Seq::<u8>::empty());
        }
        task
    }

    /// Sets the focused monitor, as a monitors request reported it.
    pub fn set_active_monitor(&mut self, active_monitor: String)
        requires
            old(self).wf(),
        ensures
            final(self).wf(),
            final(self)@ == (TaskView { active_monitor: active_monitor@, ..old(self)@ }),
    {
        self.active_monitor = active_monitor;
    }

    /// The number of bytes read and not yet taken.
    pub fn pending_len(&self) -> (len: usize)
        requires
            self.wf(),
        ensures
            len == self@.pending.len(),
    {
        self.filled - self.parsed
    }

    /// Moves the pending bytes to the start of the buffer.
    fn compact(&mut self)
        requires
            old(self).wf(),
        ensures
            final(self).wf(),
            final(self)@ == old(self)@,
            final(self).parsed == 0,
    {
        if self.parsed == 0 {
            return ;
        }
        let count: usize = self.filled - self.parsed;
        let start: usize = self.parsed;
        let ghost before = self.buf@;
        let mut index: usize = 0;
        while index < count
            invariant
                index <= count,
                start + count <= self.buf@.len(),
                self.buf@.len() == before.len(),
                start > 0,
                self.parsed == start,
                self.filled == start + count,
                self.active_monitor == old(self).active_monitor,
                self.failed == old(self).failed,
                forall|k: int| 0 <= k < index ==> self.buf@[k] == before[start + k],
                forall|k: int| index <= k < before.len() ==> self.buf@[k] == before[k],
            decreases count - index,
        {
            let byte = self.buf[start + index];
            self.buf[index] = byte;
            index += 1;
        }
        self.filled = count;
        self.parsed = 0;
        proof {
            assert(self@.pending =~= old(self)@.pending);
        }
    }

    /// Takes in bytes read from the socket: see [`TaskView::fed`]. They
    /// follow the pending ones. They are refused by a task that has failed,
    /// and where the pending bytes and the new ones together are more than
    /// this machine can address, which makes the task fail.
    pub fn feed(&mut self, bytes: &[u8]) -> (fed: Result<(), HyprlandError>)
        requires
            old(self).wf(),
        ensures
            final(self).wf(),
            (final(self)@, fed) == old(self)@.fed(bytes@),
    {
        match self.failed {
            Some(error) => {
                return Err(error);
            },
            None => {},
        }
        self.compact();
        let count: usize = bytes.len();
        if count > usize::MAX - self.filled {
            self.failed = Some(HyprlandError::BufferOverflow);
            return Err(HyprlandError::BufferOverflow);
        }
        let needed: usize = self.filled + count;
        if needed > self.buf.len() {
            let doubled: usize = if self.buf.len() <= usize::MAX / 2 {
                self.buf.len() * 2
            } else {
                usize::MAX
            };
            let grown: usize = if doubled >= needed {
                doubled
            } else {
                needed
            };
            let ghost small = self.buf@;
            self.buf.resize(grown, 0u8);
            proof {
                assert forall|k: int| 0 <= k < small.len() implies self.buf@[k] == small[k] by {
                    assert(self.buf@.subrange(0, small.len() as int)[k] == small[k]);
                }
                assert(self@.pending =~= old(self)@.pending);
            }
        }
        let start: usize = self.filled;
        let ghost before = self.buf@;
        let mut index: usize = 0;
        while index < count
            invariant
                index <= count,
                count == bytes@.len(),
                start + count <= self.buf@.len(),
                self.buf@.len() == before.len(),
                start + count == needed,
                self.parsed == 0,
                self.filled == start,
                self.active_monitor@ == old(self).active_monitor@,
                self.failed == old(self).failed,
                forall|k: int| 0 <= k < start ==> self.buf@[k] == before[k],
                forall|k: int| 0 <= k < index ==> self.buf@[start + k] == bytes@[k],
            decreases count - index,
        {
            self.buf[start + index] = bytes[index];
            index += 1;
        }
        self.filled = needed;
        proof {
            assert(self@.pending =~= old(self)@.pending + bytes@);
        }
        Ok(())
    }

    /// Takes the first record from the pending bytes and says what it asks
    /// for: see [`TaskView::step`]. A `workspace` record gives an event for
    /// the focused monitor; a `focusedmon` record changes the focused
    /// monitor; `moveworkspace` and `renameworkspace` ask for the monitors
    /// anew; every other record asks for nothing. A record that breaks the
    /// protocol is the task's last: every step after it fails as it did.
    pub fn next_step(&mut self) -> (step: Step)
        requires
            old(self).wf(),
        ensures
            final(self).wf(),
            (final(self)@, step@) == old(self)@.step(),
    {
        match self.failed {
            Some(error) => {
                return Step::Fatal(error);
            },
            None => {},
        }
        let ghost pending = self@.pending;
        let ghost parsed = self.parsed as int;
        let gt = match find_byte(self.buf.as_slice(), GREATER_THAN, self.parsed, self.filled) {
            None => {
                proof {
                    assert forall|j: int| 0 <= j < pending.len() implies pending[j]
                        != GREATER_THAN by {
                        assert(pending[j] == self.buf@[parsed + j]);
                    }
                    lemma_first_byte_absent(pending, GREATER_THAN, 0);
                }
                self.compact();
                return Step::NeedMore;
            },
            Some(gt) => gt,
        };
        proof {
            assert forall|j: int| 0 <= j < gt - parsed implies pending[j] != GREATER_THAN by {
                assert(pending[j] == self.buf@[parsed + j]);
            }
            assert(pending[gt - parsed] == self.buf@[gt as int]);
            lemma_first_byte_is(pending, GREATER_THAN, 0, gt - parsed);
        }
        let lf = match find_byte(self.buf.as_slice(), LINE_FEED, gt + 1, self.filled) {
            None => {
                proof {
                    assert forall|j: int| gt + 1 - parsed <= j < pending.len() implies pending[j]
                        != LINE_FEED by {
                        assert(pending[j] == self.buf@[parsed + j]);
                    }
                    lemma_first_byte_absent(pending, LINE_FEED, gt + 1 - parsed);
                }
                self.compact();
                return Step::NeedMore;
            },
            Some(lf) => lf,
        };
        proof {
            assert forall|j: int| gt + 1 - parsed <= j < lf - parsed implies pending[j]
                != LINE_FEED by {
                assert(pending[j] == self.buf@[parsed + j]);
            }
            assert(pending[lf - parsed] == self.buf@[lf as int]);
            lemma_first_byte_is(pending, LINE_FEED, gt + 1 - parsed, lf - parsed);
        }
        let name = copy_range(self.buf.as_slice(), self.parsed, gt);
        let data = copy_range(self.buf.as_slice(), gt + 1, lf);
        self.parsed = lf + 1;
        proof {
            let record = next_record(pending)->0;
            assert(name@ =~= record.name);
            assert(data@ =~= record.data);
            assert(self@.pending =~= pending.skip(record.consumed));
        }
        let step = self.read_record(name.as_slice(), data);
        match &step {
            Step::Fatal(error) => {
                self.failed = Some(*error);
            },
            _ => {},
        }
        step
    }

    /// What a record asks for: see [`record_meaning`]. The focused monitor
    /// follows a `focusedmon` record.
    fn read_record(&mut self, name: &[u8], data: Vec<u8>) -> (step: Step)
        requires
            old(self).wf(),
        ensures
            final(self).wf(),
            step@ == record_meaning(
                Record { name: name@, data: data@, consumed: 0 },
                old(self)@.active_monitor,
            ).0,
            final(self)@ == (TaskView {
                active_monitor: record_meaning(
                    Record { name: name@, data: data@, consumed: 0 },
                    old(self)@.active_monitor,
                ).1,
                ..old(self)@
            }),
    {
        if bytes_equal(name, "workspace".as_bytes()) {
            match string_from_utf8(data) {
                Some(workspace_name) => Step::Emit(
                    WorkspaceVisible { output: self.active_monitor.clone(), workspace_name },
                ),
                None => Step::Fatal(HyprlandError::InvalidUtf8),
            }
        } else if bytes_equal(name, "focusedmon".as_bytes()) {
            let comma = match find_byte(data.as_slice(), COMMA, 0, data.len()) {
                None => {
                    proof {
                        lemma_first_byte_absent(data@, COMMA, 0);
                    }
                    return Step::Fatal(HyprlandError::MissingComma);
                },
                Some(comma) => comma,
            };
            proof {
                lemma_first_byte_is(data@, COMMA, 0, comma as int);
            }
            let monitor = copy_range(data.as_slice(), 0, comma);
            match string_from_utf8(monitor) {
                Some(active_monitor) => {
                    self.active_monitor = active_monitor;
                    Step::Consumed
                },
                None => Step::Fatal(HyprlandError::InvalidUtf8),
            }
        } else if bytes_equal(name, "moveworkspace".as_bytes()) || bytes_equal(
            name,
            "renameworkspace".as_bytes(),
        ) {
            Step::Requery
        } else {
            Step::Consumed
        }
    }
}

} // verus!
