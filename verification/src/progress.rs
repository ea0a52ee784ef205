//! The progress reporter: one indicator per work item.
//!
//! Indicators exist in the order of the items. Each goes from pending to
//! running to done, and one that is done never changes again.

use vstd::prelude::*;
use vstd::string::StringExecFns;
use crate::config::LoopConfig;
use crate::decimal::{decimal, signed_text, unsigned_text};

verus! {

/// The state of one indicator.
#[derive(Debug, Clone, Copy, PartialEq, Eq, Structural)]
pub enum ProgressState {
    /// No worker has picked the item up.
    Pending,
    /// A worker is on the item.
    Running,
    /// The item is done; a failure carries its exit code.
    Done { success: bool, exit_code: i32 },
}

/// What happens to one item.
#[derive(Debug, Clone, Copy, PartialEq, Eq, Structural)]
pub enum ProgressEvent {
    /// A worker picked the item up.
    Started,
    /// The item completed.
    Finished { success: bool, exit_code: i32 },
}

/// The state of an indicator after an event. A start moves a pending
/// indicator to running; a completion ends any indicator that is not done;
/// nothing moves an indicator that is done.
pub open spec fn advance(state: ProgressState, event: ProgressEvent) -> ProgressState {
    match state {
        ProgressState::Done { .. } => state,
        _ => match event {
            ProgressEvent::Started => ProgressState::Running,
            ProgressEvent::Finished { success, exit_code } => ProgressState::Done {
                success,
                exit_code,
            },
        },
    }
}

/// The state of an indicator after a sequence of events.
pub open spec fn advance_all(state: ProgressState, events: Seq<ProgressEvent>) -> ProgressState
    decreases events.len(),
{
    if events.len() == 0 {
        state
    } else {
        advance(advance_all(state, events.drop_last()), events.last())
    }
}

/// An indicator that is done stays as it is, whatever happens after.
pub proof fn lemma_done_is_final(state: ProgressState, events: Seq<ProgressEvent>)
    requires
        state is Done,
    ensures
        advance_all(state, events) == state,
    decreases events.len(),
{
    if events.len() > 0 {
        lemma_done_is_final(state, events.drop_last());
    }
}

/// The state of an indicator after an event.
pub fn step(state: ProgressState, event: ProgressEvent) -> (next: ProgressState)
    ensures
        next == advance(state, event),
{
    match state {
        ProgressState::Done { .. } => state,
        _ => match event {
            ProgressEvent::Started => ProgressState::Running,
            ProgressEvent::Finished { success, exit_code } => ProgressState::Done {
                success,
                exit_code,
            },
        },
    }
}

/// Whether indicators are shown: only in a concurrent run whose output goes
/// to an interactive display and whose report is not the structured
/// document.
pub fn progress_shown(config: &LoopConfig, interactive: bool) -> (shown: bool)
    ensures
        shown == (config.parallel && interactive && !config.json_output),
{
    config.parallel && interactive && !config.json_output
}

/// Whether a completed item of a concurrent run gets a marker line of its
/// own: where no indicators are shown, the report is textual and the run
/// is not silent.
pub fn completion_line_due(config: &LoopConfig, interactive: bool) -> (due: bool)
    ensures
        due == (config.parallel && !interactive && !config.json_output && !config.silent),
{
    config.parallel && !interactive && !config.json_output && !config.silent
}

/// What an indicator shows for its state.
pub open spec fn label_text(state: ProgressState) -> Seq<char> {
    match state {
        ProgressState::Pending => "…"@,
        ProgressState::Running => "running"@,
        ProgressState::Done { success, exit_code } => if success {
            "✓"@
        } else {
            "✗ (exit code "@ + decimal(exit_code as int) + ")"@
        },
    }
}

/// What an indicator shows for its state.
pub fn label(state: ProgressState) -> (text: String)
    ensures
        text@ == label_text(state),
{
    match state {
        ProgressState::Pending => "…".to_owned(),
        ProgressState::Running => "running".to_owned(),
        ProgressState::Done { success, exit_code } => {
            if success {
                "✓".to_owned()
            } else {
                let mut text = "✗ (exit code ".to_owned();
                text.append(signed_text(exit_code as i64).as_str());
                text.append(")");
                text
            }
        },
    }
}

/// The line of one item: its position, counted from one, in brackets, then
/// its directory and what its indicator shows.
pub open spec fn position_line(index: nat, directory: Seq<char>, state: ProgressState) -> Seq<
    char,
> {
    "["@ + decimal(index as int + 1) + "] "@ + directory + " "@ + label_text(state)
}

/// The line of the item at position `index`.
pub fn item_line(index: usize, directory: &str, state: ProgressState) -> (line: String)
    requires
        index < usize::MAX,
    ensures
        line@ == position_line(index as nat, directory@, state),
{
    let mut line = "[".to_owned();
    line.append(unsigned_text((index + 1) as u64).as_str());
    line.append("] ");
    line.append(directory);
    line.append(" ");
    line.append(label(state).as_str());
    line
}

/// The indicators of a run, in the order of the items.
pub struct ProgressBoard {
    states: Vec<ProgressState>,
}

impl ProgressBoard {
    /// The state of each indicator.
    pub closed spec fn view(&self) -> Seq<ProgressState> {
        self.states@
    }

    /// One pending indicator for each of `count` items.
    pub fn new(count: usize) -> (board: ProgressBoard)
        ensures
            board@ =~= Seq::new(count as nat, |i: int| ProgressState::Pending),
    {
        let mut states: Vec<ProgressState> = Vec::new();
        let mut i: usize = 0;
        while i < count
            invariant
                i <= count,
                states@ =~= Seq::new(i as nat, |j: int| ProgressState::Pending),
            decreases count - i,
        {
            states.push(ProgressState::Pending);
            i += 1;
        }
        ProgressBoard { states }
    }

    /// The number of indicators.
    pub fn len(&self) -> (n: usize)
        ensures
            n == self@.len(),
    {
        self.states.len()
    }

    /// The state of the indicator at `index`.
    pub fn state(&self, index: usize) -> (s: ProgressState)
        requires
            index < self@.len(),
        ensures
            s == self@[index as int],
    {
        self.states[index]
    }

    /// Applies an event to the indicator at `index` and returns its new
    /// state. No other indicator changes.
    pub fn update(&mut self, index: usize, event: ProgressEvent) -> (next: ProgressState)
        requires
            index < old(self)@.len(),
        ensures
            next == advance(old(self)@[index as int], event),
            final(self)@ == old(self)@.update(index as int, next),
    {
        let next = step(self.states[index], event);
        self.states[index] = next;
        next
    }
}

} // verus!
