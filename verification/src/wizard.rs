//! The alias wizard: it takes the aliases of the user's shell into the
//! global alias file, asking before each step.
//!
//! The wizard is a state machine. The caller reads the file, puts the
//! questions, runs the shell and writes the file; `wizard_step` takes what
//! came of the last action and says what the next one is.

use vstd::prelude::*;
use vstd::string::StringExecFns;
use crate::alias::alias_file_tree;
use crate::json::pretty_text;
use crate::report::{lines_of, ReportLine, Tone};
use crate::shell::{add_shell_aliases, aliases_from};
use crate::text::{chars_of, trim_class, trimmed, CharClass};
use crate::source::{aliases_of_text, contribution, load_aliases_from_file, source_aliases,
    AliasSourceError};

verus! {

/// One line of a comparison of two texts.
#[derive(Debug, Clone)]
pub enum DiffLine {
    /// A line of the old text alone.
    Removed(String),
    /// A line of both texts.
    Kept(String),
    /// A line of the new text alone.
    Added(String),
}

/// What a `DiffLine` holds.
pub enum DiffData {
    Removed(Seq<char>),
    Kept(Seq<char>),
    Added(Seq<char>),
}

impl View for DiffLine {
    type V = DiffData;

    open spec fn view(&self) -> DiffData {
        match self {
            DiffLine::Removed(s) => DiffData::Removed(s@),
            DiffLine::Kept(s) => DiffData::Kept(s@),
            DiffLine::Added(s) => DiffData::Added(s@),
        }
    }
}

/// What each line of a comparison holds.
pub open spec fn diff_of(lines: Seq<DiffLine>) -> Seq<DiffData> {
    Seq::new(lines.len(), |i: int| lines[i]@)
}

/// The comparison that `diff::lines` computes of two texts, line by line.
pub uninterp spec fn line_diff(left: Seq<char>, right: Seq<char>) -> Seq<DiffData>;

/// `diff::lines`: the line-by-line comparison of `left` and `right`. A
/// fragment of the left text alone becomes `Removed`, one of the right text
/// alone `Added`, and one of both `Kept`, with the line of the left text.
#[verifier::external_body]
fn diff_lines(left: &str, right: &str) -> (out: Vec<DiffLine>)
    ensures
        diff_of(out@) == line_diff(left@, right@),
{
    diff::lines(left, right).into_iter().map(
        |fragment|
            match fragment {
                diff::Result::Left(line) => DiffLine::Removed(line.to_string()),
                diff::Result::Both(line, _) => DiffLine::Kept(line.to_string()),
                diff::Result::Right(line) => DiffLine::Added(line.to_string()),
            },
    ).collect()
}

/// The preview line of one line of a comparison: a removed line in red
/// behind a minus, a kept line behind a blank, an added line in green behind
/// a plus.
pub open spec fn preview_line(line: DiffData) -> (Tone, Seq<char>) {
    match line {
        DiffData::Removed(s) => (Tone::Bad, seq!['-'] + s),
        DiffData::Kept(s) => (Tone::Plain, seq![' '] + s),
        DiffData::Added(s) => (Tone::Good, seq!['+'] + s),
    }
}

/// The preview of a comparison.
pub open spec fn preview_of(diff: Seq<DiffData>) -> Seq<(Tone, Seq<char>)> {
    Seq::new(diff.len(), |i: int| preview_line(diff[i]))
}

/// The preview of a change of the file from `existing` to `content`: the
/// comparison of the two where the file had text, the new text in green
/// where it had none.
pub open spec fn preview(existing: Seq<char>, content: Seq<char>) -> Seq<(Tone, Seq<char>)> {
    if existing.len() == 0 {
        seq![(Tone::Good, content)]
    } else {
        preview_of(line_diff(existing, content))
    }
}

fn marked(mark: &str, line: &str) -> (out: String)
    ensures
        out@ == mark@ + line@,
{
    let mut out = mark.to_owned();
    out.append(line);
    out
}

/// The preview of a comparison.
pub fn render_diff(diff: &Vec<DiffLine>) -> (lines: Vec<ReportLine>)
    ensures
        lines_of(lines@) == preview_of(diff_of(diff@)),
{
    proof {
        reveal_strlit("-");
        reveal_strlit(" ");
        reveal_strlit("+");
    }
    let mut lines: Vec<ReportLine> = Vec::new();
    let mut i: usize = 0;
    while i < diff.len()
        invariant
            i <= diff.len(),
            lines@.len() == i,
            "-"@ =~= seq!['-'],
            " "@ =~= seq![' '],
            "+"@ =~= seq!['+'],
            forall|j: int|
                0 <= j < i ==> (#[trigger] lines@[j].tone, lines@[j].text@) == preview_line(
                    diff@[j]@,
                ),
        decreases diff.len() - i,
    {
        let line = match &diff[i] {
            DiffLine::Removed(s) => ReportLine { tone: Tone::Bad, text: marked("-", s.as_str()) },
            DiffLine::Kept(s) => ReportLine { tone: Tone::Plain, text: marked(" ", s.as_str()) },
            DiffLine::Added(s) => ReportLine { tone: Tone::Good, text: marked("+", s.as_str()) },
        };
        lines.push(line);
        i += 1;
    }
    assert(lines_of(lines@) =~= preview_of(diff_of(diff@)));
    lines
}

/// The preview of a change of the file from `existing` to `content`.
pub fn render_preview(existing: &str, content: &str) -> (lines: Vec<ReportLine>)
    ensures
        lines_of(lines@) == preview(existing@, content@),
{
    if existing.unicode_len() == 0 {
        let mut lines: Vec<ReportLine> = Vec::new();
        lines.push(ReportLine { tone: Tone::Good, text: content.to_owned() });
        assert(lines_of(lines@) =~= preview(existing@, content@));
        lines
    } else {
        let diff = diff_lines(existing, content);
        render_diff(&diff)
    }
}

/// How the wizard ended.
#[derive(Debug, Clone, Copy, PartialEq, Eq, Structural)]
pub enum WizardEnd {
    /// The file was written.
    Applied,
    /// The user said no.
    Cancelled,
    /// The file on disk declares no aliases.
    BadFile(AliasSourceError),
    /// The new file could not be printed.
    Unprintable,
    /// Something came in that the wizard did not wait for.
    Unexpected,
}

/// A question to the user.
#[derive(Debug, Clone, Copy, PartialEq, Eq, Structural)]
pub enum Question {
    /// Whether to create the file, which does not exist.
    CreateFile,
    /// Whether to set the file's aliases.
    SetAliases,
    /// Whether to apply the change shown.
    ApplyChanges,
}

/// Whether an answer is a yes: trimmed of white space, it is the letter
/// `y` in either case. Anything else is a no.
pub open spec fn affirmative(answer: Seq<char>) -> bool {
    let word = trimmed(answer, CharClass::Space);
    word == seq!['y'] || word == seq!['Y']
}

/// Whether an answer is a yes.
pub fn is_yes(answer: &str) -> (yes: bool)
    ensures
        yes == affirmative(answer@),
{
    let word = trim_class(&chars_of(answer), CharClass::Space);
    let yes = word.len() == 1 && (word[0] == 'y' || word[0] == 'Y');
    proof {
        if yes {
            assert(word@ =~= seq![word@[0]]);
        }
        if affirmative(answer@) {
            assert(word@.len() == 1);
        }
    }
    yes
}

/// The text of a question, without the hint at the answers.
pub open spec fn question_text(question: Question) -> Seq<char> {
    match question {
        Question::CreateFile =>
            "The global .looprc file does not exist. Do you want to create it?"@,
        Question::SetAliases => "Do you want to set the value of the 'aliases' property?"@,
        Question::ApplyChanges => "Do you want to apply these changes?"@,
    }
}

/// The prompt for a question: its text and the hint that no is the default.
pub fn prompt(question: Question) -> (line: String)
    ensures
        line@ == question_text(question) + " [y/N]: "@,
{
    let mut line = match question {
        Question::CreateFile =>
            "The global .looprc file does not exist. Do you want to create it?".to_owned(),
        Question::SetAliases =>
            "Do you want to set the value of the 'aliases' property?".to_owned(),
        Question::ApplyChanges => "Do you want to apply these changes?".to_owned(),
    };
    line.append(" [y/N]: ");
    line
}

/// Where the wizard stands.
#[derive(Debug, Clone)]
pub enum WizardState {
    /// Waiting for the global alias file.
    Start,
    /// Asked whether to create the file.
    ConfirmCreate,
    /// Asked whether to set the aliases; `existing` is the file's text.
    ConfirmSet { existing: String },
    /// Waiting for the shell's alias listing.
    AwaitListing { existing: String },
    /// Asked whether to apply; `content` is the new text of the file.
    ConfirmApply { content: String },
    /// Waiting for the file to be written.
    Writing,
    /// Over.
    Finished(WizardEnd),
}

/// What came of the wizard's last action.
#[derive(Debug, Clone)]
pub enum WizardEvent {
    /// The global alias file does not exist.
    FileMissing,
    /// The global alias file holds this text.
    FileRead(String),
    /// The user's answer to the question.
    Answer(bool),
    /// The shell's alias listing.
    Listing(String),
    /// The file was written.
    Written,
}

/// What the caller does next.
#[derive(Debug, Clone)]
pub enum WizardAction {
    /// Put the question and hand in the answer.
    Ask(Question),
    /// Run the shell's `alias` builtin and hand in what it printed.
    RunShell,
    /// Show the preview, then put the question whether to apply.
    Preview(Vec<ReportLine>),
    /// Write this text to the global alias file.
    Write(String),
    /// Stop.
    Stop(WizardEnd),
}

/// What a `WizardState` holds.
pub enum StateData {
    Start,
    ConfirmCreate,
    ConfirmSet(Seq<char>),
    AwaitListing(Seq<char>),
    ConfirmApply(Seq<char>),
    Writing,
    Finished(WizardEnd),
}

/// What a `WizardEvent` holds.
pub enum EventData {
    FileMissing,
    FileRead(Seq<char>),
    Answer(bool),
    Listing(Seq<char>),
    Written,
}

/// What a `WizardAction` holds.
pub enum ActionData {
    Ask(Question),
    RunShell,
    Preview(Seq<(Tone, Seq<char>)>),
    Write(Seq<char>),
    Stop(WizardEnd),
}

impl View for WizardState {
    type V = StateData;

    open spec fn view(&self) -> StateData {
        match self {
            WizardState::Start => StateData::Start,
            WizardState::ConfirmCreate => StateData::ConfirmCreate,
            WizardState::ConfirmSet { existing } => StateData::ConfirmSet(existing@),
            WizardState::AwaitListing { existing } => StateData::AwaitListing(existing@),
            WizardState::ConfirmApply { content } => StateData::ConfirmApply(content@),
            WizardState::Writing => StateData::Writing,
            WizardState::Finished(end) => StateData::Finished(*end),
        }
    }
}

impl View for WizardEvent {
    type V = EventData;

    open spec fn view(&self) -> EventData {
        match self {
            WizardEvent::FileMissing => EventData::FileMissing,
            WizardEvent::FileRead(text) => EventData::FileRead(text@),
            WizardEvent::Answer(yes) => EventData::Answer(*yes),
            WizardEvent::Listing(text) => EventData::Listing(text@),
            WizardEvent::Written => EventData::Written,
        }
    }
}

impl View for WizardAction {
    type V = ActionData;

    open spec fn view(&self) -> ActionData {
        match self {
            WizardAction::Ask(question) => ActionData::Ask(*question),
            WizardAction::RunShell => ActionData::RunShell,
            WizardAction::Preview(lines) => ActionData::Preview(lines_of(lines@)),
            WizardAction::Write(text) => ActionData::Write(text@),
            WizardAction::Stop(end) => ActionData::Stop(*end),
        }
    }
}

/// The wizard stops with `end`.
pub open spec fn stop(end: WizardEnd) -> (StateData, ActionData) {
    (StateData::Finished(end), ActionData::Stop(end))
}

/// The new text of the file: the alias file that declares the aliases of
/// `existing` with those of the shell's listing laid over them.
pub open spec fn new_content(existing: Seq<char>, listing: Seq<char>) -> Option<Seq<char>> {
    pretty_text(
        alias_file_tree("aliases"@, aliases_from(listing, 0, contribution(Some(existing)))),
    )
}

/// The wizard's next state and action.
///
/// A file that exists must declare aliases, or the wizard stops; one that
/// does not exist is created only on a yes. After a yes to setting the
/// aliases the shell is asked for its listing, the new text is shown against
/// the old, and after a last yes it is written. A no stops the wizard at
/// any question, and so does anything that comes out of turn.
pub open spec fn next_step(state: StateData, event: EventData) -> (StateData, ActionData) {
    match (state, event) {
        (StateData::Start, EventData::FileMissing) => (
            StateData::ConfirmCreate,
            ActionData::Ask(Question::CreateFile),
        ),
        (StateData::Start, EventData::FileRead(text)) => match aliases_of_text(text) {
            Ok(_) => (StateData::ConfirmSet(text), ActionData::Ask(Question::SetAliases)),
            Err(e) => stop(WizardEnd::BadFile(e)),
        },
        (StateData::ConfirmCreate, EventData::Answer(yes)) => if yes {
            (StateData::ConfirmSet(Seq::empty()), ActionData::Ask(Question::SetAliases))
        } else {
            stop(WizardEnd::Cancelled)
        },
        (StateData::ConfirmSet(existing), EventData::Answer(yes)) => if yes {
            (StateData::AwaitListing(existing), ActionData::RunShell)
        } else {
            stop(WizardEnd::Cancelled)
        },
        (StateData::AwaitListing(existing), EventData::Listing(listing)) => match new_content(
            existing,
            listing,
        ) {
            Some(content) => (
                StateData::ConfirmApply(content),
                ActionData::Preview(preview(existing, content)),
            ),
            None => stop(WizardEnd::Unprintable),
        },
        (StateData::ConfirmApply(content), EventData::Answer(yes)) => if yes {
            (StateData::Writing, ActionData::Write(content))
        } else {
            stop(WizardEnd::Cancelled)
        },
        (StateData::Writing, EventData::Written) => stop(WizardEnd::Applied),
        _ => stop(WizardEnd::Unexpected),
    }
}

fn halt(end: WizardEnd) -> (r: (WizardState, WizardAction))
    ensures
        (r.0@, r.1@) == stop(end),
{
    (WizardState::Finished(end), WizardAction::Stop(end))
}

/// The first state of the wizard; the caller then looks for the global
/// alias file.
pub fn add_aliases_to_global_looprc() -> (state: WizardState)
    ensures
        state@ == StateData::Start,
{
    WizardState::Start
}

/// The wizard's next state and action, given what came of its last action.
pub fn wizard_step(state: WizardState, event: WizardEvent) -> (r: (WizardState, WizardAction))
    ensures
        (r.0@, r.1@) == next_step(state@, event@),
{
    match (state, event) {
        (WizardState::Start, WizardEvent::FileMissing) => (
            WizardState::ConfirmCreate,
            WizardAction::Ask(Question::CreateFile),
        ),
        (WizardState::Start, WizardEvent::FileRead(text)) => {
            match load_aliases_from_file(text.as_str()) {
                Ok(_) => (
                    WizardState::ConfirmSet { existing: text },
                    WizardAction::Ask(Question::SetAliases),
                ),
                Err(e) => halt(WizardEnd::BadFile(e)),
            }
        },
        (WizardState::ConfirmCreate, WizardEvent::Answer(yes)) => {
            if yes {
                (
                    WizardState::ConfirmSet { existing: String::new() },
                    WizardAction::Ask(Question::SetAliases),
                )
            } else {
                halt(WizardEnd::Cancelled)
            }
        },
        (WizardState::ConfirmSet { existing }, WizardEvent::Answer(yes)) => {
            if yes {
                (WizardState::AwaitListing { existing }, WizardAction::RunShell)
            } else {
                halt(WizardEnd::Cancelled)
            }
        },
        (WizardState::AwaitListing { existing }, WizardEvent::Listing(listing)) => {
            let mut table = source_aliases(Some(existing.as_str()));
            add_shell_aliases(&mut table, listing.as_str());
            match table.to_document() {
                Some(content) => {
                    let lines = render_preview(existing.as_str(), content.as_str());
                    (WizardState::ConfirmApply { content }, WizardAction::Preview(lines))
                },
                None => halt(WizardEnd::Unprintable),
            }
        },
        (WizardState::ConfirmApply { content }, WizardEvent::Answer(yes)) => {
            if yes {
                (WizardState::Writing, WizardAction::Write(content))
            } else {
                halt(WizardEnd::Cancelled)
            }
        },
        (WizardState::Writing, WizardEvent::Written) => halt(WizardEnd::Applied),
        _ => halt(WizardEnd::Unexpected),
    }
}

} // verus!
