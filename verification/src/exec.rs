//! The unit executor: what is done for one command in one directory.
//!
//! The library decides and records; the caller looks at the disk and runs
//! the child process. `execute_command_in_directory` says for one work item
//! whether a process is to be spawned and with which command line, and
//! `complete` turns what the caller saw of that process into the outcome.

use vstd::prelude::*;
use vstd::string::StringExecFns;
use crate::alias::{pairs_of, table_of, AliasTable, TextTable};
use crate::config::LoopConfig;
use crate::decimal::{decimal, signed_text};
use crate::resolve::{effective_command, resolve_command};

verus! {

/// The recorded result of one work item.
#[derive(Debug, Clone)]
pub struct CommandResult {
    /// Whether the item succeeded.
    pub success: bool,
    /// The exit code of the process; -1 where none could be had.
    pub exit_code: i32,
    /// The directory of the item.
    pub directory: String,
    /// The command line after alias resolution.
    pub command: String,
    /// The captured standard output; empty where nothing was captured.
    pub stdout: String,
    /// The captured standard error; empty where nothing was captured.
    pub stderr: String,
}

/// What a `CommandResult` holds.
pub struct Outcome {
    pub success: bool,
    pub exit_code: i32,
    pub directory: Seq<char>,
    pub command: Seq<char>,
    pub stdout: Seq<char>,
    pub stderr: Seq<char>,
}

impl View for CommandResult {
    type V = Outcome;

    open spec fn view(&self) -> Outcome {
        Outcome {
            success: self.success,
            exit_code: self.exit_code,
            directory: self.directory@,
            command: self.command@,
            stdout: self.stdout@,
            stderr: self.stderr@,
        }
    }
}

impl Default for CommandResult {
    /// A failed result with exit code 0 and empty texts.
    fn default() -> (r: CommandResult)
        ensures
            r@ == (Outcome {
                success: false,
                exit_code: 0,
                directory: Seq::empty(),
                command: Seq::empty(),
                stdout: Seq::empty(),
                stderr: Seq::empty(),
            }),
    {
        CommandResult {
            success: false,
            exit_code: 0,
            directory: String::new(),
            command: String::new(),
            stdout: String::new(),
            stderr: String::new(),
        }
    }
}

/// The variables of a process, from name to value.
pub type Environment = TextTable;

/// How the streams of a child process are connected.
#[derive(Debug, Clone, Copy, PartialEq, Eq, Structural)]
pub enum ExecutionMode {
    /// The child writes to the caller's own streams.
    Stream,
    /// The child's output is buffered and printed later.
    Capture,
}

/// How a child process ended, as the caller saw it.
#[derive(Debug, Clone)]
pub enum ChildExit {
    /// The process exited with this code.
    Code(i32),
    /// The process ended without an exit code, as by a signal.
    Unavailable,
    /// The process could not be started; the text says why.
    LaunchFailed(String),
}

/// A process to spawn for one work item.
#[derive(Debug, Clone)]
pub struct SpawnRequest {
    /// The working directory of the process.
    pub directory: String,
    /// The command line for the command interpreter.
    pub command: String,
    /// How the streams are connected.
    pub mode: ExecutionMode,
    /// Whether the streams of a streaming process are discarded.
    pub silent: bool,
    /// Whether the directory is named before the process starts.
    pub verbose: bool,
}

/// What is to be done for one work item.
#[derive(Debug, Clone)]
pub enum Launch {
    /// Nothing is spawned: the outcome is known.
    Finished(CommandResult),
    /// This process is to be spawned.
    Spawn(SpawnRequest),
}

/// The mode of a run: capturing where the run is concurrent or its report
/// is the structured document, streaming otherwise.
pub open spec fn mode_of(parallel: bool, json_output: bool) -> ExecutionMode {
    if parallel || json_output {
        ExecutionMode::Capture
    } else {
        ExecutionMode::Stream
    }
}

/// The outcome for a directory that does not exist: a failure with exit
/// code 1, the command line as it was given and nothing captured.
pub open spec fn missing_outcome(directory: Seq<char>, command: Seq<char>) -> Outcome {
    Outcome {
        success: false,
        exit_code: 1,
        directory,
        command,
        stdout: Seq::empty(),
        stderr: Seq::empty(),
    }
}

/// The note that a dry run records in place of output.
pub open spec fn dry_run_note(directory: Seq<char>, effective: Seq<char>) -> Seq<char> {
    "[dry-run] would run: "@ + effective + " (in "@ + directory + ")"@
}

/// The outcome of a dry run: a success with exit code 0 whose captured
/// output says what would have run.
pub open spec fn dry_run_outcome(directory: Seq<char>, effective: Seq<char>) -> Outcome {
    Outcome {
        success: true,
        exit_code: 0,
        directory,
        command: effective,
        stdout: dry_run_note(directory, effective),
        stderr: Seq::empty(),
    }
}

/// The exit code recorded for a child: its own where it has one, else -1.
pub open spec fn recorded_code(exit: ChildExit) -> i32 {
    match exit {
        ChildExit::Code(code) => code,
        _ => -1i32,
    }
}

/// The outcome of a spawned process. It succeeded where it exited with
/// code 0. A streaming run records no output; a capturing run records what
/// was captured, and for a process that could not start the reason in place
/// of its standard error.
pub open spec fn spawned_outcome(
    directory: Seq<char>,
    effective: Seq<char>,
    mode: ExecutionMode,
    exit: ChildExit,
    stdout: Seq<char>,
    stderr: Seq<char>,
) -> Outcome {
    Outcome {
        success: exit == ChildExit::Code(0),
        exit_code: recorded_code(exit),
        directory,
        command: effective,
        stdout: match exit {
            ChildExit::LaunchFailed(_) => Seq::empty(),
            _ => if mode == ExecutionMode::Capture {
                stdout
            } else {
                Seq::empty()
            },
        },
        stderr: match exit {
            ChildExit::LaunchFailed(reason) => reason@,
            _ => if mode == ExecutionMode::Capture {
                stderr
            } else {
                Seq::empty()
            },
        },
    }
}

/// The map of an optional list of variables; an absent list holds none.
pub open spec fn overlay_map(overlay: Option<Vec<(String, String)>>) -> Map<Seq<char>, Seq<char>> {
    match overlay {
        Some(list) => table_of(pairs_of(list@)),
        None => Map::empty(),
    }
}

/// The environment of a child process: the inherited environment, the
/// overlay of the run laid over it, and the overlay of the item laid over
/// both. Where two of them set a variable, the later one counts; in each
/// list a later pair counts.
pub open spec fn overlaid(
    inherited: Seq<(Seq<char>, Seq<char>)>,
    run_overlay: Map<Seq<char>, Seq<char>>,
    item_overlay: Map<Seq<char>, Seq<char>>,
) -> Map<Seq<char>, Seq<char>> {
    table_of(inherited).union_prefer_right(run_overlay).union_prefer_right(item_overlay)
}

/// A variable of the item's overlay has its value from there; one that only
/// the run's overlay sets has it from there; any other is inherited.
pub proof fn lemma_overlay_wins(
    inherited: Seq<(Seq<char>, Seq<char>)>,
    run_overlay: Map<Seq<char>, Seq<char>>,
    item_overlay: Map<Seq<char>, Seq<char>>,
    name: Seq<char>,
)
    ensures
        overlaid(inherited, run_overlay, item_overlay).contains_key(name) <==> (table_of(
            inherited,
        ).contains_key(name) || run_overlay.contains_key(name) || item_overlay.contains_key(
            name,
        )),
        item_overlay.contains_key(name) ==> overlaid(inherited, run_overlay, item_overlay)[name]
            == item_overlay[name],
        !item_overlay.contains_key(name) && run_overlay.contains_key(name) ==> overlaid(
            inherited,
            run_overlay,
            item_overlay,
        )[name] == run_overlay[name],
        !item_overlay.contains_key(name) && !run_overlay.contains_key(name) && table_of(
            inherited,
        ).contains_key(name) ==> overlaid(inherited, run_overlay, item_overlay)[name] == table_of(
            inherited,
        )[name],
{
}

fn lay_over(env: &mut Environment, overlay: &Option<Vec<(String, String)>>)
    requires
        old(env).wf(),
    ensures
        final(env).wf(),
        final(env)@ =~= old(env)@.union_prefer_right(overlay_map(*overlay)),
{
    match overlay {
        Some(list) => {
            let over = TextTable::from_pairs(list);
            env.extend(&over);
        },
        None => {
            assert(env@ =~= env@.union_prefer_right(Map::empty()));
        },
    }
}

/// The environment of a child process.
pub fn child_environment(
    inherited: &Vec<(String, String)>,
    run_overlay: &Option<Vec<(String, String)>>,
    item_overlay: &Option<Vec<(String, String)>>,
) -> (env: Environment)
    ensures
        env.wf(),
        env@ =~= overlaid(
            pairs_of(inherited@),
            overlay_map(*run_overlay),
            overlay_map(*item_overlay),
        ),
{
    let mut env = TextTable::from_pairs(inherited);
    lay_over(&mut env, run_overlay);
    lay_over(&mut env, item_overlay);
    env
}

/// The mode of a run.
pub fn execution_mode(config: &LoopConfig) -> (mode: ExecutionMode)
    ensures
        mode == mode_of(config.parallel, config.json_output),
{
    if config.parallel || config.json_output {
        ExecutionMode::Capture
    } else {
        ExecutionMode::Stream
    }
}

/// Decides what is done for `command` in `dir`. `dir_exists` says whether
/// the directory is on disk. A missing directory fails at once; a dry run
/// succeeds at once; anything else asks for a process that runs the
/// resolved command line.
pub fn execute_command_in_directory(
    dir: &str,
    command: &str,
    config: &LoopConfig,
    aliases: &AliasTable,
    dir_exists: bool,
) -> (launch: Launch)
    requires
        aliases.wf(),
    ensures
        match launch {
            Launch::Finished(result) => if dir_exists {
                config.dry_run && result@ == dry_run_outcome(
                    dir@,
                    effective_command(command@, aliases@),
                )
            } else {
                result@ == missing_outcome(dir@, command@)
            },
            Launch::Spawn(request) => {
                &&& dir_exists
                &&& !config.dry_run
                &&& request.directory@ == dir@
                &&& request.command@ == effective_command(command@, aliases@)
                &&& request.mode == mode_of(config.parallel, config.json_output)
                &&& request.silent == config.silent
                &&& request.verbose == config.verbose
            },
        },
{
    if !dir_exists {
        return Launch::Finished(
            CommandResult {
                success: false,
                exit_code: 1,
                directory: dir.to_owned(),
                command: command.to_owned(),
                stdout: String::new(),
                stderr: String::new(),
            },
        );
    }
    let effective = resolve_command(command, aliases);
    if config.dry_run {
        let mut note = "[dry-run] would run: ".to_owned();
        note.append(effective.as_str());
        note.append(" (in ");
        note.append(dir);
        note.append(")");
        return Launch::Finished(
            CommandResult {
                success: true,
                exit_code: 0,
                directory: dir.to_owned(),
                command: effective,
                stdout: note,
                stderr: String::new(),
            },
        );
    }
    Launch::Spawn(
        SpawnRequest {
            directory: dir.to_owned(),
            command: effective,
            mode: execution_mode(config),
            silent: config.silent,
            verbose: config.verbose,
        },
    )
}

/// The outcome of a process that was spawned for `request` and ended with
/// `exit`, having written `stdout` and `stderr`.
pub fn complete(request: &SpawnRequest, exit: &ChildExit, stdout: &str, stderr: &str) -> (result:
    CommandResult)
    ensures
        result@ == spawned_outcome(
            request.directory@,
            request.command@,
            request.mode,
            *exit,
            stdout@,
            stderr@,
        ),
{
    let capture = match request.mode {
        ExecutionMode::Capture => true,
        ExecutionMode::Stream => false,
    };
    let kept_out = if capture {
        stdout.to_owned()
    } else {
        String::new()
    };
    let kept_err = if capture {
        stderr.to_owned()
    } else {
        String::new()
    };
    let (success, exit_code, out, err) = match exit {
        ChildExit::Code(code) => (*code == 0, *code, kept_out, kept_err),
        ChildExit::Unavailable => (false, -1i32, kept_out, kept_err),
        ChildExit::LaunchFailed(reason) => (false, -1i32, String::new(), reason.clone()),
    };
    CommandResult {
        success,
        exit_code,
        directory: request.directory.clone(),
        command: request.command.clone(),
        stdout: out,
        stderr: err,
    }
}

/// Whether the executor itself prints the marker of an item: only in a
/// streaming run that is neither silent nor dry.
pub fn marker_due(config: &LoopConfig) -> (due: bool)
    ensures
        due == (!config.silent && !config.dry_run && mode_of(config.parallel, config.json_output)
            == ExecutionMode::Stream),
{
    !config.silent && !config.dry_run && !config.parallel && !config.json_output
}

/// The marker of an item: a check mark and the directory's name in green
/// for a success, a cross, the name and the exit code in red for a failure.
pub open spec fn marker_text(name: Seq<char>, success: bool, exit_code: i32) -> Seq<char> {
    if success {
        "\x1b[32m\n✓ "@ + name + "\x1b[0m"@
    } else {
        "\x1b[31m\n✗ "@ + name + ": exited code "@ + decimal(exit_code as int) + "\x1b[0m"@
    }
}

/// The notice for a directory that does not exist: in red, the directory's
/// name, the command line as it was given and the exit code 1.
pub open spec fn missing_text(name: Seq<char>, command: Seq<char>) -> Seq<char> {
    "\x1b[31m\n✗ "@ + name + ": No directory found. Command: "@ + command
        + " (Exit code: 1)\x1b[0m"@
}

/// The notice for a directory that does not exist, which sets it apart
/// from a command that ran and failed.
pub fn missing_notice(name: &str, command: &str) -> (line: String)
    ensures
        line@ == missing_text(name@, command@),
{
    let mut line = "\x1b[31m\n✗ ".to_owned();
    line.append(name);
    line.append(": No directory found. Command: ");
    line.append(command);
    line.append(" (Exit code: 1)\x1b[0m");
    line
}

/// The marker of an item, for the directory's display name.
pub fn status_marker(name: &str, result: &CommandResult) -> (line: String)
    ensures
        line@ == marker_text(name@, result.success, result.exit_code),
{
    if result.success {
        let mut line = "\x1b[32m\n✓ ".to_owned();
        line.append(name);
        line.append("\x1b[0m");
        line
    } else {
        let mut line = "\x1b[31m\n✗ ".to_owned();
        line.append(name);
        line.append(": exited code ");
        line.append(signed_text(result.exit_code as i64).as_str());
        line.append("\x1b[0m");
        line
    }
}

} // verus!
