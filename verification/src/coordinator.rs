//! The execution coordinator: work items, their outcomes in positional
//! order, and the summary of a run.

use vstd::prelude::*;
use crate::alias::AliasTable;
use crate::config::{filter_directories, option_texts, selection, LoopConfig};
use crate::exec::{complete, dry_run_outcome, execute_command_in_directory, missing_outcome,
    mode_of, spawned_outcome, ChildExit, CommandResult, ExecutionMode, Launch, Outcome};
use crate::resolve::effective_command;
use crate::text::texts;

verus! {

/// One command to run in one directory.
#[derive(Debug, Clone)]
pub struct WorkItem {
    /// The directory to run in.
    pub directory: String,
    /// The command line as it was given.
    pub command: String,
    /// Variables laid over the environment of this item's process alone.
    pub env: Option<Vec<(String, String)>>,
}

/// What the caller saw when it carried out one work item. Where the
/// directory is missing or the run is dry, nothing was spawned and only
/// `dir_exists` counts.
#[derive(Debug, Clone)]
pub struct Observation {
    /// Whether the directory is on disk.
    pub dir_exists: bool,
    /// How the child process ended.
    pub exit: ChildExit,
    /// What the child wrote to its standard output.
    pub stdout: String,
    /// What the child wrote to its standard error.
    pub stderr: String,
}

/// The summary of a run: how many items there were, how many succeeded and
/// failed, and the outcomes in the order of the items.
#[derive(Debug, Clone)]
pub struct Summary {
    pub total: usize,
    pub succeeded: usize,
    pub failed: usize,
    pub dry_run: bool,
    pub results: Vec<CommandResult>,
}

/// The number of failures among `results`.
pub open spec fn failures(results: Seq<CommandResult>) -> nat
    decreases results.len(),
{
    if results.len() == 0 {
        0
    } else {
        failures(results.drop_last()) + if results.last().success {
            0nat
        } else {
            1nat
        }
    }
}

/// Where every result is a success, nothing failed; and where nothing
/// failed, every result is a success.
pub proof fn lemma_no_failures(results: Seq<CommandResult>)
    ensures
        failures(results) == 0 <==> forall|i: int|
            0 <= i < results.len() ==> (#[trigger] results[i]).success,
    decreases results.len(),
{
    if results.len() > 0 {
        let init = results.drop_last();
        lemma_no_failures(init);
        if failures(results) == 0 {
            assert forall|i: int| 0 <= i < results.len() implies (#[trigger] results[i]).success by {
                if i < init.len() {
                    assert(init[i] == results[i]);
                }
            }
        }
        if forall|i: int| 0 <= i < results.len() ==> (#[trigger] results[i]).success {
            assert forall|i: int| 0 <= i < init.len() implies (#[trigger] init[i]).success by {
                assert(init[i] == results[i]);
            }
            assert(results[results.len() - 1].success);
        }
    }
}

impl Summary {
    /// The counts are those of the results: the total is their number, the
    /// failures are those among them, and the successes are the rest.
    pub open spec fn wf(&self) -> bool {
        &&& self.total == self.results@.len()
        &&& self.failed == failures(self.results@)
        &&& self.succeeded + self.failed == self.total
    }

    /// Whether the run signals success: a dry run always does, another run
    /// does where nothing failed.
    pub open spec fn signals_success(&self) -> bool {
        self.dry_run || self.failed == 0
    }

    /// Whether the run signals success.
    pub fn passed(&self) -> (ok: bool)
        ensures
            ok == self.signals_success(),
    {
        self.dry_run || self.failed == 0
    }
}

/// The summary of the outcomes of a run.
pub fn summarize(results: Vec<CommandResult>, dry_run: bool) -> (summary: Summary)
    ensures
        summary.wf(),
        summary.results == results,
        summary.dry_run == dry_run,
{
    let mut failed: usize = 0;
    let mut i: usize = 0;
    assert(results@.take(0) =~= Seq::empty());
    while i < results.len()
        invariant
            i <= results.len(),
            failed == failures(results@.take(i as int)),
            failed <= i,
        decreases results.len() - i,
    {
        proof {
            let next = results@.take(i + 1);
            assert(next.drop_last() =~= results@.take(i as int));
            assert(next.last() == results@[i as int]);
        }
        if !results[i].success {
            failed += 1;
        }
        i += 1;
    }
    assert(results@.take(results@.len() as int) =~= results@);
    let total = results.len();
    Summary { total, succeeded: total - failed, failed, dry_run, results }
}

/// The outcome of one work item, given what the caller saw: a missing
/// directory fails before anything else is looked at, a dry run then
/// succeeds without a process, and otherwise the process decides.
pub open spec fn item_outcome(
    item: WorkItem,
    dry_run: bool,
    mode: ExecutionMode,
    aliases: Map<Seq<char>, Seq<char>>,
    seen: Observation,
) -> Outcome {
    if !seen.dir_exists {
        missing_outcome(item.directory@, item.command@)
    } else if dry_run {
        dry_run_outcome(item.directory@, effective_command(item.command@, aliases))
    } else {
        spawned_outcome(
            item.directory@,
            effective_command(item.command@, aliases),
            mode,
            seen.exit,
            seen.stdout@,
            seen.stderr@,
        )
    }
}

/// The work items of a run: one for each directory of the configuration
/// that passes its filters, in their order, each with the command given and
/// without an overlay of its own.
pub fn work_items(config: &LoopConfig, command: &str) -> (items: Vec<WorkItem>)
    ensures
        items@.len() == selection(
            texts(config.directories@),
            option_texts(config.include_filters),
            option_texts(config.exclude_filters),
        ).len(),
        forall|i: int|
            0 <= i < items@.len() ==> (#[trigger] items@[i]).directory@ == selection(
                texts(config.directories@),
                option_texts(config.include_filters),
                option_texts(config.exclude_filters),
            )[i] && items@[i].command@ == command@ && items@[i].env is None,
{
    let dirs = filter_directories(
        &config.directories,
        &config.include_filters,
        &config.exclude_filters,
    );
    let mut items: Vec<WorkItem> = Vec::new();
    let mut i: usize = 0;
    while i < dirs.len()
        invariant
            i <= dirs.len(),
            items@.len() == i,
            forall|j: int|
                0 <= j < i ==> (#[trigger] items@[j]).directory@ == texts(dirs@)[j]
                    && items@[j].command@ == command@ && items@[j].env is None,
        decreases dirs.len() - i,
    {
        items.push(
            WorkItem { directory: dirs[i].clone(), command: command.to_owned(), env: None },
        );
        i += 1;
    }
    items
}

/// The outcome of one work item, given what the caller saw.
pub fn outcome_for(
    item: &WorkItem,
    config: &LoopConfig,
    aliases: &AliasTable,
    seen: &Observation,
) -> (result: CommandResult)
    requires
        aliases.wf(),
    ensures
        result@ == item_outcome(
            *item,
            config.dry_run,
            mode_of(config.parallel, config.json_output),
            aliases@,
            *seen,
        ),
{
    match execute_command_in_directory(
        item.directory.as_str(),
        item.command.as_str(),
        config,
        aliases,
        seen.dir_exists,
    ) {
        Launch::Finished(result) => result,
        Launch::Spawn(request) => complete(
            &request,
            &seen.exit,
            seen.stdout.as_str(),
            seen.stderr.as_str(),
        ),
    }
}

/// Runs the coordinator over what the caller saw of each item:
/// `observations[i]` belongs to `items[i]`, in whatever order the items were
/// carried out. The outcomes come in the order of the items, and the
/// summary counts them.
pub fn run(
    items: &Vec<WorkItem>,
    config: &LoopConfig,
    aliases: &AliasTable,
    observations: &Vec<Observation>,
) -> (summary: Summary)
    requires
        aliases.wf(),
        observations@.len() == items@.len(),
    ensures
        summary.wf(),
        summary.dry_run == config.dry_run,
        summary.total == items@.len(),
        summary.results@.len() == items@.len(),
        forall|i: int|
            0 <= i < items@.len() ==> (#[trigger] summary.results@[i])@ == item_outcome(
                items@[i],
                config.dry_run,
                mode_of(config.parallel, config.json_output),
                aliases@,
                observations@[i],
            ),
{
    let mut results: Vec<CommandResult> = Vec::new();
    let mut i: usize = 0;
    while i < items.len()
        invariant
            i <= items.len(),
            aliases.wf(),
            observations@.len() == items@.len(),
            results@.len() == i,
            forall|j: int|
                0 <= j < i ==> (#[trigger] results@[j])@ == item_outcome(
                    items@[j],
                    config.dry_run,
                    mode_of(config.parallel, config.json_output),
                    aliases@,
                    observations@[j],
                ),
        decreases items.len() - i,
    {
        let result = outcome_for(&items[i], config, aliases, &observations[i]);
        results.push(result);
        i += 1;
    }
    summarize(results, config.dry_run)
}

/// A missing directory gives a failure with exit code 1, whatever the
/// command, the mode and the aliases are, and nothing of a process enters it.
pub proof fn lemma_missing_directory_fails(
    item: WorkItem,
    dry_run: bool,
    mode: ExecutionMode,
    aliases: Map<Seq<char>, Seq<char>>,
    seen: Observation,
)
    requires
        !seen.dir_exists,
    ensures
        item_outcome(item, dry_run, mode, aliases, seen) == missing_outcome(
            item.directory@,
            item.command@,
        ),
        !item_outcome(item, dry_run, mode, aliases, seen).success,
        item_outcome(item, dry_run, mode, aliases, seen).exit_code == 1,
{
}

/// In a dry run over directories that exist every outcome is a success with
/// exit code 0, whatever the processes would have done.
pub proof fn lemma_dry_run_succeeds(
    item: WorkItem,
    mode: ExecutionMode,
    aliases: Map<Seq<char>, Seq<char>>,
    seen: Observation,
)
    requires
        seen.dir_exists,
    ensures
        item_outcome(item, true, mode, aliases, seen).success,
        item_outcome(item, true, mode, aliases, seen).exit_code == 0,
        item_outcome(item, true, mode, aliases, seen) == dry_run_outcome(
            item.directory@,
            effective_command(item.command@, aliases),
        ),
{
}

/// A dry run signals success whatever its outcomes are, and counts no
/// failure where every directory exists.
pub proof fn lemma_dry_run_summary(
    summary: Summary,
    items: Seq<WorkItem>,
    mode: ExecutionMode,
    aliases: Map<Seq<char>, Seq<char>>,
    observations: Seq<Observation>,
)
    requires
        summary.wf(),
        summary.dry_run,
        summary.results@.len() == items.len(),
        observations.len() == items.len(),
        forall|i: int|
            0 <= i < items.len() ==> (#[trigger] summary.results@[i])@ == item_outcome(
                items[i],
                true,
                mode,
                aliases,
                observations[i],
            ),
    ensures
        summary.signals_success(),
        (forall|i: int| 0 <= i < items.len() ==> (#[trigger] observations[i]).dir_exists)
            ==> summary.failed == 0 && summary.succeeded == summary.total,
{
    if forall|i: int| 0 <= i < items.len() ==> (#[trigger] observations[i]).dir_exists {
        assert forall|i: int| 0 <= i < summary.results@.len() implies (
        #[trigger] summary.results@[i]).success by {
            assert(observations[i].dir_exists);
            assert(summary.results@[i]@.success);
        }
        lemma_no_failures(summary.results@);
    }
}

} // verus!
