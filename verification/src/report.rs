//! The report renderer: the textual report, the deferred output of the
//! items, and the structured document.

use vstd::prelude::*;
use vstd::string::StringExecFns;
use crate::config::LoopConfig;
use crate::coordinator::Summary;
use crate::decimal::{decimal, signed_text, unsigned_text};
use crate::exec::{CommandResult, Outcome};

verus! {

/// How a line of the report is coloured.
#[derive(Debug, Clone, Copy, PartialEq, Eq, Structural)]
pub enum Tone {
    Plain,
    Good,
    Bad,
}

/// One line of the textual report.
#[derive(Debug, Clone)]
pub struct ReportLine {
    pub tone: Tone,
    pub text: String,
}

/// The tone and the text of each line.
pub open spec fn lines_of(lines: Seq<ReportLine>) -> Seq<(Tone, Seq<char>)> {
    Seq::new(lines.len(), |i: int| (lines[i].tone, lines[i].text@))
}

/// The line of a dry run.
pub open spec fn dry_run_line(total: nat) -> Seq<char> {
    decimal(total as int) + " commands would run (dry run)"@
}

/// The line of a run without failures.
pub open spec fn complete_line(total: nat) -> Seq<char> {
    decimal(total as int) + " commands complete"@
}

/// The header of a run with failures.
pub open spec fn failed_header(failed: nat, total: nat) -> Seq<char> {
    "Summary: ✗ "@ + decimal(failed as int) + " out of "@ + decimal(total as int)
        + " commands failed"@
}

/// The block of one failed item: its directory, its resolved command line
/// and its exit code.
pub open spec fn failed_block(item: Outcome) -> Seq<char> {
    "✗ "@ + item.directory + ": "@ + item.command + " (Exit code "@ + decimal(
        item.exit_code as int,
    ) + ")"@
}

/// The blocks of the failed items among `results`, in their order.
pub open spec fn failed_blocks(results: Seq<CommandResult>) -> Seq<(Tone, Seq<char>)>
    decreases results.len(),
{
    if results.len() == 0 {
        Seq::empty()
    } else {
        let init = failed_blocks(results.drop_last());
        if results.last().success {
            init
        } else {
            init.push((Tone::Bad, failed_block(results.last()@)))
        }
    }
}

/// The textual report: for a dry run the number of commands that would
/// have run; for a run without failures the number of commands; else a
/// header and one block per failed item.
pub open spec fn text_report(summary: Summary) -> Seq<(Tone, Seq<char>)> {
    if summary.dry_run {
        seq![(Tone::Plain, dry_run_line(summary.total as nat))]
    } else if summary.failed == 0 {
        seq![(Tone::Good, complete_line(summary.total as nat))]
    } else {
        seq![(Tone::Bad, failed_header(summary.failed as nat, summary.total as nat))]
            + failed_blocks(summary.results@)
    }
}

fn count_line(count: usize, tail: &str) -> (line: String)
    ensures
        line@ == decimal(count as int) + tail@,
{
    let mut line = unsigned_text(count as u64);
    line.append(tail);
    line
}

fn block_line(item: &CommandResult) -> (line: String)
    ensures
        line@ == failed_block(item@),
{
    let mut line = "✗ ".to_owned();
    line.append(item.directory.as_str());
    line.append(": ");
    line.append(item.command.as_str());
    line.append(" (Exit code ");
    line.append(signed_text(item.exit_code as i64).as_str());
    line.append(")");
    line
}

/// The textual report of a run.
pub fn render_text(summary: &Summary) -> (lines: Vec<ReportLine>)
    ensures
        lines_of(lines@) == text_report(*summary),
{
    let mut lines: Vec<ReportLine> = Vec::new();
    if summary.dry_run {
        lines.push(
            ReportLine {
                tone: Tone::Plain,
                text: count_line(summary.total, " commands would run (dry run)"),
            },
        );
        assert(lines_of(lines@) =~= text_report(*summary));
        return lines;
    }
    if summary.failed == 0 {
        lines.push(
            ReportLine { tone: Tone::Good, text: count_line(summary.total, " commands complete") },
        );
        assert(lines_of(lines@) =~= text_report(*summary));
        return lines;
    }
    let mut header = "Summary: ✗ ".to_owned();
    header.append(unsigned_text(summary.failed as u64).as_str());
    header.append(" out of ");
    header.append(unsigned_text(summary.total as u64).as_str());
    header.append(" commands failed");
    lines.push(ReportLine { tone: Tone::Bad, text: header });
    let ghost head = lines_of(lines@);
    assert(head =~= seq![
        (Tone::Bad, failed_header(summary.failed as nat, summary.total as nat)),
    ]);
    let mut i: usize = 0;
    assert(summary.results@.take(0) =~= Seq::empty());
    while i < summary.results.len()
        invariant
            i <= summary.results.len(),
            lines_of(lines@) =~= head + failed_blocks(summary.results@.take(i as int)),
        decreases summary.results.len() - i,
    {
        proof {
            let next = summary.results@.take(i + 1);
            assert(next.drop_last() =~= summary.results@.take(i as int));
            assert(next.last() == summary.results@[i as int]);
        }
        if !summary.results[i].success {
            let ghost before = lines_of(lines@);
            lines.push(ReportLine { tone: Tone::Bad, text: block_line(&summary.results[i]) });
            assert(lines_of(lines@) =~= before.push(
                (Tone::Bad, failed_block(summary.results@[i as int]@)),
            ));
        }
        i += 1;
    }
    assert(summary.results@.take(summary.results@.len() as int) =~= summary.results@);
    lines
}

/// Whether the textual report and the deferred output are printed: only
/// where the run is not silent and its report is not the structured
/// document.
pub fn text_due(config: &LoopConfig) -> (due: bool)
    ensures
        due == (!config.silent && !config.json_output),
{
    !config.silent && !config.json_output
}

/// The header under which the buffered output of an item is printed.
pub open spec fn output_header(item: Outcome) -> (Tone, Seq<char>) {
    if item.success {
        (Tone::Good, "✓ "@ + item.directory)
    } else {
        (Tone::Bad, "✗ "@ + item.directory + " (exit code "@ + decimal(item.exit_code as int)
            + ")"@)
    }
}

/// The lines for one item: nothing where it captured nothing, else its
/// header, its standard output and its standard error, an empty one left out.
pub open spec fn output_block(item: Outcome) -> Seq<(Tone, Seq<char>)> {
    if item.stdout.len() == 0 && item.stderr.len() == 0 {
        Seq::empty()
    } else {
        seq![output_header(item)] + (if item.stdout.len() == 0 {
            Seq::empty()
        } else {
            seq![(Tone::Plain, item.stdout)]
        }) + (if item.stderr.len() == 0 {
            Seq::empty()
        } else {
            seq![(Tone::Plain, item.stderr)]
        })
    }
}

/// The buffered output of all items, item after item in their order.
pub open spec fn deferred_output(results: Seq<CommandResult>) -> Seq<(Tone, Seq<char>)>
    decreases results.len(),
{
    if results.len() == 0 {
        Seq::empty()
    } else {
        deferred_output(results.drop_last()) + output_block(results.last()@)
    }
}

/// The buffered output of the items, to be printed in one pass after the
/// last of them has completed.
pub fn render_output(results: &Vec<CommandResult>) -> (lines: Vec<ReportLine>)
    ensures
        lines_of(lines@) == deferred_output(results@),
{
    let mut lines: Vec<ReportLine> = Vec::new();
    let mut i: usize = 0;
    assert(results@.take(0) =~= Seq::empty());
    assert(lines_of(lines@) =~= Seq::empty());
    while i < results.len()
        invariant
            i <= results.len(),
            lines_of(lines@) =~= deferred_output(results@.take(i as int)),
        decreases results.len() - i,
    {
        let item = &results[i];
        proof {
            let next = results@.take(i + 1);
            assert(next.drop_last() =~= results@.take(i as int));
            assert(next.last() == results@[i as int]);
        }
        let has_out = item.stdout.as_str().unicode_len() > 0;
        let has_err = item.stderr.as_str().unicode_len() > 0;
        if has_out || has_err {
            let ghost before = lines_of(lines@);
            if item.success {
                let mut header = "✓ ".to_owned();
                header.append(item.directory.as_str());
                lines.push(ReportLine { tone: Tone::Good, text: header });
            } else {
                let mut header = "✗ ".to_owned();
                header.append(item.directory.as_str());
                header.append(" (exit code ");
                header.append(signed_text(item.exit_code as i64).as_str());
                header.append(")");
                lines.push(ReportLine { tone: Tone::Bad, text: header });
            }
            assert(lines_of(lines@) =~= before + seq![output_header(item@)]);
            if has_out {
                lines.push(ReportLine { tone: Tone::Plain, text: item.stdout.clone() });
            }
            if has_err {
                lines.push(ReportLine { tone: Tone::Plain, text: item.stderr.clone() });
            }
            assert(lines_of(lines@) =~= before + output_block(item@));
        }
        i += 1;
    }
    assert(results@.take(results@.len() as int) =~= results@);
    lines
}

} // verus!
