use loop_lib::alias::AliasTable;
use loop_lib::config::LoopConfig;
use loop_lib::coordinator::{outcome_for, run, summarize, work_items, Observation, WorkItem};
use loop_lib::exec::{ChildExit, CommandResult};
use loop_lib::slots::ResultSlots;

fn seen(code: i32) -> Observation {
    Observation {
        dir_exists: true,
        exit: ChildExit::Code(code),
        stdout: String::new(),
        stderr: String::new(),
    }
}

fn two_dirs() -> LoopConfig {
    LoopConfig {
        directories: vec!["/tmp/dir1".to_string(), "/tmp/dir2".to_string()],
        ignore: vec![],
        verbose: false,
        silent: true,
        add_aliases_to_global_looprc: false,
        ..Default::default()
    }
}

#[test]
fn test_run() {
    let config = two_dirs();
    let aliases = AliasTable::new();

    let items = work_items(&config, "echo test");
    let summary = run(&items, &config, &aliases, &vec![seen(0), seen(0)]);
    assert!(summary.passed());

    // Test with a failing command
    let items = work_items(&config, "false");
    let summary = run(&items, &config, &aliases, &vec![seen(1), seen(1)]);
    assert!(!summary.passed());
}

#[test]
fn test_run_without_looprc() {
    let config = LoopConfig {
        directories: vec!["/tmp".to_string()],
        ignore: vec![],
        verbose: false,
        silent: true,
        parallel: false,
        add_aliases_to_global_looprc: false,
        ..Default::default()
    };
    let aliases = AliasTable::new();
    let items = work_items(&config, "echo test");
    let summary = run(&items, &config, &aliases, &vec![seen(0)]);
    assert!(summary.passed());
}

#[test]
fn end_to_end_counts() {
    let aliases = AliasTable::new();
    let config = two_dirs();

    let items = work_items(&config, "echo test");
    let summary = run(&items, &config, &aliases, &vec![seen(0), seen(0)]);
    assert_eq!((summary.total, summary.succeeded, summary.failed), (2, 2, 0));
    assert!(summary.passed());

    let items = work_items(&config, "exit 1");
    let summary = run(&items, &config, &aliases, &vec![seen(1), seen(1)]);
    assert_eq!((summary.total, summary.succeeded, summary.failed), (2, 0, 2));
    assert!(!summary.passed());

    let dry = LoopConfig { dry_run: true, ..two_dirs() };
    let summary = run(&items, &dry, &aliases, &vec![seen(1), seen(1)]);
    assert_eq!((summary.total, summary.succeeded, summary.failed), (2, 2, 0));
    assert!(summary.dry_run);
    assert!(summary.passed());
}

#[test]
fn dry_run_over_a_missing_directory_still_passes() {
    let aliases = AliasTable::new();
    let dry = LoopConfig { dry_run: true, ..two_dirs() };
    let items = work_items(&dry, "exit 1");
    let gone = Observation { dir_exists: false, ..seen(0) };
    let summary = run(&items, &dry, &aliases, &vec![gone, seen(0)]);
    assert_eq!((summary.total, summary.succeeded, summary.failed), (2, 1, 1));
    assert_eq!(summary.results[0].exit_code, 1);
    assert!(summary.passed());
}

#[test]
fn empty_run_is_a_success() {
    let aliases = AliasTable::new();
    let config = LoopConfig { directories: vec![], ..Default::default() };
    let items = work_items(&config, "echo test");
    assert!(items.is_empty());
    let summary = run(&items, &config, &aliases, &vec![]);
    assert_eq!((summary.total, summary.succeeded, summary.failed), (0, 0, 0));
    assert!(summary.passed());
}

#[test]
fn outcomes_keep_the_order_of_the_items() {
    let aliases = AliasTable::new();
    let config = LoopConfig { parallel: true, ..Default::default() };
    let items: Vec<WorkItem> = ["a", "b", "c", "d"]
        .iter()
        .map(|d| WorkItem { directory: d.to_string(), command: "true".to_string(), env: None })
        .collect();
    let observations = vec![seen(0), seen(4), seen(0), seen(7)];
    let expected = run(&items, &config, &aliases, &observations);

    for order in [[0usize, 1, 2, 3], [3, 2, 1, 0], [2, 0, 3, 1]] {
        let mut slots = ResultSlots::new(items.len());
        assert!(!slots.is_complete() || items.is_empty());
        for i in order {
            let result = outcome_for(&items[i], &config, &aliases, &observations[i]);
            assert!(slots.record(i, result));
        }
        assert!(slots.is_complete());
        let results = slots.into_results().unwrap();
        assert_eq!(results.len(), 4);
        for i in 0..4 {
            assert_eq!(results[i].directory, items[i].directory);
            assert_eq!(results[i].exit_code, expected.results[i].exit_code);
        }
        let summary = summarize(results, false);
        assert_eq!((summary.total, summary.succeeded, summary.failed), (4, 2, 2));
    }
}

#[test]
fn a_slot_is_written_once() {
    let mut slots = ResultSlots::new(2);
    assert_eq!(slots.len(), 2);
    let first = CommandResult { exit_code: 5, ..Default::default() };
    let second = CommandResult { exit_code: 6, ..Default::default() };
    assert!(slots.record(1, first));
    assert!(!slots.record(1, second));
    assert!(!slots.record(2, CommandResult::default()));
    assert!(!slots.is_complete());
    assert!(slots.into_results().is_none());

    let mut slots = ResultSlots::new(1);
    assert!(slots.record(0, CommandResult { exit_code: 5, ..Default::default() }));
    assert!(!slots.record(0, CommandResult { exit_code: 6, ..Default::default() }));
    assert_eq!(slots.into_results().unwrap()[0].exit_code, 5);
}

#[test]
fn summary_counts_add_up() {
    let results: Vec<CommandResult> = [true, false, true, true, false]
        .iter()
        .map(|ok| CommandResult { success: *ok, ..Default::default() })
        .collect();
    let summary = summarize(results, false);
    assert_eq!(summary.total, 5);
    assert_eq!(summary.succeeded, 3);
    assert_eq!(summary.failed, 2);
    assert_eq!(summary.succeeded + summary.failed, summary.total);
    assert_eq!(summary.results.len(), 5);
    assert!(!summary.passed());
}

#[test]
fn work_items_follow_the_filters() {
    let config = LoopConfig {
        directories: vec![
            ".".to_string(),
            "loop_cli".to_string(),
            "meta_cli".to_string(),
            "meta_git_cli".to_string(),
        ],
        include_filters: Some(vec!["meta".to_string()]),
        exclude_filters: Some(vec!["meta_git_cli/".to_string()]),
        ..Default::default()
    };
    let items = work_items(&config, "ls");
    assert_eq!(items.len(), 1);
    assert_eq!(items[0].directory, "meta_cli");
    assert_eq!(items[0].command, "ls");
    assert!(items[0].env.is_none());
}
