use loop_lib::alias::AliasTable;
use loop_lib::config::LoopConfig;
use loop_lib::exec::{
    child_environment, complete, execute_command_in_directory, missing_notice, execution_mode, marker_due, status_marker, ChildExit,
    CommandResult, ExecutionMode, Launch, SpawnRequest,
};

fn spawn_request(launch: Launch) -> SpawnRequest {
    match launch {
        Launch::Spawn(request) => request,
        Launch::Finished(_) => panic!("a process was expected"),
    }
}

fn finished(launch: Launch) -> CommandResult {
    match launch {
        Launch::Finished(result) => result,
        Launch::Spawn(_) => panic!("no process was expected"),
    }
}

#[test]
fn test_execute_command_in_directory() {
    let config = LoopConfig { verbose: false, silent: true, ..Default::default() };
    let aliases = AliasTable::new();

    let request =
        spawn_request(execute_command_in_directory("/tmp", "echo test", &config, &aliases, true));
    assert_eq!(request.command, "echo test");
    let result = complete(&request, &ChildExit::Code(0), "", "");
    assert!(result.success);
    assert_eq!(result.exit_code, 0);

    let request =
        spawn_request(execute_command_in_directory("/tmp", "false", &config, &aliases, true));
    let result = complete(&request, &ChildExit::Code(1), "", "");
    assert!(!result.success);
    assert_eq!(result.exit_code, 1);
}

#[test]
fn missing_directory_fails_with_code_one() {
    let mut aliases = AliasTable::new();
    aliases.insert("ll".to_string(), "ls -l".to_string());
    for dry_run in [false, true] {
        let config = LoopConfig { dry_run, ..Default::default() };
        let result = finished(execute_command_in_directory(
            "/no/such/dir",
            "ll -a",
            &config,
            &aliases,
            false,
        ));
        assert!(!result.success);
        assert_eq!(result.exit_code, 1);
        assert_eq!(result.directory, "/no/such/dir");
        assert_eq!(result.command, "ll -a");
        assert_eq!(result.stdout, "");
        assert_eq!(result.stderr, "");
    }
}

#[test]
fn dry_run_records_what_would_run() {
    let mut aliases = AliasTable::new();
    aliases.insert("ll".to_string(), "ls -l".to_string());
    let config = LoopConfig { dry_run: true, ..Default::default() };
    let result =
        finished(execute_command_in_directory("/work/a", "ll -a", &config, &aliases, true));
    assert!(result.success);
    assert_eq!(result.exit_code, 0);
    assert_eq!(result.command, "ls -l -a");
    assert_eq!(result.directory, "/work/a");
    assert_eq!(result.stdout, "[dry-run] would run: ls -l -a (in /work/a)");
    assert_eq!(result.stderr, "");
}

#[test]
fn spawn_request_carries_resolved_command_and_mode() {
    let mut aliases = AliasTable::new();
    aliases.insert("gst".to_string(), "git status".to_string());
    let config = LoopConfig { parallel: true, silent: true, verbose: true, ..Default::default() };
    let request =
        spawn_request(execute_command_in_directory("/work/a", "gst -s", &config, &aliases, true));
    assert_eq!(request.command, "git status -s");
    assert_eq!(request.directory, "/work/a");
    assert_eq!(request.mode, ExecutionMode::Capture);
    assert!(request.silent);
    assert!(request.verbose);
}

#[test]
fn mode_is_capture_for_parallel_or_structured_runs() {
    let plain = LoopConfig::default();
    assert_eq!(execution_mode(&plain), ExecutionMode::Stream);
    let parallel = LoopConfig { parallel: true, ..Default::default() };
    assert_eq!(execution_mode(&parallel), ExecutionMode::Capture);
    let structured = LoopConfig { json_output: true, ..Default::default() };
    assert_eq!(execution_mode(&structured), ExecutionMode::Capture);
}

#[test]
fn streaming_run_records_no_output() {
    let request = SpawnRequest {
        directory: "/d".to_string(),
        command: "echo hi".to_string(),
        mode: ExecutionMode::Stream,
        silent: false,
        verbose: false,
    };
    let result = complete(&request, &ChildExit::Code(0), "hi\n", "warn\n");
    assert!(result.success);
    assert_eq!(result.stdout, "");
    assert_eq!(result.stderr, "");
}

#[test]
fn capturing_run_records_output() {
    let request = SpawnRequest {
        directory: "/d".to_string(),
        command: "echo hi".to_string(),
        mode: ExecutionMode::Capture,
        silent: false,
        verbose: false,
    };
    let result = complete(&request, &ChildExit::Code(3), "hi\n", "warn\n");
    assert!(!result.success);
    assert_eq!(result.exit_code, 3);
    assert_eq!(result.stdout, "hi\n");
    assert_eq!(result.stderr, "warn\n");
    assert_eq!(result.command, "echo hi");
    assert_eq!(result.directory, "/d");
}

#[test]
fn signal_and_launch_failure_give_minus_one() {
    let request = SpawnRequest {
        directory: "/d".to_string(),
        command: "sleep 9".to_string(),
        mode: ExecutionMode::Capture,
        silent: false,
        verbose: false,
    };
    let killed = complete(&request, &ChildExit::Unavailable, "partial", "");
    assert!(!killed.success);
    assert_eq!(killed.exit_code, -1);
    assert_eq!(killed.stdout, "partial");

    let failed =
        complete(&request, &ChildExit::LaunchFailed("no interpreter".to_string()), "", "");
    assert!(!failed.success);
    assert_eq!(failed.exit_code, -1);
    assert_eq!(failed.stdout, "");
    assert_eq!(failed.stderr, "no interpreter");
}

#[test]
fn marker_names_directory_and_exit_code() {
    let ok = CommandResult { success: true, ..Default::default() };
    assert_eq!(status_marker("dir1", &ok), "\x1b[32m\n✓ dir1\x1b[0m");
    let bad = CommandResult { success: false, exit_code: -1, ..Default::default() };
    assert_eq!(status_marker("dir2", &bad), "\x1b[31m\n✗ dir2: exited code -1\x1b[0m");
    let bad = CommandResult { success: false, exit_code: 127, ..Default::default() };
    assert_eq!(status_marker("dir2", &bad), "\x1b[31m\n✗ dir2: exited code 127\x1b[0m");
}

#[test]
fn marker_is_due_only_when_streaming_aloud() {
    assert!(marker_due(&LoopConfig::default()));
    assert!(!marker_due(&LoopConfig { silent: true, ..Default::default() }));
    assert!(!marker_due(&LoopConfig { dry_run: true, ..Default::default() }));
    assert!(!marker_due(&LoopConfig { parallel: true, ..Default::default() }));
    assert!(!marker_due(&LoopConfig { json_output: true, ..Default::default() }));
}

#[test]
fn overlay_wins_over_the_inherited_environment() {
    let pair = |k: &str, v: &str| (k.to_string(), v.to_string());
    let inherited = vec![pair("PATH", "/bin"), pair("HOME", "/root"), pair("PATH", "/usr/bin")];
    let overlay = Some(vec![pair("HOME", "/tmp"), pair("CI", "1")]);
    let env = child_environment(&inherited, &overlay, &None);
    assert_eq!(env.len(), 3);
    assert_eq!(env.get("PATH"), Some(&"/usr/bin".to_string()));
    assert_eq!(env.get("HOME"), Some(&"/tmp".to_string()));
    assert_eq!(env.get("CI"), Some(&"1".to_string()));
    let mut pairs = env.to_pairs();
    pairs.sort();
    assert_eq!(pairs, vec![pair("CI", "1"), pair("HOME", "/tmp"), pair("PATH", "/usr/bin")]);

    let plain = child_environment(&inherited, &None, &None);
    assert_eq!(plain.len(), 2);
    assert_eq!(plain.get("HOME"), Some(&"/root".to_string()));
    assert_eq!(plain.get("CI"), None);

    let item = Some(vec![pair("CI", "0"), pair("ITEM", "x")]);
    let env = child_environment(&inherited, &overlay, &item);
    assert_eq!(env.len(), 4);
    assert_eq!(env.get("CI"), Some(&"0".to_string()));
    assert_eq!(env.get("HOME"), Some(&"/tmp".to_string()));
    assert_eq!(env.get("ITEM"), Some(&"x".to_string()));
    assert_eq!(env.get("PATH"), Some(&"/usr/bin".to_string()));
}

#[test]
fn missing_directory_has_a_notice_of_its_own() {
    assert_eq!(
        missing_notice("gone", "ls -l"),
        "\x1b[31m\n✗ gone: No directory found. Command: ls -l (Exit code: 1)\x1b[0m"
    );
}
