use loop_lib::config::{
    filter_directories, is_selected, should_ignore, spawn_delay, starts_with_any, worker_count,
    LoopConfig,
};
use loop_lib::expand::{expand_directories, DirectoryEntry, DirectoryListing};

fn strings(list: &[&str]) -> Vec<String> {
    list.iter().map(|s| s.to_string()).collect()
}

#[test]
fn test_should_ignore() {
    let path = "/some/path/.git/file";
    let ignore = vec![".git".to_string()];
    assert!(should_ignore(path, &ignore));

    let path = "/some/path/normal/file";
    assert!(!should_ignore(path, &ignore));
}

#[test]
fn should_ignore_edge_cases() {
    assert!(!should_ignore("/a/b", &[]));
    assert!(should_ignore("/a/b", &strings(&[""])));
    assert!(should_ignore("/a/b", &strings(&["zzz", "/b"])));
    assert!(!should_ignore("ab", &strings(&["abc"])));
    assert!(should_ignore("naïve/.git", &strings(&["ve/."])));
}

#[test]
fn default_config_ignores_git_only() {
    let config = LoopConfig::default();
    assert!(config.directories.is_empty());
    assert_eq!(config.ignore, vec![".git"]);
    assert!(!config.verbose);
    assert!(!config.silent);
    assert!(!config.parallel);
    assert!(!config.dry_run);
    assert!(!config.json_output);
    assert!(!config.add_aliases_to_global_looprc);
    assert!(config.include_filters.is_none());
    assert!(config.exclude_filters.is_none());
    assert!(config.spawn_stagger_ms.is_none());
    assert!(config.max_parallel.is_none());
    assert!(config.env.is_none());
}

#[test]
fn test_exclude_filters() {
    let dirs = strings(&[".", "loop_cli", "meta_cli"]);
    let kept = filter_directories(&dirs, &None, &Some(strings(&["loop_cli"])));
    assert!(kept.contains(&".".to_string()));
    assert!(!kept.contains(&"loop_cli".to_string()));
    assert!(kept.contains(&"meta_cli".to_string()));
}

#[test]
fn test_include_filters() {
    let dirs = strings(&[".", "loop_cli", "meta_cli"]);
    let kept = filter_directories(&dirs, &Some(strings(&["meta_cli"])), &None);
    assert!(kept.contains(&"meta_cli".to_string()));
    assert!(!kept.contains(&"loop_cli".to_string()));
    assert!(!kept.contains(&".".to_string()));
}

#[test]
fn test_include_and_exclude() {
    let dirs = strings(&[".", "loop_cli", "meta_cli", "meta_git_cli"]);
    let kept = filter_directories(
        &dirs,
        &Some(strings(&["meta"])),
        &Some(strings(&["meta_git_cli"])),
    );
    assert!(kept.contains(&"meta_cli".to_string()));
    assert!(!kept.contains(&"meta_git_cli".to_string()));
    assert!(!kept.contains(&"loop_cli".to_string()));
    assert!(!kept.contains(&".".to_string()));
}

#[test]
fn filters_keep_order_and_treat_empty_lists_as_absent() {
    let dirs = strings(&["b", "a", "c/a", "a"]);
    assert_eq!(filter_directories(&dirs, &Some(vec![]), &Some(vec![])), dirs);
    assert_eq!(filter_directories(&dirs, &None, &None), dirs);
    assert_eq!(
        filter_directories(&dirs, &Some(strings(&["a"])), &None),
        strings(&["a", "c/a", "a"])
    );
    assert_eq!(
        filter_directories(&dirs, &Some(strings(&["a"])), &Some(strings(&["c///"]))),
        strings(&["a", "a"])
    );
}

#[test]
fn include_looks_anywhere_and_exclude_at_the_start() {
    assert!(is_selected("x/meta_cli", &Some(strings(&["meta"])), &None));
    assert!(is_selected("x/meta_cli", &None, &Some(strings(&["meta"]))));
    assert!(!is_selected("meta_cli", &None, &Some(strings(&["meta/"]))));
    assert!(starts_with_any("meta_cli", &strings(&["nope", "meta_cli"])));
    assert!(!starts_with_any("meta", &strings(&["meta_cli"])));
    assert!(starts_with_any("anything", &strings(&["/"])));
}

#[test]
fn test_expand_directories() {
    let root = "/tmp/root".to_string();
    let dir1 = "/tmp/root/dir1".to_string();
    let dir2 = "/tmp/root/dir2".to_string();
    let listings = vec![DirectoryListing {
        path: root.clone(),
        is_dir: true,
        entries: vec![
            DirectoryEntry { path: dir1.clone(), is_dir: true },
            DirectoryEntry { path: dir2.clone(), is_dir: true },
        ],
    }];
    let ignore = vec![".git".to_string()];

    let expanded = expand_directories(&listings, &ignore);

    assert_eq!(expanded.len(), 3); // Including the root directory itself
    assert!(expanded.contains(&root));
    assert!(expanded.contains(&dir1));
    assert!(expanded.contains(&dir2));
    assert!(!expanded.contains(&"/tmp/root/dir1/subdir".to_string()));
}

#[test]
fn expansion_skips_files_and_ignored_paths() {
    let listings = vec![
        DirectoryListing {
            path: "a".to_string(),
            is_dir: true,
            entries: vec![
                DirectoryEntry { path: "a/.git".to_string(), is_dir: true },
                DirectoryEntry { path: "a/file".to_string(), is_dir: false },
                DirectoryEntry { path: "a/sub".to_string(), is_dir: true },
            ],
        },
        DirectoryListing { path: "missing".to_string(), is_dir: false, entries: vec![] },
        DirectoryListing {
            path: "x/.git/y".to_string(),
            is_dir: true,
            entries: vec![DirectoryEntry { path: "x/.git/y/z".to_string(), is_dir: true }],
        },
        DirectoryListing { path: "b".to_string(), is_dir: true, entries: vec![] },
    ];
    let expanded = expand_directories(&listings, &strings(&[".git"]));
    assert_eq!(expanded, strings(&["a", "a/sub", "b"]));
}

#[test]
fn worker_pool_has_at_least_one_worker() {
    let config = LoopConfig::default();
    assert_eq!(worker_count(&config, 8), 8);
    assert_eq!(worker_count(&config, 0), 1);
    let capped = LoopConfig { max_parallel: Some(3), ..Default::default() };
    assert_eq!(worker_count(&capped, 8), 3);
    let zero = LoopConfig { max_parallel: Some(0), ..Default::default() };
    assert_eq!(worker_count(&zero, 8), 1);
}

#[test]
fn stagger_delays_every_worker_but_the_first() {
    let config = LoopConfig { spawn_stagger_ms: Some(250), ..Default::default() };
    assert_eq!(spawn_delay(&config, 0), 0);
    assert_eq!(spawn_delay(&config, 1), 250);
    assert_eq!(spawn_delay(&config, 7), 250);
    assert_eq!(spawn_delay(&LoopConfig::default(), 3), 0);
}
