//! The configuration of a run and the selection of its directories.

use vstd::prelude::*;
use crate::text::{chars_of, contains_chars, contains_seq, matches_at, occurs_at, skip_back,
    skip_back_while, slice_chars, texts, CharClass};

verus! {

/// The configuration of a run. Nothing changes it while the run lasts.
#[derive(Debug, Clone)]
pub struct LoopConfig {
    /// The directories to run in.
    pub directories: Vec<String>,
    /// Texts that rule out every path in which one of them stands.
    pub ignore: Vec<String>,
    /// Name the directory before each streaming run.
    pub verbose: bool,
    /// Print nothing per item and no summary.
    pub silent: bool,
    /// Run the items concurrently.
    pub parallel: bool,
    /// Simulate the run without executing anything.
    pub dry_run: bool,
    /// Emit the structured document instead of text.
    pub json_output: bool,
    /// Run the alias wizard instead of a command.
    pub add_aliases_to_global_looprc: bool,
    /// Keep only the directories in which one of these texts stands.
    pub include_filters: Option<Vec<String>>,
    /// Drop the directories that start with one of these texts.
    pub exclude_filters: Option<Vec<String>>,
    /// The delay between two concurrent spawns, in milliseconds.
    pub spawn_stagger_ms: Option<u64>,
    /// The cap on concurrent workers.
    pub max_parallel: Option<usize>,
    /// Variables laid over the environment of every child process.
    pub env: Option<Vec<(String, String)>>,
}

impl Default for LoopConfig {
    /// No directories, `.git` ignored, every flag off and every option unset.
    fn default() -> (c: LoopConfig)
        ensures
            c.directories@.len() == 0,
            texts(c.ignore@) == seq![".git"@],
            !c.verbose,
            !c.silent,
            !c.parallel,
            !c.dry_run,
            !c.json_output,
            !c.add_aliases_to_global_looprc,
            c.include_filters is None,
            c.exclude_filters is None,
            c.spawn_stagger_ms is None,
            c.max_parallel is None,
            c.env is None,
    {
        let mut ignore: Vec<String> = Vec::new();
        ignore.push(".git".to_owned());
        assert(texts(ignore@) =~= seq![".git"@]);
        LoopConfig {
            directories: Vec::new(),
            ignore,
            verbose: false,
            silent: false,
            parallel: false,
            dry_run: false,
            json_output: false,
            add_aliases_to_global_looprc: false,
            include_filters: None,
            exclude_filters: None,
            spawn_stagger_ms: None,
            max_parallel: None,
            env: None,
        }
    }
}

/// Whether one of `needles` stands somewhere in `path`.
pub open spec fn any_within(path: Seq<char>, needles: Seq<Seq<char>>) -> bool {
    exists|i: int| 0 <= i < needles.len() && contains_seq(path, #[trigger] needles[i])
}

/// `filter` without the slashes at its end.
pub open spec fn without_trailing_slashes(filter: Seq<char>) -> Seq<char> {
    filter.subrange(0, skip_back(filter, filter.len() as int, CharClass::Only('/')))
}

/// Whether `path` starts with one of `filters`, each taken without the
/// slashes at its end.
pub open spec fn any_prefix(path: Seq<char>, filters: Seq<Seq<char>>) -> bool {
    exists|i: int|
        0 <= i < filters.len() && occurs_at(
            path,
            without_trailing_slashes(#[trigger] filters[i]),
            0,
        )
}

/// Whether a directory takes part in the run. With include filters, one of
/// them must stand somewhere in the path; with exclude filters, the path
/// must start with none of them. An absent or empty list filters nothing.
pub open spec fn selected(
    path: Seq<char>,
    includes: Option<Seq<Seq<char>>>,
    excludes: Option<Seq<Seq<char>>>,
) -> bool {
    &&& match includes {
        Some(list) => list.len() == 0 || any_within(path, list),
        None => true,
    }
    &&& match excludes {
        Some(list) => !any_prefix(path, list),
        None => true,
    }
}

/// The directories of `dirs` that take part in the run, in their order.
pub open spec fn selection(
    dirs: Seq<Seq<char>>,
    includes: Option<Seq<Seq<char>>>,
    excludes: Option<Seq<Seq<char>>>,
) -> Seq<Seq<char>>
    decreases dirs.len(),
{
    if dirs.len() == 0 {
        Seq::empty()
    } else {
        let init = selection(dirs.drop_last(), includes, excludes);
        if selected(dirs.last(), includes, excludes) {
            init.push(dirs.last())
        } else {
            init
        }
    }
}

/// The texts of an optional list of strings.
pub open spec fn option_texts(list: Option<Vec<String>>) -> Option<Seq<Seq<char>>> {
    match list {
        Some(v) => Some(texts(v@)),
        None => None,
    }
}

/// Whether a path is ruled out: one of `ignore` stands somewhere in it.
pub fn should_ignore(path: &str, ignore: &[String]) -> (r: bool)
    ensures
        r == any_within(path@, texts(ignore@)),
{
    contains_any(path, ignore)
}

/// Whether one of `ignore` stands somewhere in `path`.
pub fn contains_any(path: &str, ignore: &[String]) -> (r: bool)
    ensures
        r == any_within(path@, texts(ignore@)),
{
    let hay = chars_of(path);
    let mut i: usize = 0;
    while i < ignore.len()
        invariant
            i <= ignore.len(),
            hay@ == path@,
            forall|j: int| 0 <= j < i ==> !contains_seq(path@, #[trigger] texts(ignore@)[j]),
        decreases ignore.len() - i,
    {
        let needle = chars_of(ignore[i].as_str());
        if contains_chars(&hay, &needle) {
            assert(contains_seq(path@, texts(ignore@)[i as int]));
            return true;
        }
        i += 1;
    }
    false
}

/// Whether `path` starts with one of `filters`, each taken without the
/// slashes at its end.
pub fn starts_with_any(path: &str, filters: &[String]) -> (r: bool)
    ensures
        r == any_prefix(path@, texts(filters@)),
{
    let hay = chars_of(path);
    let mut i: usize = 0;
    while i < filters.len()
        invariant
            i <= filters.len(),
            hay@ == path@,
            forall|j: int|
                0 <= j < i ==> !occurs_at(
                    path@,
                    without_trailing_slashes(#[trigger] texts(filters@)[j]),
                    0,
                ),
        decreases filters.len() - i,
    {
        let filter = chars_of(filters[i].as_str());
        let end = skip_back_while(&filter, filter.len(), CharClass::Only('/'));
        let stem = slice_chars(&filter, 0, end);
        if matches_at(&hay, &stem, 0) {
            assert(occurs_at(path@, without_trailing_slashes(texts(filters@)[i as int]), 0));
            return true;
        }
        i += 1;
    }
    false
}

/// Whether a directory takes part in the run.
pub fn is_selected(
    path: &str,
    includes: &Option<Vec<String>>,
    excludes: &Option<Vec<String>>,
) -> (r: bool)
    ensures
        r == selected(path@, option_texts(*includes), option_texts(*excludes)),
{
    let kept = match includes {
        Some(list) => list.len() == 0 || contains_any(path, list.as_slice()),
        None => true,
    };
    let dropped = match excludes {
        Some(list) => starts_with_any(path, list.as_slice()),
        None => false,
    };
    kept && !dropped
}

/// The directories of `dirs` that take part in the run, in their order.
pub fn filter_directories(
    dirs: &Vec<String>,
    includes: &Option<Vec<String>>,
    excludes: &Option<Vec<String>>,
) -> (out: Vec<String>)
    ensures
        texts(out@) == selection(texts(dirs@), option_texts(*includes), option_texts(*excludes)),
{
    let mut out: Vec<String> = Vec::new();
    let mut i: usize = 0;
    assert(texts(dirs@).take(0) =~= Seq::empty());
    while i < dirs.len()
        invariant
            i <= dirs.len(),
            texts(out@) =~= selection(
                texts(dirs@).take(i as int),
                option_texts(*includes),
                option_texts(*excludes),
            ),
        decreases dirs.len() - i,
    {
        proof {
            let next = texts(dirs@).take(i + 1);
            assert(next.drop_last() =~= texts(dirs@).take(i as int));
            assert(next.last() == dirs@[i as int]@);
        }
        if is_selected(dirs[i].as_str(), includes, excludes) {
            let ghost before = texts(out@);
            out.push(dirs[i].clone());
            assert(texts(out@) =~= before.push(dirs@[i as int]@));
        }
        i += 1;
    }
    assert(texts(dirs@).take(dirs@.len() as int) =~= texts(dirs@));
    out
}

/// The size of the worker pool: the configured cap where there is one, else
/// the parallelism that the machine offers, and one worker at the least.
pub open spec fn pool_size(cap: Option<usize>, available: usize) -> usize {
    let wanted = match cap {
        Some(n) => n,
        None => available,
    };
    if wanted == 0 {
        1
    } else {
        wanted
    }
}

/// The size of the worker pool of a concurrent run.
pub fn worker_count(config: &LoopConfig, available: usize) -> (n: usize)
    ensures
        n == pool_size(config.max_parallel, available),
        n >= 1,
{
    let wanted = match config.max_parallel {
        Some(n) => n,
        None => available,
    };
    if wanted == 0 {
        1
    } else {
        wanted
    }
}

/// The delay before a worker is spawned, in milliseconds: none before the
/// first worker, the configured stagger before each other one.
pub open spec fn stagger(configured: Option<u64>, worker: nat) -> u64 {
    if worker == 0 {
        0
    } else {
        match configured {
            Some(ms) => ms,
            None => 0,
        }
    }
}

/// The delay before the worker at position `worker` is spawned.
pub fn spawn_delay(config: &LoopConfig, worker: usize) -> (ms: u64)
    ensures
        ms == stagger(config.spawn_stagger_ms, worker as nat),
{
    if worker == 0 {
        0
    } else {
        match config.spawn_stagger_ms {
            Some(ms) => ms,
            None => 0,
        }
    }
}

} // verus!
