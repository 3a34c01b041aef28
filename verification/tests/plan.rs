use fe::{plan_invocation, Invocation};

fn strings(values: &[&str]) -> Vec<String> {
    values.iter().map(|value| value.to_string()).collect()
}

#[test]
fn stats_and_clear_come_first() {
    assert!(matches!(
        plan_invocation(strings(&["--clear-cache", "--cache-stats", "search", "x"])),
        Invocation::CacheStats
    ));
    assert!(matches!(
        plan_invocation(strings(&["--help", "--clear-cache"])),
        Invocation::ClearCache
    ));
}

#[test]
fn help_or_nothing_prints_usage() {
    assert!(matches!(plan_invocation(Vec::new()), Invocation::Usage));
    assert!(matches!(plan_invocation(strings(&["help", "search", "x"])), Invocation::Usage));
    assert!(matches!(plan_invocation(strings(&["--refresh"])), Invocation::Usage));
}

#[test]
fn qmd_word_passes_through_untouched() {
    match plan_invocation(strings(&["qmd", "query", "--help"])) {
        Invocation::Passthrough(args) => assert_eq!(args, strings(&["query", "--help"])),
        _ => panic!("expected a passthrough"),
    }
}

#[test]
fn no_cache_runs_without_the_cache() {
    match plan_invocation(strings(&["--no-cache", "search", "alpha"])) {
        Invocation::Uncached(args) => assert_eq!(args, strings(&["search", "alpha"])),
        _ => panic!("expected an uncached run"),
    }
}

#[test]
fn cached_runs_carry_the_refresh_flag() {
    match plan_invocation(strings(&["--refresh", "search", "alpha"])) {
        Invocation::Cached { qmd_args, refresh } => {
            assert_eq!(qmd_args, strings(&["search", "alpha"]));
            assert!(refresh);
        }
        _ => panic!("expected a cached run"),
    }
    match plan_invocation(strings(&["some query"])) {
        Invocation::Cached { qmd_args, refresh } => {
            assert_eq!(qmd_args, strings(&["query", "--no-rerank", "some query"]));
            assert!(!refresh);
        }
        _ => panic!("expected a cached run"),
    }
    match plan_invocation(strings(&["search", "help"])) {
        Invocation::Cached { qmd_args, .. } => assert_eq!(qmd_args, strings(&["search", "help"])),
        _ => panic!("expected a cached run"),
    }
}
