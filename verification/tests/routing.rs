use fe::{parse_flags, qmd_args_for, qmd_index_name};

fn strings(values: &[&str]) -> Vec<String> {
    values.iter().map(|value| value.to_string()).collect()
}

#[test]
fn bare_query_uses_fast_query_defaults() {
    assert_eq!(
        qmd_args_for(&strings(&["vector search", "--index", "memory"])),
        strings(&["query", "--no-rerank", "vector search", "--index", "memory"])
    );
}

#[test]
fn fast_query_maps_to_qmd_query_no_rerank() {
    assert_eq!(
        qmd_args_for(&strings(&["fast-query", "agent memory"])),
        strings(&["query", "--no-rerank", "agent memory"])
    );
}

#[test]
fn bm25_maps_to_search() {
    assert_eq!(
        qmd_args_for(&strings(&["bm25", "privacy"])),
        strings(&["search", "privacy"])
    );
}

#[test]
fn explicit_modes_pass_through() {
    assert_eq!(
        qmd_args_for(&strings(&["search", "privacy", "-c", "docs"])),
        strings(&["search", "privacy", "-c", "docs"])
    );
    assert_eq!(
        qmd_args_for(&strings(&["query", "privacy"])),
        strings(&["query", "privacy"])
    );
    assert_eq!(
        qmd_args_for(&strings(&["vsearch", "privacy"])),
        strings(&["vsearch", "privacy"])
    );
}

#[test]
fn parse_wrapper_flags_only_consumes_leading_flags() {
    let mut args = strings(&[
        "--refresh",
        "--no-cache",
        "search",
        "privacy",
        "--index",
        "memory",
    ]);
    let flags = parse_flags(&mut args);

    assert!(flags.refresh);
    assert!(flags.no_cache);
    assert_eq!(args, strings(&["search", "privacy", "--index", "memory"]));
}

#[test]
fn parse_wrapper_flags_leaves_trailing_flags_for_qmd() {
    let mut args = strings(&["qmd", "query", "--help"]);
    let flags = parse_flags(&mut args);

    assert!(!flags.help);
    assert_eq!(args, strings(&["qmd", "query", "--help"]));
}

#[test]
fn parse_wrapper_flags_leaves_help_as_query_text() {
    let mut args = strings(&["search", "help"]);
    let flags = parse_flags(&mut args);

    assert!(!flags.help);
    assert_eq!(args, strings(&["search", "help"]));
}

#[test]
fn index_name_prefers_explicit_flag_forms() {
    assert_eq!(
        qmd_index_name(&strings(&["search", "privacy", "--index", "memory"]), None),
        "memory"
    );
    assert_eq!(
        qmd_index_name(&strings(&["search", "privacy", "--index=research"]), None),
        "research"
    );
}

#[test]
fn index_name_falls_back_to_setting_then_default() {
    assert_eq!(
        qmd_index_name(&strings(&["search", "privacy"]), Some("notes".to_string())),
        "notes"
    );
    assert_eq!(qmd_index_name(&strings(&["search", "privacy"]), None), "index");
    // A trailing `--index` with no value names nothing.
    assert_eq!(qmd_index_name(&strings(&["search", "--index"]), None), "index");
    // The first naming form wins.
    assert_eq!(
        qmd_index_name(&strings(&["--index=a", "--index", "b"]), Some("c".to_string())),
        "a"
    );
    assert_eq!(qmd_index_name(&strings(&["--index="]), None), "");
}

#[test]
fn parse_flags_reads_every_leading_flag() {
    let mut args = strings(&["--cache-stats", "--clear-cache", "-h", "search", "--refresh"]);
    let flags = parse_flags(&mut args);
    assert!(flags.cache_stats);
    assert!(flags.clear_cache);
    assert!(flags.help);
    assert!(!flags.refresh);
    assert!(!flags.no_cache);
    assert_eq!(args, strings(&["search", "--refresh"]));

    let mut only_flags = strings(&["--help", "help"]);
    let flags = parse_flags(&mut only_flags);
    assert!(flags.help);
    assert!(only_flags.is_empty());
}

#[test]
fn routing_is_idempotent_on_examples() {
    for words in [
        strings(&["bm25", "privacy"]),
        strings(&["fast-query", "agent memory"]),
        strings(&["some query", "-n", "5"]),
        strings(&["vsearch", "x"]),
    ] {
        let once = qmd_args_for(&words);
        assert!(["search", "vsearch", "query"].contains(&once[0].as_str()));
        assert_eq!(qmd_args_for(&once), once);
    }
}

#[test]
fn bm25_and_search_route_alike() {
    assert_eq!(
        qmd_args_for(&strings(&["bm25", "a", "-c", "docs"])),
        qmd_args_for(&strings(&["search", "a", "-c", "docs"]))
    );
}

#[test]
fn bare_query_equals_fast_query() {
    assert_eq!(
        qmd_args_for(&strings(&["fast-query", "some query", "-n", "3"])),
        qmd_args_for(&strings(&["some query", "-n", "3"]))
    );
}
