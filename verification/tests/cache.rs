use fe::{
    cache_cleared_report, cache_file_name, cache_meta, cache_stats_report, entry_is_leftover,
    exit_code_text,
    fnv1a64_hex, index_fingerprint_text, is_executable_mode, replay_cached, should_store,
    stat_fingerprint_text, tally_entry, temp_file_name, CacheFile, CacheLookup, CacheTally,
    IndexObservation, MetaInputs,
};

fn strings(values: &[&str]) -> Vec<String> {
    values.iter().map(|value| value.to_string()).collect()
}

fn inputs(fingerprint: &str) -> MetaInputs {
    MetaInputs {
        qmd_bin: "/bin/qmd".to_string(),
        qmd_stat: "exists:size=10:mtime_ns=20".to_string(),
        index_name: "index".to_string(),
        index_file: "/home/u/.cache/qmd/index.sqlite".to_string(),
        index_fingerprint: fingerprint.to_string(),
        qmd_force_cpu: "1".to_string(),
        editor_uri: String::new(),
    }
}

#[test]
fn cache_meta_records_every_input_and_the_command_line() {
    let meta = cache_meta(&strings(&["search", "alpha"]), &inputs("missing"));
    assert_eq!(
        meta,
        "v=3\nqmd_bin=/bin/qmd\nqmd_stat=exists:size=10:mtime_ns=20\nindex_name=index\n\
         index_file=/home/u/.cache/qmd/index.sqlite\nindex_fingerprint=missing\n\
         QMD_FORCE_CPU=1\nQMD_EDITOR_URI=\nargv=search\0alpha\0"
    );
}

#[test]
fn different_requests_have_different_meta() {
    let alpha = cache_meta(&strings(&["search", "alpha"]), &inputs("missing"));
    let beta = cache_meta(&strings(&["search", "beta"]), &inputs("missing"));
    let joined = cache_meta(&strings(&["search alpha"]), &inputs("missing"));
    let other_index = cache_meta(&strings(&["search", "alpha"]), &inputs("sqlite:0123456789abcdef"));
    assert_ne!(alpha, beta);
    assert_ne!(alpha, joined);
    assert_ne!(alpha, other_index);
    assert_ne!(fnv1a64_hex(alpha.as_bytes()), fnv1a64_hex(beta.as_bytes()));
}

#[test]
fn entry_file_names() {
    assert_eq!(cache_file_name("deadbeef", CacheFile::Stdout), "deadbeef.out");
    assert_eq!(cache_file_name("deadbeef", CacheFile::Stderr), "deadbeef.err");
    assert_eq!(cache_file_name("deadbeef", CacheFile::ExitCode), "deadbeef.code");
    assert_eq!(cache_file_name("deadbeef", CacheFile::Metadata), "deadbeef.meta");
    assert_eq!(
        temp_file_name("deadbeef", 123, 456, CacheFile::Stdout),
        "deadbeef.123.456.out.tmp"
    );
    assert_eq!(
        temp_file_name("k", 0, u128::MAX, CacheFile::Metadata),
        format!("k.0.{}.meta.tmp", u128::MAX)
    );
}

fn lookup(present: bool, stored: &str) -> CacheLookup {
    CacheLookup {
        out_exists: present,
        err_exists: present,
        code_exists: present,
        meta_exists: present,
        stored_meta: stored.to_string(),
    }
}

#[test]
fn replay_needs_all_files_and_matching_meta() {
    let meta = "v=3\nargv=search\0alpha\0".to_string();
    assert!(replay_cached(false, &lookup(true, &meta), &meta));
    assert!(!replay_cached(true, &lookup(true, &meta), &meta));
    assert!(!replay_cached(false, &lookup(false, &meta), &meta));
    assert!(!replay_cached(false, &lookup(true, ""), &meta));
    let mut missing_err = lookup(true, &meta);
    missing_err.err_exists = false;
    assert!(!replay_cached(false, &missing_err, &meta));
}

#[test]
fn only_successful_runs_are_stored() {
    assert!(should_store(0));
    assert!(!should_store(3));
    assert!(!should_store(-1));
}

#[test]
fn exit_codes_render_in_decimal() {
    assert_eq!(exit_code_text(0), "0");
    assert_eq!(exit_code_text(3), "3");
    assert_eq!(exit_code_text(-17), "-17");
    assert_eq!(exit_code_text(i32::MIN), i32::MIN.to_string());
    assert_eq!(exit_code_text(i32::MAX), i32::MAX.to_string());
}

#[test]
fn stat_fingerprints() {
    assert_eq!(stat_fingerprint_text(None), "missing");
    assert_eq!(
        stat_fingerprint_text(Some((1024, 1_700_000_000_123_456_789))),
        "exists:size=1024:mtime_ns=1700000000123456789"
    );
    assert_eq!(stat_fingerprint_text(Some((0, 0))), "exists:size=0:mtime_ns=0");
}

#[test]
fn index_fingerprints() {
    assert_eq!(index_fingerprint_text(&IndexObservation::Missing), "missing");
    assert_eq!(
        index_fingerprint_text(&IndexObservation::Unsummarised {
            stat: "exists:size=1:mtime_ns=2".to_string()
        }),
        "stat:exists:size=1:mtime_ns=2"
    );
    let rows = b"3\n1|2026-01-01T00:00:00Z\n0|\n0\n".to_vec();
    let mut hashed = b"size=8192\n".to_vec();
    hashed.extend_from_slice(&rows);
    assert_eq!(
        index_fingerprint_text(&IndexObservation::Summary { size: 8192, rows: rows.clone() }),
        format!("sqlite:{}", fnv1a64_hex(&hashed))
    );
    let changed = b"3\n1|2026-02-02T00:00:00Z\n0|\n0\n".to_vec();
    assert_ne!(
        index_fingerprint_text(&IndexObservation::Summary { size: 8192, rows }),
        index_fingerprint_text(&IndexObservation::Summary { size: 8192, rows: changed })
    );
}

#[test]
fn executable_needs_a_file_with_an_execute_bit() {
    assert!(is_executable_mode(true, 0o755));
    assert!(is_executable_mode(true, 0o001));
    assert!(!is_executable_mode(true, 0o644));
    assert!(!is_executable_mode(false, 0o755));
}

#[test]
fn tally_counts_entries_and_sweeps_leftovers() {
    let mut tally = CacheTally { entries: 0, bytes: 0 };
    assert!(entry_is_leftover(Some("tmp")));
    assert!(!entry_is_leftover(Some("out")));
    assert!(!entry_is_leftover(Some("tmpx")));
    assert!(!entry_is_leftover(None));
    tally_entry(&mut tally, Some("out"), 21);
    tally_entry(&mut tally, Some("err"), 19);
    tally_entry(&mut tally, Some("code"), 1);
    tally_entry(&mut tally, Some("meta"), 100);
    tally_entry(&mut tally, None, 4);
    assert_eq!(tally.entries, 1);
    assert_eq!(tally.bytes, 145);
    let report = cache_stats_report("/c", tally.entries, tally.bytes);
    assert!(report.contains("\"entries\": 1"));
}

#[test]
fn reports_are_json() {
    assert_eq!(
        cache_stats_report("/home/u/.cache/qmd/fe-cache-v2", 2, 300),
        "{\n  \"cache\": \"/home/u/.cache/qmd/fe-cache-v2\",\n  \"entries\": 2,\n  \"bytes\": 300\n}"
    );
    assert_eq!(
        cache_cleared_report("C:\\cache\"x"),
        "{\n  \"cache\": \"C:\\\\cache\\\"x\",\n  \"deleted\": true\n}"
    );
}
