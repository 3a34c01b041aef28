//! Argument routing, cache keys, cache bookkeeping and JSON text for `fe`,
//! a caching front end for read-only `qmd` retrieval commands.
pub mod cache;
pub mod flags;
pub mod hash;
pub mod json;
pub mod plan;
pub mod route;
pub mod text;

pub use cache::{
    cache_file_name, cache_meta, entry_is_leftover, exit_code_text, index_fingerprint_text, is_executable_mode,
    replay_cached, should_store, stat_fingerprint_text, tally_entry, temp_file_name, CacheFile,
    CacheLookup, CacheTally, IndexObservation, MetaInputs,
};
pub use flags::{parse_flags, WrapperFlags};
pub use hash::fnv1a64_hex;
pub use json::{cache_cleared_report, cache_stats_report, json_escape};
pub use plan::{plan_invocation, Invocation};
pub use route::{qmd_args_for, qmd_index_name};
