# fe

`fe` caches read-only `qmd` retrieval commands. This crate holds its logic,
verified with Verus, and a thin command around it.

- `src/flags.rs`: the wrapper flags before the mode word (`parse_flags`).
- `src/route.rs`: how the remaining words become a qmd command line
  (`qmd_args_for`) and which index it names (`qmd_index_name`).
- `src/plan.rs`: what an invocation does (`plan_invocation`).
- `src/cache.rs`: the metadata that keys a cache entry, entry file names,
  replay and store decisions, binary and index fingerprints, and the tally of
  the cache directory.
- `src/hash.rs`: the FNV-1a 64-bit hash behind cache keys.
- `src/json.rs`: JSON string escaping and the reports of `--cache-stats` and
  `--clear-cache`.
- `src/text.rs`: digit rendering and string helpers.
- `app/main.rs`: the `fe` command: environment, file system, and the `qmd`
  and `sqlite3` processes.
- `tests/`: tests of the library.
